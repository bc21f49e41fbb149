use vstd::prelude::*;
use crate::settings::Settings;

verus! {

/// The keys the simulator responds to; every other key is `Other`.
#[derive(Clone, Copy, Debug, PartialEq, Eq, Structural)]
pub enum Key {
    F11,
    Space,
    LShift,
    RShift,
    LControl,
    RControl,
    R,
    Equals,
    Minus,
    H,
    O,
    L,
    W,
    A,
    S,
    D,
    Down,
    Left,
    Right,
    F3,
    Other,
}

/// A window event, reduced to what the controller reads.
#[derive(Clone, Copy, Debug, PartialEq, Eq, Structural)]
pub enum WindowInput {
    /// The left mouse button was pressed or released.
    MouseLeft { pressed: bool },
    /// Another mouse button changed state.
    OtherMouseButton,
    /// The wheel turned by whole lines.
    WheelLines,
    /// The wheel turned by pixels.
    WheelPixels,
    /// The cursor moved to the given pixel position.
    CursorMoved { x: i32, y: i32 },
    /// A key was pressed or released.
    Key { key: Key, pressed: bool },
    /// The window is asked to close.
    CloseRequested,
    /// The window was resized.
    Resized { width: u32, height: u32 },
    /// The scale factor changed, giving the window a new inner size.
    ScaleFactorChanged { width: u32, height: u32 },
    /// Any other event.
    Other,
}

/// What the front end does for an input that the controller handled.
#[derive(Clone, Copy, Debug, PartialEq, Eq, Structural)]
pub enum Action {
    /// Nothing beyond the controller's own state.
    Handled,
    /// Run the click pass at the cursor; `ctrl` is 1 when control is held.
    Click { x: i32, y: i32, ctrl: i32 },
    /// Run the release pass at the cursor; `ctrl` is 1 when control is held.
    Release { x: i32, y: i32, ctrl: i32 },
    /// Scale the view and its offset by two to the power of the wheel lines.
    ZoomWheel,
    /// Move the view offset by the cursor movement.
    Pan { dx: i32, dy: i32 },
    /// Drag the selected particles by the cursor movement, then select the
    /// rectangle spanned from the click position to the cursor.
    DragSelect { dx: i32, dy: i32, cursor_y: i32, click_x: i32, click_y: i32, width: i32, height: i32 },
    /// Make the window borderless full screen.
    Fullscreen,
    /// Rebuild the simulation from its settings.
    Reset,
    /// Double the view scale and offset.
    ZoomIn,
    /// Halve the view scale and offset.
    ZoomOut,
    /// Move the view offset back to the origin.
    Recenter,
    /// Lower the displayed temperature by one, not below zero.
    Cool,
    /// Raise the generation budget by ten.
    SlowDown,
    /// Clear the console.
    ClearConsole,
}

/// What the event loop does with a window event.
#[derive(Clone, Copy, Debug, PartialEq, Eq, Structural)]
pub enum Response {
    /// The controller handled the event.
    Input(Action),
    /// Leave the event loop.
    Exit,
    /// Reconfigure the surface to the given size.
    Resize { width: u32, height: u32 },
    /// The window has no area; stop drawing.
    Minimized,
    /// Nothing to do.
    Ignored,
}

/// How presenting a frame failed.
#[derive(Clone, Copy, Debug, PartialEq, Eq, Structural)]
pub enum SurfaceFailure {
    Lost,
    OutOfMemory,
    Outdated,
    Timeout,
}

/// What to do when presenting a frame failed.
#[derive(Clone, Copy, Debug, PartialEq, Eq, Structural)]
pub enum FailureResponse {
    /// Reconfigure the surface at the current size.
    Reconfigure,
    /// Leave the event loop.
    Exit,
    /// Report the error and go on.
    Report,
}

/// The interactive state of the simulator: the pointer, the held keys and
/// modifiers, whether the simulation runs, and the generation counters.
#[derive(Clone, Copy, Debug)]
pub struct Client {
    pub settings: Settings,
    pub cursor_pos: (i32, i32),
    pub click_pos: (i32, i32),
    pub minimized: bool,
    pub log_framerate: bool,
    pub toggle: bool,
    pub highlight: bool,
    pub middle: bool,
    pub shift: bool,
    pub ctrl: bool,
    pub w_held: bool,
    pub a_held: bool,
    pub s_held: bool,
    pub d_held: bool,
    pub generation: i32,
    pub prev_gen: i32,
}

/// The largest number of steps per frame that the arrow keys reach.
pub const MAX_GEN_PER_FRAME: i32 = 214;

/// Whether `input` handles the event.
pub open spec fn recognized(ev: WindowInput) -> bool {
    match ev {
        WindowInput::MouseLeft { .. } => true,
        WindowInput::WheelLines => true,
        WindowInput::WheelPixels => true,
        WindowInput::CursorMoved { .. } => true,
        WindowInput::Key { key, pressed } => match key {
            Key::LShift | Key::RShift | Key::LControl | Key::RControl | Key::W | Key::A | Key::S
            | Key::D => true,
            Key::Other => false,
            _ => pressed,
        },
        _ => false,
    }
}

/// Whether `input` can take the event without an arithmetic overflow: a
/// cursor movement must be representable relative to the last cursor
/// position and, while dragging, relative to the click position.
pub open spec fn input_in_range(c: Client, ev: WindowInput) -> bool {
    match ev {
        WindowInput::CursorMoved { x, y } => {
            &&& i32::MIN <= x - c.cursor_pos.0 <= i32::MAX
            &&& i32::MIN <= y - c.cursor_pos.1 <= i32::MAX
            &&& (c.middle && !c.shift) ==> {
                &&& i32::MIN <= x - c.click_pos.0 <= i32::MAX
                &&& i32::MIN <= y - c.click_pos.1 <= i32::MAX
            }
        },
        _ => true,
    }
}

/// The client after a key event; keys that change nothing return `c`.
pub open spec fn after_key(c: Client, key: Key, pressed: bool) -> Client {
    match key {
        Key::Space => if pressed { Client { toggle: !c.toggle, ..c } } else { c },
        Key::LShift | Key::RShift => Client { shift: pressed, ..c },
        Key::LControl | Key::RControl => Client { ctrl: pressed, ..c },
        Key::R => if pressed { Client { toggle: false, generation: 0, ..c } } else { c },
        Key::O => if pressed {
            Client { settings: Settings { settings_menu: !c.settings.settings_menu, ..c.settings }, ..c }
        } else {
            c
        },
        Key::L => if pressed { Client { highlight: !c.highlight, ..c } } else { c },
        Key::W => Client { w_held: pressed, ..c },
        Key::A => Client { a_held: pressed, ..c },
        Key::S => Client { s_held: pressed, ..c },
        Key::D => Client { d_held: pressed, ..c },
        Key::Left => if pressed && c.settings.gen_per_frame > 1 {
            Client { settings: Settings { gen_per_frame: (c.settings.gen_per_frame - 1) as i32, ..c.settings }, ..c }
        } else {
            c
        },
        Key::Right => if pressed && c.settings.gen_per_frame < MAX_GEN_PER_FRAME {
            Client { settings: Settings { gen_per_frame: (c.settings.gen_per_frame + 1) as i32, ..c.settings }, ..c }
        } else {
            c
        },
        Key::F3 => if pressed { Client { log_framerate: !c.log_framerate, ..c } } else { c },
        _ => c,
    }
}

/// The action of a handled key event.
pub open spec fn key_action(c: Client, key: Key) -> Action {
    match key {
        Key::F11 => Action::Fullscreen,
        Key::R => Action::Reset,
        Key::Equals => Action::ZoomIn,
        Key::Minus => Action::ZoomOut,
        Key::H => Action::Recenter,
        Key::Down => Action::Cool,
        Key::Left => if c.settings.gen_per_frame > 1 { Action::Handled } else { Action::SlowDown },
        Key::F3 => Action::ClearConsole,
        _ => Action::Handled,
    }
}

/// The number of simulation steps of a frame: the steps per frame while the
/// simulation runs, none while it is paused.
pub open spec fn frame_steps(c: Client) -> u32 {
    if c.toggle && c.settings.gen_per_frame > 0 {
        c.settings.gen_per_frame as u32
    } else {
        0u32
    }
}

/// The control-key flag as the click and release passes read it.
pub open spec fn ctrl_flag(c: Client) -> i32 {
    if c.ctrl {
        1i32
    } else {
        0i32
    }
}

/// How the client takes a window event: the client afterwards, and the
/// action for the front end, or `None` when the event is not handled (the
/// client is then unchanged).
///
/// A left press marks the drag start at the cursor and clicks there; a left
/// release ends the drag and releases; with shift held neither runs a pass.
/// A cursor movement records the new position; while dragging with shift it
/// pans, while dragging without shift it drags the selection and selects
/// the rectangle from the click to the cursor.  The wheel zooms when it
/// turns by lines.  Keys act as `after_key` and `key_action` say.
pub open spec fn input_step(c: Client, ev: WindowInput) -> (Client, Option<Action>) {
    match ev {
        WindowInput::MouseLeft { pressed: true } => (
            Client { click_pos: c.cursor_pos, middle: true, ..c },
            Some(
                if c.shift {
                    Action::Handled
                } else {
                    Action::Click { x: c.cursor_pos.0, y: c.cursor_pos.1, ctrl: ctrl_flag(c) }
                },
            ),
        ),
        WindowInput::MouseLeft { pressed: false } => (
            Client { middle: false, ..c },
            Some(
                if c.shift {
                    Action::Handled
                } else {
                    Action::Release { x: c.cursor_pos.0, y: c.cursor_pos.1, ctrl: ctrl_flag(c) }
                },
            ),
        ),
        WindowInput::WheelLines => (c, Some(Action::ZoomWheel)),
        WindowInput::WheelPixels => (c, Some(Action::Handled)),
        WindowInput::CursorMoved { x, y } => {
            let dx = (x - c.cursor_pos.0) as i32;
            let dy = (y - c.cursor_pos.1) as i32;
            (
                Client { cursor_pos: (x, y), ..c },
                Some(
                    if c.middle && c.shift {
                        Action::Pan { dx, dy }
                    } else if c.middle {
                        Action::DragSelect {
                            dx,
                            dy,
                            cursor_y: y,
                            click_x: c.click_pos.0,
                            click_y: c.click_pos.1,
                            width: (x - c.click_pos.0) as i32,
                            height: (y - c.click_pos.1) as i32,
                        }
                    } else {
                        Action::Handled
                    },
                ),
            )
        },
        WindowInput::Key { key, pressed } => if recognized(ev) {
            (after_key(c, key, pressed), Some(key_action(c, key)))
        } else {
            (c, None)
        },
        _ => (c, None),
    }
}

/// The frame loop's answer to an event that the controller did not handle.
pub open spec fn unhandled_step(c: Client, ev: WindowInput) -> (Client, Response) {
    match ev {
        WindowInput::CloseRequested => (c, Response::Exit),
        WindowInput::Resized { width, height } | WindowInput::ScaleFactorChanged { width, height } => {
            let on = width > 0 && height > 0;
            (
                Client { minimized: !on, ..c },
                if on {
                    Response::Resize { width, height }
                } else {
                    Response::Minimized
                },
            )
        },
        _ => (c, Response::Ignored),
    }
}

impl Client {
    /// A client at rest with the given settings: paused, cursor at the
    /// origin, nothing held, generation zero.
    pub fn new(settings: Settings) -> (c: Client)
        ensures
            c.settings == settings,
            c.cursor_pos == (0i32, 0i32),
            c.click_pos == (0i32, 0i32),
            !c.minimized,
            !c.log_framerate,
            !c.toggle,
            !c.highlight,
            !c.middle,
            !c.shift,
            !c.ctrl,
            !c.w_held && !c.a_held && !c.s_held && !c.d_held,
            c.generation == 0,
            c.prev_gen == 0,
    {
        Client {
            settings,
            cursor_pos: (0, 0),
            click_pos: (0, 0),
            minimized: false,
            log_framerate: false,
            toggle: false,
            highlight: false,
            middle: false,
            shift: false,
            ctrl: false,
            w_held: false,
            a_held: false,
            s_held: false,
            d_held: false,
            generation: 0,
            prev_gen: 0,
        }
    }

    /// Handles a window event.  Returns `None` for an event it does not
    /// handle, which then leaves the client unchanged; otherwise the action
    /// for the front end.
    pub fn input(&mut self, ev: WindowInput) -> (r: Option<Action>)
        requires
            input_in_range(*old(self), ev),
        ensures
            (*final(self), r) == input_step(*old(self), ev),
            r is Some <==> recognized(ev),
    {
        match ev {
            WindowInput::MouseLeft { pressed } => Some(self.mouse_left(pressed)),
            WindowInput::WheelLines => Some(Action::ZoomWheel),
            WindowInput::WheelPixels => Some(Action::Handled),
            WindowInput::CursorMoved { x, y } => Some(self.cursor_moved(x, y)),
            WindowInput::Key { key, pressed } => self.key(key, pressed),
            _ => None,
        }
    }

    fn mouse_left(&mut self, pressed: bool) -> (a: Action)
        ensures
            (*final(self), Some(a)) == input_step(*old(self), WindowInput::MouseLeft { pressed }),
    {
        let ctrl: i32 = if self.ctrl { 1 } else { 0 };
        if pressed {
            self.click_pos = self.cursor_pos;
            self.middle = true;
            if !self.shift {
                Action::Click { x: self.cursor_pos.0, y: self.cursor_pos.1, ctrl }
            } else {
                Action::Handled
            }
        } else {
            self.middle = false;
            if !self.shift {
                Action::Release { x: self.cursor_pos.0, y: self.cursor_pos.1, ctrl }
            } else {
                Action::Handled
            }
        }
    }

    fn cursor_moved(&mut self, x: i32, y: i32) -> (a: Action)
        requires
            input_in_range(*old(self), WindowInput::CursorMoved { x, y }),
        ensures
            (*final(self), Some(a)) == input_step(*old(self), WindowInput::CursorMoved { x, y }),
    {
        let dx = x - self.cursor_pos.0;
        let dy = y - self.cursor_pos.1;
        self.cursor_pos = (x, y);
        if self.middle && self.shift {
            Action::Pan { dx, dy }
        } else if self.middle {
            Action::DragSelect {
                dx,
                dy,
                cursor_y: y,
                click_x: self.click_pos.0,
                click_y: self.click_pos.1,
                width: x - self.click_pos.0,
                height: y - self.click_pos.1,
            }
        } else {
            Action::Handled
        }
    }

    fn key(&mut self, key: Key, pressed: bool) -> (r: Option<Action>)
        ensures
            r is Some <==> recognized(WindowInput::Key { key, pressed }),
            r is Some ==> *final(self) == after_key(*old(self), key, pressed) && r == Some(
                key_action(*old(self), key),
            ),
            r is None ==> *final(self) == *old(self),
    {
        match key {
            Key::LShift | Key::RShift | Key::LControl | Key::RControl | Key::W | Key::A | Key::S
            | Key::D => {
                self.held_key(key, pressed);
                Some(Action::Handled)
            },
            _ => {
                if pressed {
                    self.pressed_key(key)
                } else {
                    None
                }
            },
        }
    }

    fn held_key(&mut self, key: Key, pressed: bool)
        requires
            key == Key::LShift || key == Key::RShift || key == Key::LControl || key == Key::RControl
                || key == Key::W || key == Key::A || key == Key::S || key == Key::D,
        ensures
            *final(self) == after_key(*old(self), key, pressed),
    {
        match key {
            Key::LShift | Key::RShift => self.shift = pressed,
            Key::LControl | Key::RControl => self.ctrl = pressed,
            Key::W => self.w_held = pressed,
            Key::A => self.a_held = pressed,
            Key::S => self.s_held = pressed,
            _ => self.d_held = pressed,
        }
    }

    fn pressed_key(&mut self, key: Key) -> (r: Option<Action>)
        requires
            !(key == Key::LShift || key == Key::RShift || key == Key::LControl || key
                == Key::RControl || key == Key::W || key == Key::A || key == Key::S || key == Key::D),
        ensures
            r is Some <==> key != Key::Other,
            r is Some ==> *final(self) == after_key(*old(self), key, true) && r == Some(
                key_action(*old(self), key),
            ),
            r is None ==> *final(self) == *old(self),
    {
        match key {
            Key::Space | Key::O | Key::L | Key::F3 => Some(self.flip(key)),
            Key::Left | Key::Right => Some(self.step_rate(key)),
            Key::R => {
                self.reset();
                Some(Action::Reset)
            },
            Key::F11 => Some(Action::Fullscreen),
            Key::Equals => Some(Action::ZoomIn),
            Key::Minus => Some(Action::ZoomOut),
            Key::H => Some(Action::Recenter),
            Key::Down => Some(Action::Cool),
            _ => None,
        }
    }

    fn flip(&mut self, key: Key) -> (a: Action)
        requires
            key == Key::Space || key == Key::O || key == Key::L || key == Key::F3,
        ensures
            *final(self) == after_key(*old(self), key, true),
            a == key_action(*old(self), key),
    {
        match key {
            Key::Space => {
                self.toggle = !self.toggle;
                Action::Handled
            },
            Key::O => {
                self.settings.settings_menu = !self.settings.settings_menu;
                Action::Handled
            },
            Key::L => {
                self.highlight = !self.highlight;
                Action::Handled
            },
            _ => {
                self.log_framerate = !self.log_framerate;
                Action::ClearConsole
            },
        }
    }

    fn step_rate(&mut self, key: Key) -> (a: Action)
        requires
            key == Key::Left || key == Key::Right,
        ensures
            *final(self) == after_key(*old(self), key, true),
            a == key_action(*old(self), key),
    {
        if key == Key::Left {
            if self.settings.gen_per_frame > 1 {
                self.settings.gen_per_frame = self.settings.gen_per_frame - 1;
                Action::Handled
            } else {
                Action::SlowDown
            }
        } else {
            if self.settings.gen_per_frame < MAX_GEN_PER_FRAME {
                self.settings.gen_per_frame = self.settings.gen_per_frame + 1;
            }
            Action::Handled
        }
    }

    /// Stops the simulation and restarts the generation count.
    pub fn reset(&mut self)
        ensures
            *final(self) == (Client { toggle: false, generation: 0, ..*old(self) }),
    {
        self.toggle = false;
        self.generation = 0;
    }

    /// Takes a new window size: returns whether the surface is to be
    /// reconfigured, which it is exactly when both sides are non-zero;
    /// otherwise the client is minimized.
    pub fn resize(&mut self, width: u32, height: u32) -> (reconfigure: bool)
        ensures
            reconfigure == (width > 0 && height > 0),
            *final(self) == (Client { minimized: !reconfigure, ..*old(self) }),
    {
        if width > 0 && height > 0 {
            self.minimized = false;
            true
        } else {
            self.minimized = true;
            false
        }
    }

    /// Routes a window event of the simulator's window: the controller
    /// takes it first; an event it does not handle closes the loop on a
    /// close request and resizes on a size change.
    pub fn handle_window_event(&mut self, ev: WindowInput) -> (r: Response)
        requires
            input_in_range(*old(self), ev),
        ensures
            (match input_step(*old(self), ev) {
                (next, Some(a)) => *final(self) == next && r == Response::Input(a),
                (_, None) => (*final(self), r) == unhandled_step(*old(self), ev),
            }),
    {
        match self.input(ev) {
            Some(a) => Response::Input(a),
            None => match ev {
                WindowInput::CloseRequested => Response::Exit,
                WindowInput::Resized { width, height }
                | WindowInput::ScaleFactorChanged { width, height } => {
                    if self.resize(width, height) {
                        Response::Resize { width, height }
                    } else {
                        Response::Minimized
                    }
                },
                _ => Response::Ignored,
            },
        }
    }

    /// Advances the generation count for one rendered frame: while the
    /// simulation runs, one generation per step of the frame.  Returns the
    /// number of simulation steps to dispatch.
    pub fn advance(&mut self) -> (steps: u32)
        requires
            old(self).toggle && old(self).settings.gen_per_frame > 0 ==> old(self).generation
                + old(self).settings.gen_per_frame <= i32::MAX,
        ensures
            steps == frame_steps(*old(self)),
            *final(self) == (Client { generation: (old(self).generation + steps) as i32, ..*old(self) }),
            old(self).toggle && old(self).settings.gen_per_frame >= 1 ==> {
                &&& steps as int == old(self).settings.gen_per_frame as int
                &&& final(self).generation == old(self).generation + old(self).settings.gen_per_frame
            },
            !old(self).toggle || old(self).settings.gen_per_frame <= 0 ==> {
                &&& steps == 0
                &&& final(self).generation == old(self).generation
            },
    {
        if self.toggle && self.settings.gen_per_frame > 0 {
            let n = self.settings.gen_per_frame;
            self.generation = self.generation + n;
            n as u32
        } else {
            0
        }
    }

    /// The generations made since the last call, for the frame-rate report.
    pub fn generations_since_report(&mut self) -> (d: i32)
        requires
            i32::MIN <= old(self).generation - old(self).prev_gen <= i32::MAX,
        ensures
            d == old(self).generation - old(self).prev_gen,
            *final(self) == (Client { prev_gen: old(self).generation, ..*old(self) }),
    {
        let d = self.generation - self.prev_gen;
        self.prev_gen = self.generation;
        d
    }
}

/// What to do when presenting a frame failed: reconfigure a lost surface,
/// stop when out of memory, and report anything else.
pub fn on_surface_failure(f: SurfaceFailure) -> (r: FailureResponse)
    ensures
        r == match f {
            SurfaceFailure::Lost => FailureResponse::Reconfigure,
            SurfaceFailure::OutOfMemory => FailureResponse::Exit,
            _ => FailureResponse::Report,
        },
{
    match f {
        SurfaceFailure::Lost => FailureResponse::Reconfigure,
        SurfaceFailure::OutOfMemory => FailureResponse::Exit,
        _ => FailureResponse::Report,
    }
}

/// Pressing space twice leaves the client as it was: the first press
/// starts or pauses the simulation, the second undoes it.
pub proof fn lemma_space_twice(c: Client)
    ensures
        after_key(after_key(c, Key::Space, true), Key::Space, true) == c,
{
}

/// Pressing and then releasing a modifier or movement key leaves the client
/// as it was when the key was not held before.
pub proof fn lemma_press_release(c: Client, key: Key)
    requires
        key == Key::LShift || key == Key::RShift ==> !c.shift,
        key == Key::LControl || key == Key::RControl ==> !c.ctrl,
        key == Key::W ==> !c.w_held,
        key == Key::A ==> !c.a_held,
        key == Key::S ==> !c.s_held,
        key == Key::D ==> !c.d_held,
        key == Key::LShift || key == Key::RShift || key == Key::LControl || key == Key::RControl
            || key == Key::W || key == Key::A || key == Key::S || key == Key::D,
    ensures
        after_key(after_key(c, key, true), key, false) == c,
{
}

/// After the reset key the simulation is paused at generation zero, so the
/// next frame makes no steps.
pub proof fn lemma_reset_pauses(c: Client)
    ensures
        after_key(c, Key::R, true).generation == 0,
        frame_steps(after_key(c, Key::R, true)) == 0,
{
}

/// The arrow keys undo each other: inside the range of steps per frame,
/// left then right restores the rate, and so does right then left.
#[verifier::rlimit(60)]
pub proof fn lemma_arrows_undo(c: Client)
    requires
        1 < c.settings.gen_per_frame < MAX_GEN_PER_FRAME,
    ensures
        after_key(after_key(c, Key::Left, true), Key::Right, true) == c,
        after_key(after_key(c, Key::Right, true), Key::Left, true) == c,
{
    let n = c.settings.gen_per_frame;
    let down = Client { settings: Settings { gen_per_frame: (n - 1) as i32, ..c.settings }, ..c };
    let up = Client { settings: Settings { gen_per_frame: (n + 1) as i32, ..c.settings }, ..c };
    assert(after_key(c, Key::Left, true) == down);
    assert(after_key(c, Key::Right, true) == up);
    assert(after_key(down, Key::Right, true).settings == c.settings);
    assert(after_key(up, Key::Left, true).settings == c.settings);
}

/// Every key keeps the steps per frame within 1 to 214 once they are there.
pub proof fn lemma_rate_bounded(c: Client, key: Key, pressed: bool)
    requires
        1 <= c.settings.gen_per_frame <= MAX_GEN_PER_FRAME,
    ensures
        1 <= after_key(c, key, pressed).settings.gen_per_frame <= MAX_GEN_PER_FRAME,
{
}

/// Every window event keeps the steps per frame within 1 to 214 once they
/// are there: only the arrow keys change them, and they stop at the bounds.
pub proof fn lemma_input_keeps_rate(c: Client, ev: WindowInput)
    requires
        1 <= c.settings.gen_per_frame <= MAX_GEN_PER_FRAME,
    ensures
        1 <= input_step(c, ev).0.settings.gen_per_frame <= MAX_GEN_PER_FRAME,
        1 <= unhandled_step(c, ev).0.settings.gen_per_frame <= MAX_GEN_PER_FRAME,
{
    match ev {
        WindowInput::Key { key, pressed } => lemma_rate_bounded(c, key, pressed),
        _ => {},
    }
}

/// A frame of the running simulation makes exactly as many steps as the
/// steps per frame (so at least one when that is at least one); a frame
/// makes no step only while the simulation is paused or the steps per frame
/// are not positive.
pub proof fn lemma_frame_steps(c: Client)
    ensures
        c.toggle && c.settings.gen_per_frame >= 1 ==> {
            &&& frame_steps(c) as int == c.settings.gen_per_frame as int
            &&& frame_steps(c) > 0
        },
        frame_steps(c) == 0 <==> (!c.toggle || c.settings.gen_per_frame <= 0),
{
}

/// Pressing space on a paused client with at least one step per frame makes
/// the next frame take that many steps.
pub proof fn lemma_space_runs(c: Client)
    requires
        !c.toggle,
        c.settings.gen_per_frame >= 1,
    ensures
        frame_steps(input_step(c, WindowInput::Key { key: Key::Space, pressed: true }).0) as int
            == c.settings.gen_per_frame as int,
{
}

/// Pressing O twice leaves the client as it was; one press opens a closed
/// settings menu and closes an open one, and changes nothing else.
pub proof fn lemma_menu_key(c: Client)
    ensures
        after_key(after_key(c, Key::O, true), Key::O, true) == c,
        after_key(c, Key::O, true).settings.settings_menu == !c.settings.settings_menu,
        after_key(c, Key::O, true) == (Client {
            settings: Settings { settings_menu: !c.settings.settings_menu, ..c.settings },
            ..c
        }),
{
}

/// The left button without shift clicks where it is pressed and releases
/// where it is released: the passes run at the cursor position of the
/// moment, with the control flag (1 when control is held).  A press marks
/// the drag start there; a release ends the drag.
pub proof fn lemma_click_release_at_cursor(c: Client)
    requires
        !c.shift,
    ensures
        input_step(c, WindowInput::MouseLeft { pressed: true }).1 == Some(
            Action::Click { x: c.cursor_pos.0, y: c.cursor_pos.1, ctrl: if c.ctrl { 1i32 } else { 0i32 } },
        ),
        input_step(c, WindowInput::MouseLeft { pressed: true }).0.click_pos == c.cursor_pos,
        input_step(c, WindowInput::MouseLeft { pressed: true }).0.middle,
        input_step(c, WindowInput::MouseLeft { pressed: false }).1 == Some(
            Action::Release { x: c.cursor_pos.0, y: c.cursor_pos.1, ctrl: if c.ctrl { 1i32 } else { 0i32 } },
        ),
        !input_step(c, WindowInput::MouseLeft { pressed: false }).0.middle,
{
}

/// Press, move, release: without shift, the release runs where the cursor
/// was moved to, wherever the button was pressed.
pub proof fn lemma_release_after_move(c: Client, x: i32, y: i32)
    requires
        !c.shift,
        input_in_range(
            input_step(c, WindowInput::MouseLeft { pressed: true }).0,
            WindowInput::CursorMoved { x, y },
        ),
    ensures
        ({
            let pressed = input_step(c, WindowInput::MouseLeft { pressed: true }).0;
            let moved = input_step(pressed, WindowInput::CursorMoved { x, y }).0;
            input_step(moved, WindowInput::MouseLeft { pressed: false }).1 == Some(
                Action::Release { x, y, ctrl: if c.ctrl { 1i32 } else { 0i32 } },
            )
        }),
{
}

/// Dragging without shift selects the rectangle from the click position to
/// the cursor: a move to (x, y) gives width x - click_x and height
/// y - click_y, whatever the cursor position before the move, and drags the
/// selection by the movement since that position.  The click position stays.
pub proof fn lemma_drag_selects_from_click(c: Client, x: i32, y: i32)
    requires
        c.middle,
        !c.shift,
        input_in_range(c, WindowInput::CursorMoved { x, y }),
    ensures
        input_step(c, WindowInput::CursorMoved { x, y }).1 matches Some(
            Action::DragSelect { dx, dy, cursor_y, click_x, click_y, width, height },
        ) && dx == x - c.cursor_pos.0 && dy == y - c.cursor_pos.1 && cursor_y == y && click_x
            == c.click_pos.0 && click_y == c.click_pos.1 && width == x - c.click_pos.0 && height
            == y - c.click_pos.1,
        input_step(c, WindowInput::CursorMoved { x, y }).0.cursor_pos == (x, y),
        input_step(c, WindowInput::CursorMoved { x, y }).0.click_pos == c.click_pos,
{
}

/// Two moves of a drag without shift: the second selects the rectangle from
/// the click to the final cursor (its width and height are the total
/// displacement from the click), and the two drags of the selection add up
/// to the cursor's total movement.
pub proof fn lemma_drag_two_moves(c: Client, x1: i32, y1: i32, x2: i32, y2: i32)
    requires
        c.middle,
        !c.shift,
        input_in_range(c, WindowInput::CursorMoved { x: x1, y: y1 }),
        input_in_range(
            input_step(c, WindowInput::CursorMoved { x: x1, y: y1 }).0,
            WindowInput::CursorMoved { x: x2, y: y2 },
        ),
    ensures
        ({
            let first = input_step(c, WindowInput::CursorMoved { x: x1, y: y1 });
            let second = input_step(first.0, WindowInput::CursorMoved { x: x2, y: y2 });
            first.1 matches Some(Action::DragSelect { dx: dx1, dy: dy1, .. }) && second.1 matches Some(
                Action::DragSelect { dx: dx2, dy: dy2, width, height, .. },
            ) && width == x2 - c.click_pos.0 && height == y2 - c.click_pos.1 && dx1 + dx2 == x2
                - c.cursor_pos.0 && dy1 + dy2 == y2 - c.cursor_pos.1
        }),
{
}

/// A shift-drag pans by the cursor movement since the previous cursor
/// position, so the pans of two moves add up to the cursor's total
/// movement.
pub proof fn lemma_pan_two_moves(c: Client, x1: i32, y1: i32, x2: i32, y2: i32)
    requires
        c.middle,
        c.shift,
        input_in_range(c, WindowInput::CursorMoved { x: x1, y: y1 }),
        input_in_range(
            input_step(c, WindowInput::CursorMoved { x: x1, y: y1 }).0,
            WindowInput::CursorMoved { x: x2, y: y2 },
        ),
    ensures
        input_step(c, WindowInput::CursorMoved { x: x1, y: y1 }).1 == Some(
            Action::Pan { dx: (x1 - c.cursor_pos.0) as i32, dy: (y1 - c.cursor_pos.1) as i32 },
        ),
        ({
            let first = input_step(c, WindowInput::CursorMoved { x: x1, y: y1 });
            let second = input_step(first.0, WindowInput::CursorMoved { x: x2, y: y2 });
            first.1 matches Some(Action::Pan { dx: dx1, dy: dy1 }) && second.1 matches Some(
                Action::Pan { dx: dx2, dy: dy2 },
            ) && dx2 == x2 - x1 && dy2 == y2 - y1 && dx1 + dx2 == x2 - c.cursor_pos.0 && dy1 + dy2
                == y2 - c.cursor_pos.1
        }),
{
}

/// The highlight key L and the frame-rate log key F3 each undo themselves:
/// one press flips their flag, a second press restores the client.
pub proof fn lemma_flag_keys_twice(c: Client)
    ensures
        after_key(after_key(c, Key::L, true), Key::L, true) == c,
        after_key(c, Key::L, true).highlight == !c.highlight,
        after_key(after_key(c, Key::F3, true), Key::F3, true) == c,
        after_key(c, Key::F3, true).log_framerate == !c.log_framerate,
{
}

/// The arrow keys move the steps per frame by one within 1 to 214: left
/// lowers them while above one and otherwise asks to slow down, right raises
/// them while below the maximum and otherwise leaves them.
pub proof fn lemma_arrow_steps(c: Client)
    ensures
        c.settings.gen_per_frame > 1 ==> after_key(c, Key::Left, true).settings.gen_per_frame
            == c.settings.gen_per_frame - 1 && key_action(c, Key::Left) == Action::Handled,
        c.settings.gen_per_frame <= 1 ==> after_key(c, Key::Left, true) == c && key_action(
            c,
            Key::Left,
        ) == Action::SlowDown,
        c.settings.gen_per_frame < MAX_GEN_PER_FRAME ==> after_key(
            c,
            Key::Right,
            true,
        ).settings.gen_per_frame == c.settings.gen_per_frame + 1,
        c.settings.gen_per_frame >= MAX_GEN_PER_FRAME ==> after_key(c, Key::Right, true) == c,
        key_action(c, Key::Right) == Action::Handled,
{
}

} // verus!
