use dem_sim::client::{
    on_surface_failure, Action, Client, FailureResponse, Key, Response, SurfaceFailure,
    WindowInput,
};
use dem_sim::compute::{contact_buffers, selectangle_workgroups};
use dem_sim::settings::Settings;

fn client() -> Client {
    Client::new(Settings::new())
}

fn key(k: Key, pressed: bool) -> WindowInput {
    WindowInput::Key { key: k, pressed }
}

#[test]
fn new_client_is_paused_at_origin() {
    let c = client();
    assert!(!c.toggle);
    assert_eq!(c.cursor_pos, (0, 0));
    assert_eq!(c.generation, 0);
    assert_eq!(c.settings.gen_per_frame, 1);
}

#[test]
fn click_and_release_report_cursor_and_ctrl() {
    let mut c = client();
    c.input(WindowInput::CursorMoved { x: 30, y: 40 });
    c.input(key(Key::LControl, true));
    assert_eq!(
        c.input(WindowInput::MouseLeft { pressed: true }),
        Some(Action::Click { x: 30, y: 40, ctrl: 1 })
    );
    assert!(c.middle);
    assert_eq!(c.click_pos, (30, 40));
    c.input(key(Key::RControl, false));
    assert_eq!(
        c.input(WindowInput::MouseLeft { pressed: false }),
        Some(Action::Release { x: 30, y: 40, ctrl: 0 })
    );
    assert!(!c.middle);
}

#[test]
fn shift_click_only_marks_the_drag() {
    let mut c = client();
    c.input(key(Key::LShift, true));
    assert_eq!(c.input(WindowInput::MouseLeft { pressed: true }), Some(Action::Handled));
    assert!(c.middle);
    assert_eq!(c.input(WindowInput::CursorMoved { x: 5, y: -3 }), Some(Action::Pan { dx: 5, dy: -3 }));
    assert_eq!(c.input(WindowInput::MouseLeft { pressed: false }), Some(Action::Handled));
}

#[test]
fn dragging_selects_from_the_click() {
    let mut c = client();
    c.input(WindowInput::CursorMoved { x: 10, y: 20 });
    c.input(WindowInput::MouseLeft { pressed: true });
    assert_eq!(
        c.input(WindowInput::CursorMoved { x: 15, y: 12 }),
        Some(Action::DragSelect { dx: 5, dy: -8, cursor_y: 12, click_x: 10, click_y: 20, width: 5, height: -8 })
    );
    assert_eq!(c.cursor_pos, (15, 12));
}

#[test]
fn moving_without_button_is_handled() {
    let mut c = client();
    assert_eq!(c.input(WindowInput::CursorMoved { x: 3, y: 4 }), Some(Action::Handled));
    assert_eq!(c.cursor_pos, (3, 4));
}

#[test]
fn wheel_zooms_by_lines_only() {
    let mut c = client();
    assert_eq!(c.input(WindowInput::WheelLines), Some(Action::ZoomWheel));
    assert_eq!(c.input(WindowInput::WheelPixels), Some(Action::Handled));
}

#[test]
fn unhandled_events() {
    let mut c = client();
    assert_eq!(c.input(WindowInput::OtherMouseButton), None);
    assert_eq!(c.input(WindowInput::CloseRequested), None);
    assert_eq!(c.input(key(Key::Other, true)), None);
    assert_eq!(c.input(key(Key::Space, false)), None);
    assert_eq!(c.input(key(Key::F11, false)), None);
}

#[test]
fn space_toggles_and_twice_restores() {
    let mut c = client();
    assert_eq!(c.input(key(Key::Space, true)), Some(Action::Handled));
    assert!(c.toggle);
    c.input(key(Key::Space, true));
    assert!(!c.toggle);
}

#[test]
fn keys_with_actions() {
    let mut c = client();
    assert_eq!(c.input(key(Key::F11, true)), Some(Action::Fullscreen));
    assert_eq!(c.input(key(Key::Equals, true)), Some(Action::ZoomIn));
    assert_eq!(c.input(key(Key::Minus, true)), Some(Action::ZoomOut));
    assert_eq!(c.input(key(Key::H, true)), Some(Action::Recenter));
    assert_eq!(c.input(key(Key::Down, true)), Some(Action::Cool));
    assert_eq!(c.input(key(Key::F3, true)), Some(Action::ClearConsole));
    assert!(c.log_framerate);
    assert_eq!(c.input(key(Key::O, true)), Some(Action::Handled));
    assert!(c.settings.settings_menu);
    assert_eq!(c.input(key(Key::L, true)), Some(Action::Handled));
    assert!(c.highlight);
}

#[test]
fn movement_keys_track_press_and_release() {
    let mut c = client();
    for (k, get) in [
        (Key::W, (|c: &Client| c.w_held) as fn(&Client) -> bool),
        (Key::A, |c: &Client| c.a_held),
        (Key::S, |c: &Client| c.s_held),
        (Key::D, |c: &Client| c.d_held),
    ] {
        assert_eq!(c.input(key(k, true)), Some(Action::Handled));
        assert!(get(&c));
        assert_eq!(c.input(key(k, false)), Some(Action::Handled));
        assert!(!get(&c));
    }
}

#[test]
fn reset_pauses_and_clears_generation() {
    let mut c = client();
    c.input(key(Key::Space, true));
    c.settings.gen_per_frame = 3;
    assert_eq!(c.advance(), 3);
    assert_eq!(c.generation, 3);
    assert_eq!(c.input(key(Key::R, true)), Some(Action::Reset));
    assert!(!c.toggle);
    assert_eq!(c.generation, 0);
    assert_eq!(c.advance(), 0);
}

#[test]
fn arrows_change_steps_per_frame_within_bounds() {
    let mut c = client();
    assert_eq!(c.input(key(Key::Left, true)), Some(Action::SlowDown));
    assert_eq!(c.settings.gen_per_frame, 1);
    assert_eq!(c.input(key(Key::Right, true)), Some(Action::Handled));
    assert_eq!(c.settings.gen_per_frame, 2);
    assert_eq!(c.input(key(Key::Left, true)), Some(Action::Handled));
    assert_eq!(c.settings.gen_per_frame, 1);
    c.settings.gen_per_frame = 214;
    c.input(key(Key::Right, true));
    assert_eq!(c.settings.gen_per_frame, 214);
}

#[test]
fn resize_minimizes_on_zero_area() {
    let mut c = client();
    assert!(!c.resize(0, 100));
    assert!(c.minimized);
    assert!(c.resize(640, 480));
    assert!(!c.minimized);
}

#[test]
fn window_events_are_routed() {
    let mut c = client();
    assert_eq!(c.handle_window_event(WindowInput::CloseRequested), Response::Exit);
    assert_eq!(
        c.handle_window_event(WindowInput::Resized { width: 800, height: 600 }),
        Response::Resize { width: 800, height: 600 }
    );
    assert_eq!(
        c.handle_window_event(WindowInput::ScaleFactorChanged { width: 0, height: 600 }),
        Response::Minimized
    );
    assert!(c.minimized);
    assert_eq!(c.handle_window_event(WindowInput::Other), Response::Ignored);
    assert_eq!(
        c.handle_window_event(key(Key::Space, true)),
        Response::Input(Action::Handled)
    );
}

#[test]
fn paused_frames_make_no_steps() {
    let mut c = client();
    assert_eq!(c.advance(), 0);
    assert_eq!(c.generation, 0);
}

#[test]
fn report_delta_since_last_report() {
    let mut c = client();
    c.input(key(Key::Space, true));
    c.settings.gen_per_frame = 4;
    c.advance();
    c.advance();
    assert_eq!(c.generations_since_report(), 8);
    c.advance();
    assert_eq!(c.generations_since_report(), 4);
}

#[test]
fn surface_failures() {
    assert_eq!(on_surface_failure(SurfaceFailure::Lost), FailureResponse::Reconfigure);
    assert_eq!(on_surface_failure(SurfaceFailure::OutOfMemory), FailureResponse::Exit);
    assert_eq!(on_surface_failure(SurfaceFailure::Timeout), FailureResponse::Report);
    assert_eq!(on_surface_failure(SurfaceFailure::Outdated), FailureResponse::Report);
}

#[test]
fn selection_workgroups_round_up() {
    assert_eq!(selectangle_workgroups(16, 16), 1);
    assert_eq!(selectangle_workgroups(16, 17), 2);
    assert_eq!(selectangle_workgroups(1920, 1080), 8100);
    assert_eq!(selectangle_workgroups(0, 500), 0);
    assert_eq!(selectangle_workgroups(1, 1), 1);
}

#[test]
fn contact_buffers_are_unset() {
    let (contacts, pointers) = contact_buffers(3, 2);
    assert_eq!(contacts, vec![-1; 24]);
    assert_eq!(pointers, vec![-1; 6]);
    let bytes: Vec<u8> = contacts.iter().flat_map(|x| x.to_le_bytes()).collect();
    assert_eq!(&bytes[..4], &(-1i32).to_le_bytes());
}

#[test]
fn arrows_undo_each_other() {
    let mut c = client();
    c.settings.gen_per_frame = 5;
    c.input(key(Key::Left, true));
    c.input(key(Key::Right, true));
    assert_eq!(c.settings.gen_per_frame, 5);
    c.input(key(Key::Right, true));
    c.input(key(Key::Left, true));
    assert_eq!(c.settings.gen_per_frame, 5);
}

#[test]
fn steps_per_frame_stay_in_range() {
    let mut c = client();
    for _ in 0..300 {
        c.input(key(Key::Right, true));
        assert!((1..=214).contains(&c.settings.gen_per_frame));
    }
    for _ in 0..300 {
        c.input(key(Key::Left, true));
        assert!((1..=214).contains(&c.settings.gen_per_frame));
    }
}

#[test]
fn selection_workgroups_follow_float_rounding() {
    // above 2^24 pixels the pixel count is rounded to the nearest float first
    assert_eq!(selectangle_workgroups(257, 65281), 65536); // 2^24 + 1 rounds down
    assert_eq!(selectangle_workgroups(1, 16777217), 65536);
    assert_eq!(selectangle_workgroups(1, 16777219), 65537); // tie rounds to even, upwards
    assert_eq!(selectangle_workgroups(1, 16777216), 65536);
    assert_eq!(selectangle_workgroups(65535, 65537), 16777216); // u32::MAX rounds to 2^32
    for n in [16777217u32, 16777219, 33554435, 123456789, 4294967295] {
        assert_eq!(selectangle_workgroups(1, n), ((n as f32) / 256.0).ceil() as u32);
    }
}
