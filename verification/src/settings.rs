use vstd::prelude::*;

verus! {

/// How particles are initially placed.
#[derive(Clone, Copy, Debug, PartialEq, Eq, Structural)]
pub enum Intial_Positions {
    Tower,
    Random,
}

/// The initial scene that the simulation is set up with.
#[derive(Clone, Copy, Debug, PartialEq, Eq, Structural)]
pub enum Structure {
    /// A block of bonded particles laid out on a grid.
    Grid,
    /// Particles placed at random; nothing is set up.
    Random,
    /// Two-particle experiments.
    Exp1,
    Exp2,
    Exp3,
    Exp4,
    Exp5,
}

/// The integer and boolean simulation settings.  The floating-point
/// parameters (radii, velocities, scale) are held by the front end.
#[derive(Clone, Copy, Debug)]
pub struct Settings {
    /// Simulation steps dispatched per rendered frame.
    pub gen_per_frame: i32,
    /// Number of particles.
    pub particles: usize,
    /// Compute workgroups dispatched per step.
    pub workgroups: usize,
    /// Invocations per compute workgroup.
    pub workgroup_size: usize,
    /// Maximum number of bonds per particle.
    pub max_bonds: usize,
    /// Initial placement.
    pub setup: Intial_Positions,
    /// Initial scene.
    pub structure: Structure,
    /// Whether the scene is one of the two-particle experiments.
    pub two_part: bool,
    /// Whether gravity acts.
    pub gravity: bool,
    /// Whether particle rotation is drawn.
    pub render_rot: bool,
    /// Whether particles are coloured by their rotation.
    pub color_code_rot: bool,
    /// Number of particle colours in use.
    pub colors: u32,
    /// Whether the settings menu is shown.
    pub settings_menu: bool,
}

impl Settings {
    /// The default settings: one step per frame, two workgroups of 256
    /// invocations (512 particles), at most four bonds per particle, and the
    /// grid scene with the tower placement.
    pub fn new() -> (s: Self)
        ensures
            s.gen_per_frame == 1,
            s.workgroups == 2,
            s.workgroup_size == 256,
            s.particles == 512,
            s.max_bonds == 4,
            s.setup == Intial_Positions::Tower,
            s.structure == Structure::Grid,
            !s.two_part,
            s.gravity,
            !s.render_rot,
            !s.color_code_rot,
            s.colors == 0,
            !s.settings_menu,
    {
        let gen_per_frame: i32 = 1;
        let workgroups: usize = 2;
        let workgroup_size: usize = 256;
        let max_bonds: usize = 4;
        let particles: usize = workgroup_size * workgroups;
        Settings {
            gen_per_frame,
            particles,
            workgroups,
            workgroup_size,
            max_bonds,
            setup: Intial_Positions::Tower,
            structure: Structure::Grid,
            two_part: false,
            gravity: true,
            render_rot: false,
            color_code_rot: false,
            colors: 0,
            settings_menu: false,
        }
    }
}

} // verus!
