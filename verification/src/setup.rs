use vstd::prelude::*;
use crate::settings::{Settings, Structure};
use crate::bonds::{bond_slots, bond_info, compact, bond_table, bond_info_spec, unset_removed};

verus! {

/// The particle count that `p_count` settles on for the given settings.
pub open spec fn spec_p_count(s: Settings) -> int {
    match s.structure {
        Structure::Grid => 256 * s.workgroups,
        Structure::Random => s.particles as int,
        _ => 2,
    }
}

/// The settings after `p_count` has fixed the workgroup layout.
pub open spec fn counted(s: Settings) -> Settings {
    match s.structure {
        Structure::Grid => Settings {
            workgroup_size: 256,
            particles: (256 * s.workgroups) as usize,
            ..s
        },
        Structure::Random => s,
        _ => Settings { workgroup_size: 2, workgroups: 1, particles: 2, ..s },
    }
}

/// Fixes the workgroup layout for the chosen scene and returns the particle
/// count: the grid uses workgroups of 256, the random scene keeps its count,
/// and every experiment uses one workgroup of two particles.
pub fn p_count(settings: &mut Settings) -> (n: usize)
    requires
        old(settings).structure == Structure::Grid ==> 256 * old(settings).workgroups <= usize::MAX,
    ensures
        n == spec_p_count(*old(settings)),
        *final(settings) == counted(*old(settings)),
        final(settings).particles == n,
{
    match settings.structure {
        Structure::Grid => {
            settings.workgroup_size = 256;
            settings.particles = settings.workgroup_size * settings.workgroups;
            settings.particles
        },
        Structure::Random => settings.particles,
        _ => {
            settings.workgroup_size = 2;
            settings.workgroups = 1;
            settings.particles = settings.workgroup_size * settings.workgroups;
            settings.particles
        },
    }
}

/// Fixing the workgroup layout twice changes nothing: the second call gives
/// the same particle count and leaves the settings as the first left them.
pub proof fn lemma_p_count_idempotent(s: Settings)
    requires
        s.structure == Structure::Grid ==> 256 * s.workgroups <= usize::MAX,
    ensures
        spec_p_count(counted(s)) == spec_p_count(s),
        counted(counted(s)) == counted(s),
        counted(s).particles == spec_p_count(s),
{
}

/// `n` entries of -1.
pub open spec fn unset(n: int) -> Seq<i32> {
    Seq::new(n as nat, |k: int| -1i32)
}

/// A vector of `n` copies of `x`.
pub fn filled<T: Copy>(x: T, n: usize) -> (v: Vec<T>)
    ensures
        v@ == Seq::new(n as nat, |k: int| x),
{
    let mut v: Vec<T> = Vec::new();
    while v.len() < n
        invariant
            v@.len() <= n,
            forall|k: int| 0 <= k < v@.len() ==> #[trigger] v@[k] == x,
        decreases n - v@.len(),
    {
        v.push(x);
    }
    assert(v@ =~= Seq::new(n as nat, |k: int| x));
    v
}

/// Builds the bonds of the grid scene.  The particle positions and radii are
/// laid out by the caller, which reports for every ordered pair of particles
/// whether they overlap and, if so, the bit patterns of the bond's angle and
/// length (`contacts`, row-major, `particles * particles` entries).  Each
/// particle bonds with its first `max_bonds` overlapping partners in index
/// order.  Returns the bond table with its empty entries removed, and the
/// bond info that locates each particle's bonds in it.
pub fn grid(settings: &mut Settings, contacts: &Vec<Option<(i32, i32)>>) -> (r: (Vec<i32>, Vec<i32>))
    requires
        contacts@.len() == old(settings).particles * old(settings).particles,
        3 * old(settings).max_bonds * old(settings).particles <= usize::MAX,
        2 * old(settings).particles <= usize::MAX,
    ensures
        *final(settings) == (Settings { two_part: false, ..*old(settings) }),
        r.0@ == unset_removed(
            bond_table(contacts@, old(settings).particles as int, old(settings).max_bonds as int),
        ),
        r.1@ == bond_info_spec(
            bond_table(contacts@, old(settings).particles as int, old(settings).max_bonds as int),
            old(settings).max_bonds as int,
            old(settings).particles as int,
        ),
{
    settings.two_part = false;
    let p = settings.particles;
    let mb = settings.max_bonds;
    let table = bond_slots(contacts, p, mb);
    let info = bond_info(&table, p, mb);
    let bonds = compact(&table);
    (bonds, info)
}

/// The settings of the two-particle experiments: a single colour, no
/// gravity, rotation drawn and colour-coded.
pub open spec fn experiment_settings(s: Settings) -> Settings {
    Settings { colors: 1, gravity: false, render_rot: true, color_code_rot: true, two_part: true, ..s }
}

/// The fixity flags after an experiment is set up: the x-velocity,
/// y-velocity and angular-velocity flags of particle A, then of particle B,
/// take the values `a`; later entries are kept.
pub open spec fn fixed(old: Seq<i32>, a: Seq<i32>) -> Seq<i32> {
    old.update(0, a[0]).update(1, a[1]).update(2, a[2]).update(3, a[3]).update(4, a[4]).update(5, a[5])
}

fn set_fixity(fixity: &mut Vec<i32>, a: i32, b: i32, c: i32, d: i32, e: i32, f: i32)
    requires
        old(fixity)@.len() >= 6,
    ensures
        final(fixity)@ == fixed(old(fixity)@, seq![a, b, c, d, e, f]),
{
    fixity.set(0, a);
    fixity.set(1, b);
    fixity.set(2, c);
    fixity.set(3, d);
    fixity.set(4, e);
    fixity.set(5, f);
}

/// Sets up two-particle experiment 1 (A held in place, B free): the experiment settings and
/// the fixity flags of both particles.  The positions, velocities, radii and
/// forces of the two particles are set by the caller.  No bonds are made:
/// both returned tables are all -1 (four bond entries, `2 * max_bonds` info
/// entries).
pub fn exp1(settings: &mut Settings, fixity: &mut Vec<i32>) -> (r: (Vec<i32>, Vec<i32>))
    requires
        old(fixity)@.len() >= 6,
        2 * old(settings).max_bonds <= usize::MAX,
    ensures
        *final(settings) == experiment_settings(*old(settings)),
        final(fixity)@ == fixed(old(fixity)@, seq![1, 1, 1, 0, 0, 0]),
        r.0@ == unset(4),
        r.1@ == unset(2 * old(settings).max_bonds),
{
    settings.colors = 1;
    settings.gravity = false;
    settings.render_rot = true;
    settings.color_code_rot = true;
    settings.two_part = true;
    set_fixity(fixity, 1, 1, 1, 0, 0, 0);
    (filled(-1i32, 4), filled(-1i32, 2 * settings.max_bonds))
}

/// Sets up two-particle experiment 2 (A free, B held in place): the experiment settings and
/// the fixity flags of both particles.  The positions, velocities, radii and
/// forces of the two particles are set by the caller.  No bonds are made:
/// both returned tables are all -1 (four bond entries, `2 * max_bonds` info
/// entries).
pub fn exp2(settings: &mut Settings, fixity: &mut Vec<i32>) -> (r: (Vec<i32>, Vec<i32>))
    requires
        old(fixity)@.len() >= 6,
        2 * old(settings).max_bonds <= usize::MAX,
    ensures
        *final(settings) == experiment_settings(*old(settings)),
        final(fixity)@ == fixed(old(fixity)@, seq![0, 0, 0, 1, 1, 1]),
        r.0@ == unset(4),
        r.1@ == unset(2 * old(settings).max_bonds),
{
    settings.colors = 1;
    settings.gravity = false;
    settings.render_rot = true;
    settings.color_code_rot = true;
    settings.two_part = true;
    set_fixity(fixity, 0, 0, 0, 1, 1, 1);
    (filled(-1i32, 4), filled(-1i32, 2 * settings.max_bonds))
}

/// Sets up two-particle experiment 3 (A may only spin, B may only move along x): the experiment settings and
/// the fixity flags of both particles.  The positions, velocities, radii and
/// forces of the two particles are set by the caller.  No bonds are made:
/// both returned tables are all -1 (four bond entries, `2 * max_bonds` info
/// entries).
pub fn exp3(settings: &mut Settings, fixity: &mut Vec<i32>) -> (r: (Vec<i32>, Vec<i32>))
    requires
        old(fixity)@.len() >= 6,
        2 * old(settings).max_bonds <= usize::MAX,
    ensures
        *final(settings) == experiment_settings(*old(settings)),
        final(fixity)@ == fixed(old(fixity)@, seq![1, 1, 0, 0, 1, 1]),
        r.0@ == unset(4),
        r.1@ == unset(2 * old(settings).max_bonds),
{
    settings.colors = 1;
    settings.gravity = false;
    settings.render_rot = true;
    settings.color_code_rot = true;
    settings.two_part = true;
    set_fixity(fixity, 1, 1, 0, 0, 1, 1);
    (filled(-1i32, 4), filled(-1i32, 2 * settings.max_bonds))
}

/// Sets up two-particle experiment 4 (A may only spin, B may only move along x): the experiment settings and
/// the fixity flags of both particles.  The positions, velocities, radii and
/// forces of the two particles are set by the caller.  No bonds are made:
/// both returned tables are all -1 (four bond entries, `2 * max_bonds` info
/// entries).
pub fn exp4(settings: &mut Settings, fixity: &mut Vec<i32>) -> (r: (Vec<i32>, Vec<i32>))
    requires
        old(fixity)@.len() >= 6,
        2 * old(settings).max_bonds <= usize::MAX,
    ensures
        *final(settings) == experiment_settings(*old(settings)),
        final(fixity)@ == fixed(old(fixity)@, seq![1, 1, 0, 0, 1, 1]),
        r.0@ == unset(4),
        r.1@ == unset(2 * old(settings).max_bonds),
{
    settings.colors = 1;
    settings.gravity = false;
    settings.render_rot = true;
    settings.color_code_rot = true;
    settings.two_part = true;
    set_fixity(fixity, 1, 1, 0, 0, 1, 1);
    (filled(-1i32, 4), filled(-1i32, 2 * settings.max_bonds))
}

/// Sets up two-particle experiment 5 (both particles free): the experiment settings and
/// the fixity flags of both particles.  The positions, velocities, radii and
/// forces of the two particles are set by the caller.  No bonds are made:
/// both returned tables are all -1 (four bond entries, `2 * max_bonds` info
/// entries).
pub fn exp5(settings: &mut Settings, fixity: &mut Vec<i32>) -> (r: (Vec<i32>, Vec<i32>))
    requires
        old(fixity)@.len() >= 6,
        2 * old(settings).max_bonds <= usize::MAX,
    ensures
        *final(settings) == experiment_settings(*old(settings)),
        final(fixity)@ == fixed(old(fixity)@, seq![0, 0, 0, 0, 0, 0]),
        r.0@ == unset(4),
        r.1@ == unset(2 * old(settings).max_bonds),
{
    settings.colors = 1;
    settings.gravity = false;
    settings.render_rot = true;
    settings.color_code_rot = true;
    settings.two_part = true;
    set_fixity(fixity, 0, 0, 0, 0, 0, 0);
    (filled(-1i32, 4), filled(-1i32, 2 * settings.max_bonds))
}

} // verus!
