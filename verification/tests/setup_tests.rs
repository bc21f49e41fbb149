use dem_sim::settings::{Intial_Positions, Settings, Structure};
use dem_sim::setup::{exp1, exp2, exp3, exp4, exp5, grid, p_count};
use dem_sim::bonds::{bond_info, bond_slots, compact};

fn settings_with(structure: Structure) -> Settings {
    let mut s = Settings::new();
    s.structure = structure;
    s
}

#[test]
fn default_settings() {
    let s = Settings::new();
    assert_eq!(s.gen_per_frame, 1);
    assert_eq!(s.workgroups, 2);
    assert_eq!(s.workgroup_size, 256);
    assert_eq!(s.particles, 512);
    assert_eq!(s.max_bonds, 4);
    assert_eq!(s.setup, Intial_Positions::Tower);
    assert_eq!(s.structure, Structure::Grid);
    assert!(!s.two_part);
}

#[test]
fn p_count_grid_uses_workgroups_of_256() {
    let mut s = settings_with(Structure::Grid);
    s.workgroups = 3;
    s.workgroup_size = 7;
    assert_eq!(p_count(&mut s), 768);
    assert_eq!(s.particles, 768);
    assert_eq!(s.workgroup_size, 256);
    assert_eq!(s.workgroups, 3);
}

#[test]
fn p_count_random_keeps_count() {
    let mut s = settings_with(Structure::Random);
    s.particles = 1000;
    s.workgroup_size = 9;
    assert_eq!(p_count(&mut s), 1000);
    assert_eq!(s.workgroup_size, 9);
    assert_eq!(s.workgroups, 2);
}

#[test]
fn p_count_experiments_use_two_particles() {
    for st in [Structure::Exp1, Structure::Exp2, Structure::Exp3, Structure::Exp4, Structure::Exp5] {
        let mut s = settings_with(st);
        assert_eq!(p_count(&mut s), 2);
        assert_eq!(s.particles, 2);
        assert_eq!(s.workgroup_size, 2);
        assert_eq!(s.workgroups, 1);
    }
}

#[test]
fn p_count_is_idempotent() {
    for st in [Structure::Grid, Structure::Random, Structure::Exp3] {
        let mut s = settings_with(st);
        let a = p_count(&mut s);
        let snapshot = (s.particles, s.workgroups, s.workgroup_size);
        let b = p_count(&mut s);
        assert_eq!(a, b);
        assert_eq!(snapshot, (s.particles, s.workgroups, s.workgroup_size));
    }
}

// Three particles: 0 touches 1 and 2, 1 touches 0, 2 touches 0.
fn three_contacts() -> Vec<Option<(i32, i32)>> {
    let mut c = vec![None; 9];
    c[0 * 3 + 1] = Some((10, 11));
    c[0 * 3 + 2] = Some((20, 21));
    c[1 * 3 + 0] = Some((30, 31));
    c[2 * 3 + 0] = Some((40, 41));
    // the diagonal is ignored
    c[1 * 3 + 1] = Some((99, 99));
    c
}

#[test]
fn bond_slots_fill_first_partners() {
    let t = bond_slots(&three_contacts(), 3, 2);
    assert_eq!(
        t,
        vec![1, 10, 11, 2, 20, 21, 0, 30, 31, -1, -1, -1, 0, 40, 41, -1, -1, -1]
    );
}

#[test]
fn bond_slots_truncate_at_max_bonds() {
    let t = bond_slots(&three_contacts(), 3, 1);
    assert_eq!(t, vec![1, 10, 11, 0, 30, 31, 0, 40, 41]);
}

#[test]
fn bond_info_counts_and_starts() {
    let t = bond_slots(&three_contacts(), 3, 2);
    assert_eq!(bond_info(&t, 3, 2), vec![0, 2, 2, 1, 3, 1]);
}

#[test]
fn bond_info_marks_particles_without_bonds() {
    let mut c = vec![None; 9];
    c[2 * 3 + 1] = Some((5, 6));
    let t = bond_slots(&c, 3, 2);
    assert_eq!(bond_info(&t, 3, 2), vec![-1, -1, -1, -1, 0, 1]);
}

#[test]
fn compact_removes_unset_entries() {
    assert_eq!(compact(&vec![-1, 3, -1, -1, 4, 5, -1]), vec![3, 4, 5]);
    assert_eq!(compact(&vec![]), Vec::<i32>::new());
}

#[test]
fn grid_builds_bonds_and_info() {
    let mut s = settings_with(Structure::Grid);
    s.particles = 3;
    s.max_bonds = 2;
    s.two_part = true;
    let (bonds, info) = grid(&mut s, &three_contacts());
    assert!(!s.two_part);
    assert_eq!(bonds, vec![1, 10, 11, 2, 20, 21, 0, 30, 31, 0, 40, 41]);
    assert_eq!(info, vec![0, 2, 2, 1, 3, 1]);
}

#[test]
fn grid_info_locates_each_bond() {
    // every bond k of particle i sits at entries 3 * (start + k) .. + 3
    let c = three_contacts();
    let mut s = settings_with(Structure::Grid);
    s.particles = 3;
    s.max_bonds = 2;
    let (bonds, info) = grid(&mut s, &c);
    let table = bond_slots(&c, 3, 2);
    for i in 0..3usize {
        let start = info[2 * i];
        let len = info[2 * i + 1];
        if len < 0 {
            continue;
        }
        for k in 0..len as usize {
            for f in 0..3usize {
                assert_eq!(bonds[3 * (start as usize + k) + f], table[(i * 2 + k) * 3 + f]);
            }
        }
    }
}

#[test]
fn grid_without_contacts_has_no_bonds() {
    let mut s = settings_with(Structure::Grid);
    s.particles = 2;
    s.max_bonds = 4;
    let (bonds, info) = grid(&mut s, &vec![None; 4]);
    assert!(bonds.is_empty());
    assert_eq!(info, vec![-1, -1, -1, -1]);
}

fn run_experiment(
    f: fn(&mut Settings, &mut Vec<i32>) -> (Vec<i32>, Vec<i32>),
    expected: [i32; 6],
) {
    let mut s = settings_with(Structure::Exp1);
    s.max_bonds = 3;
    s.gravity = true;
    let mut fixity = vec![7; 8];
    let (bonds, info) = f(&mut s, &mut fixity);
    assert_eq!(&fixity[..6], &expected);
    assert_eq!(&fixity[6..], &[7, 7]);
    assert_eq!(bonds, vec![-1; 4]);
    assert_eq!(info, vec![-1; 6]);
    assert_eq!(s.colors, 1);
    assert!(!s.gravity);
    assert!(s.render_rot);
    assert!(s.color_code_rot);
    assert!(s.two_part);
}

#[test]
fn experiment_one() {
    run_experiment(exp1, [1, 1, 1, 0, 0, 0]);
}

#[test]
fn experiment_two() {
    run_experiment(exp2, [0, 0, 0, 1, 1, 1]);
}

#[test]
fn experiment_three() {
    run_experiment(exp3, [1, 1, 0, 0, 1, 1]);
}

#[test]
fn experiment_four() {
    run_experiment(exp4, [1, 1, 0, 0, 1, 1]);
}

#[test]
fn experiment_five() {
    run_experiment(exp5, [0, 0, 0, 0, 0, 0]);
}

#[test]
fn bond_counts_do_not_depend_on_bond_bits() {
    // even with -1 as angle and length bits, each particle keeps its count
    let mut c = vec![None; 9];
    c[0 * 3 + 1] = Some((-1, -1));
    c[0 * 3 + 2] = Some((-1, 4));
    c[2 * 3 + 1] = Some((3, -1));
    let t = bond_slots(&c, 3, 4);
    assert_eq!(bond_info(&t, 3, 4), vec![0, 2, -1, -1, 2, 1]);
}
