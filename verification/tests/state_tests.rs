use dem_sim::settings::{Settings, Structure};
use dem_sim::state::{f32_bits_from_bytes, i32_vec_from_bytes, State};
use dem_sim::state_file::{decode_state, encode_state};
use flatbuffers::FlatBufferBuilder;

#[test]
fn words_are_little_endian() {
    let bytes = [0x01u8, 0x02, 0x03, 0x04, 0x00, 0x00, 0x80, 0x3f];
    assert_eq!(f32_bits_from_bytes(&bytes), vec![0x0403_0201u32, 0x3f80_0000]);
    assert_eq!(f32::from_bits(f32_bits_from_bytes(&bytes)[1]), 1.0f32);
}

#[test]
fn trailing_bytes_are_ignored() {
    assert_eq!(f32_bits_from_bytes(&[1, 0, 0, 0, 9, 9]), vec![1u32]);
    assert_eq!(i32_vec_from_bytes(&[5, 0, 0]), Vec::<i32>::new());
}

#[test]
fn ints_are_twos_complement() {
    let bytes = [0xffu8, 0xff, 0xff, 0xff, 0x02, 0x00, 0x00, 0x00, 0x00, 0x00, 0x00, 0x80];
    assert_eq!(i32_vec_from_bytes(&bytes), vec![-1, 2, i32::MIN]);
}

#[test]
fn ints_round_trip_through_bytes() {
    let values = vec![0, 1, -1, 123456789, -987654321, i32::MAX, i32::MIN];
    let mut bytes = Vec::new();
    for v in &values {
        bytes.extend_from_slice(&v.to_le_bytes());
    }
    assert_eq!(i32_vec_from_bytes(&bytes), values);
}

fn settings_with(structure: Structure) -> Settings {
    let mut s = Settings::new();
    s.structure = structure;
    s
}

#[test]
fn new_state_for_random_scene() {
    let mut s = settings_with(Structure::Random);
    s.particles = 5;
    let st = State::new(&mut s, &vec![]);
    assert_eq!(st.p_count, 5);
    assert_eq!(st.pos, vec![0u32; 10]);
    assert_eq!(st.vel.len(), 10);
    assert_eq!(st.acc.len(), 15);
    assert_eq!(st.rot.len(), 5);
    assert_eq!(st.rot_vel.len(), 5);
    assert_eq!(st.forces.len(), 30);
    assert_eq!(st.radii.len(), 5);
    assert_eq!(st.fixity, vec![0; 15]);
    assert_eq!(st.bonds, vec![-1]);
    assert_eq!(st.bond_info, vec![-1]);
    assert_eq!(st.material_pointers, vec![0; 5]);
    assert_eq!(st.flatbuffer, encode_state(&st));
    assert_eq!(st.flatbuffer.len(), 128 + 4 * (20 * 5 + 2));
    assert_eq!(decode_state(&st.flatbuffer).unwrap().particles, 5);
}

#[test]
fn new_state_for_experiment() {
    let mut s = settings_with(Structure::Exp2);
    s.max_bonds = 4;
    let st = State::new(&mut s, &vec![]);
    assert_eq!(st.p_count, 2);
    assert_eq!(st.fixity, vec![0, 0, 0, 1, 1, 1]);
    assert_eq!(st.bonds, vec![-1; 4]);
    assert_eq!(st.bond_info, vec![-1; 8]);
    assert!(s.two_part);
    assert_eq!(s.workgroups, 1);
}

#[test]
fn new_state_for_grid() {
    let mut s = settings_with(Structure::Grid);
    s.workgroups = 1;
    s.max_bonds = 1;
    let p = 256usize;
    let mut contacts = vec![None; p * p];
    contacts[0 * p + 1] = Some((7, 8));
    contacts[1 * p + 0] = Some((9, 10));
    let st = State::new(&mut s, &contacts);
    assert_eq!(st.p_count, 256);
    assert_eq!(st.bonds, vec![1, 7, 8, 0, 9, 10]);
    assert_eq!(&st.bond_info[..6], &[0, 1, 1, 1, -1, -1]);
    assert_eq!(st.bond_info.len(), 512);
    assert!(!s.two_part);
}

/// A state file as the flatbuffers builder writes it: the particle count
/// (left out when 0), then the float vectors and the integer vectors.
fn builder_file(particles: i32, floats: [&[f32]; 7], ints: [&[i32]; 4]) -> Vec<u8> {
    let mut builder = FlatBufferBuilder::new();
    let fv: Vec<_> = floats.iter().map(|v| builder.create_vector(v)).collect();
    let iv: Vec<_> = ints.iter().map(|v| builder.create_vector(v)).collect();
    let start = builder.start_table();
    for (k, v) in iv.iter().enumerate().rev() {
        builder.push_slot_always(20 + 2 * k as u16, *v);
    }
    for (k, v) in fv.iter().enumerate().rev() {
        builder.push_slot_always(6 + 2 * k as u16, *v);
    }
    builder.push_slot::<i32>(4, particles, 0);
    let root = builder.end_table(start);
    builder.finish(root, None);
    builder.finished_data().to_vec()
}

#[test]
fn load_decodes_every_field() {
    let mut s = settings_with(Structure::Random);
    s.particles = 1;
    let mut st = State::new(&mut s, &vec![]);
    let file = builder_file(
        3,
        [&[1.5, -2.0], &[0.25], &[], &[3.0], &[4.0], &[5.0], &[0.01]],
        [&[1, 0], &[-1, 2], &[7], &[-3]],
    );
    st.flatbuffer = file.clone();
    st.load();
    assert_eq!(st.p_count, 3);
    assert_eq!(st.pos, vec![1.5f32.to_bits(), (-2.0f32).to_bits()]);
    assert_eq!(st.vel, vec![0.25f32.to_bits()]);
    assert!(st.acc.is_empty());
    assert_eq!(st.rot, vec![3.0f32.to_bits()]);
    assert_eq!(st.rot_vel, vec![4.0f32.to_bits()]);
    assert_eq!(st.forces, vec![5.0f32.to_bits()]);
    assert_eq!(st.radii, vec![0.01f32.to_bits()]);
    assert_eq!(st.fixity, vec![1, 0]);
    assert_eq!(st.bonds, vec![-1, 2]);
    assert_eq!(st.bond_info, vec![7]);
    assert_eq!(st.material_pointers, vec![-3]);
    assert_eq!(st.flatbuffer, file);
}

#[test]
fn load_negative_count_wraps() {
    let mut s = settings_with(Structure::Random);
    s.particles = 0;
    let mut st = State::new(&mut s, &vec![]);
    st.flatbuffer = builder_file(-1, [&[], &[], &[], &[], &[], &[], &[]], [&[], &[], &[], &[]]);
    st.load();
    assert_eq!(st.p_count, usize::MAX);
}

#[test]
fn load_reads_absent_count_as_zero() {
    let mut s = settings_with(Structure::Random);
    s.particles = 2;
    let mut st = State::new(&mut s, &vec![]);
    st.flatbuffer = builder_file(0, [&[1.0], &[], &[], &[], &[], &[], &[]], [&[], &[], &[], &[]]);
    st.load();
    assert_eq!(st.p_count, 0);
    assert_eq!(st.pos, vec![1.0f32.to_bits()]);
}

#[test]
fn words_round_trip_through_bytes() {
    let values = vec![0u32, 1, 0xdead_beef, u32::MAX, 1.5f32.to_bits()];
    let mut bytes = Vec::new();
    for v in &values {
        bytes.extend_from_slice(&v.to_le_bytes());
    }
    assert_eq!(f32_bits_from_bytes(&bytes), values);
}

#[test]
fn load_after_save_gives_state_back() {
    let mut s = settings_with(Structure::Exp3);
    s.max_bonds = 2;
    let mut st = State::new(&mut s, &vec![]);
    st.pos = vec![1.0f32.to_bits(), (-0.5f32).to_bits(), 2.0f32.to_bits(), 0];
    st.forces[2] = 5.0f32.to_bits();
    st.save();
    let mut loaded = State::new(&mut settings_with(Structure::Random), &vec![]);
    loaded.flatbuffer = st.flatbuffer.clone();
    loaded.load();
    assert_eq!(loaded.p_count, st.p_count);
    assert_eq!(loaded.pos, st.pos);
    assert_eq!(loaded.vel, st.vel);
    assert_eq!(loaded.acc, st.acc);
    assert_eq!(loaded.rot, st.rot);
    assert_eq!(loaded.rot_vel, st.rot_vel);
    assert_eq!(loaded.forces, st.forces);
    assert_eq!(loaded.radii, st.radii);
    assert_eq!(loaded.fixity, st.fixity);
    assert_eq!(loaded.bonds, st.bonds);
    assert_eq!(loaded.bond_info, st.bond_info);
    assert_eq!(loaded.material_pointers, st.material_pointers);
    assert_eq!(loaded.flatbuffer, st.flatbuffer);
}

#[test]
fn save_keeps_the_particle_data() {
    let mut s = settings_with(Structure::Exp1);
    s.max_bonds = 1;
    let mut st = State::new(&mut s, &vec![]);
    st.vel[2] = (-1.0f32).to_bits();
    let vel = st.vel.clone();
    let fixity = st.fixity.clone();
    let before = st.flatbuffer.clone();
    st.save();
    assert_eq!(st.vel, vel);
    assert_eq!(st.fixity, fixity);
    assert_ne!(st.flatbuffer, before);
    assert_eq!(st.flatbuffer, encode_state(&st));
}
