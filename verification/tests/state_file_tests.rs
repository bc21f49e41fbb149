use dem_sim::settings::{Settings, Structure};
use dem_sim::state::State;
use dem_sim::state_file::{decode_state, encode_state};
use flatbuffers::{FlatBufferBuilder, ForwardsUOffset, Verifiable, Vector, Verifier, VerifierOptions};

/// The state table as the flatbuffers verifier checks it.
struct StateTable;

impl Verifiable for StateTable {
    fn run_verifier(v: &mut Verifier, pos: usize) -> Result<(), flatbuffers::InvalidFlatbuffer> {
        v.visit_table(pos)?
            .visit_field::<i32>("particles", 4, false)?
            .visit_field::<ForwardsUOffset<Vector<'_, f32>>>("pos", 6, true)?
            .visit_field::<ForwardsUOffset<Vector<'_, f32>>>("vel", 8, true)?
            .visit_field::<ForwardsUOffset<Vector<'_, f32>>>("acc", 10, true)?
            .visit_field::<ForwardsUOffset<Vector<'_, f32>>>("rot", 12, true)?
            .visit_field::<ForwardsUOffset<Vector<'_, f32>>>("rot_vel", 14, true)?
            .visit_field::<ForwardsUOffset<Vector<'_, f32>>>("forces", 16, true)?
            .visit_field::<ForwardsUOffset<Vector<'_, f32>>>("radii", 18, true)?
            .visit_field::<ForwardsUOffset<Vector<'_, i32>>>("fixity", 20, true)?
            .visit_field::<ForwardsUOffset<Vector<'_, i32>>>("bonds", 22, true)?
            .visit_field::<ForwardsUOffset<Vector<'_, i32>>>("bond_info", 24, true)?
            .visit_field::<ForwardsUOffset<Vector<'_, i32>>>("material_pointers", 26, true)?
            .finish();
        Ok(())
    }
}

fn flatbuffer_accepts(buf: &[u8]) -> bool {
    let opts = VerifierOptions::default();
    let mut v = Verifier::new(&opts, buf);
    <ForwardsUOffset<StateTable>>::run_verifier(&mut v, 0).is_ok()
}

fn scene(structure: Structure, particles: usize, max_bonds: usize) -> State {
    let mut s = Settings::new();
    s.structure = structure;
    s.particles = particles;
    s.max_bonds = max_bonds;
    State::new(&mut s, &vec![])
}

fn le(v: &[u32]) -> Vec<u8> {
    v.iter().flat_map(|x| x.to_le_bytes()).collect()
}

fn le_ints(v: &[i32]) -> Vec<u8> {
    v.iter().flat_map(|x| x.to_le_bytes()).collect()
}

#[test]
fn empty_state_file_bytes() {
    let st = scene(Structure::Random, 0, 1);
    let b = encode_state(&st);
    assert_eq!(b.len(), 136);
    assert_eq!(&b[..4], &[32, 0, 0, 0]);
    let vtable: Vec<u8> = vec![
        28, 0, 52, 0, 4, 0, 8, 0, 12, 0, 16, 0, 20, 0, 24, 0, 28, 0, 32, 0, 36, 0, 40, 0, 44, 0,
        48, 0,
    ];
    assert_eq!(&b[4..32], &vtable[..]);
    assert_eq!(&b[32..36], &[28, 0, 0, 0]);
    assert_eq!(&b[36..40], &[0, 0, 0, 0]);
    // The first vector sits at 84, four bytes past field 1 at 40.
    assert_eq!(&b[40..44], &[44, 0, 0, 0]);
    // Seven empty float vectors and an empty fixity vector, then bonds [-1].
    assert_eq!(&b[116..124], &[1, 0, 0, 0, 0xff, 0xff, 0xff, 0xff]);
    assert_eq!(&b[124..132], &[1, 0, 0, 0, 0xff, 0xff, 0xff, 0xff]);
    assert_eq!(&b[132..136], &[0, 0, 0, 0]);
}

#[test]
fn state_file_is_a_flatbuffer() {
    let mut st = scene(Structure::Exp3, 0, 3);
    st.pos = vec![1.0f32.to_bits(), 0, 0.02f32.to_bits(), 0];
    let b = encode_state(&st);
    assert!(flatbuffer_accepts(&b));
    assert_eq!(b.len(), 128 + 4 * (20 * 2 + 4 + 6));
}

#[test]
fn decode_gives_encoded_fields() {
    let mut st = scene(Structure::Exp5, 0, 2);
    st.rot = vec![0.5f32.to_bits(), (-0.25f32).to_bits()];
    let e = decode_state(&encode_state(&st)).unwrap();
    assert_eq!(e.particles, 2);
    assert_eq!(e.pos, le(&st.pos));
    assert_eq!(e.vel, le(&st.vel));
    assert_eq!(e.acc, le(&st.acc));
    assert_eq!(e.rot, le(&st.rot));
    assert_eq!(e.rot_vel, le(&st.rot_vel));
    assert_eq!(e.forces, le(&st.forces));
    assert_eq!(e.radii, le(&st.radii));
    assert_eq!(e.fixity, le_ints(&st.fixity));
    assert_eq!(e.bonds, le_ints(&st.bonds));
    assert_eq!(e.bond_info, le_ints(&st.bond_info));
    assert_eq!(e.material_pointers, le_ints(&st.material_pointers));
}

#[test]
fn decode_reads_builder_layout() {
    let mut builder = FlatBufferBuilder::new();
    let pos = builder.create_vector(&[1.0f32, 2.0]);
    let empty = builder.create_vector::<f32>(&[]);
    let fixity = builder.create_vector(&[1i32, 0, 1]);
    let none = builder.create_vector::<i32>(&[]);
    let start = builder.start_table();
    builder.push_slot_always(26, none);
    builder.push_slot_always(24, none);
    builder.push_slot_always(22, none);
    builder.push_slot_always(20, fixity);
    for slot in [18u16, 16, 14, 12, 10, 8] {
        builder.push_slot_always(slot, empty);
    }
    builder.push_slot_always(6, pos);
    builder.push_slot::<i32>(4, 7, 0);
    let root = builder.end_table(start);
    builder.finish(root, None);
    let b = builder.finished_data().to_vec();
    assert!(flatbuffer_accepts(&b));
    let e = decode_state(&b).unwrap();
    assert_eq!(e.particles, 7);
    assert_eq!(e.pos, le(&[1.0f32.to_bits(), 2.0f32.to_bits()]));
    assert!(e.vel.is_empty());
    assert_eq!(e.fixity, le_ints(&[1, 0, 1]));
    assert!(e.material_pointers.is_empty());
}

#[test]
fn decode_rejects_a_missing_vector() {
    let mut builder = FlatBufferBuilder::new();
    let empty = builder.create_vector::<f32>(&[]);
    let none = builder.create_vector::<i32>(&[]);
    let start = builder.start_table();
    builder.push_slot_always(26, none);
    builder.push_slot_always(24, none);
    builder.push_slot_always(20, none);
    for slot in [18u16, 16, 14, 12, 10, 8, 6] {
        builder.push_slot_always(slot, empty);
    }
    let root = builder.end_table(start);
    builder.finish(root, None);
    assert!(decode_state(builder.finished_data()).is_none());
}

#[test]
fn decode_rejects_short_or_broken_buffers() {
    assert!(decode_state(&[]).is_none());
    assert!(decode_state(&[4, 0, 0]).is_none());
    assert!(decode_state(&[0, 0, 0, 0]).is_none());
    let b = encode_state(&scene(Structure::Random, 1, 1));
    assert!(decode_state(&b[..b.len() - 1]).is_none());
    let mut misaligned = b.clone();
    misaligned[0] = 33;
    assert!(decode_state(&misaligned).is_none());
    let mut past_end = b.clone();
    past_end[0] = 0xfc;
    past_end[1] = 0xff;
    assert!(decode_state(&past_end).is_none());
    let mut long_vector = b.clone();
    long_vector[84] = 200;
    assert!(decode_state(&long_vector).is_none());
}
