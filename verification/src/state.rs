use vstd::prelude::*;
use crate::settings::{Settings, Structure};
use crate::setup::{
    p_count, spec_p_count, counted, grid, exp1, exp2, exp3, exp4, exp5, filled, fixed,
    experiment_settings, unset,
};
use crate::bonds::{bond_table, bond_info_spec, unset_removed};
use crate::state_file::{
    decode_state, encode_state, encoding, entry_total, field_bytes, file_len, lemma_file_len,
    lemma_encoding_ignores_buffer, lemma_file_round_trip, particles_value, state_readable, vector_bytes,
};

verus! {

/// The unsigned value of the four little-endian bytes at word `k` of `b`.
pub open spec fn le_word(b: Seq<u8>, k: int) -> int {
    b[4 * k] + 256 * b[4 * k + 1] + 65536 * b[4 * k + 2] + 16777216 * b[4 * k + 3]
}

/// The four little-endian bytes of a 32-bit word.
pub open spec fn le_bytes(u: u32) -> Seq<u8> {
    seq![
        (u % 256) as u8,
        ((u / 256) % 256) as u8,
        ((u / 65536) % 256) as u8,
        ((u / 16777216) % 256) as u8,
    ]
}

/// The little-endian bytes of a sequence of words, word after word.
pub open spec fn bytes_of_words(w: Seq<u32>) -> Seq<u8>
    decreases w.len(),
{
    if w.len() == 0 {
        Seq::empty()
    } else {
        bytes_of_words(w.drop_last()) + le_bytes(w.last())
    }
}

/// The little-endian two's-complement bytes of a sequence of integers.
pub open spec fn bytes_of_ints(v: Seq<i32>) -> Seq<u8> {
    bytes_of_words(v.map_values(|x: i32| x as u32))
}

pub(crate) proof fn lemma_word_bytes(u: u32)
    ensures
        le_word(le_bytes(u), 0) == u,
{
    let b = le_bytes(u);
    assert((u % 256) + 256 * ((u / 256) % 256) + 65536 * ((u / 65536) % 256) + 16777216 * ((u
        / 16777216) % 256) == u) by (nonlinear_arith);
}

pub(crate) proof fn lemma_bytes_of_words(w: Seq<u32>)
    ensures
        bytes_of_words(w).len() == 4 * w.len(),
        forall|k: int| 0 <= k < w.len() ==> #[trigger] le_word(bytes_of_words(w), k) == w[k],
    decreases w.len(),
{
    if w.len() > 0 {
        let prev = w.drop_last();
        lemma_bytes_of_words(prev);
        let b = bytes_of_words(w);
        let pb = bytes_of_words(prev);
        assert(b == pb + le_bytes(w.last()));
        lemma_word_bytes(w.last());
        assert forall|k: int| 0 <= k < w.len() implies #[trigger] le_word(b, k) == w[k] by {
            if k < w.len() - 1 {
                assert(le_word(pb, k) == prev[k]);
                assert(b[4 * k] == pb[4 * k]);
                assert(b[4 * k + 1] == pb[4 * k + 1]);
                assert(b[4 * k + 2] == pb[4 * k + 2]);
                assert(b[4 * k + 3] == pb[4 * k + 3]);
            } else {
                let lb = le_bytes(w.last());
                assert(b[4 * k] == lb[0]);
                assert(b[4 * k + 1] == lb[1]);
                assert(b[4 * k + 2] == lb[2]);
                assert(b[4 * k + 3] == lb[3]);
            }
        }
    }
}

/// Reading back the little-endian bytes of a sequence of words gives the
/// words.
pub proof fn lemma_words_round_trip(w: Seq<u32>)
    ensures
        words_of(bytes_of_words(w)) == w,
{
    lemma_bytes_of_words(w);
    assert(words_of(bytes_of_words(w)) =~= w);
}

/// Reading back the little-endian two's-complement bytes of a sequence of
/// integers gives the integers.
pub proof fn lemma_ints_round_trip(v: Seq<i32>)
    ensures
        ints_of(bytes_of_ints(v)) == v,
{
    let u = v.map_values(|x: i32| x as u32);
    lemma_bytes_of_words(u);
    assert forall|k: int| 0 <= k < v.len() implies #[trigger] ints_of(bytes_of_ints(v))[k] == v[k] by {
        let x = v[k];
        assert(u[k] == x as u32);
        assert(((x as u32) as i32) == x) by (bit_vector);
    }
    assert(ints_of(bytes_of_ints(v)) =~= v);
}

/// Reads a byte buffer as consecutive little-endian 32-bit words, each kept
/// as its bit pattern; trailing bytes that do not fill a word are ignored.
pub fn f32_bits_from_bytes(bytes: &[u8]) -> (v: Vec<u32>)
    ensures
        v@.len() == bytes@.len() / 4,
        forall|k: int| 0 <= k < v@.len() ==> #[trigger] v@[k] as int == le_word(bytes@, k),
{
    let len = bytes.len();
    let n = len / 4;
    let mut v: Vec<u32> = Vec::new();
    let mut k: usize = 0;
    while k < n
        invariant
            len == bytes@.len(),
            n == len / 4,
            k <= n,
            v@.len() == k,
            forall|m: int| 0 <= m < k ==> #[trigger] v@[m] as int == le_word(bytes@, m),
        decreases n - k,
    {
        let b0 = bytes[4 * k] as u32;
        let b1 = bytes[4 * k + 1] as u32;
        let b2 = bytes[4 * k + 2] as u32;
        let b3 = bytes[4 * k + 3] as u32;
        let w = b0 + 256 * b1 + 65536 * b2 + 16777216 * b3;
        v.push(w);
        k = k + 1;
    }
    v
}

/// Reads a byte buffer as consecutive little-endian two's-complement 32-bit
/// integers; trailing bytes that do not fill a word are ignored.
pub fn i32_vec_from_bytes(bytes: &[u8]) -> (v: Vec<i32>)
    ensures
        v@.len() == bytes@.len() / 4,
        forall|k: int| 0 <= k < v@.len() ==> #[trigger] v@[k] == le_word(bytes@, k) as i32,
{
    let words = f32_bits_from_bytes(bytes);
    let mut v: Vec<i32> = Vec::new();
    let mut k: usize = 0;
    while k < words.len()
        invariant
            words@.len() == bytes@.len() / 4,
            forall|m: int| 0 <= m < words@.len() ==> #[trigger] words@[m] as int == le_word(bytes@, m),
            k <= words@.len(),
            v@.len() == k,
            forall|m: int| 0 <= m < k ==> #[trigger] v@[m] == le_word(bytes@, m) as i32,
        decreases words@.len() - k,
    {
        v.push(words[k] as i32);
        k = k + 1;
    }
    v
}

/// The particle state of the simulation.  Floating-point quantities are
/// held as their IEEE-754 single-precision bit patterns.
pub struct State {
    /// Number of particles.
    pub p_count: usize,
    /// Positions, two entries (x, y) per particle.
    pub pos: Vec<u32>,
    /// Velocities, two entries per particle.
    pub vel: Vec<u32>,
    /// Accelerations, three entries per particle.
    pub acc: Vec<u32>,
    /// Angles, one per particle.
    pub rot: Vec<u32>,
    /// Angular velocities, one per particle.
    pub rot_vel: Vec<u32>,
    /// Applied forces, six entries per particle.
    pub forces: Vec<u32>,
    /// Radii, one per particle.
    pub radii: Vec<u32>,
    /// Fixity flags (x-velocity, y-velocity, angular velocity) per particle.
    pub fixity: Vec<i32>,
    /// Compacted bond list.
    pub bonds: Vec<i32>,
    /// Start and count of each particle's bonds.
    pub bond_info: Vec<i32>,
    /// Material index of each particle.
    pub material_pointers: Vec<i32>,
    /// The serialized form of the state.
    pub flatbuffer: Vec<u8>,
}

/// The fields of a serialized state as they are read back: the particle
/// count, and the raw little-endian bytes of each vector.
pub struct EncodedState {
    pub particles: i32,
    pub pos: Vec<u8>,
    pub vel: Vec<u8>,
    pub acc: Vec<u8>,
    pub rot: Vec<u8>,
    pub rot_vel: Vec<u8>,
    pub forces: Vec<u8>,
    pub radii: Vec<u8>,
    pub fixity: Vec<u8>,
    pub bonds: Vec<u8>,
    pub bond_info: Vec<u8>,
    pub material_pointers: Vec<u8>,
}

/// The words of a byte sequence as bit patterns.
pub open spec fn words_of(b: Seq<u8>) -> Seq<u32> {
    Seq::new((b.len() / 4) as nat, |k: int| le_word(b, k) as u32)
}

/// The words of a byte sequence as two's-complement integers.
pub open spec fn ints_of(b: Seq<u8>) -> Seq<i32> {
    Seq::new((b.len() / 4) as nat, |k: int| le_word(b, k) as i32)
}

/// `n` zero bit patterns (0.0).
pub open spec fn zero_bits(n: int) -> Seq<u32> {
    Seq::new(n as nat, |k: int| 0u32)
}

/// `n` zero integers.
pub open spec fn zero_ints(n: int) -> Seq<i32> {
    Seq::new(n as nat, |k: int| 0i32)
}

/// The fixity flags that each two-particle experiment gives particles A and B.
pub open spec fn experiment_fixity(st: Structure) -> Seq<i32> {
    match st {
        Structure::Exp1 => seq![1i32, 1, 1, 0, 0, 0],
        Structure::Exp2 => seq![0i32, 0, 0, 1, 1, 1],
        Structure::Exp3 => seq![1i32, 1, 0, 0, 1, 1],
        Structure::Exp4 => seq![1i32, 1, 0, 0, 1, 1],
        _ => seq![0i32, 0, 0, 0, 0, 0],
    }
}

impl State {
    /// Allocates the state for the scene in `settings` (all quantities zero,
    /// no bonds), sets the scene up and serializes it: the grid builds its
    /// bonds from the caller's `contacts` (see `grid`), each experiment sets
    /// its settings and fixity flags, and the random scene is left as
    /// allocated.  The caller places the particles (floating point) and saves
    /// again.  The state file must stay below 2^31 bytes (see
    /// `scene_file_len`).
    pub fn new(settings: &mut Settings, contacts: &Vec<Option<(i32, i32)>>) -> (st: State)
        requires
            6 * spec_p_count(*old(settings)) <= usize::MAX,
            old(settings).structure == Structure::Grid ==> {
                &&& 256 * old(settings).workgroups <= usize::MAX
                &&& contacts@.len() == spec_p_count(*old(settings)) * spec_p_count(*old(settings))
                &&& 3 * old(settings).max_bonds * spec_p_count(*old(settings)) <= usize::MAX
            },
            old(settings).structure != Structure::Grid && old(settings).structure != Structure::Random
                ==> 2 * old(settings).max_bonds <= usize::MAX,
            scene_file_len(*old(settings), contacts@) < 0x8000_0000,
        ensures
            st.p_count == spec_p_count(*old(settings)),
            st.pos@ == zero_bits(2 * st.p_count),
            st.vel@ == zero_bits(2 * st.p_count),
            st.acc@ == zero_bits(3 * st.p_count),
            st.rot@ == zero_bits(st.p_count as int),
            st.rot_vel@ == zero_bits(st.p_count as int),
            st.forces@ == zero_bits(6 * st.p_count),
            st.radii@ == zero_bits(st.p_count as int),
            st.material_pointers@ == zero_ints(st.p_count as int),
            st.flatbuffer@ == encoding(st),
            (match old(settings).structure {
                Structure::Grid => {
                    &&& *final(settings) == (Settings { two_part: false, ..counted(*old(settings)) })
                    &&& st.fixity@ == zero_ints(3 * st.p_count)
                    &&& st.bonds@ == unset_removed(
                        bond_table(contacts@, st.p_count as int, old(settings).max_bonds as int),
                    )
                    &&& st.bond_info@ == bond_info_spec(
                        bond_table(contacts@, st.p_count as int, old(settings).max_bonds as int),
                        old(settings).max_bonds as int,
                        st.p_count as int,
                    )
                },
                Structure::Random => {
                    &&& *final(settings) == counted(*old(settings))
                    &&& st.fixity@ == zero_ints(3 * st.p_count)
                    &&& st.bonds@ == seq![-1i32]
                    &&& st.bond_info@ == seq![-1i32]
                },
                _ => {
                    &&& *final(settings) == experiment_settings(counted(*old(settings)))
                    &&& st.fixity@ == experiment_fixity(old(settings).structure)
                    &&& st.bonds@ == unset(4)
                    &&& st.bond_info@ == unset(2 * old(settings).max_bonds)
                },
            }),
    {
        let p = p_count(settings);
        let pos = filled(0u32, 2 * p);
        let vel = filled(0u32, 2 * p);
        let acc = filled(0u32, 3 * p);
        let rot = filled(0u32, p);
        let rot_vel = filled(0u32, p);
        let forces = filled(0u32, 6 * p);
        let radii = filled(0u32, p);
        let mut fixity = filled(0i32, 3 * p);
        let mut bonds = filled(-1i32, 1);
        let mut bond_info = filled(-1i32, 1);
        let material_pointers = filled(0i32, p);
        assert(zero_ints(3 * p) =~= Seq::new((3 * p) as nat, |k: int| 0i32));
        match settings.structure {
            Structure::Grid => {
                let made = grid(settings, contacts);
                bonds = made.0;
                bond_info = made.1;
            },
            Structure::Exp1 => {
                let made = exp1(settings, &mut fixity);
                bonds = made.0;
                bond_info = made.1;
                assert(fixity@ =~= experiment_fixity(Structure::Exp1));
            },
            Structure::Exp2 => {
                let made = exp2(settings, &mut fixity);
                bonds = made.0;
                bond_info = made.1;
                assert(fixity@ =~= experiment_fixity(Structure::Exp2));
            },
            Structure::Exp3 => {
                let made = exp3(settings, &mut fixity);
                bonds = made.0;
                bond_info = made.1;
                assert(fixity@ =~= experiment_fixity(Structure::Exp3));
            },
            Structure::Exp4 => {
                let made = exp4(settings, &mut fixity);
                bonds = made.0;
                bond_info = made.1;
                assert(fixity@ =~= experiment_fixity(Structure::Exp4));
            },
            Structure::Exp5 => {
                let made = exp5(settings, &mut fixity);
                bonds = made.0;
                bond_info = made.1;
                assert(fixity@ =~= experiment_fixity(Structure::Exp5));
            },
            Structure::Random => {
                assert(bonds@ =~= seq![-1i32]);
                assert(bond_info@ =~= seq![-1i32]);
            },
        }
        let mut st = State {
            p_count: p,
            pos,
            vel,
            acc,
            rot,
            rot_vel,
            forces,
            radii,
            fixity,
            bonds,
            bond_info,
            material_pointers,
            flatbuffer: Vec::new(),
        };
        proof {
            lemma_file_len(st);
        }
        st.save();
        st
    }

    /// Serializes the state into `flatbuffer` (see `encoding`); every other
    /// field is kept.  The file must stay below 2^31 bytes.
    pub fn save(&mut self)
        requires
            file_len(*old(self)) < 0x8000_0000,
        ensures
            final(self).flatbuffer@ == encoding(*old(self)),
            final(self).flatbuffer@ == encoding(*final(self)),
            *final(self) == (State { flatbuffer: final(self).flatbuffer, ..*old(self) }),
    {
        self.flatbuffer = encode_state(self);
        proof {
            lemma_encoding_ignores_buffer(*self, *old(self));
        }
    }

    /// Replaces the particle data with what `flatbuffer` holds: the particle
    /// count (its two's-complement bits read as unsigned), and each vector
    /// decoded from its little-endian bytes.  The buffer must hold a readable
    /// state (see `decode_state`); it is kept.
    pub fn load(&mut self)
        requires
            state_readable(old(self).flatbuffer@),
        ensures
            final(self).p_count == particles_value(old(self).flatbuffer@) as usize,
            final(self).pos@ == words_of(vector_bytes(old(self).flatbuffer@, 1)),
            final(self).vel@ == words_of(vector_bytes(old(self).flatbuffer@, 2)),
            final(self).acc@ == words_of(vector_bytes(old(self).flatbuffer@, 3)),
            final(self).rot@ == words_of(vector_bytes(old(self).flatbuffer@, 4)),
            final(self).rot_vel@ == words_of(vector_bytes(old(self).flatbuffer@, 5)),
            final(self).forces@ == words_of(vector_bytes(old(self).flatbuffer@, 6)),
            final(self).radii@ == words_of(vector_bytes(old(self).flatbuffer@, 7)),
            final(self).fixity@ == ints_of(vector_bytes(old(self).flatbuffer@, 8)),
            final(self).bonds@ == ints_of(vector_bytes(old(self).flatbuffer@, 9)),
            final(self).bond_info@ == ints_of(vector_bytes(old(self).flatbuffer@, 10)),
            final(self).material_pointers@ == ints_of(vector_bytes(old(self).flatbuffer@, 11)),
            final(self).flatbuffer@ == old(self).flatbuffer@,
    {
        let decoded = decode_state(self.flatbuffer.as_slice());
        if let Some(enc) = decoded {
            self.load_encoded(&enc);
        }
    }

    /// Replaces the particle data with the fields read from a state file.
    fn load_encoded(&mut self, enc: &EncodedState)
        ensures
            final(self).p_count == enc.particles as usize,
            final(self).pos@ == words_of(enc.pos@),
            final(self).vel@ == words_of(enc.vel@),
            final(self).acc@ == words_of(enc.acc@),
            final(self).rot@ == words_of(enc.rot@),
            final(self).rot_vel@ == words_of(enc.rot_vel@),
            final(self).forces@ == words_of(enc.forces@),
            final(self).radii@ == words_of(enc.radii@),
            final(self).fixity@ == ints_of(enc.fixity@),
            final(self).bonds@ == ints_of(enc.bonds@),
            final(self).bond_info@ == ints_of(enc.bond_info@),
            final(self).material_pointers@ == ints_of(enc.material_pointers@),
            final(self).flatbuffer@ == old(self).flatbuffer@,
    {
        self.p_count = enc.particles as usize;
        self.pos = words_vec(enc.pos.as_slice());
        self.vel = words_vec(enc.vel.as_slice());
        self.acc = words_vec(enc.acc.as_slice());
        self.rot = words_vec(enc.rot.as_slice());
        self.rot_vel = words_vec(enc.rot_vel.as_slice());
        self.forces = words_vec(enc.forces.as_slice());
        self.radii = words_vec(enc.radii.as_slice());
        self.fixity = ints_vec(enc.fixity.as_slice());
        self.bonds = ints_vec(enc.bonds.as_slice());
        self.bond_info = ints_vec(enc.bond_info.as_slice());
        self.material_pointers = ints_vec(enc.material_pointers.as_slice());
    }
}

fn words_vec(b: &[u8]) -> (v: Vec<u32>)
    ensures
        v@ == words_of(b@),
{
    let v = f32_bits_from_bytes(b);
    assert(v@ =~= words_of(b@));
    v
}

fn ints_vec(b: &[u8]) -> (v: Vec<i32>)
    ensures
        v@ == ints_of(b@),
{
    let v = i32_vec_from_bytes(b);
    assert(v@ =~= ints_of(b@));
    v
}

/// The size of the state file of the scene that `State::new` sets up from
/// these settings and contacts: 128 bytes of header and counts, and four
/// bytes per vector entry (twenty per particle, plus the bonds and the bond
/// info of the scene).
pub open spec fn scene_file_len(s: Settings, contacts: Seq<Option<(i32, i32)>>) -> int {
    let p = spec_p_count(s);
    let bond_entries = match s.structure {
        Structure::Grid => unset_removed(bond_table(contacts, p, s.max_bonds as int)).len() + 2 * p,
        Structure::Random => 2,
        _ => 4 + 2 * s.max_bonds,
    };
    128 + 4 * (20 * p + bond_entries)
}

/// Loading what was saved gives the state back: the file of a state (below
/// 2^31 bytes, with a particle count that fits in an `i32`) is readable, and
/// every field that `load` sets from it comes out equal to that field of the
/// state (the floats bit for bit).
pub proof fn lemma_load_after_save(st: State)
    requires
        file_len(st) < 0x8000_0000,
        st.p_count <= i32::MAX,
    ensures
        state_readable(encoding(st)),
        particles_value(encoding(st)) as usize == st.p_count,
        words_of(vector_bytes(encoding(st), 1)) == st.pos@,
        words_of(vector_bytes(encoding(st), 2)) == st.vel@,
        words_of(vector_bytes(encoding(st), 3)) == st.acc@,
        words_of(vector_bytes(encoding(st), 4)) == st.rot@,
        words_of(vector_bytes(encoding(st), 5)) == st.rot_vel@,
        words_of(vector_bytes(encoding(st), 6)) == st.forces@,
        words_of(vector_bytes(encoding(st), 7)) == st.radii@,
        ints_of(vector_bytes(encoding(st), 8)) == st.fixity@,
        ints_of(vector_bytes(encoding(st), 9)) == st.bonds@,
        ints_of(vector_bytes(encoding(st), 10)) == st.bond_info@,
        ints_of(vector_bytes(encoding(st), 11)) == st.material_pointers@,
{
    lemma_file_round_trip(st);
    let b = encoding(st);
    assert(vector_bytes(b, 1) == field_bytes(st, 1));
    assert(vector_bytes(b, 2) == field_bytes(st, 2));
    assert(vector_bytes(b, 3) == field_bytes(st, 3));
    assert(vector_bytes(b, 4) == field_bytes(st, 4));
    assert(vector_bytes(b, 5) == field_bytes(st, 5));
    assert(vector_bytes(b, 6) == field_bytes(st, 6));
    assert(vector_bytes(b, 7) == field_bytes(st, 7));
    assert(vector_bytes(b, 8) == field_bytes(st, 8));
    assert(vector_bytes(b, 9) == field_bytes(st, 9));
    assert(vector_bytes(b, 10) == field_bytes(st, 10));
    assert(vector_bytes(b, 11) == field_bytes(st, 11));
    lemma_words_round_trip(st.pos@);
    lemma_words_round_trip(st.vel@);
    lemma_words_round_trip(st.acc@);
    lemma_words_round_trip(st.rot@);
    lemma_words_round_trip(st.rot_vel@);
    lemma_words_round_trip(st.forces@);
    lemma_words_round_trip(st.radii@);
    lemma_ints_round_trip(st.fixity@);
    lemma_ints_round_trip(st.bonds@);
    lemma_ints_round_trip(st.bond_info@);
    lemma_ints_round_trip(st.material_pointers@);
}

} // verus!
