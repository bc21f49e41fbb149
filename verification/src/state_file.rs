use vstd::prelude::*;
use crate::state::{EncodedState, State, le_bytes, bytes_of_words, bytes_of_ints, lemma_word_bytes, lemma_bytes_of_words};

verus! {

// The state file is a flatbuffer holding one table, the root, whose fields
// are, by field number `k`: 0 the particle count (an `i32`, 0 when absent),
// then 1 to 7 the float vectors (positions, velocities, accelerations,
// angles, angular velocities, forces, radii) and 8 to 11 the integer
// vectors (fixity, bonds, bond info, material pointers).  All numbers are
// little-endian.  A buffer is read as the flatbuffers verifier checks it:
// every offset in range and every value aligned to its size.  The
// verifier's budget on the bytes it visits (2^31 in all, overlapping vectors
// counted again) is not applied, so a buffer whose vectors overlap that much
// is read here where the verifier refuses it.

/// The unsigned 16-bit value at byte `pos`.
pub open spec fn u16_at(b: Seq<u8>, pos: int) -> int {
    b[pos] + 256 * b[pos + 1]
}

/// The unsigned 32-bit value at byte `pos`.
pub open spec fn u32_at(b: Seq<u8>, pos: int) -> int {
    b[pos] + 256 * b[pos + 1] + 65536 * b[pos + 2] + 16777216 * b[pos + 3]
}

/// The two's-complement 32-bit value at byte `pos`.
pub open spec fn i32_at(b: Seq<u8>, pos: int) -> i32 {
    (u32_at(b, pos) as u32) as i32
}

/// Whether a value of `size` bytes at `pos` lies in the buffer, aligned to
/// its size.
pub open spec fn in_buffer(b: Seq<u8>, pos: int, size: int) -> bool {
    0 <= pos && pos % size == 0 && pos + size <= b.len()
}

/// Where the root table starts.
pub open spec fn root_table(b: Seq<u8>) -> int {
    u32_at(b, 0)
}

/// Where the root table's vtable starts: the table's signed offset back.
pub open spec fn root_vtable(b: Seq<u8>) -> int {
    root_table(b) - i32_at(b, root_table(b)) as int
}

/// The byte length of the root table's vtable.
pub open spec fn vtable_len(b: Seq<u8>) -> int {
    u16_at(b, root_vtable(b))
}

/// Whether the root offset, the root table and its vtable are in range and
/// aligned.
pub open spec fn table_ok(b: Seq<u8>) -> bool {
    &&& in_buffer(b, 0, 4)
    &&& in_buffer(b, root_table(b), 4)
    &&& 0 <= root_vtable(b) < b.len()
    &&& in_buffer(b, root_vtable(b), 2)
    &&& vtable_len(b) % 2 == 0
    &&& root_vtable(b) + vtable_len(b) <= b.len()
}

/// The vtable entry of field `k`: its offset in the table, 0 when absent.
pub open spec fn field_offset(b: Seq<u8>, k: int) -> int {
    if 4 + 2 * k < vtable_len(b) {
        u16_at(b, root_vtable(b) + 4 + 2 * k)
    } else {
        0
    }
}

/// Where field `k` lies (meaningful when it is present).
pub open spec fn field_pos(b: Seq<u8>, k: int) -> int {
    root_table(b) + field_offset(b, k)
}

/// Whether the particle count can be read: absent, or an aligned `i32` in
/// range.
pub open spec fn particles_ok(b: Seq<u8>) -> bool {
    field_offset(b, 0) == 0 || in_buffer(b, field_pos(b, 0), 4)
}

/// The particle count: 0 when the field is absent.
pub open spec fn particles_value(b: Seq<u8>) -> i32 {
    if field_offset(b, 0) == 0 {
        0i32
    } else {
        i32_at(b, field_pos(b, 0))
    }
}

/// Where vector field `k` starts: its offset field points forward to it.
pub open spec fn vector_start(b: Seq<u8>, k: int) -> int {
    field_pos(b, k) + u32_at(b, field_pos(b, k))
}

/// The number of entries of vector field `k`.
pub open spec fn vector_count(b: Seq<u8>, k: int) -> int {
    u32_at(b, vector_start(b, k))
}

/// Whether vector field `k` is present, with its offset, its length and its
/// four-byte entries in range and aligned.
pub open spec fn vector_ok(b: Seq<u8>, k: int) -> bool {
    &&& field_offset(b, k) > 0
    &&& in_buffer(b, field_pos(b, k), 4)
    &&& in_buffer(b, vector_start(b, k), 4)
    &&& vector_start(b, k) + 4 + 4 * vector_count(b, k) <= b.len()
}

/// The entry bytes of vector field `k`.
pub open spec fn vector_bytes(b: Seq<u8>, k: int) -> Seq<u8> {
    b.subrange(vector_start(b, k) + 4, vector_start(b, k) + 4 + 4 * vector_count(b, k))
}

/// Whether a buffer holds a readable state: a well-formed root table whose
/// particle count can be read and whose eleven vectors are all present.
pub open spec fn state_readable(b: Seq<u8>) -> bool {
    &&& table_ok(b)
    &&& particles_ok(b)
    &&& forall|k: int| 1 <= k <= 11 ==> #[trigger] vector_ok(b, k)
}

fn fits(pos: usize, size: usize, len: usize) -> (r: bool)
    ensures
        r == (pos + size <= len),
{
    pos <= len && size <= len - pos
}

fn read_u16(b: &[u8], pos: usize) -> (x: u16)
    requires
        pos + 2 <= b@.len(),
    ensures
        x as int == u16_at(b@, pos as int),
{
    b[pos] as u16 + 256 * (b[pos + 1] as u16)
}

fn read_u32(b: &[u8], pos: usize) -> (x: u32)
    requires
        pos + 4 <= b@.len(),
    ensures
        x as int == u32_at(b@, pos as int),
{
    b[pos] as u32 + 256 * (b[pos + 1] as u32) + 65536 * (b[pos + 2] as u32) + 16777216 * (b[pos
        + 3] as u32)
}

fn copy_range(b: &[u8], start: usize, end: usize) -> (v: Vec<u8>)
    requires
        start <= end <= b@.len(),
    ensures
        v@ == b@.subrange(start as int, end as int),
{
    let mut v: Vec<u8> = Vec::new();
    let mut i = start;
    while i < end
        invariant
            start <= i <= end <= b@.len(),
            v@ == b@.subrange(start as int, i as int),
        decreases end - i,
    {
        v.push(b[i]);
        i = i + 1;
        assert(v@ =~= b@.subrange(start as int, i as int));
    }
    v
}

/// Reads the vtable entry of field `k`.
fn read_field_offset(b: &[u8], vt: usize, vtlen: usize, k: usize) -> (off: usize)
    requires
        table_ok(b@),
        vt == root_vtable(b@),
        vtlen == vtable_len(b@),
        k <= 11,
    ensures
        off == field_offset(b@, k as int),
        off < 0x1_0000,
{
    let len = b.len();
    let slot = 4 + 2 * k;
    if slot < vtlen {
        assert(vt + slot + 2 <= len);
        read_u16(b, vt + slot) as usize
    } else {
        0
    }
}

/// Reads vector field `k`: its entry bytes, or `None` when it is absent or
/// out of range.
fn read_vector(b: &[u8], t: usize, vt: usize, vtlen: usize, k: usize) -> (r: Option<Vec<u8>>)
    requires
        table_ok(b@),
        t == root_table(b@),
        vt == root_vtable(b@),
        vtlen == vtable_len(b@),
        1 <= k <= 11,
    ensures
        r is Some <==> vector_ok(b@, k as int),
        r matches Some(v) ==> v@ == vector_bytes(b@, k as int),
{
    let len = b.len();
    let off = read_field_offset(b, vt, vtlen, k);
    if off == 0 || !fits(t, off, len) {
        return None;
    }
    let f = t + off;
    if f % 4 != 0 || !fits(f, 4, len) {
        return None;
    }
    let uo = read_u32(b, f) as usize;
    if !fits(f, uo, len) {
        return None;
    }
    let p = f + uo;
    if p % 4 != 0 || !fits(p, 4, len) {
        return None;
    }
    let n = read_u32(b, p) as usize;
    if n > (len - p - 4) / 4 {
        return None;
    }
    Some(copy_range(b, p + 4, p + 4 + 4 * n))
}

/// Reads a state file.  Returns its particle count and the entry bytes of
/// its eleven vectors, or `None` when the buffer holds no readable state
/// (see `state_readable`).
pub fn decode_state(b: &[u8]) -> (r: Option<EncodedState>)
    ensures
        r is Some <==> state_readable(b@),
        r matches Some(e) ==> {
            &&& e.particles == particles_value(b@)
            &&& e.pos@ == vector_bytes(b@, 1)
            &&& e.vel@ == vector_bytes(b@, 2)
            &&& e.acc@ == vector_bytes(b@, 3)
            &&& e.rot@ == vector_bytes(b@, 4)
            &&& e.rot_vel@ == vector_bytes(b@, 5)
            &&& e.forces@ == vector_bytes(b@, 6)
            &&& e.radii@ == vector_bytes(b@, 7)
            &&& e.fixity@ == vector_bytes(b@, 8)
            &&& e.bonds@ == vector_bytes(b@, 9)
            &&& e.bond_info@ == vector_bytes(b@, 10)
            &&& e.material_pointers@ == vector_bytes(b@, 11)
        },
{
    let len = b.len();
    if len < 4 {
        return None;
    }
    let t = read_u32(b, 0) as usize;
    if t % 4 != 0 || !fits(t, 4, len) {
        return None;
    }
    let s = read_u32(b, t) as i32;
    let vt: usize;
    if s > 0 {
        if s as usize > t {
            return None;
        }
        vt = t - s as usize;
    } else {
        let back = (0i64 - s as i64) as usize;
        if back >= len - t {
            return None;
        }
        vt = t + back;
    }
    if vt % 2 != 0 || !fits(vt, 2, len) {
        return None;
    }
    let vtlen = read_u16(b, vt) as usize;
    if vtlen % 2 != 0 || !fits(vt, vtlen, len) {
        return None;
    }
    let poff = read_field_offset(b, vt, vtlen, 0);
    let particles: i32 = if poff == 0 {
        0
    } else {
        if !fits(t, poff, len) {
            return None;
        }
        let f = t + poff;
        if f % 4 != 0 || !fits(f, 4, len) {
            return None;
        }
        read_u32(b, f) as i32
    };
    let pos = match read_vector(b, t, vt, vtlen, 1) { Some(v) => v, None => return None };
    let vel = match read_vector(b, t, vt, vtlen, 2) { Some(v) => v, None => return None };
    let acc = match read_vector(b, t, vt, vtlen, 3) { Some(v) => v, None => return None };
    let rot = match read_vector(b, t, vt, vtlen, 4) { Some(v) => v, None => return None };
    let rot_vel = match read_vector(b, t, vt, vtlen, 5) { Some(v) => v, None => return None };
    let forces = match read_vector(b, t, vt, vtlen, 6) { Some(v) => v, None => return None };
    let radii = match read_vector(b, t, vt, vtlen, 7) { Some(v) => v, None => return None };
    let fixity = match read_vector(b, t, vt, vtlen, 8) { Some(v) => v, None => return None };
    let bonds = match read_vector(b, t, vt, vtlen, 9) { Some(v) => v, None => return None };
    let bond_info = match read_vector(b, t, vt, vtlen, 10) { Some(v) => v, None => return None };
    let material_pointers = match read_vector(b, t, vt, vtlen, 11) {
        Some(v) => v,
        None => return None,
    };
    proof {
        assert forall|k: int| 1 <= k <= 11 implies #[trigger] vector_ok(b@, k) by {
            if k == 1 {} else if k == 2 {} else if k == 3 {} else if k == 4 {} else if k == 5 {
            } else if k == 6 {} else if k == 7 {} else if k == 8 {} else if k == 9 {} else if k
                == 10 {} else {}
        }
    }
    Some(
        EncodedState {
            particles,
            pos,
            vel,
            acc,
            rot,
            rot_vel,
            forces,
            radii,
            fixity,
            bonds,
            bond_info,
            material_pointers,
        },
    )
}

// A state is written in one fixed layout: the root offset (32), the vtable
// (28 bytes, at 4), the table (52 bytes, at 32: its signed offset back to
// the vtable, the particle count, then one forward offset per vector), and
// from byte 84 on the eleven vectors in field order, each as its entry count
// followed by its entries.

/// The entries of vector field `k` of a state (`1 <= k <= 11`), as bytes.
pub open spec fn field_bytes(st: State, k: int) -> Seq<u8> {
    if k == 1 {
        bytes_of_words(st.pos@)
    } else if k == 2 {
        bytes_of_words(st.vel@)
    } else if k == 3 {
        bytes_of_words(st.acc@)
    } else if k == 4 {
        bytes_of_words(st.rot@)
    } else if k == 5 {
        bytes_of_words(st.rot_vel@)
    } else if k == 6 {
        bytes_of_words(st.forces@)
    } else if k == 7 {
        bytes_of_words(st.radii@)
    } else if k == 8 {
        bytes_of_ints(st.fixity@)
    } else if k == 9 {
        bytes_of_ints(st.bonds@)
    } else if k == 10 {
        bytes_of_ints(st.bond_info@)
    } else {
        bytes_of_ints(st.material_pointers@)
    }
}

/// The number of entries of vector field `k` of a state.
pub open spec fn field_count(st: State, k: int) -> int {
    if k == 1 {
        st.pos@.len() as int
    } else if k == 2 {
        st.vel@.len() as int
    } else if k == 3 {
        st.acc@.len() as int
    } else if k == 4 {
        st.rot@.len() as int
    } else if k == 5 {
        st.rot_vel@.len() as int
    } else if k == 6 {
        st.forces@.len() as int
    } else if k == 7 {
        st.radii@.len() as int
    } else if k == 8 {
        st.fixity@.len() as int
    } else if k == 9 {
        st.bonds@.len() as int
    } else if k == 10 {
        st.bond_info@.len() as int
    } else {
        st.material_pointers@.len() as int
    }
}

/// Where vector field `k` starts in the file of a state; `vector_pos(st, 12)`
/// is the file's length.
pub open spec fn vector_pos(st: State, k: int) -> int
    decreases k,
{
    if k <= 1 {
        84
    } else {
        vector_pos(st, k - 1) + 4 + 4 * field_count(st, k - 1)
    }
}

/// The byte length of the file of a state.
pub open spec fn file_len(st: State) -> int {
    vector_pos(st, 12)
}

/// The vtable: its length (28), the table's length (52), and the offset
/// `4 + 4 * k` of each field `k` in the table.
pub open spec fn vtable_bytes() -> Seq<u8> {
    Seq::new(
        28,
        |i: int|
            if i == 0 {
                28u8
            } else if i == 2 {
                52u8
            } else if i >= 4 && i % 2 == 0 {
                (4 + 2 * (i - 4)) as u8
            } else {
                0u8
            },
    )
}

/// The table's forward offsets to vector fields 1 to `n`.
pub open spec fn offsets_upto(st: State, n: int) -> Seq<u8>
    decreases n,
{
    if n <= 0 {
        Seq::empty()
    } else {
        offsets_upto(st, n - 1) + le_bytes((vector_pos(st, n) - (36 + 4 * n)) as u32)
    }
}

/// Vector fields 1 to `n`, each as its count and its entries.
pub open spec fn vectors_upto(st: State, n: int) -> Seq<u8>
    decreases n,
{
    if n <= 0 {
        Seq::empty()
    } else {
        vectors_upto(st, n - 1) + le_bytes(field_count(st, n) as u32) + field_bytes(st, n)
    }
}

/// The file of a state.
#[verifier::opaque]
pub open spec fn encoding(st: State) -> Seq<u8> {
    le_bytes(32) + vtable_bytes() + le_bytes(28) + le_bytes((st.p_count as i32) as u32)
        + offsets_upto(st, 11) + vectors_upto(st, 11)
}

fn push_u32(out: &mut Vec<u8>, x: u32)
    ensures
        final(out)@ == old(out)@ + le_bytes(x),
{
    out.push((x % 256) as u8);
    out.push(((x / 256) % 256) as u8);
    out.push(((x / 65536) % 256) as u8);
    out.push(((x / 16777216) % 256) as u8);
    assert(out@ =~= old(out)@ + le_bytes(x));
}

fn push_words(out: &mut Vec<u8>, v: &Vec<u32>)
    ensures
        final(out)@ == old(out)@ + le_bytes(v@.len() as u32) + bytes_of_words(v@),
{
    push_u32(out, v.len() as u32);
    let ghost base = out@;
    let mut i: usize = 0;
    while i < v.len()
        invariant
            i <= v@.len(),
            out@ == base + bytes_of_words(v@.take(i as int)),
        decreases v@.len() - i,
    {
        proof {
            assert(v@.take(i + 1).drop_last() =~= v@.take(i as int));
            assert(v@.take(i + 1).last() == v@[i as int]);
        }
        push_u32(out, v[i]);
        i = i + 1;
        assert(out@ =~= base + bytes_of_words(v@.take(i as int)));
    }
    assert(v@.take(v@.len() as int) =~= v@);
}

fn push_ints(out: &mut Vec<u8>, v: &Vec<i32>)
    ensures
        final(out)@ == old(out)@ + le_bytes(v@.len() as u32) + bytes_of_ints(v@),
{
    push_u32(out, v.len() as u32);
    let ghost base = out@;
    let ghost m = v@.map_values(|x: i32| x as u32);
    let mut i: usize = 0;
    while i < v.len()
        invariant
            i <= v@.len(),
            m == v@.map_values(|x: i32| x as u32),
            out@ == base + bytes_of_words(m.take(i as int)),
        decreases v@.len() - i,
    {
        proof {
            assert(m.take(i + 1).drop_last() =~= m.take(i as int));
            assert(m.take(i + 1).last() == v@[i as int] as u32);
        }
        push_u32(out, v[i] as u32);
        i = i + 1;
        assert(out@ =~= base + bytes_of_words(m.take(i as int)));
    }
    assert(m.take(v@.len() as int) =~= m);
}

fn field_len(st: &State, k: usize) -> (n: usize)
    requires
        1 <= k <= 11,
    ensures
        n == field_count(*st, k as int),
{
    if k == 1 {
        st.pos.len()
    } else if k == 2 {
        st.vel.len()
    } else if k == 3 {
        st.acc.len()
    } else if k == 4 {
        st.rot.len()
    } else if k == 5 {
        st.rot_vel.len()
    } else if k == 6 {
        st.forces.len()
    } else if k == 7 {
        st.radii.len()
    } else if k == 8 {
        st.fixity.len()
    } else if k == 9 {
        st.bonds.len()
    } else if k == 10 {
        st.bond_info.len()
    } else {
        st.material_pointers.len()
    }
}

fn push_field(out: &mut Vec<u8>, st: &State, k: usize)
    requires
        1 <= k <= 11,
    ensures
        final(out)@ == old(out)@ + le_bytes(field_count(*st, k as int) as u32) + field_bytes(
            *st,
            k as int,
        ),
{
    if k == 1 {
        push_words(out, &st.pos)
    } else if k == 2 {
        push_words(out, &st.vel)
    } else if k == 3 {
        push_words(out, &st.acc)
    } else if k == 4 {
        push_words(out, &st.rot)
    } else if k == 5 {
        push_words(out, &st.rot_vel)
    } else if k == 6 {
        push_words(out, &st.forces)
    } else if k == 7 {
        push_words(out, &st.radii)
    } else if k == 8 {
        push_ints(out, &st.fixity)
    } else if k == 9 {
        push_ints(out, &st.bonds)
    } else if k == 10 {
        push_ints(out, &st.bond_info)
    } else {
        push_ints(out, &st.material_pointers)
    }
}

proof fn lemma_vector_pos(st: State, j: int, k: int)
    requires
        1 <= j <= k,
    ensures
        84 <= vector_pos(st, j) <= vector_pos(st, k),
        vector_pos(st, k) % 4 == 0,
    decreases k,
{
    if j < k {
        lemma_vector_pos(st, j, k - 1);
    } else if k > 1 {
        lemma_vector_pos(st, 1, k - 1);
    }
}

/// The number of entries of all eleven vectors of a state.
pub open spec fn entry_total(st: State) -> int {
    st.pos@.len() as int + st.vel@.len() + st.acc@.len() + st.rot@.len() + st.rot_vel@.len()
        + st.forces@.len() + st.radii@.len() + st.fixity@.len() + st.bonds@.len()
        + st.bond_info@.len() + st.material_pointers@.len()
}

/// The file of a state holds its header (84 bytes), then four bytes of count
/// per vector and four bytes per entry.
pub proof fn lemma_file_len(st: State)
    ensures
        file_len(st) == 128 + 4 * entry_total(st),
{
    reveal_with_fuel(vector_pos, 12);
}

proof fn lemma_same_fields(a: State, b: State, n: int)
    requires
        a == (State { flatbuffer: a.flatbuffer, ..b }),
    ensures
        vector_pos(a, n) == vector_pos(b, n),
        offsets_upto(a, n) == offsets_upto(b, n),
        vectors_upto(a, n) == vectors_upto(b, n),
    decreases n,
{
    if n > 0 {
        lemma_same_fields(a, b, n - 1);
    }
}

/// The file of a state does not depend on the state's own serialized bytes.
pub proof fn lemma_encoding_ignores_buffer(a: State, b: State)
    requires
        a == (State { flatbuffer: a.flatbuffer, ..b }),
    ensures
        encoding(a) == encoding(b),
{
    reveal(encoding);
    lemma_same_fields(a, b, 11);
}

/// Writes the file of a state (see `encoding`).  The file must stay below
/// 2^31 bytes, the largest flatbuffer there is.
pub fn encode_state(st: &State) -> (b: Vec<u8>)
    requires
        file_len(*st) < 0x8000_0000,
    ensures
        b@ == encoding(*st),
{
    let mut out: Vec<u8> = Vec::new();
    push_u32(&mut out, 32);
    let mut i: usize = 0;
    while i < 28
        invariant
            i <= 28,
            out@ == le_bytes(32) + vtable_bytes().take(i as int),
        decreases 28 - i,
    {
        let x: u8 = if i == 0 {
            28
        } else if i == 2 {
            52
        } else if i >= 4 && i % 2 == 0 {
            (4 + 2 * (i - 4)) as u8
        } else {
            0
        };
        out.push(x);
        i = i + 1;
        assert(out@ =~= le_bytes(32) + vtable_bytes().take(i as int));
    }
    assert(vtable_bytes().take(28) =~= vtable_bytes());
    push_u32(&mut out, 28);
    push_u32(&mut out, (st.p_count as i32) as u32);
    let ghost head = out@;
    let mut pos: usize = 84;
    let mut k: usize = 1;
    while k <= 11
        invariant
            1 <= k <= 12,
            file_len(*st) < 0x8000_0000,
            pos == vector_pos(*st, k as int),
            out@ == head + offsets_upto(*st, k - 1),
        decreases 12 - k,
    {
        proof {
            lemma_vector_pos(*st, k as int, 12);
            lemma_vector_pos(*st, k + 1, 12);
        }
        push_u32(&mut out, (pos - (36 + 4 * k)) as u32);
        pos = pos + 4 + 4 * field_len(st, k);
        k = k + 1;
    }
    let ghost mid = out@;
    let mut k: usize = 1;
    while k <= 11
        invariant
            1 <= k <= 12,
            out@ == mid + vectors_upto(*st, k - 1),
        decreases 12 - k,
    {
        push_field(&mut out, st, k);
        k = k + 1;
        assert(out@ =~= mid + vectors_upto(*st, k - 1));
    }
    reveal(encoding);
    assert(out@ =~= encoding(*st));
    out
}

proof fn lemma_read_u32(b: Seq<u8>, pos: int, x: u32)
    requires
        0 <= pos,
        pos + 4 <= b.len(),
        b[pos] == le_bytes(x)[0],
        b[pos + 1] == le_bytes(x)[1],
        b[pos + 2] == le_bytes(x)[2],
        b[pos + 3] == le_bytes(x)[3],
    ensures
        u32_at(b, pos) == x,
{
    lemma_word_bytes(x);
}

proof fn lemma_field_len(st: State, k: int)
    requires
        1 <= k <= 11,
    ensures
        field_bytes(st, k).len() == 4 * field_count(st, k),
{
    lemma_bytes_of_words(st.pos@);
    lemma_bytes_of_words(st.vel@);
    lemma_bytes_of_words(st.acc@);
    lemma_bytes_of_words(st.rot@);
    lemma_bytes_of_words(st.rot_vel@);
    lemma_bytes_of_words(st.forces@);
    lemma_bytes_of_words(st.radii@);
    lemma_bytes_of_words(st.fixity@.map_values(|x: i32| x as u32));
    lemma_bytes_of_words(st.bonds@.map_values(|x: i32| x as u32));
    lemma_bytes_of_words(st.bond_info@.map_values(|x: i32| x as u32));
    lemma_bytes_of_words(st.material_pointers@.map_values(|x: i32| x as u32));
}

/// The forward offset that field `k` of the table holds.
spec fn table_offset(st: State, k: int) -> u32 {
    (vector_pos(st, k) - (36 + 4 * k)) as u32
}

proof fn lemma_offsets_len(st: State, n: int)
    requires
        0 <= n,
    ensures
        offsets_upto(st, n).len() == 4 * n,
    decreases n,
{
    if n > 0 {
        lemma_offsets_len(st, n - 1);
    }
}

proof fn lemma_offsets_at(st: State, n: int, k: int)
    requires
        1 <= k <= n,
    ensures
        forall|i: int|
            4 * (k - 1) <= i < 4 * k ==> #[trigger] offsets_upto(st, n)[i] == le_bytes(
                table_offset(st, k),
            )[i - 4 * (k - 1)],
    decreases n,
{
    lemma_offsets_len(st, n - 1);
    if k < n {
        lemma_offsets_at(st, n - 1, k);
    }
}

proof fn lemma_vectors_len(st: State, n: int)
    requires
        0 <= n <= 11,
    ensures
        vectors_upto(st, n).len() == vector_pos(st, n + 1) - 84,
    decreases n,
{
    if n > 0 {
        lemma_vectors_len(st, n - 1);
        lemma_field_len(st, n);
    }
}

proof fn lemma_vectors_at(st: State, n: int, k: int)
    requires
        1 <= k <= n <= 11,
    ensures
        forall|i: int|
            vector_pos(st, k) - 84 <= i < vector_pos(st, k) - 80 ==> #[trigger] vectors_upto(
                st,
                n,
            )[i] == le_bytes(field_count(st, k) as u32)[i - (vector_pos(st, k) - 84)],
        forall|i: int|
            vector_pos(st, k) - 80 <= i < vector_pos(st, k + 1) - 84 ==> #[trigger] vectors_upto(
                st,
                n,
            )[i] == field_bytes(st, k)[i - (vector_pos(st, k) - 80)],
    decreases n,
{
    lemma_vectors_len(st, n - 1);
    lemma_field_len(st, n);
    let prev = vectors_upto(st, n - 1);
    let cur = vectors_upto(st, n);
    let cnt = le_bytes(field_count(st, n) as u32);
    assert(cur == prev + cnt + field_bytes(st, n));
    let p = vector_pos(st, k);
    let q = vector_pos(st, k + 1);
    if k < n {
        lemma_vectors_at(st, n - 1, k);
        lemma_vector_pos(st, k, n);
        lemma_vector_pos(st, k + 1, n);
        assert(prev.len() == vector_pos(st, n) - 84);
        assert forall|i: int| p - 84 <= i < q - 84 implies #[trigger] cur[i] == prev[i] by {}
    } else {
        assert forall|i: int| p - 84 <= i < p - 80 implies #[trigger] cur[i] == cnt[i - (p - 84)] by {}
        assert forall|i: int| p - 80 <= i < q - 84 implies #[trigger] cur[i] == field_bytes(st, k)[i
            - (p - 80)] by {}
    }
}

proof fn lemma_file_header(st: State)
    requires
        file_len(st) < 0x8000_0000,
    ensures
        encoding(st).len() == file_len(st),
        table_ok(encoding(st)),
        root_table(encoding(st)) == 32,
        forall|k: int| 0 <= k <= 11 ==> #[trigger] field_offset(encoding(st), k) == 4 + 4 * k,
        forall|i: int| 36 <= i < 40 ==> #[trigger] encoding(st)[i] == le_bytes(
            (st.p_count as i32) as u32,
        )[i - 36],
        forall|i: int| 40 <= i < 84 ==> #[trigger] encoding(st)[i] == offsets_upto(st, 11)[i - 40],
        forall|i: int|
            84 <= i < file_len(st) ==> #[trigger] encoding(st)[i] == vectors_upto(st, 11)[i - 84],
{
    reveal(encoding);
    let b = encoding(st);
    let pc = (st.p_count as i32) as u32;
    let vt = vtable_bytes();
    let head = le_bytes(32) + vt + le_bytes(28) + le_bytes(pc);
    let offs = offsets_upto(st, 11);
    let vecs = vectors_upto(st, 11);
    lemma_offsets_len(st, 11);
    lemma_vectors_len(st, 11);
    lemma_vector_pos(st, 1, 12);
    assert(head.len() == 40);
    assert(b == head + offs + vecs);
    assert forall|i: int| 36 <= i < 40 implies #[trigger] b[i] == le_bytes(pc)[i - 36] by {
        assert(b[i] == head[i]);
    }
    assert forall|i: int| 40 <= i < 84 implies #[trigger] b[i] == offs[i - 40] by {}
    assert forall|i: int| 84 <= i < file_len(st) implies #[trigger] b[i] == vecs[i - 84] by {}
    assert(b[0] == head[0] && b[1] == head[1] && b[2] == head[2] && b[3] == head[3]);
    lemma_read_u32(b, 0, 32);
    assert(b[32] == head[32] && b[33] == head[33] && b[34] == head[34] && b[35] == head[35]);
    lemma_read_u32(b, 32, 28);
    assert(root_vtable(b) == 4);
    assert(b[4] == vt[0] && b[5] == vt[1]);
    assert(vtable_len(b) == 28);
    assert forall|k: int| 0 <= k <= 11 implies #[trigger] field_offset(b, k) == 4 + 4 * k by {
        assert(b[8 + 2 * k] == vt[4 + 2 * k]);
        assert(b[9 + 2 * k] == vt[5 + 2 * k]);
    }
}

proof fn lemma_file_start(st: State, k: int)
    requires
        file_len(st) < 0x8000_0000,
        1 <= k <= 11,
    ensures
        field_offset(encoding(st), k) > 0,
        in_buffer(encoding(st), field_pos(encoding(st), k), 4),
        vector_start(encoding(st), k) == vector_pos(st, k),
{
    let b = encoding(st);
    let offs = offsets_upto(st, 11);
    lemma_file_header(st);
    lemma_offsets_at(st, 11, k);
    lemma_vector_pos(st, k, 12);
    let f = 36 + 4 * k;
    assert(field_offset(b, k) == 4 + 4 * k);
    assert(field_pos(b, k) == f);
    assert(b[f] == offs[f - 40] && b[f + 1] == offs[f - 39]);
    assert(b[f + 2] == offs[f - 38] && b[f + 3] == offs[f - 37]);
    lemma_read_u32(b, f, table_offset(st, k));
}

proof fn lemma_file_vector(st: State, k: int)
    requires
        file_len(st) < 0x8000_0000,
        1 <= k <= 11,
    ensures
        vector_ok(encoding(st), k),
        vector_bytes(encoding(st), k) == field_bytes(st, k),
{
    let b = encoding(st);
    let vecs = vectors_upto(st, 11);
    lemma_file_start(st, k);
    lemma_file_header(st);
    lemma_vectors_at(st, 11, k);
    lemma_field_len(st, k);
    lemma_vector_pos(st, k, 12);
    lemma_vector_pos(st, k + 1, 12);
    let p = vector_pos(st, k);
    let q = vector_pos(st, k + 1);
    assert(b[p] == vecs[p - 84] && b[p + 1] == vecs[p - 83]);
    assert(b[p + 2] == vecs[p - 82] && b[p + 3] == vecs[p - 81]);
    lemma_read_u32(b, p, field_count(st, k) as u32);
    assert(vector_count(b, k) == field_count(st, k));
    assert forall|i: int| 0 <= i < q - p - 4 implies #[trigger] b.subrange(p + 4, q)[i]
        == field_bytes(st, k)[i] by {
        assert(b[p + 4 + i] == vecs[p + 4 + i - 84]);
    }
    assert(vector_bytes(b, k) =~= field_bytes(st, k));
    lemma_vector_pos(st, 1, k);
    assert(in_buffer(b, p, 4));
    assert(p + 4 + 4 * vector_count(b, k) <= b.len());
}

/// Reading the file of a state gives the state's fields back: the file is
/// readable, its particle count is the state's (as an `i32`), and each of its
/// vectors holds the bytes of the state's vector.
pub proof fn lemma_file_round_trip(st: State)
    requires
        file_len(st) < 0x8000_0000,
    ensures
        state_readable(encoding(st)),
        particles_value(encoding(st)) == st.p_count as i32,
        forall|k: int| 1 <= k <= 11 ==> #[trigger] vector_bytes(encoding(st), k) == field_bytes(st, k),
{
    let b = encoding(st);
    lemma_file_header(st);
    lemma_vector_pos(st, 1, 12);
    let pc = (st.p_count as i32) as u32;
    lemma_read_u32(b, 36, pc);
    assert(field_offset(b, 0) == 4);
    assert((((st.p_count as i32) as u32) as i32) == st.p_count as i32) by {
        let q = st.p_count as i32;
        assert(((q as u32) as i32) == q) by (bit_vector);
    }
    assert forall|k: int| 1 <= k <= 11 implies #[trigger] vector_ok(b, k) by {
        lemma_file_vector(st, k);
    }
    assert forall|k: int| 1 <= k <= 11 implies #[trigger] vector_bytes(b, k) == field_bytes(st, k) by {
        lemma_file_vector(st, k);
    }
}

} // verus!
