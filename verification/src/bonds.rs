use vstd::prelude::*;

verus! {

// A bond table holds, for each of `p` particles, a block of `mb` bond slots of
// three entries each: the partner's index, the bit pattern of the bond angle,
// and the bit pattern of the bond length.  An empty slot holds -1 three times.
//
// The contacts of a layout are given as a `p * p` table in row-major order:
// entry `i * p + j` is `Some((angle_bits, length_bits))` when particles `i`
// and `j` overlap, `None` otherwise.  The diagonal is ignored.

/// Whether particle `i` overlaps a distinct particle `j`.
pub open spec fn touches(c: Seq<Option<(i32, i32)>>, p: int, i: int, j: int) -> bool {
    j != i && c[i * p + j] is Some
}

/// The particles below `n` that particle `i` overlaps, in increasing order.
pub open spec fn partners_below(c: Seq<Option<(i32, i32)>>, p: int, i: int, n: int) -> Seq<int>
    decreases n,
{
    if n <= 0 {
        Seq::empty()
    } else if touches(c, p, i, n - 1) {
        partners_below(c, p, i, n - 1).push(n - 1)
    } else {
        partners_below(c, p, i, n - 1)
    }
}

/// All particles that particle `i` overlaps, in increasing order.
pub open spec fn partners(c: Seq<Option<(i32, i32)>>, p: int, i: int) -> Seq<int> {
    partners_below(c, p, i, p)
}

/// Entry `f` of bond slot `k` of particle `i`, given the sequence `ps` of its
/// partners: the `k`-th partner fills slot `k` while `k < mb`.
pub open spec fn slot_entry_of(
    c: Seq<Option<(i32, i32)>>,
    p: int,
    mb: int,
    i: int,
    ps: Seq<int>,
    k: int,
    f: int,
) -> i32 {
    if 0 <= k < ps.len() && k < mb {
        let j = ps[k];
        if f == 0 {
            j as i32
        } else if f == 1 {
            c[i * p + j].unwrap().0
        } else {
            c[i * p + j].unwrap().1
        }
    } else {
        -1i32
    }
}

/// The block of `3 * mb` entries of particle `i`: its first `mb` partners in
/// increasing order, then empty slots.
pub open spec fn bond_block(c: Seq<Option<(i32, i32)>>, p: int, mb: int, i: int) -> Seq<i32> {
    Seq::new((3 * mb) as nat, |n: int| slot_entry_of(c, p, mb, i, partners(c, p, i), n / 3, n % 3))
}

/// The blocks of the particles below `n`, one after another.
pub open spec fn bond_table_upto(c: Seq<Option<(i32, i32)>>, p: int, mb: int, n: int) -> Seq<i32>
    decreases n,
{
    if n <= 0 {
        Seq::empty()
    } else {
        bond_table_upto(c, p, mb, n - 1) + bond_block(c, p, mb, n - 1)
    }
}

/// The full bond table of `p` particles.
pub open spec fn bond_table(c: Seq<Option<(i32, i32)>>, p: int, mb: int) -> Seq<i32> {
    bond_table_upto(c, p, mb, p)
}

/// The block of particle `i` within a table of blocks of `3 * mb` entries.
pub open spec fn table_block(t: Seq<i32>, mb: int, i: int) -> Seq<i32> {
    t.subrange(3 * mb * i, 3 * mb * i + 3 * mb)
}

/// The number of the first `k` slots of a block whose partner entry is set.
pub open spec fn occupied(b: Seq<i32>, k: int) -> int
    decreases k,
{
    if k <= 0 {
        0
    } else {
        occupied(b, k - 1) + if b[3 * (k - 1)] != -1 { 1int } else { 0int }
    }
}

/// The number of bonds that particle `i` has in the table.
pub open spec fn bond_len(t: Seq<i32>, mb: int, i: int) -> int {
    occupied(table_block(t, mb, i), mb)
}

/// The number of bonds of the particles before `i`: where the bonds of `i`
/// start in the compacted bond list, counted in bonds.
pub open spec fn bond_start(t: Seq<i32>, mb: int, i: int) -> int
    decreases i,
{
    if i <= 0 {
        0
    } else {
        bond_start(t, mb, i - 1) + bond_len(t, mb, i - 1)
    }
}

/// Entry `f` of the bond info of particle `i`: its start and its number of
/// bonds, or -1 twice when it has none.
pub open spec fn info_entry(t: Seq<i32>, mb: int, i: int, f: int) -> i32 {
    if bond_len(t, mb, i) > 0 {
        if f == 0 {
            bond_start(t, mb, i) as i32
        } else {
            bond_len(t, mb, i) as i32
        }
    } else {
        -1i32
    }
}

/// The bond info of `p` particles: two entries per particle.
pub open spec fn bond_info_spec(t: Seq<i32>, mb: int, p: int) -> Seq<i32> {
    Seq::new((2 * p) as nat, |n: int| info_entry(t, mb, n / 2, n % 2))
}

/// The entries of a table other than -1, in order.
pub open spec fn unset_removed(t: Seq<i32>) -> Seq<i32> {
    t.filter(|x: i32| x != -1)
}

proof fn lemma_row_index(p: int, i: int, j: int)
    by (nonlinear_arith)
    requires
        0 <= i < p,
        0 <= j < p,
    ensures
        0 <= i * p <= i * p + j < p * p,
{
}

proof fn lemma_slot_index(p: int, mb: int, i: int, k: int)
    by (nonlinear_arith)
    requires
        0 <= i < p,
        0 <= k < mb,
    ensures
        (i * mb + k) * 3 == 3 * mb * i + 3 * k,
        0 <= i * mb,
        3 * mb * i + 3 * mb <= 3 * mb * p,
        3 * mb * (i + 1) == 3 * mb * i + 3 * mb,
{
}

proof fn lemma_partners_prefix(c: Seq<Option<(i32, i32)>>, p: int, i: int, n: int, m: int)
    requires
        0 <= n <= m,
    ensures
        partners_below(c, p, i, n).len() <= partners_below(c, p, i, m).len(),
        forall|k: int|
            0 <= k < partners_below(c, p, i, n).len() ==> partners_below(c, p, i, m)[k]
                == partners_below(c, p, i, n)[k],
    decreases m - n,
{
    if n < m {
        lemma_partners_prefix(c, p, i, n, m - 1);
    }
}

proof fn lemma_partners_bounded(c: Seq<Option<(i32, i32)>>, p: int, i: int, n: int)
    ensures
        forall|k: int|
            0 <= k < partners_below(c, p, i, n).len() ==> 0 <= #[trigger] partners_below(
                c,
                p,
                i,
                n,
            )[k] < n && touches(c, p, i, partners_below(c, p, i, n)[k]),
    decreases n,
{
    if n > 0 {
        lemma_partners_bounded(c, p, i, n - 1);
        let prev = partners_below(c, p, i, n - 1);
        let cur = partners_below(c, p, i, n);
        assert forall|k: int| 0 <= k < cur.len() implies 0 <= #[trigger] cur[k] < n && touches(
            c,
            p,
            i,
            cur[k],
        ) by {
            if k < prev.len() {
                assert(cur[k] == prev[k]);
            }
        }
    }
}

proof fn lemma_table_upto_len(c: Seq<Option<(i32, i32)>>, p: int, mb: int, n: int)
    requires
        0 <= n,
        0 <= mb,
    ensures
        bond_table_upto(c, p, mb, n).len() == 3 * mb * n,
    decreases n,
{
    if n > 0 {
        lemma_table_upto_len(c, p, mb, n - 1);
        assert(bond_block(c, p, mb, n - 1).len() == 3 * mb);
        assert(3 * mb * n == 3 * mb * (n - 1) + 3 * mb) by (nonlinear_arith);
        assert(bond_table_upto(c, p, mb, n) == bond_table_upto(c, p, mb, n - 1) + bond_block(
            c,
            p,
            mb,
            n - 1,
        ));
    } else {
        assert(3 * mb * n == 0) by (nonlinear_arith)
            requires
                n == 0,
        ;
    }
}

/// Builds the bond block of particle `i`.
fn build_block(contacts: &Vec<Option<(i32, i32)>>, p: usize, mb: usize, i: usize) -> (b: Vec<i32>)
    requires
        contacts@.len() == p * p,
        3 * mb * p <= usize::MAX,
        i < p,
    ensures
        b@ == bond_block(contacts@, p as int, mb as int, i as int),
{
    let ghost c = contacts@;
    let total = contacts.len();
    proof {
        assert(3 * mb <= 3 * mb * p) by (nonlinear_arith)
            requires
                i < p,
        ;
    }
    let width = 3 * mb;
    let mut b: Vec<i32> = Vec::new();
    let mut col: usize = 0;
    let mut j: usize = 0;
    while j < p && col < mb
        invariant
            c == contacts@,
            contacts@.len() == p * p,
            total == p * p,
            3 * mb * p <= usize::MAX,
            i < p,
            j <= p,
            col <= mb,
            col == partners_below(c, p as int, i as int, j as int).len(),
            b@.len() == 3 * col,
            forall|n: int|
                0 <= n < 3 * col ==> #[trigger] b@[n] == slot_entry_of(
                    c,
                    p as int,
                    mb as int,
                    i as int,
                    partners_below(c, p as int, i as int, j as int),
                    n / 3,
                    n % 3,
                ),
        decreases p - j,
    {
        proof {
            lemma_row_index(p as int, i as int, j as int);
        }
        let idx = i * p + j;
        if j != i {
            match contacts[idx] {
                Some((angle, length)) => {
                    let ghost old_b = b@;
                    b.push(j as i32);
                    b.push(angle);
                    b.push(length);
                    col = col + 1;
                    proof {
                        let ps = partners_below(c, p as int, i as int, j + 1);
                        assert(ps == partners_below(c, p as int, i as int, j as int).push(j as int));
                        assert forall|n: int| 0 <= n < 3 * col implies #[trigger] b@[n]
                            == slot_entry_of(c, p as int, mb as int, i as int, ps, n / 3, n % 3) by {
                            if n < 3 * (col - 1) {
                                assert(b@[n] == old_b[n]);
                            }
                        }
                    }
                },
                None => {},
            }
        }
        j = j + 1;
    }
    proof {
        let pj = partners_below(c, p as int, i as int, j as int);
        let pp = partners(c, p as int, i as int);
        lemma_partners_prefix(c, p as int, i as int, j as int, p as int);
        assert forall|n: int| 0 <= n < 3 * col implies #[trigger] b@[n] == slot_entry_of(
            c,
            p as int,
            mb as int,
            i as int,
            pp,
            n / 3,
            n % 3,
        ) by {
            assert(pj[n / 3] == pp[n / 3]);
        }
    }
    while b.len() < width
        invariant
            c == contacts@,
            width == 3 * mb,
            3 * mb * p <= usize::MAX,
            i < p,
            col <= mb,
            col == mb || col == partners(c, p as int, i as int).len(),
            col <= partners(c, p as int, i as int).len(),
            3 * col <= b@.len() <= 3 * mb,
            forall|n: int|
                0 <= n < b@.len() ==> #[trigger] b@[n] == slot_entry_of(
                    c,
                    p as int,
                    mb as int,
                    i as int,
                    partners(c, p as int, i as int),
                    n / 3,
                    n % 3,
                ),
        decreases 3 * mb - b@.len(),
    {
        b.push(-1);
    }
    assert(b@ =~= bond_block(contacts@, p as int, mb as int, i as int));
    b
}

/// Builds the bond table of `p` particles with `mb` slots each from their
/// contacts.
pub fn bond_slots(contacts: &Vec<Option<(i32, i32)>>, p: usize, mb: usize) -> (t: Vec<i32>)
    requires
        contacts@.len() == p * p,
        3 * mb * p <= usize::MAX,
    ensures
        t@ == bond_table(contacts@, p as int, mb as int),
        t@.len() == 3 * mb * p,
{
    let mut t: Vec<i32> = Vec::new();
    let mut i: usize = 0;
    while i < p
        invariant
            contacts@.len() == p * p,
            3 * mb * p <= usize::MAX,
            i <= p,
            t@ == bond_table_upto(contacts@, p as int, mb as int, i as int),
        decreases p - i,
    {
        let mut b = build_block(contacts, p, mb, i);
        t.append(&mut b);
        i = i + 1;
    }
    proof {
        lemma_table_upto_len(contacts@, p as int, mb as int, p as int);
    }
    t
}

/// Locates each particle's bonds: for every particle, the start of its bonds
/// in the compacted bond list and their number, or -1 twice when it has none.
pub fn bond_info(t: &Vec<i32>, p: usize, mb: usize) -> (info: Vec<i32>)
    requires
        t@.len() == 3 * mb * p,
        3 * mb * p <= usize::MAX,
        2 * p <= usize::MAX,
    ensures
        info@ == bond_info_spec(t@, mb as int, p as int),
{
    let mut info: Vec<i32> = Vec::new();
    let mut index: usize = 0;
    let mut i: usize = 0;
    while i < p
        invariant
            t@.len() == 3 * mb * p,
            3 * mb * p <= usize::MAX,
            2 * p <= usize::MAX,
            i <= p,
            index == bond_start(t@, mb as int, i as int),
            index <= mb * i,
            info@.len() == 2 * i,
            forall|n: int|
                0 <= n < 2 * i ==> #[trigger] info@[n] == info_entry(t@, mb as int, n / 2, n % 2),
        decreases p - i,
    {
        let start = index;
        let mut length: usize = 0;
        let mut j: usize = 0;
        proof {
            assert(mb * i + mb <= mb * p && mb * p <= 3 * mb * p) by (nonlinear_arith)
                requires
                    i < p,
            ;
        }
        while j < mb
            invariant
                t@.len() == 3 * mb * p,
                3 * mb * p <= usize::MAX,
                i < p,
                j <= mb,
                mb * i + mb <= mb * p,
                mb * p <= 3 * mb * p,
                start == bond_start(t@, mb as int, i as int),
                start <= mb * i,
                length == occupied(table_block(t@, mb as int, i as int), j as int),
                length <= j,
                index == start + length,
            decreases mb - j,
        {
            proof {
                lemma_slot_index(p as int, mb as int, i as int, j as int);
            }
            let slot = (i * mb + j) * 3;
            assert(t@[slot as int] == table_block(t@, mb as int, i as int)[3 * j]);
            if t[slot] != -1 {
                length = length + 1;
                index = index + 1;
            }
            j = j + 1;
        }
        let ghost old_info = info@;
        if length > 0 {
            info.push(start as i32);
            info.push(length as i32);
        } else {
            info.push(-1);
            info.push(-1);
        }
        proof {
            assert forall|n: int| 0 <= n < 2 * (i + 1) implies #[trigger] info@[n] == info_entry(
                t@,
                mb as int,
                n / 2,
                n % 2,
            ) by {
                if n < 2 * i {
                    assert(info@[n] == old_info[n]);
                }
            }
            assert(mb * i + length <= mb * (i + 1)) by (nonlinear_arith)
                requires
                    length <= mb,
            ;
        }
        i = i + 1;
    }
    assert(info@ =~= bond_info_spec(t@, mb as int, p as int));
    info
}

proof fn lemma_unset_removed_push(s: Seq<i32>, x: i32)
    ensures
        unset_removed(s.push(x)) == if x != -1 {
            unset_removed(s).push(x)
        } else {
            unset_removed(s)
        },
{
    reveal(Seq::filter);
    assert(s.push(x).drop_last() =~= s);
}

/// The entries of a bond table other than -1, in order.
pub fn compact(t: &Vec<i32>) -> (r: Vec<i32>)
    ensures
        r@ == unset_removed(t@),
{
    let mut r: Vec<i32> = Vec::new();
    let mut i: usize = 0;
    proof {
        reveal(Seq::filter);
        assert(t@.take(0).len() == 0);
    }
    while i < t.len()
        invariant
            i <= t@.len(),
            r@ == unset_removed(t@.take(i as int)),
        decreases t@.len() - i,
    {
        proof {
            assert(t@.take(i + 1) =~= t@.take(i as int).push(t@[i as int]));
            lemma_unset_removed_push(t@.take(i as int), t@[i as int]);
        }
        if t[i] != -1 {
            r.push(t[i]);
        }
        i = i + 1;
    }
    assert(t@.take(t@.len() as int) =~= t@);
    r
}

/// The number of bonds that particle `i` gets: its overlapping partners, at
/// most `mb` of them.
pub open spec fn bond_count(c: Seq<Option<(i32, i32)>>, p: int, mb: int, i: int) -> int {
    if partners(c, p, i).len() < mb {
        partners(c, p, i).len() as int
    } else {
        mb
    }
}

/// Whether no contact carries -1 as its angle or length bit pattern.
pub open spec fn contacts_without_unset(c: Seq<Option<(i32, i32)>>) -> bool {
    forall|n: int|
        0 <= n < c.len() && (#[trigger] c[n]) is Some ==> c[n].unwrap().0 != -1 && c[n].unwrap().1
            != -1
}

proof fn lemma_block_shape(c: Seq<Option<(i32, i32)>>, p: int, mb: int, i: int)
    requires
        0 <= mb,
        0 <= i < p <= i32::MAX + 1,
        c.len() == p * p,
        contacts_without_unset(c),
    ensures
        forall|n: int|
            0 <= n < 3 * bond_count(c, p, mb, i) ==> #[trigger] bond_block(c, p, mb, i)[n] != -1,
        forall|n: int|
            3 * bond_count(c, p, mb, i) <= n < 3 * mb ==> #[trigger] bond_block(c, p, mb, i)[n]
                == -1,
{
    let ps = partners(c, p, i);
    let cnt = bond_count(c, p, mb, i);
    lemma_partners_bounded(c, p, i, p);
    assert forall|n: int| 0 <= n < 3 * cnt implies #[trigger] bond_block(c, p, mb, i)[n] != -1 by {
        let k = n / 3;
        let j = ps[k];
        assert(0 <= j < p);
        lemma_row_index(p, i, j);
        assert(c[i * p + j] is Some);
    }
}

proof fn lemma_occupied_prefix(b: Seq<i32>, cnt: int, k: int)
    requires
        0 <= k,
        0 <= cnt,
        b.len() >= 3 * k,
        forall|m: int| 0 <= m < cnt && 3 * m < b.len() ==> #[trigger] b[3 * m] != -1,
        forall|m: int| cnt <= m && 3 * m < b.len() ==> #[trigger] b[3 * m] == -1,
    ensures
        occupied(b, k) == if k < cnt {
            k
        } else {
            cnt
        },
    decreases k,
{
    if k > 0 {
        lemma_occupied_prefix(b, cnt, k - 1);
        assert(b[3 * (k - 1)] == b[3 * (k - 1)]);
    }
}

proof fn lemma_index_not_unset(j: int)
    requires
        0 <= j < 0xffff_ffff,
    ensures
        j as i32 != -1i32,
{
    let u = j as u32;
    assert(u != 0xffff_ffffu32 ==> u as i32 != -1i32) by (bit_vector);
    assert(j as i32 == u as i32);
}

/// Every particle gets one bond per overlapping partner, up to `mb`: the
/// number of bonds that the table records for particle `i` is its bond
/// count, whatever bit patterns the contacts carry.  (Particle indices stay
/// below 2^32 - 1, so no partner index reads as an empty slot.)
pub proof fn lemma_bond_counts(c: Seq<Option<(i32, i32)>>, p: int, mb: int, i: int)
    requires
        0 <= mb,
        0 <= i < p < 0xffff_ffff,
    ensures
        bond_len(bond_table(c, p, mb), mb, i) == bond_count(c, p, mb, i),
        0 <= bond_count(c, p, mb, i) <= mb,
{
    let t = bond_table(c, p, mb);
    let b = bond_block(c, p, mb, i);
    let cnt = bond_count(c, p, mb, i);
    let ps = partners(c, p, i);
    lemma_partners_bounded(c, p, i, p);
    lemma_table_block_of_upto(c, p, mb, p, i);
    assert(table_block(t, mb, i) == b);
    assert forall|m: int| 0 <= m < cnt && 3 * m < b.len() implies #[trigger] b[3 * m] != -1 by {
        assert((3 * m) / 3 == m && (3 * m) % 3 == 0);
        lemma_index_not_unset(ps[m]);
    }
    assert forall|m: int| cnt <= m && 3 * m < b.len() implies #[trigger] b[3 * m] == -1 by {
        assert((3 * m) / 3 == m && (3 * m) % 3 == 0);
    }
    lemma_occupied_prefix(b, cnt, mb);
}

proof fn lemma_unset_removed_prefix(s: Seq<i32>, m: int)
    requires
        0 <= m <= s.len(),
        forall|n: int| 0 <= n < m ==> #[trigger] s[n] != -1,
        forall|n: int| m <= n < s.len() ==> #[trigger] s[n] == -1,
    ensures
        unset_removed(s) == s.take(m),
    decreases s.len(),
{
    reveal(Seq::filter);
    if s.len() > 0 {
        let last = s.len() - 1;
        if m == s.len() {
            lemma_unset_removed_prefix(s.drop_last(), m - 1);
            assert(s.drop_last().take(m - 1).push(s.last()) =~= s.take(m));
        } else {
            lemma_unset_removed_prefix(s.drop_last(), m);
            assert(s.drop_last().take(m) =~= s.take(m));
        }
    } else {
        assert(s.take(m) =~= s);
    }
}

proof fn lemma_table_block_of_upto(c: Seq<Option<(i32, i32)>>, p: int, mb: int, n: int, i: int)
    requires
        0 <= mb,
        0 <= i < n,
    ensures
        bond_table_upto(c, p, mb, n).subrange(3 * mb * i, 3 * mb * i + 3 * mb) == bond_block(
            c,
            p,
            mb,
            i,
        ),
    decreases n,
{
    let prev = bond_table_upto(c, p, mb, n - 1);
    let cur = bond_table_upto(c, p, mb, n);
    lemma_table_upto_len(c, p, mb, n - 1);
    assert(bond_block(c, p, mb, n - 1).len() == 3 * mb);
    assert(cur == prev + bond_block(c, p, mb, n - 1));
    if i == n - 1 {
        assert(cur.subrange(3 * mb * i, 3 * mb * i + 3 * mb) =~= bond_block(c, p, mb, i));
    } else {
        lemma_table_block_of_upto(c, p, mb, n - 1, i);
        assert(3 * mb * i + 3 * mb <= 3 * mb * (n - 1)) by (nonlinear_arith)
            requires
                0 <= mb,
                i < n - 1,
        ;
        assert(cur.subrange(3 * mb * i, 3 * mb * i + 3 * mb) =~= prev.subrange(
            3 * mb * i,
            3 * mb * i + 3 * mb,
        ));
    }
}

proof fn lemma_located_upto(c: Seq<Option<(i32, i32)>>, p: int, mb: int, n: int)
    requires
        0 <= mb,
        0 <= n <= p <= i32::MAX + 1,
        c.len() == p * p,
        contacts_without_unset(c),
    ensures
        unset_removed(bond_table_upto(c, p, mb, n)).len() == 3 * bond_start(
            bond_table(c, p, mb),
            mb,
            n,
        ),
        forall|i: int, k: int, f: int|
            0 <= i < n && 0 <= k < bond_count(c, p, mb, i) && 0 <= f < 3 ==> unset_removed(
                bond_table_upto(c, p, mb, n),
            )[3 * (bond_start(bond_table(c, p, mb), mb, i) + k) + f] == #[trigger] bond_block(
                c,
                p,
                mb,
                i,
            )[3 * k + f],
        forall|i: int|
            0 <= i < n ==> #[trigger] bond_len(bond_table(c, p, mb), mb, i) == bond_count(
                c,
                p,
                mb,
                i,
            ),
    decreases n,
{
    let t = bond_table(c, p, mb);
    if n == 0 {
        reveal(Seq::filter);
    } else {
        lemma_located_upto(c, p, mb, n - 1);
        let i = n - 1;
        let b = bond_block(c, p, mb, i);
        let cnt = bond_count(c, p, mb, i);
        let prev = unset_removed(bond_table_upto(c, p, mb, n - 1));
        lemma_block_shape(c, p, mb, i);
        lemma_unset_removed_prefix(b, 3 * cnt);
        lemma_table_block_of_upto(c, p, mb, p, i);
        assert(table_block(t, mb, i) == b);
        lemma_occupied_prefix(b, cnt, mb);
        assert(bond_len(t, mb, i) == cnt);
        assert(bond_table_upto(c, p, mb, n) == bond_table_upto(c, p, mb, n - 1) + b);
        Seq::filter_distributes_over_add(
            bond_table_upto(c, p, mb, n - 1),
            b,
            |x: i32| x != -1,
        );
        let cur = unset_removed(bond_table_upto(c, p, mb, n));
        assert(cur == prev + b.take(3 * cnt));
        assert(bond_start(t, mb, n) == bond_start(t, mb, i) + cnt);
        assert forall|i2: int, k: int, f: int|
            0 <= i2 < n && 0 <= k < bond_count(c, p, mb, i2) && 0 <= f < 3 implies cur[3 * (
            bond_start(t, mb, i2) + k) + f] == #[trigger] bond_block(c, p, mb, i2)[3 * k + f] by {
            if i2 < i {
                assert(bond_len(t, mb, i2) == bond_count(c, p, mb, i2));
                lemma_start_monotone(t, mb, i2 + 1, i);
                lemma_start_monotone(t, mb, 0, i2);
                assert(prev.len() == 3 * bond_start(t, mb, i));
                assert(bond_start(t, mb, i2) + k < bond_start(t, mb, i2 + 1));
                let idx = 3 * (bond_start(t, mb, i2) + k) + f;
                assert(0 <= idx < prev.len());
                assert((prev + b.take(3 * cnt))[idx] == prev[idx]);
                assert(bond_start(t, mb, i2 + 1) == bond_start(t, mb, i2) + bond_len(t, mb, i2));
                assert(cur[3 * (bond_start(t, mb, i2) + k) + f] == prev[3 * (bond_start(t, mb, i2)
                    + k) + f]);
            }
        }
    }
}

proof fn lemma_start_monotone(t: Seq<i32>, mb: int, a: int, b: int)
    requires
        0 <= a <= b,
        forall|i: int| 0 <= i < b ==> #[trigger] bond_len(t, mb, i) >= 0,
    ensures
        bond_start(t, mb, a) <= bond_start(t, mb, b),
    decreases b - a,
{
    if a < b {
        lemma_start_monotone(t, mb, a, b - 1);
    }
}

/// The bond info locates every bond in the compacted bond list.  Provided no
/// contact carries -1 as an angle or length bit pattern and every particle
/// index fits an `i32`, particle `i` has one bond per overlapping partner, up
/// to `mb`; bond `k` of particle `i` fills entries `3 * (start + k)` to
/// `3 * (start + k) + 2` of the compacted list with the partner's index and
/// the angle and length bits, where `start` is the number of bonds of the
/// particles before `i`; and the compacted list holds exactly those bonds.
pub proof fn lemma_bonds_located(c: Seq<Option<(i32, i32)>>, p: int, mb: int, i: int, k: int, f: int)
    requires
        0 <= mb,
        0 <= p <= i32::MAX + 1,
        c.len() == p * p,
        contacts_without_unset(c),
        0 <= i < p,
        0 <= k < bond_count(c, p, mb, i),
        0 <= f < 3,
    ensures
        bond_len(bond_table(c, p, mb), mb, i) == bond_count(c, p, mb, i),
        unset_removed(bond_table(c, p, mb)).len() == 3 * bond_start(bond_table(c, p, mb), mb, p),
        unset_removed(bond_table(c, p, mb))[3 * (bond_start(bond_table(c, p, mb), mb, i) + k) + f]
            == slot_entry_of(c, p, mb, i, partners(c, p, i), k, f),
{
    lemma_located_upto(c, p, mb, p);
    assert(bond_block(c, p, mb, i)[3 * k + f] == slot_entry_of(c, p, mb, i, partners(c, p, i), k, f));
}

} // verus!
