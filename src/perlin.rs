use vstd::prelude::*;

use crate::utils::{lemma_swap_keeps_multiset, random_index};

verus! {

broadcast use vstd::seq_lib::group_to_multiset_ensures;

/// The number of lattice points along each axis of the noise table.
pub const POINT_COUNT: usize = 256;

/// The table indices `0, 1, ..., POINT_COUNT - 1` in order.
pub open spec fn identity_table() -> Seq<usize> {
    Seq::new(POINT_COUNT as nat, |i: int| i as usize)
}

/// `p` holds each table index exactly once.
pub open spec fn is_table_permutation(p: Seq<usize>) -> bool {
    p.to_multiset() == identity_table().to_multiset()
}

/// The lattice coordinate `c` wrapped onto the table.
pub open spec fn wrap(c: int) -> int {
    c % (POINT_COUNT as int)
}

/// Shuffles `p` in place, each element exchanged with a randomly chosen one
/// at or before it, from the last down to the first.
pub fn permute(p: &mut Vec<usize>)
    ensures
        final(p)@.len() == old(p)@.len(),
        final(p)@.to_multiset() == old(p)@.to_multiset(),
{
    let mut i: usize = p.len();
    while i > 0
        invariant
            i <= p@.len(),
            p@.len() == old(p)@.len(),
            p@.to_multiset() == old(p)@.to_multiset(),
        decreases i,
    {
        i = i - 1;
        let target = random_index(i);
        let ghost before = p@;
        let at_i = p[i];
        let at_target = p[target];
        p.set(i, at_target);
        p.set(target, at_i);
        proof {
            lemma_swap_keeps_multiset(before, i as int, target as int);
        }
    }
}

/// Fills the first `POINT_COUNT` entries of `p` with the table indices and
/// shuffles it.
pub fn perlin_generate_perm(p: &mut Vec<usize>)
    requires
        old(p)@.len() == POINT_COUNT,
    ensures
        final(p)@.len() == POINT_COUNT,
        is_table_permutation(final(p)@),
{
    let mut i: usize = 0;
    while i < POINT_COUNT
        invariant
            i <= POINT_COUNT,
            p@.len() == POINT_COUNT,
            forall|k: int| 0 <= k < i ==> p@[k] == k,
        decreases POINT_COUNT - i,
    {
        p.set(i, i);
        i = i + 1;
    }
    assert(p@ =~= identity_table());
    permute(p);
}

/// The lattice permutation tables of Perlin noise, one per axis.
pub struct Perlin {
    perm_x: Vec<usize>,
    perm_y: Vec<usize>,
    perm_z: Vec<usize>,
}

impl Perlin {
    /// The three tables, in axis order.
    pub closed spec fn tables(self) -> (Seq<usize>, Seq<usize>, Seq<usize>) {
        (self.perm_x@, self.perm_y@, self.perm_z@)
    }

    /// Each table holds each table index exactly once.
    pub open spec fn wf(self) -> bool {
        &&& is_table_permutation(self.tables().0)
        &&& is_table_permutation(self.tables().1)
        &&& is_table_permutation(self.tables().2)
        &&& self.tables().0.len() == POINT_COUNT
        &&& self.tables().1.len() == POINT_COUNT
        &&& self.tables().2.len() == POINT_COUNT
    }

    /// Three independently shuffled tables.
    pub fn new() -> (r: Self)
        ensures
            r.wf(),
    {
        let mut perm_x: Vec<usize> = Vec::new();
        let mut perm_y: Vec<usize> = Vec::new();
        let mut perm_z: Vec<usize> = Vec::new();
        let mut k: usize = 0;
        while k < POINT_COUNT
            invariant
                k <= POINT_COUNT,
                perm_x@.len() == k,
                perm_y@.len() == k,
                perm_z@.len() == k,
            decreases POINT_COUNT - k,
        {
            perm_x.push(0);
            perm_y.push(0);
            perm_z.push(0);
            k = k + 1;
        }
        perlin_generate_perm(&mut perm_x);
        perlin_generate_perm(&mut perm_y);
        perlin_generate_perm(&mut perm_z);
        Perlin { perm_x, perm_y, perm_z }
    }

    /// The gradient slot of the lattice corner `(i + di, j + dj, k + dk)`:
    /// the three tables looked up at the wrapped coordinates and combined by
    /// exclusive or.
    pub fn corner_index(&self, i: i32, j: i32, k: i32, di: usize, dj: usize, dk: usize) -> (r:
        usize)
        requires
            self.wf(),
            di < 2,
            dj < 2,
            dk < 2,
        ensures
            r < POINT_COUNT,
            r == self.tables().0[wrap(i + di)] ^ self.tables().1[wrap(j + dj)]
                ^ self.tables().2[wrap(k + dk)],
    {
        let ix = wrapped(i, di);
        let iy = wrapped(j, dj);
        let iz = wrapped(k, dk);
        proof {
            table_entry_in_range(self.perm_x@, ix as int);
            table_entry_in_range(self.perm_y@, iy as int);
            table_entry_in_range(self.perm_z@, iz as int);
        }
        let a = self.perm_x[ix];
        let b = self.perm_y[iy];
        let c = self.perm_z[iz];
        assert(a ^ b ^ c < 256) by (bit_vector)
            requires
                a < 256,
                b < 256,
                c < 256,
        ;
        a ^ b ^ c
    }
}

/// Every entry of a permutation of the table indices is a table index.
proof fn table_entry_in_range(p: Seq<usize>, i: int)
    requires
        is_table_permutation(p),
        0 <= i < p.len(),
    ensures
        p[i] < POINT_COUNT,
{
    assert(p.contains(p[i]));
    assert(p.to_multiset().count(p[i]) > 0);
    assert(identity_table().to_multiset().count(p[i]) > 0);
    assert(identity_table().contains(p[i]));
}

/// `(c + d) mod POINT_COUNT`, for any lattice coordinate `c`.
fn wrapped(c: i32, d: usize) -> (r: usize)
    requires
        d < 2,
    ensures
        r == wrap(c + d),
        r < POINT_COUNT,
{
    // 2^31 is a multiple of the table size, so the shift keeps the remainder.
    let shifted: u64 = (c as i64 + 2147483648i64 + d as i64) as u64;
    let r = (shifted % 256) as usize;
    assert((c + d + 2147483648) % 256 == (c + d) % 256) by {
        vstd::arithmetic::div_mod::lemma_mod_multiples_vanish(8388608, (c + d) as int, 256);
    }
    r
}

} // verus!
