use crate::rng::uniform_word;
use rand::rngs::ThreadRng;
use vstd::arithmetic::div_mod::{
    lemma_add_mod_noop_right, lemma_fundamental_div_mod_converse, lemma_mod_bound,
    lemma_mul_mod_noop_right, lemma_sub_mod_noop_right,
};
use vstd::prelude::*;

verus! {

/// The number of entries of the table of a universal hash.
pub const HASH_TABLE_SIZE: usize = 2048;

/// The stride that separates the table slots of successive coordinates.
pub const HASH_INCREMENT: i128 = 449;

/// `x` modulo `n`, in `0..n`.
fn floor_mod(x: i128, n: u64) -> (r: u64)
    requires
        n > 0,
    ensures
        r as int == x as int % n as int,
        r < n,
{
    if x >= 0 {
        let r = ((x as u128) % (n as u128)) as u64;
        r
    } else {
        let y: u128 = ((-(x + 1)) as u128) % (n as u128);
        let r = (n as u128 - 1 - y) as u64;
        proof {
            let k = (-(x + 1)) as int;
            let q = k / n as int;
            assert(k == q * n + y) by {
                vstd::arithmetic::div_mod::lemma_fundamental_div_mod(k, n as int);
            }
            assert(x as int == (-q - 1) * n + r) by (nonlinear_arith)
                requires
                    k == q * n + y,
                    x as int == -k - 1,
                    r == n - 1 - y,
            ;
            lemma_fundamental_div_mod_converse(x as int, n as int, -q - 1, r as int);
        }
        r
    }
}

proof fn lemma_slot(c: int, i: int)
    ensures
        (c % 2048 + HASH_INCREMENT * (i % 2048)) % 2048 == (c + HASH_INCREMENT * i) % 2048,
{
    let m = 2048int;
    vstd::arithmetic::div_mod::lemma_add_mod_noop(c, 449 * i, m);
    lemma_mul_mod_noop_right(449, i, m);
    lemma_add_mod_noop_right(c % m, 449 * (i % m), m);
}

proof fn lemma_sum_step(acc: int, s: int, t: int, m: int)
    requires
        m > 0,
        acc == s % m,
    ensures
        (acc + t) % m == (s + t) % m,
{
    lemma_add_mod_noop_right(t, s, m);
}

/// A hash of integer coordinates into `0..m`, fixed for the life of the value.
pub trait TileHash {
    spec fn wf(&self) -> bool;

    /// The index that `coords` hashes to in a memory of `m` cells.
    spec fn spec_hash(&self, coords: Seq<int>, m: nat) -> nat;

    fn hash(&self, coords: &Vec<i128>, m: usize) -> (r: usize)
        requires
            self.wf(),
            m > 0,
        ensures
            r == self.spec_hash(coords@.map_values(|c: i128| c as int), m as nat),
            r < m,
    ;
}

/// The sum of the table entries that the coordinates select: coordinate `i`
/// selects slot `(c + 449 i) mod 2048`.
pub open spec fn table_sum(table: Seq<u32>, coords: Seq<int>) -> int
    decreases coords.len(),
{
    if coords.len() == 0 {
        0
    } else {
        table_sum(table, coords.drop_last()) + table[(coords.last() + HASH_INCREMENT * (
        coords.len() - 1)) % (HASH_TABLE_SIZE as int)] as int
    }
}

/// A universal hash: the sum of table entries selected by the coordinates,
/// modulo the memory size.
#[derive(Clone, Debug)]
pub struct UniversalHash {
    table: Vec<u32>,
}

impl UniversalHash {
    pub closed spec fn spec_table(&self) -> Seq<u32> {
        self.table@
    }

    /// A hash with a table drawn at random.
    pub fn new(rng: &mut ThreadRng) -> (r: UniversalHash)
        ensures
            r.wf(),
    {
        let mut table: Vec<u32> = Vec::new();
        let mut i: usize = 0;
        while i < HASH_TABLE_SIZE
            invariant
                i <= HASH_TABLE_SIZE,
                table@.len() == i,
            decreases HASH_TABLE_SIZE - i,
        {
            let v = uniform_word(rng);
            table.push(v);
            i = i + 1;
        }
        UniversalHash { table }
    }

    /// A hash with the given table, which must have `HASH_TABLE_SIZE` entries.
    pub fn from_table(table: Vec<u32>) -> (r: Option<UniversalHash>)
        ensures
            table@.len() == HASH_TABLE_SIZE <==> r is Some,
            r is Some ==> r.unwrap().wf() && r.unwrap().spec_table() == table@,
    {
        if table.len() == HASH_TABLE_SIZE {
            Some(UniversalHash { table })
        } else {
            None
        }
    }
}

impl TileHash for UniversalHash {
    open spec fn wf(&self) -> bool {
        self.spec_table().len() == HASH_TABLE_SIZE
    }

    open spec fn spec_hash(&self, coords: Seq<int>, m: nat) -> nat {
        (table_sum(self.spec_table(), coords) % (m as int)) as nat
    }

    fn hash(&self, coords: &Vec<i128>, m: usize) -> (r: usize) {
        let ghost cs = coords@.map_values(|c: i128| c as int);
        let mut acc: u128 = 0;
        let mut i: usize = 0;
        proof {
            assert(cs.subrange(0, 0) =~= Seq::<int>::empty());
            assert(table_sum(self.spec_table(), cs.subrange(0, 0)) == 0);
            assert(0int % (m as int) == 0);
        }
        while i < coords.len()
            invariant
                self.wf(),
                m > 0,
                cs == coords@.map_values(|c: i128| c as int),
                i <= coords@.len(),
                acc < m,
                acc as int == table_sum(self.spec_table(), cs.subrange(0, i as int)) % (m as int),
            decreases coords@.len() - i,
        {
            let c = coords[i];
            let cm = floor_mod(c, 2048);
            let im = (i % 2048) as u64;
            let slot = ((cm + 449 * im) % 2048) as usize;
            proof {
                lemma_slot(c as int, i as int);
            }
            let t = self.table[slot];
            proof {
                let prefix = cs.subrange(0, i + 1);
                assert(prefix.drop_last() =~= cs.subrange(0, i as int));
                let s = table_sum(self.spec_table(), cs.subrange(0, i as int));
                assert(table_sum(self.spec_table(), prefix) == s + t);
                lemma_sum_step(acc as int, s, t as int, m as int);
            }
            acc = (acc + t as u128) % (m as u128);
            i = i + 1;
        }
        proof {
            assert(cs.subrange(0, coords@.len() as int) =~= cs);
        }
        acc as usize
    }
}

/// The coordinate of the tile that holds `q` on an axis cut into tiles of
/// width `n` whose edges lie at the values congruent to `base` modulo `n`: the
/// largest such edge not above `q`.
pub open spec fn tile_coord(q: int, base: int, n: int) -> int {
    q - (q - base) % n
}

/// The tile coordinate of `q` is an edge of the tiling at or below `q`, less
/// than one tile width away; points between two adjacent edges share it.
pub proof fn lemma_tile_holds_point(q: int, base: int, n: int)
    requires
        n > 0,
    ensures
        tile_coord(q, base, n) <= q < tile_coord(q, base, n) + n,
        (tile_coord(q, base, n) - base) % n == 0,
        forall|p: int|
            tile_coord(q, base, n) <= p < tile_coord(q, base, n) + n ==> #[trigger] tile_coord(
                p,
                base,
                n,
            ) == tile_coord(q, base, n),
{
    let c = tile_coord(q, base, n);
    let r = (q - base) % n;
    let k = (q - base) / n;
    vstd::arithmetic::div_mod::lemma_fundamental_div_mod(q - base, n);
    lemma_mod_bound(q - base, n);
    assert(c - base == k * n);
    lemma_fundamental_div_mod_converse(c - base, n, k, 0);
    assert forall|p: int| c <= p < c + n implies #[trigger] tile_coord(p, base, n) == c by {
        assert(p - base == k * n + (p - c));
        lemma_fundamental_div_mod_converse(p - base, n, k, p - c);
    }
}

/// The coordinates that name the tile of the quantised point `q` in tiling
/// `j` of `n`: one per axis, tiling `j` being offset by `j * (1 + 2 i)` on
/// axis `i`; then `j`; then the extra integers `ints`.
pub open spec fn tiling_coords(q: Seq<i64>, ints: Seq<i64>, j: int, n: int) -> Seq<int> {
    Seq::new(q.len(), |i: int| tile_coord(q[i] as int, j * (1 + 2 * i), n)) + seq![j]
        + ints.map_values(|v: i64| v as int)
}

/// Tile coding into a hashed memory: a quantised point activates one tile in
/// each of `n_tilings` offset tilings, each tile hashed into `0..memory_size`.
/// Coordinates are quantised so that one unit is a tile width divided by the
/// number of tilings.
#[derive(Clone, Debug)]
pub struct TileCoder<H> {
    n_tilings: usize,
    memory_size: usize,
    hasher: H,
}

impl<H: TileHash> TileCoder<H> {
    pub closed spec fn spec_n_tilings(&self) -> usize {
        self.n_tilings
    }

    pub closed spec fn spec_memory_size(&self) -> usize {
        self.memory_size
    }

    pub closed spec fn spec_hasher(&self) -> H {
        self.hasher
    }

    pub open spec fn wf(&self) -> bool {
        &&& self.spec_n_tilings() >= 1
        &&& self.spec_memory_size() >= 1
        &&& self.spec_hasher().wf()
    }

    pub fn new(n_tilings: usize, memory_size: usize, hasher: H) -> (r: Self)
        requires
            n_tilings >= 1,
            memory_size >= 1,
            hasher.wf(),
        ensures
            r.wf(),
            r.spec_n_tilings() == n_tilings,
            r.spec_memory_size() == memory_size,
            r.spec_hasher() == hasher,
    {
        TileCoder { n_tilings, memory_size, hasher }
    }

    /// The number of tilings, which is the number of active tiles.
    pub fn n_tilings(&self) -> (r: usize)
        ensures
            r == self.spec_n_tilings(),
    {
        self.n_tilings
    }

    /// The size of the hashed memory.
    pub fn size(&self) -> (r: usize)
        ensures
            r == self.spec_memory_size(),
    {
        self.memory_size
    }

    /// Two coders are interchangeable when they have as many tilings and as
    /// large a memory.
    pub fn equivalent(&self, other: &Self) -> (r: bool)
        ensures
            r == (self.spec_n_tilings() == other.spec_n_tilings() && self.spec_memory_size()
                == other.spec_memory_size()),
    {
        self.n_tilings == other.n_tilings && self.memory_size == other.memory_size
    }

    /// The coordinates of the tile of `q` in tiling `j`.
    fn coordinates(&self, q: &Vec<i64>, ints: &Vec<i64>, j: usize) -> (r: Vec<i128>)
        requires
            self.wf(),
            j < self.spec_n_tilings(),
        ensures
            r@.map_values(|c: i128| c as int) == tiling_coords(
                q@,
                ints@,
                j as int,
                self.spec_n_tilings() as int,
            ),
    {
        let ghost want = tiling_coords(q@, ints@, j as int, self.n_tilings as int);
        let n = self.n_tilings as u64;
        let n128 = n as u128;
        let mut out: Vec<i128> = Vec::new();
        let mut i: usize = 0;
        while i < q.len()
            invariant
                self.wf(),
                j < self.n_tilings,
                n == self.n_tilings,
                n128 == n,
                want == tiling_coords(q@, ints@, j as int, self.n_tilings as int),
                i <= q@.len(),
                out@.len() == i,
                forall|k: int| 0 <= k < i ==> #[trigger] out@[k] as int == want[k],
            decreases q@.len() - i,
        {
            let step: u128 = (1 + 2 * (i as u128)) % n128;
            proof {
                assert((j as u128) * step < 0x1_0000_0000_0000_0000 * 0x1_0000_0000_0000_0000)
                    by (nonlinear_arith)
                    requires
                        j < n128,
                        step < n128,
                        n128 < 0x1_0000_0000_0000_0000,
                ;
            }
            let b: u128 = ((j as u128) * step) % n128;
            let x = q[i];
            let d: i128 = x as i128 - b as i128;
            let r = floor_mod(d, n);
            proof {
                let y = j * (1 + 2 * i);
                lemma_mul_mod_noop_right(j as int, 1 + 2 * i, n as int);
                lemma_sub_mod_noop_right(x as int, y, n as int);
                assert(want[i as int] == tile_coord(x as int, y, n as int));
            }
            out.push(x as i128 - r as i128);
            i = i + 1;
        }
        out.push(j as i128);
        let mut k: usize = 0;
        while k < ints.len()
            invariant
                want == tiling_coords(q@, ints@, j as int, self.n_tilings as int),
                k <= ints@.len(),
                out@.len() == q@.len() + 1 + k,
                forall|t: int| 0 <= t < out@.len() ==> #[trigger] out@[t] as int == want[t],
            decreases ints@.len() - k,
        {
            out.push(ints[k] as i128);
            k = k + 1;
        }
        proof {
            assert(out@.map_values(|c: i128| c as int) =~= want);
        }
        out
    }

    /// The memory index of the active tile of `q` in each tiling, `ints`
    /// telling apart otherwise equal points (an action, an output).
    pub fn tiles(&self, q: &Vec<i64>, ints: &Vec<i64>) -> (r: Vec<usize>)
        requires
            self.wf(),
        ensures
            r@.len() == self.spec_n_tilings(),
            forall|j: int|
                0 <= j < r@.len() ==> #[trigger] r@[j] == self.spec_hasher().spec_hash(
                    tiling_coords(q@, ints@, j, self.spec_n_tilings() as int),
                    self.spec_memory_size() as nat,
                ) && r@[j] < self.spec_memory_size(),
    {
        let mut out: Vec<usize> = Vec::new();
        let mut j: usize = 0;
        while j < self.n_tilings
            invariant
                self.wf(),
                j <= self.n_tilings,
                out@.len() == j,
                forall|t: int|
                    0 <= t < j ==> #[trigger] out@[t] == self.hasher.spec_hash(
                        tiling_coords(q@, ints@, t, self.n_tilings as int),
                        self.memory_size as nat,
                    ) && out@[t] < self.memory_size,
            decreases self.n_tilings - j,
        {
            let coords = self.coordinates(q, ints, j);
            let h = self.hasher.hash(&coords, self.memory_size);
            out.push(h);
            j = j + 1;
        }
        out
    }
}

} // verus!
