//! The physical cost model: fingers, home positions, and the symmetric
//! travel-cost matrix over the 26 key positions.
//!
//! Positions are numbered row by row over the 8/10/8 grid: 0..8 on the top
//! row, 8..18 on the home row, 18..26 on the bottom row. Straight steps cost
//! 1000 units, diagonal steps 1414, compound diagonal reaches 2236.

use vstd::prelude::*;

verus! {

/// The finger that rests on and serves position `p`: 0..4 on the left hand,
/// 4..8 on the right.
pub open spec fn finger_of(p: int) -> int {
    if p == 8 || p == 18 {
        0
    } else if p == 0 || p == 9 || p == 19 {
        1
    } else if p == 1 || p == 10 || p == 20 {
        2
    } else if p == 2 || p == 3 || p == 11 || p == 12 || p == 21 {
        3
    } else if p == 4 || p == 5 || p == 13 || p == 14 || p == 22 {
        4
    } else if p == 6 || p == 15 || p == 23 {
        5
    } else if p == 7 || p == 16 || p == 24 {
        6
    } else {
        7
    }
}

/// The home-row position finger `f` rests on.
pub open spec fn home_of(f: int) -> int {
    if f == 0 {
        8
    } else if f == 1 {
        9
    } else if f == 2 {
        10
    } else if f == 3 {
        11
    } else if f == 4 {
        14
    } else if f == 5 {
        15
    } else if f == 6 {
        16
    } else {
        17
    }
}

/// The finger serving position `p`, as runnable code.
pub fn finger_of_pos(p: u8) -> (f: u8)
    requires
        p < 26,
    ensures
        f as int == finger_of(p as int),
        f < 8,
{
    if p == 8 || p == 18 {
        0
    } else if p == 0 || p == 9 || p == 19 {
        1
    } else if p == 1 || p == 10 || p == 20 {
        2
    } else if p == 2 || p == 3 || p == 11 || p == 12 || p == 21 {
        3
    } else if p == 4 || p == 5 || p == 13 || p == 14 || p == 22 {
        4
    } else if p == 6 || p == 15 || p == 23 {
        5
    } else if p == 7 || p == 16 || p == 24 {
        6
    } else {
        7
    }
}

/// The eight home positions, indexed by finger.
pub fn home_positions() -> (v: Vec<u8>)
    ensures
        v@.len() == 8,
        forall|f: int| 0 <= f < 8 ==> v@[f] as int == home_of(f),
{
    let mut v: Vec<u8> = Vec::new();
    v.push(8);
    v.push(9);
    v.push(10);
    v.push(11);
    v.push(14);
    v.push(15);
    v.push(16);
    v.push(17);
    v
}

/// Every home position lies in the grid and belongs to its own finger.
pub proof fn lemma_home_positions(f: int)
    requires
        0 <= f < 8,
    ensures
        0 <= home_of(f) < 26,
        finger_of(home_of(f)) == f,
{
}

/// Staging table for the travel costs, keyed by an ordered position pair.
#[verifier::external_body]
pub struct PairTable {
    inner: hashbrown::HashMap<(u8, u8), u32>,
}

/// What the staging table holds: the pair-to-cost map built so far.
pub uninterp spec fn pair_entries(t: PairTable) -> Map<(u8, u8), u32>;

/// A pair-to-cost map with nothing in it yet.
pub open spec fn empty_pairs() -> Map<(u8, u8), u32> {
    Map::empty()
}

/// Relies on hashbrown::HashMap::new: a fresh table is empty.
#[verifier::external_body]
fn pair_table_new() -> (t: PairTable)
    ensures
        pair_entries(t) == empty_pairs(),
{
    PairTable { inner: hashbrown::HashMap::new() }
}

/// Relies on hashbrown::HashMap::insert: maps the key to the value and
/// keeps every other entry.
#[verifier::external_body]
fn pair_table_insert(t: &mut PairTable, i: u8, j: u8, v: u32)
    ensures
        pair_entries(*final(t)) == pair_entries(*old(t)).insert((i, j), v),
{
    t.inner.insert((i, j), v);
}

/// Relies on hashbrown::HashMap::get: returns the mapped value exactly when
/// the key is present.
#[verifier::external_body]
fn pair_table_get(t: &PairTable, i: u8, j: u8) -> (r: Option<u32>)
    ensures
        r == (if pair_entries(*t).contains_key((i, j)) {
            Some(pair_entries(*t)[(i, j)])
        } else {
            None::<u32>
        }),
{
    t.inner.get(&(i, j)).copied()
}

/// The modeled travel costs, keyed by an ordered pair `(lo, hi)` of
/// positions served by one finger. Pairs not listed have no defined path
/// and are never queried by the simulation.
pub open spec fn cost_table() -> Map<(u8, u8), u32> {
    empty_pairs()
        .insert((8, 18), 1000)
        .insert((0, 9), 1000)
        .insert((9, 19), 1000)
        .insert((0, 19), 2000)
        .insert((1, 10), 1000)
        .insert((10, 20), 1000)
        .insert((1, 20), 2000)
        .insert((2, 11), 1000)
        .insert((11, 21), 1000)
        .insert((2, 21), 2000)
        .insert((3, 12), 1000)
        .insert((2, 3), 1000)
        .insert((11, 12), 1000)
        .insert((2, 12), 1414)
        .insert((3, 11), 1414)
        .insert((12, 21), 1414)
        .insert((3, 21), 2236)
        .insert((17, 25), 1000)
        .insert((7, 16), 1000)
        .insert((16, 24), 1000)
        .insert((7, 24), 2000)
        .insert((6, 15), 1000)
        .insert((15, 23), 1000)
        .insert((6, 23), 2000)
        .insert((5, 14), 1000)
        .insert((14, 22), 1000)
        .insert((5, 22), 2000)
        .insert((4, 13), 1000)
        .insert((4, 5), 1000)
        .insert((13, 14), 1000)
        .insert((4, 14), 1414)
        .insert((5, 13), 1414)
        .insert((13, 22), 1414)
        .insert((4, 22), 2236)
}

/// The cost of moving between positions `i` and `j`: zero on the diagonal,
/// the table entry for the ordered pair otherwise, absent where no single
/// finger travels between the two.
pub open spec fn spec_entry(i: int, j: int) -> Option<u32> {
    if i == j {
        Some(0u32)
    } else {
        let k = if i < j {
            (i as u8, j as u8)
        } else {
            (j as u8, i as u8)
        };
        if cost_table().contains_key(k) {
            Some(cost_table()[k])
        } else {
            None
        }
    }
}

/// The 26 by 26 travel-cost matrix of the reference geometry.
pub struct DistanceMatrix {
    pub cells: Vec<Vec<Option<u32>>>,
}

impl DistanceMatrix {
    /// The matrix is fully built and each cell agrees with the cost model.
    pub open spec fn wf(self) -> bool {
        &&& self.cells@.len() == 26
        &&& forall|i: int| 0 <= i < 26 ==> (#[trigger] self.cells@[i])@.len() == 26
        &&& forall|i: int, j: int|
            0 <= i < 26 && 0 <= j < 26 ==> self.cells@[i]@[j] == spec_entry(i, j)
    }

    /// Builds the matrix: stages the modeled pair costs in a hash table,
    /// then fills every cell from it.
    pub fn build() -> (m: DistanceMatrix)
        ensures
            m.wf(),
    {
        let mut t = pair_table_new();
        pair_table_insert(&mut t, 8, 18, 1000);
        pair_table_insert(&mut t, 0, 9, 1000);
        pair_table_insert(&mut t, 9, 19, 1000);
        pair_table_insert(&mut t, 0, 19, 2000);
        pair_table_insert(&mut t, 1, 10, 1000);
        pair_table_insert(&mut t, 10, 20, 1000);
        pair_table_insert(&mut t, 1, 20, 2000);
        pair_table_insert(&mut t, 2, 11, 1000);
        pair_table_insert(&mut t, 11, 21, 1000);
        pair_table_insert(&mut t, 2, 21, 2000);
        pair_table_insert(&mut t, 3, 12, 1000);
        pair_table_insert(&mut t, 2, 3, 1000);
        pair_table_insert(&mut t, 11, 12, 1000);
        pair_table_insert(&mut t, 2, 12, 1414);
        pair_table_insert(&mut t, 3, 11, 1414);
        pair_table_insert(&mut t, 12, 21, 1414);
        pair_table_insert(&mut t, 3, 21, 2236);
        pair_table_insert(&mut t, 17, 25, 1000);
        pair_table_insert(&mut t, 7, 16, 1000);
        pair_table_insert(&mut t, 16, 24, 1000);
        pair_table_insert(&mut t, 7, 24, 2000);
        pair_table_insert(&mut t, 6, 15, 1000);
        pair_table_insert(&mut t, 15, 23, 1000);
        pair_table_insert(&mut t, 6, 23, 2000);
        pair_table_insert(&mut t, 5, 14, 1000);
        pair_table_insert(&mut t, 14, 22, 1000);
        pair_table_insert(&mut t, 5, 22, 2000);
        pair_table_insert(&mut t, 4, 13, 1000);
        pair_table_insert(&mut t, 4, 5, 1000);
        pair_table_insert(&mut t, 13, 14, 1000);
        pair_table_insert(&mut t, 4, 14, 1414);
        pair_table_insert(&mut t, 5, 13, 1414);
        pair_table_insert(&mut t, 13, 22, 1414);
        pair_table_insert(&mut t, 4, 22, 2236);
        proof {
            assert(pair_entries(t) == cost_table());
        }
        let mut cells: Vec<Vec<Option<u32>>> = Vec::new();
        for i in 0..26usize
            invariant
                pair_entries(t) == cost_table(),
                cells@.len() == i,
                forall|ii: int| 0 <= ii < i ==> (#[trigger] cells@[ii])@.len() == 26,
                forall|ii: int, jj: int|
                    0 <= ii < i && 0 <= jj < 26 ==> cells@[ii]@[jj] == spec_entry(ii, jj),
        {
            let mut row: Vec<Option<u32>> = Vec::new();
            for j in 0..26usize
                invariant
                    pair_entries(t) == cost_table(),
                    i < 26,
                    row@.len() == j,
                    forall|jj: int| 0 <= jj < j ==> row@[jj] == spec_entry(i as int, jj),
            {
                let e: Option<u32> = if i == j {
                    Some(0)
                } else if i < j {
                    pair_table_get(&t, i as u8, j as u8)
                } else {
                    pair_table_get(&t, j as u8, i as u8)
                };
                row.push(e);
            }
            cells.push(row);
        }
        DistanceMatrix { cells }
    }

    /// The cost entry between two positions.
    pub fn get(&self, i: usize, j: usize) -> (r: Option<u32>)
        requires
            self.wf(),
            i < 26,
            j < 26,
        ensures
            r == spec_entry(i as int, j as int),
    {
        let row = &self.cells[i];
        row[j]
    }
}

/// The cost model is symmetric and free on the diagonal.
pub proof fn lemma_distance_symmetric(i: int, j: int)
    requires
        0 <= i < 26,
        0 <= j < 26,
    ensures
        spec_entry(i, j) == spec_entry(j, i),
        spec_entry(i, i) == Some(0u32),
{
}

/// Two positions served by one finger always have a modeled cost, and no
/// modeled cost exceeds the compound diagonal reach.
#[verifier::rlimit(100)]
pub proof fn lemma_same_finger_cost(p: int, q: int)
    requires
        0 <= p < 26,
        0 <= q < 26,
        finger_of(p) == finger_of(q),
    ensures
        spec_entry(p, q) is Some,
        spec_entry(p, q)->Some_0 <= 2236,
{
}

} // verus!
