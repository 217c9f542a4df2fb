//! The sparse store of grain counts: an FNV-hashed map from cells to counts,
//! and the configuration it stands for.
use std::hash::BuildHasherDefault;

use fnv::{FnvHashMap, FnvHasher};
use vstd::prelude::*;

use crate::model::{in_cell_range, pos_of, Pos, Sand};
use crate::Cell;

verus! {

/// The store of live cells and their grain counts.
pub type CellMap = FnvHashMap<Cell, u32>;

/// fnv's hasher, carried opaquely in the type of the store.
#[verifier::external_type_specification]
#[verifier::external_body]
pub struct ExFnvHasher(FnvHasher);

/// std's builder of default hashers, carried opaquely in the type of the store.
#[verifier::external_type_specification]
#[verifier::external_body]
#[verifier::reject_recursive_types(H)]
pub struct ExBuildHasherDefault<H>(BuildHasherDefault<H>);

/// The map with no live cell.
pub open spec fn no_cells() -> Map<Cell, u32> {
    Map::empty()
}

pub open spec fn cell_of(p: Pos) -> Cell {
    (p.0 as i16, p.1 as i16)
}

/// The configuration that a map of cells holds.
pub open spec fn sand_of(m: Map<Cell, u32>) -> Sand {
    Map::new(
        |p: Pos| in_cell_range(p) && m.contains_key(cell_of(p)),
        |p: Pos| m[cell_of(p)] as nat,
    )
}

/// A listing of the map: each live cell once, with its count, in any order.
pub open spec fn lists(m: Map<Cell, u32>, s: Seq<(Cell, u32)>) -> bool {
    &&& forall|i: int|
        0 <= i < s.len() ==> m.contains_key(#[trigger] s[i].0) && m[s[i].0] == s[i].1
    &&& forall|c: Cell| #[trigger] m.contains_key(c) ==> exists|i: int| 0 <= i < s.len() && s[i].0 == c
    &&& forall|i: int, j: int| 0 <= i < j < s.len() ==> s[i].0 != s[j].0
}

/// Relies on `HashMap::default` with fnv's hasher: a new map is empty.
#[verifier::external_body]
pub(crate) fn cells_new() -> (r: CellMap)
    ensures
        r@ == no_cells(),
{
    FnvHashMap::default()
}

/// Relies on `HashMap::get` with fnv's hasher: the count stored for the cell, if any.
#[verifier::external_body]
pub(crate) fn cells_get(m: &CellMap, c: Cell) -> (r: Option<u32>)
    ensures
        r == (if m@.contains_key(c) {
            Some(m@[c])
        } else {
            None
        }),
{
    m.get(&c).copied()
}

/// Relies on `HashMap::insert` with fnv's hasher: the cell now maps to the count.
#[verifier::external_body]
pub(crate) fn cells_insert(m: &mut CellMap, c: Cell, v: u32)
    ensures
        final(m)@ == old(m)@.insert(c, v),
{
    m.insert(c, v);
}

/// Relies on `HashMap::iter` with fnv's hasher: every entry once, in the map's own order.
#[verifier::external_body]
pub(crate) fn cells_listing(m: &CellMap) -> (r: Vec<(Cell, u32)>)
    ensures
        lists(m@, r@),
{
    m.iter().map(|(c, v)| (*c, *v)).collect()
}

/// Storing a count in the map stores it in the configuration.
pub proof fn lemma_sand_insert(m: Map<Cell, u32>, c: Cell, v: u32)
    ensures
        sand_of(m.insert(c, v)) == sand_of(m).insert(pos_of(c), v as nat),
{
    let a = sand_of(m.insert(c, v));
    let b = sand_of(m).insert(pos_of(c), v as nat);
    assert forall|p: Pos| #[trigger] a.contains_key(p) == b.contains_key(p) by {
        if in_cell_range(p) && cell_of(p) == c {
            assert(p == pos_of(c));
        }
    }
    assert forall|p: Pos| #[trigger] a.contains_key(p) implies a[p] == b[p] by {
        if cell_of(p) == c {
            assert(p == pos_of(c));
        }
    }
    assert(a =~= b);
}

pub proof fn lemma_sand_lookup(m: Map<Cell, u32>, c: Cell)
    ensures
        sand_of(m).contains_key(pos_of(c)) == m.contains_key(c),
        m.contains_key(c) ==> sand_of(m)[pos_of(c)] == m[c] as nat,
{
}

pub proof fn lemma_sand_empty()
    ensures
        sand_of(Map::<Cell, u32>::empty()) == Map::<Pos, nat>::empty(),
{
    assert(sand_of(Map::<Cell, u32>::empty()) =~= Map::<Pos, nat>::empty());
}

/// The configuration of a finite map is finite.
pub proof fn lemma_sand_finite(m: Map<Cell, u32>)
    requires
        m.dom().finite(),
    ensures
        sand_of(m).dom().finite(),
{
    let f = |c: Cell| pos_of(c);
    m.dom().lemma_map_finite(f);
    assert(sand_of(m).dom() =~= m.dom().map(f)) by {
        assert forall|p: Pos| #[trigger] sand_of(m).dom().contains(p) implies m.dom().map(
            f,
        ).contains(p) by {
            assert(f(cell_of(p)) == p);
        }
    }
}

} // verus!
