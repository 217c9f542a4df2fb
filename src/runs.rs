//! The ways to obtain a settled grid: from a seed, by doubling a settled
//! grid, and by combining two settled grids.
use vstd::prelude::*;

use crate::grid::{settles_within_range, Grid};
use crate::model::{doubled, iterate, merged, offsets_of, seeded, settles_in, two_to, Pos};
use crate::patterns::Catalog;
use crate::rendered::{is_square, rows_of, undense, RenderedGrid};
use crate::GridError;

verus! {

/// The grid that a snapshot stands for, toppled by the snapshot's own pattern.
/// It fails when the catalog lacks the pattern, or as `Grid::from_dense` does.
pub fn load(snapshot: &RenderedGrid, catalog: &Catalog) -> (r: Result<Grid, GridError>)
    requires
        catalog.wf(),
    ensures
        match r {
            Ok(g) => {
                &&& g.wf()
                &&& g.sand() == undense(rows_of(snapshot.grid@))
                &&& g.cells_of_pattern() == catalog.pattern_of(snapshot.pattern@)
                &&& g.seed_power() == snapshot.power
                &&& g.pattern_name() == snapshot.pattern
            },
            Err(e) => if !catalog.names_view().contains(snapshot.pattern@) {
                match e {
                    GridError::UnknownPattern(s) => s@ == snapshot.pattern@,
                    _ => false,
                }
            } else if !is_square(rows_of(snapshot.grid@)) {
                e == GridError::Codec
            } else {
                e == GridError::Overflow
            },
        },
        r is Ok <==> catalog.names_view().contains(snapshot.pattern@) && is_square(
            rows_of(snapshot.grid@),
        ) && snapshot.grid@.len() <= 65535,
{
    let cells = match catalog.lookup(snapshot.pattern.as_str()) {
        Ok(v) => v,
        Err(e) => {
            return Err(e);
        },
    };
    Grid::from_dense(snapshot.power, snapshot.pattern.clone(), cells, &snapshot.grid)
}

/// Seeds `2^power` grains at the origin and topples them with the named
/// pattern; returns the settled grid and the number of rounds.
pub fn run(catalog: &Catalog, pattern: &str, power: u32) -> (r: Result<(Grid, u64), GridError>)
    requires
        catalog.wf(),
    ensures
        match r {
            Ok((g, n)) => {
                let offs = offsets_of(catalog.pattern_of(pattern@));
                &&& g.wf()
                &&& g.cells_of_pattern() == catalog.pattern_of(pattern@)
                &&& settles_in(seeded(two_to(power as nat)), offs, n as nat)
                &&& g.sand() == iterate(seeded(two_to(power as nat)), offs, n as nat)
                &&& g.seed_power() == power
                &&& g.pattern_name()@ == pattern@
            },
            Err(e) => if !catalog.names_view().contains(pattern@) {
                match e {
                    GridError::UnknownPattern(s) => s@ == pattern@,
                    _ => false,
                }
            } else {
                e == GridError::Overflow
            },
        },
        r is Ok <==> catalog.names_view().contains(pattern@) && two_to(power as nat) <= u32::MAX
            && exists|n: nat|
            n <= u64::MAX && #[trigger] settles_within_range(
                seeded(two_to(power as nat)),
                offsets_of(catalog.pattern_of(pattern@)),
                n,
            ),
{
    let cells = match catalog.lookup(pattern) {
        Ok(v) => v,
        Err(e) => {
            return Err(e);
        },
    };
    let mut grid = match Grid::seed(power, pattern.to_owned(), cells) {
        Ok(g) => g,
        Err(e) => {
            return Err(e);
        },
    };
    let ghost offs = grid.offsets();
    assert(offs == offsets_of(catalog.pattern_of(pattern@)));
    assert(grid.sand() == seeded(two_to(power as nat)));
    match grid.topple() {
        Ok(n) => Ok((grid, n)),
        Err(e) => Err(e),
    }
}

/// Doubles the grains of a snapshot's grid and topples it again with the same
/// pattern; the power rises by one.
pub fn double(snapshot: &RenderedGrid, catalog: &Catalog) -> (r: Result<(Grid, u64), GridError>)
    requires
        catalog.wf(),
    ensures
        match r {
            Ok((g, n)) => {
                let start = doubled(undense(rows_of(snapshot.grid@)));
                let offs = offsets_of(catalog.pattern_of(snapshot.pattern@));
                &&& g.wf()
                &&& g.cells_of_pattern() == catalog.pattern_of(snapshot.pattern@)
                &&& settles_in(start, offs, n as nat)
                &&& g.sand() == iterate(start, offs, n as nat)
                &&& g.seed_power() == snapshot.power + 1
                &&& g.pattern_name() == snapshot.pattern
            },
            Err(e) => if !catalog.names_view().contains(snapshot.pattern@) {
                match e {
                    GridError::UnknownPattern(s) => s@ == snapshot.pattern@,
                    _ => false,
                }
            } else if !is_square(rows_of(snapshot.grid@)) {
                e == GridError::Codec
            } else {
                e == GridError::Overflow
            },
        },
        r is Ok <==> {
            &&& catalog.names_view().contains(snapshot.pattern@)
            &&& is_square(rows_of(snapshot.grid@))
            &&& snapshot.grid@.len() <= 65535
            &&& snapshot.power < u32::MAX
            &&& forall|p: Pos| #[trigger] undense(rows_of(snapshot.grid@)).contains_key(p)
                ==> 2 * undense(rows_of(snapshot.grid@))[p] <= u32::MAX
            &&& exists|n: nat|
                n <= u64::MAX && #[trigger] settles_within_range(
                    doubled(undense(rows_of(snapshot.grid@))),
                    offsets_of(catalog.pattern_of(snapshot.pattern@)),
                    n,
                )
        },
{
    let grid = match load(snapshot, catalog) {
        Ok(g) => g,
        Err(e) => {
            return Err(e);
        },
    };
    let mut grid = match grid.double() {
        Ok(g) => g,
        Err(e) => {
            return Err(e);
        },
    };
    assert(grid.offsets() == offsets_of(catalog.pattern_of(snapshot.pattern@)));
    assert(grid.sand() == doubled(undense(rows_of(snapshot.grid@))));
    match grid.topple() {
        Ok(n) => Ok((grid, n)),
        Err(e) => Err(e),
    }
}

/// Adds the grains of two snapshots' grids cell by cell and topples the sum
/// with the first snapshot's pattern; the result keeps the first one's power.
pub fn combine(first: &RenderedGrid, second: &RenderedGrid, catalog: &Catalog) -> (r: Result<
    (Grid, u64),
    GridError,
>)
    requires
        catalog.wf(),
    ensures
        match r {
            Ok((g, n)) => {
                let start = merged(
                    undense(rows_of(first.grid@)),
                    undense(rows_of(second.grid@)),
                );
                let offs = offsets_of(catalog.pattern_of(first.pattern@));
                &&& g.wf()
                &&& g.cells_of_pattern() == catalog.pattern_of(first.pattern@)
                &&& settles_in(start, offs, n as nat)
                &&& g.sand() == iterate(start, offs, n as nat)
                &&& g.seed_power() == first.power
                &&& g.pattern_name() == first.pattern
            },
            Err(e) => if !catalog.names_view().contains(first.pattern@) {
                match e {
                    GridError::UnknownPattern(s) => s@ == first.pattern@,
                    _ => false,
                }
            } else if !is_square(rows_of(first.grid@)) {
                e == GridError::Codec
            } else if first.grid@.len() > 65535 {
                e == GridError::Overflow
            } else if !catalog.names_view().contains(second.pattern@) {
                match e {
                    GridError::UnknownPattern(s) => s@ == second.pattern@,
                    _ => false,
                }
            } else if !is_square(rows_of(second.grid@)) {
                e == GridError::Codec
            } else {
                e == GridError::Overflow
            },
        },
        r is Ok <==> {
            &&& catalog.names_view().contains(first.pattern@)
            &&& catalog.names_view().contains(second.pattern@)
            &&& is_square(rows_of(first.grid@))
            &&& is_square(rows_of(second.grid@))
            &&& first.grid@.len() <= 65535
            &&& second.grid@.len() <= 65535
            &&& forall|p: Pos| #[trigger]
                merged(undense(rows_of(first.grid@)), undense(rows_of(second.grid@))).contains_key(
                    p,
                ) ==> merged(undense(rows_of(first.grid@)), undense(rows_of(second.grid@)))[p]
                    <= u32::MAX
            &&& exists|n: nat|
                n <= u64::MAX && #[trigger] settles_within_range(
                    merged(undense(rows_of(first.grid@)), undense(rows_of(second.grid@))),
                    offsets_of(catalog.pattern_of(first.pattern@)),
                    n,
                )
        },
{
    let grid = match load(first, catalog) {
        Ok(g) => g,
        Err(e) => {
            return Err(e);
        },
    };
    let other = match load(second, catalog) {
        Ok(g) => g,
        Err(e) => {
            return Err(e);
        },
    };
    let mut grid = match grid.combine(&other) {
        Ok(g) => g,
        Err(e) => {
            return Err(e);
        },
    };
    assert(grid.offsets() == offsets_of(catalog.pattern_of(first.pattern@)));
    assert(grid.sand() == merged(undense(rows_of(first.grid@)), undense(rows_of(second.grid@))));
    match grid.topple() {
        Ok(n) => Ok((grid, n)),
        Err(e) => Err(e),
    }
}

} // verus!
