//! The dense square form of a settled grid, as handed to renderers and
//! snapshot files, and the way back to a sparse grid.
use vstd::prelude::*;

use crate::engine::is_max;
use crate::grid::Grid;
use crate::model::{empty_sand, grains_at, in_cell_range, is_radius, pos_of, Pos, Sand};
use crate::sparse::{cells_insert, cells_new, lemma_sand_empty, lemma_sand_insert, lemma_sand_lookup, sand_of};
use crate::{Cell, GridError};

verus! {

/// The rows of a dense square, as sequences of bytes.
pub open spec fn rows_of(grid: Seq<Vec<u8>>) -> Seq<Seq<u8>> {
    grid.map_values(|row: Vec<u8>| row@)
}

/// `rows` is the square of half-width `d` around the origin: row `i`,
/// column `j` hold the grains of cell `(i - d, j - d)`, truncated to a byte.
pub open spec fn dense_of(g: Sand, d: nat, rows: Seq<Seq<u8>>) -> bool {
    &&& rows.len() == 2 * d + 1
    &&& forall|i: int| 0 <= i < rows.len() ==> (#[trigger] rows[i]).len() == 2 * d + 1
    &&& forall|i: int, j: int|
        0 <= i < rows.len() && 0 <= j < rows.len() ==> (#[trigger] rows[i][j]) as nat == grains_at(
            g,
            (i - d, j - d),
        ) % 256
}

/// A non-empty square: as many rows as columns in each row.
pub open spec fn is_square(rows: Seq<Seq<u8>>) -> bool {
    &&& rows.len() >= 1
    &&& forall|i: int| 0 <= i < rows.len() ==> (#[trigger] rows[i]).len() == rows.len()
}

/// The offset of the origin in a square of side `n`.
pub open spec fn centre(n: int) -> int {
    (n - 1) / 2
}

/// The configuration that a dense square stands for: row `i`, column `j`
/// is the cell `(i - c, j - c)` where `c` is the centre.
pub open spec fn undense(rows: Seq<Seq<u8>>) -> Sand {
    Map::new(
        |p: Pos|
            0 <= p.0 + centre(rows.len() as int) < rows.len() && 0 <= p.1 + centre(
                rows.len() as int,
            ) < rows.len(),
        |p: Pos|
            rows[p.0 + centre(rows.len() as int)][p.1 + centre(rows.len() as int)] as nat,
    )
}

/// The cells of the square that come before row `i`, column `j`.
spec fn undense_upto(rows: Seq<Seq<u8>>, i: int, j: int) -> Sand {
    undense(rows).restrict(
        Set::new(
            |p: Pos|
                p.0 + centre(rows.len() as int) < i || (p.0 + centre(rows.len() as int) == i && p.1
                    + centre(rows.len() as int) < j),
        ),
    )
}

/// A settled grid in dense form, tagged with its pattern and power.
pub struct RenderedGrid {
    pub pattern: String,
    pub power: u32,
    pub grid: Vec<Vec<u8>>,
}

impl RenderedGrid {
    /// The dense square of a grid, just large enough for every live cell.
    /// Counts above a byte keep their low eight bits. It fails on an empty grid.
    pub fn from_grid(grid: &Grid) -> (r: Result<RenderedGrid, GridError>)
        requires
            grid.wf(),
        ensures
            match r {
                Ok(rg) => {
                    &&& is_radius(grid.sand(), ((rg.grid@.len() - 1) / 2) as nat)
                    &&& dense_of(grid.sand(), ((rg.grid@.len() - 1) / 2) as nat, rows_of(rg.grid@))
                    &&& rg.power == grid.seed_power()
                    &&& rg.pattern == grid.pattern_name()
                },
                Err(e) => e == GridError::EmptyGrid,
            },
            r is Err <==> grid.sand() == empty_sand(),
    {
        let d = match grid.max_dim() {
            Ok(d) => d,
            Err(e) => {
                return Err(e);
            },
        };
        proof {
            grid.lemma_wf_finite();
        }
        let ghost g = grid.sand();
        let size: usize = 2 * (d as usize) + 1;
        let mut rows: Vec<Vec<u8>> = Vec::new();
        let mut i: usize = 0;
        while i < size
            invariant
                grid.wf(),
                g == grid.sand(),
                crate::model::representable(g),
                size == 2 * d + 1,
                i <= size,
                rows@.len() == i,
                forall|ii: int| 0 <= ii < i ==> (#[trigger] rows@[ii])@.len() == size,
                forall|ii: int, j: int|
                    0 <= ii < i && 0 <= j < size ==> (#[trigger] rows@[ii]@[j]) as nat == grains_at(
                        g,
                        (ii - d, j - d),
                    ) % 256,
            decreases size - i,
        {
            let mut row: Vec<u8> = Vec::new();
            let mut j: usize = 0;
            while j < size
                invariant
                    grid.wf(),
                    g == grid.sand(),
                    crate::model::representable(g),
                    size == 2 * d + 1,
                    i < size,
                    j <= size,
                    row@.len() == j,
                    forall|jj: int|
                        0 <= jj < j ==> (#[trigger] row@[jj]) as nat == grains_at(g, (i - d, jj - d))
                            % 256,
                decreases size - j,
            {
                let r32: i32 = i as i32 - d as i32;
                let c32: i32 = j as i32 - d as i32;
                let v: u32 = if i16::MIN as i32 <= r32 && r32 <= i16::MAX as i32 && i16::MIN as i32
                    <= c32 && c32 <= i16::MAX as i32 {
                    let c: Cell = (r32 as i16, c32 as i16);
                    assert(pos_of(c) == (i - d, j - d));
                    grid.get(c)
                } else {
                    assert(!in_cell_range((i - d, j - d)));
                    0
                };
                row.push((v % 256) as u8);
                j = j + 1;
            }
            rows.push(row);
            i = i + 1;
        }
        let rg = RenderedGrid { pattern: grid.pattern().clone(), power: grid.power(), grid: rows };
        proof {
            assert((rg.grid@.len() - 1) / 2 == d);
            let rs = rows_of(rg.grid@);
            assert forall|ii: int| 0 <= ii < rs.len() implies (#[trigger] rs[ii]).len() == 2 * d + 1 by {}
            assert forall|ii: int, j: int| 0 <= ii < rs.len() && 0 <= j < rs.len() implies (
            #[trigger] rs[ii][j]) as nat == grains_at(g, (ii - d, j - d)) % 256 by {
                assert(rs[ii] == rows@[ii]@);
            }
        }
        Ok(rg)
    }
}

impl Grid {
    /// The grid that a dense square stands for, every cell of the square live.
    /// It fails on an empty or non-square grid, and on a side too long for
    /// `i16` coordinates.
    pub fn from_dense(power: u32, pattern: String, topple_cells: Vec<Cell>, dense: &Vec<Vec<u8>>) -> (r:
        Result<Grid, GridError>)
        requires
            topple_cells.len() >= 1,
        ensures
            match r {
                Ok(g) => {
                    &&& g.wf()
                    &&& g.sand() == undense(rows_of(dense@))
                    &&& g.cells_of_pattern() == topple_cells@
                    &&& g.seed_power() == power
                    &&& g.pattern_name() == pattern
                },
                Err(e) => if is_square(rows_of(dense@)) {
                    e == GridError::Overflow
                } else {
                    e == GridError::Codec
                },
            },
            r is Ok <==> is_square(rows_of(dense@)) && dense@.len() <= 65535,
    {
        let ghost rows = rows_of(dense@);
        let n = dense.len();
        if n == 0 {
            return Err(GridError::Codec);
        }
        let mut i: usize = 0;
        while i < n
            invariant
                n == dense@.len(),
                rows == rows_of(dense@),
                i <= n,
                forall|ii: int| 0 <= ii < i ==> (#[trigger] rows[ii]).len() == n,
            decreases n - i,
        {
            assert(rows[i as int] == dense@[i as int]@);
            if dense[i].len() != n {
                return Err(GridError::Codec);
            }
            i = i + 1;
        }
        if n > 65535 {
            return Err(GridError::Overflow);
        }
        let off: usize = (n - 1) / 2;
        let mut inner = cells_new();
        let mut mx: u32 = 0;
        proof {
            lemma_sand_empty();
            assert(undense_upto(rows, 0, 0) =~= empty_sand());
        }
        let mut i: usize = 0;
        while i < n
            invariant
                n == dense@.len(),
                rows == rows_of(dense@),
                is_square(rows),
                1 <= n <= 65535,
                off == centre(n as int),
                i <= n,
                sand_of(inner@) == undense_upto(rows, i as int, 0),
                inner@.dom().finite(),
                is_max(inner@, mx),
            decreases n - i,
        {
            let mut j: usize = 0;
            while j < n
                invariant
                    n == dense@.len(),
                    rows == rows_of(dense@),
                    is_square(rows),
                    1 <= n <= 65535,
                    off == centre(n as int),
                    i < n,
                    j <= n,
                    sand_of(inner@) == undense_upto(rows, i as int, j as int),
                    inner@.dom().finite(),
                    is_max(inner@, mx),
                decreases n - j,
            {
                let c: Cell = ((i as i32 - off as i32) as i16, (j as i32 - off as i32) as i16);
                assert(rows[i as int] == dense@[i as int]@);
                assert(rows[i as int].len() == n);
                let v: u32 = dense[i][j] as u32;
                let ghost before = inner@;
                proof {
                    assert(pos_of(c) == (i - off, j - off));
                    lemma_sand_lookup(before, c);
                    assert(!undense_upto(rows, i as int, j as int).contains_key(pos_of(c)));
                    assert(rows[i as int] == dense@[i as int]@);
                }
                cells_insert(&mut inner, c, v);
                proof {
                    lemma_sand_insert(before, c, v);
                    assert(sand_of(inner@) =~= undense_upto(rows, i as int, (j + 1) as int));
                    if v <= mx && mx != 0 {
                        let c2 = choose|c2: Cell| #[trigger] before.contains_key(c2) && before[c2] == mx;
                        assert(inner@.contains_key(c2) && inner@[c2] == mx);
                    }
                    if v > mx {
                        assert(inner@.contains_key(c) && inner@[c] == v);
                    }
                }
                if v > mx {
                    mx = v;
                }
                j = j + 1;
            }
            proof {
                assert(undense_upto(rows, i as int, n as int) =~= undense_upto(rows, (i + 1) as int, 0));
            }
            i = i + 1;
        }
        proof {
            assert(undense_upto(rows, n as int, 0) =~= undense(rows));
        }
        Ok(Grid::from_parts(inner, topple_cells, mx, power, pattern))
    }
}

} // verus!
