//! The sparse grid and the toppling engine that drives it to a stable configuration.
use vstd::prelude::*;

use crate::engine::{is_max, next_round};
use crate::model::{
    doubled, empty_sand, grains_at, in_cell_range, is_radius, iterate, lemma_two_to_monotone,
    merged, offsets_of, pos_of, reach_of, representable, seeded, settles_in, stable, two_to, Pos,
    Sand,
};
use crate::sparse::{
    cell_of, cells_get, cells_insert, cells_listing, cells_new, lemma_sand_empty,
    lemma_sand_finite, lemma_sand_insert, lemma_sand_lookup, lists, sand_of, CellMap,
};
use crate::{Cell, GridError};

verus! {

/// Some configuration within the first `b` rounds, reached while every
/// earlier one could still fire, leaves the range of a grid.
pub open spec fn overflows_within(g: Sand, offs: Seq<Pos>, b: nat) -> bool {
    exists|i: nat|
        i <= b && !representable(#[trigger] iterate(g, offs, i)) && forall|j: nat|
            j < i ==> !stable(#[trigger] iterate(g, offs, j), offs.len())
}

/// The first `m` rounds from `g` stay in the range of a grid and each
/// configuration so far can still fire, but round `m + 1` leaves the range.
pub open spec fn fails_after(g: Sand, offs: Seq<Pos>, m: nat) -> bool {
    &&& forall|i: nat|
        i <= m ==> representable(#[trigger] iterate(g, offs, i)) && !stable(
            iterate(g, offs, i),
            offs.len(),
        )
    &&& !representable(iterate(g, offs, m + 1))
}

/// `g` settles after `n` rounds, and every configuration on the way fits a grid.
pub open spec fn settles_within_range(g: Sand, offs: Seq<Pos>, n: nat) -> bool {
    &&& settles_in(g, offs, n)
    &&& forall|i: nat| i <= n ==> representable(#[trigger] iterate(g, offs, i))
}

/// A listing of a configuration: each live cell once, with its count.
pub open spec fn lists_sand(g: Sand, s: Seq<(Cell, u32)>) -> bool {
    &&& forall|i: int|
        0 <= i < s.len() ==> g.contains_key(#[trigger] pos_of(s[i].0)) && g[pos_of(s[i].0)]
            == s[i].1 as nat
    &&& forall|p: Pos| #[trigger] g.contains_key(p) ==> exists|i: int| 0 <= i < s.len() && pos_of(s[i].0) == p
    &&& forall|i: int, j: int| 0 <= i < j < s.len() ==> s[i].0 != s[j].0
}

/// How far a cell lies from the origin along either axis.
fn reach(c: Cell) -> (r: u16)
    ensures
        r as nat == reach_of(pos_of(c)),
{
    let a: i32 = if c.0 >= 0 {
        c.0 as i32
    } else {
        -(c.0 as i32)
    };
    let b: i32 = if c.1 >= 0 {
        c.1 as i32
    } else {
        -(c.1 as i32)
    };
    if a >= b {
        a as u16
    } else {
        b as u16
    }
}

pub proof fn lemma_sand_representable(m: Map<Cell, u32>)
    ensures
        representable(sand_of(m)),
{
}

/// The largest count decides stability.
proof fn lemma_max_stable(m: Map<Cell, u32>, mx: u32, k: nat)
    requires
        is_max(m, mx),
        k >= 1,
    ensures
        stable(sand_of(m), k) <==> mx < k,
{
    if mx >= k {
        let c = choose|c: Cell| #[trigger] m.contains_key(c) && m[c] == mx;
        lemma_sand_lookup(m, c);
    }
}

/// A sandpile on the integer grid, with the firing pattern that topples it.
pub struct Grid {
    inner: CellMap,
    topple_cells: Vec<Cell>,
    cell_max: u32,
    power: u32,
    pattern: String,
}

impl Grid {
    /// The configuration the grid holds.
    pub closed spec fn sand(&self) -> Sand {
        sand_of(self.inner@)
    }

    /// The exponent of the seed: the grid started from `2^power` grains.
    pub closed spec fn seed_power(&self) -> u32 {
        self.power
    }

    /// The name of the firing pattern.
    pub closed spec fn pattern_name(&self) -> String {
        self.pattern
    }

    /// The firing pattern's displacements, in order, with repeats.
    pub closed spec fn cells_of_pattern(&self) -> Seq<Cell> {
        self.topple_cells@
    }

    pub open spec fn offsets(&self) -> Seq<Pos> {
        offsets_of(self.cells_of_pattern())
    }

    /// The firing threshold: the number of displacements of the pattern.
    pub open spec fn threshold(&self) -> nat {
        self.cells_of_pattern().len()
    }

    pub closed spec fn wf(&self) -> bool {
        &&& self.inner@.dom().finite()
        &&& self.topple_cells.len() >= 1
        &&& is_max(self.inner@, self.cell_max)
    }

    pub proof fn lemma_wf_finite(&self)
        requires
            self.wf(),
        ensures
            self.sand().dom().finite(),
            representable(self.sand()),
    {
        lemma_sand_finite(self.inner@);
    }

    /// An empty grid for the given pattern.
    pub fn new(power: u32, pattern: String, topple_cells: Vec<Cell>) -> (r: Grid)
        requires
            topple_cells.len() >= 1,
        ensures
            r.wf(),
            r.sand() == empty_sand(),
            r.cells_of_pattern() == topple_cells@,
            r.seed_power() == power,
            r.pattern_name() == pattern,
    {
        proof {
            lemma_sand_empty();
        }
        Grid { inner: cells_new(), topple_cells, cell_max: 0, power, pattern }
    }

    pub fn power(&self) -> (r: u32)
        ensures
            r == self.seed_power(),
    {
        self.power
    }

    pub fn pattern(&self) -> (r: &String)
        ensures
            *r == self.pattern_name(),
    {
        &self.pattern
    }

    pub(crate) fn from_parts(
        inner: CellMap,
        topple_cells: Vec<Cell>,
        cell_max: u32,
        power: u32,
        pattern: String,
    ) -> (r: Grid)
        requires
            inner@.dom().finite(),
            topple_cells.len() >= 1,
            is_max(inner@, cell_max),
        ensures
            r.wf(),
            r.sand() == sand_of(inner@),
            r.cells_of_pattern() == topple_cells@,
            r.seed_power() == power,
            r.pattern_name() == pattern,
    {
        Grid { inner, topple_cells, cell_max, power, pattern }
    }

    /// The firing pattern's displacements.
    pub fn topple_cells(&self) -> (r: &Vec<Cell>)
        ensures
            r@ == self.cells_of_pattern(),
    {
        &self.topple_cells
    }

    /// The largest grain count of any cell, zero for an empty grid.
    pub fn cell_max(&self) -> (r: u32)
        requires
            self.wf(),
        ensures
            forall|p: Pos| #[trigger] self.sand().contains_key(p) ==> self.sand()[p] <= r,
            r == 0 || exists|p: Pos| #[trigger] self.sand().contains_key(p) && self.sand()[p] == r,
    {
        proof {
            if self.cell_max != 0 {
                let c = choose|c: Cell| #[trigger] self.inner@.contains_key(c) && self.inner@[c] == self.cell_max;
                lemma_sand_lookup(self.inner@, c);
                assert(self.sand().contains_key(pos_of(c)) && self.sand()[pos_of(c)] == self.cell_max);
            }
        }
        self.cell_max
    }

    /// No cell can fire.
    pub fn is_stable(&self) -> (r: bool)
        requires
            self.wf(),
        ensures
            r == stable(self.sand(), self.threshold()),
    {
        proof {
            lemma_max_stable(self.inner@, self.cell_max, self.threshold());
        }
        (self.cell_max as u64) < (self.topple_cells.len() as u64)
    }

    /// Runs at most `budget` rounds, stopping early once the grid is stable,
    /// and returns how many rounds ran. It fails when a configuration on the
    /// way leaves the range of a grid; the grid then holds the last one that fit.
    pub fn advance(&mut self, budget: u64) -> (r: Result<u64, GridError>)
        requires
            old(self).wf(),
        ensures
            final(self).wf(),
            final(self).cells_of_pattern() == old(self).cells_of_pattern(),
            final(self).seed_power() == old(self).seed_power(),
            final(self).pattern_name() == old(self).pattern_name(),
            match r {
                Ok(n) => {
                    &&& n <= budget
                    &&& final(self).sand() == iterate(old(self).sand(), old(self).offsets(), n as nat)
                    &&& forall|i: nat|
                        i < n ==> !stable(
                            #[trigger] iterate(old(self).sand(), old(self).offsets(), i),
                            old(self).threshold(),
                        )
                    &&& n < budget ==> stable(final(self).sand(), old(self).threshold())
                },
                Err(e) => {
                    &&& e == GridError::Overflow
                    &&& exists|m: nat|
                        m < budget && #[trigger] fails_after(old(self).sand(), old(self).offsets(), m)
                            && final(self).sand() == iterate(old(self).sand(), old(self).offsets(), m)
                },
            },
            r is Err <==> overflows_within(old(self).sand(), old(self).offsets(), budget as nat),
    {
        let ghost g = self.sand();
        let ghost offs = self.offsets();
        let ghost k = self.threshold();
        let k64 = self.topple_cells.len() as u64;
        let mut done: u64 = 0;
        proof {
            lemma_max_stable(self.inner@, self.cell_max, k);
        }
        while done < budget && self.cell_max as u64 >= k64
            invariant
                self.wf(),
                self.cells_of_pattern() == old(self).cells_of_pattern(),
                self.power == old(self).power,
                self.pattern == old(self).pattern,
                g == old(self).sand(),
                offs == self.offsets(),
                k == self.threshold(),
                k64 == k,
                done <= budget,
                self.sand() == iterate(g, offs, done as nat),
                forall|i: nat| i < done ==> !stable(#[trigger] iterate(g, offs, i), k),
                forall|i: nat| i <= done ==> representable(#[trigger] iterate(g, offs, i)),
                stable(self.sand(), k) <==> self.cell_max < k,
            decreases budget - done,
        {
            match next_round(&self.inner, &self.topple_cells) {
                Ok((n, mx)) => {
                    self.inner = n;
                    self.cell_max = mx;
                },
                Err(e) => {
                    proof {
                        let i = (done + 1) as nat;
                        assert(iterate(g, offs, i) == crate::model::step(iterate(g, offs, done as nat), offs));
                        assert forall|j: nat| j < i implies !stable(#[trigger] iterate(g, offs, j), k) by {
                        }
                        assert(overflows_within(g, offs, budget as nat));
                        assert(fails_after(g, offs, done as nat));
                        assert(offs == old(self).offsets());
                        assert(fails_after(old(self).sand(), old(self).offsets(), done as nat)
                            && self.sand() == iterate(old(self).sand(), old(self).offsets(), done as nat));
                    }
                    return Err(e);
                },
            }
            proof {
                let d1 = (done + 1) as nat;
                assert(iterate(g, offs, d1) == crate::model::step(iterate(g, offs, done as nat), offs));
                lemma_max_stable(self.inner@, self.cell_max, k);
                lemma_sand_representable(self.inner@);
            }
            done = done + 1;
        }
        proof {
            assert(!overflows_within(g, offs, budget as nat)) by {
                if overflows_within(g, offs, budget as nat) {
                    let i = choose|i: nat|
                        i <= budget && !representable(#[trigger] iterate(g, offs, i)) && forall|j: nat|
                            j < i ==> !stable(#[trigger] iterate(g, offs, j), offs.len());
                    assert(i > done);
                    assert(!stable(iterate(g, offs, done as nat), offs.len()));
                }
            }
        }
        Ok(done)
    }

    /// Topples the grid until no cell can fire and returns the number of rounds.
    /// A stable grid takes no round and stays as it is.
    pub fn topple(&mut self) -> (r: Result<u64, GridError>)
        requires
            old(self).wf(),
        ensures
            final(self).wf(),
            final(self).cells_of_pattern() == old(self).cells_of_pattern(),
            final(self).seed_power() == old(self).seed_power(),
            final(self).pattern_name() == old(self).pattern_name(),
            match r {
                Ok(n) => {
                    &&& final(self).sand() == iterate(old(self).sand(), old(self).offsets(), n as nat)
                    &&& settles_in(old(self).sand(), old(self).offsets(), n as nat)
                },
                Err(e) => {
                    &&& e == GridError::Overflow
                    &&& (exists|m: nat|
                        m < u64::MAX && #[trigger] fails_after(
                            old(self).sand(),
                            old(self).offsets(),
                            m,
                        ) && final(self).sand() == iterate(old(self).sand(), old(self).offsets(), m))
                        || (final(self).sand() == iterate(
                        old(self).sand(),
                        old(self).offsets(),
                        u64::MAX as nat,
                    ) && forall|i: nat|
                        i <= u64::MAX ==> !stable(
                            #[trigger] iterate(old(self).sand(), old(self).offsets(), i),
                            old(self).threshold(),
                        ))
                },
            },
            r is Ok <==> exists|n: nat|
                n <= u64::MAX && #[trigger] settles_within_range(
                    old(self).sand(),
                    old(self).offsets(),
                    n,
                ),
    {
        let ghost g = self.sand();
        let ghost offs = self.offsets();
        let ghost k = self.threshold();
        match self.advance(u64::MAX) {
            Ok(n) => {
                if self.is_stable() {
                    proof {
                        assert forall|i: nat| i <= n implies representable(
                            #[trigger] iterate(g, offs, i),
                        ) by {
                            if !representable(iterate(g, offs, i)) {
                                assert forall|j: nat| j < i implies !stable(
                                    #[trigger] iterate(g, offs, j),
                                    offs.len(),
                                ) by {}
                                assert(overflows_within(g, offs, u64::MAX as nat));
                            }
                        }
                        assert(settles_within_range(g, offs, n as nat));
                    }
                    Ok(n)
                } else {
                    proof {
                        assert forall|m: nat| m <= u64::MAX implies !#[trigger] settles_within_range(
                            g,
                            offs,
                            m,
                        ) by {
                            if m < n {
                                assert(!stable(iterate(g, offs, m), k));
                            }
                        }
                    }
                    Err(GridError::Overflow)
                }
            },
            Err(e) => {
                proof {
                    let i = choose|i: nat|
                        i <= u64::MAX && !representable(#[trigger] iterate(g, offs, i)) && forall|
                            j: nat,
                        | j < i ==> !stable(#[trigger] iterate(g, offs, j), offs.len());
                    assert forall|m: nat| m <= u64::MAX implies !#[trigger] settles_within_range(
                        g,
                        offs,
                        m,
                    ) by {
                        if settles_within_range(g, offs, m) {
                            if i <= m {
                                assert(representable(iterate(g, offs, i)));
                            } else {
                                assert(!stable(iterate(g, offs, m), offs.len()));
                            }
                        }
                    }
                }
                Err(e)
            },
        }
    }

    /// A grid whose only live cell is the origin, holding `2^power` grains.
    /// It fails when that count does not fit a `u32`.
    pub fn seed(power: u32, pattern: String, topple_cells: Vec<Cell>) -> (r: Result<Grid, GridError>)
        requires
            topple_cells.len() >= 1,
        ensures
            match r {
                Ok(g) => {
                    &&& g.wf()
                    &&& g.sand() == seeded(two_to(power as nat))
                    &&& g.cells_of_pattern() == topple_cells@
                    &&& g.seed_power() == power
                    &&& g.pattern_name() == pattern
                },
                Err(e) => e == GridError::Overflow,
            },
            r is Err <==> two_to(power as nat) > u32::MAX,
    {
        let mut v: u32 = 1;
        let mut i: u32 = 0;
        while i < power
            invariant
                i <= power,
                v as nat == two_to(i as nat),
            decreases power - i,
        {
            if v > u32::MAX / 2 {
                proof {
                    lemma_two_to_monotone((i + 1) as nat, power as nat);
                }
                return Err(GridError::Overflow);
            }
            v = v * 2;
            i = i + 1;
        }
        let mut grid = Grid::new(power, pattern, topple_cells);
        let ghost before = grid.inner@;
        cells_insert(&mut grid.inner, (0, 0), v);
        grid.cell_max = v;
        proof {
            lemma_sand_insert(before, (0, 0), v);
            assert(grid.sand() =~= seeded(two_to(power as nat)));
            assert forall|c: Cell| #[trigger] grid.inner@.contains_key(c) implies grid.inner@[c]
                <= v by {
                if c != (0i16, 0i16) {
                    lemma_sand_lookup(before, c);
                }
            }
            assert(grid.inner@.contains_key((0, 0)) && grid.inner@[(0, 0)] == v);
        }
        Ok(grid)
    }

    /// The grains of a cell, zero for a cell that is not live.
    pub fn get(&self, c: Cell) -> (r: u32)
        requires
            self.wf(),
        ensures
            r as nat == grains_at(self.sand(), pos_of(c)),
    {
        proof {
            lemma_sand_lookup(self.inner@, c);
        }
        match cells_get(&self.inner, c) {
            Some(v) => v,
            None => 0,
        }
    }

    /// The live cells and their grains, each once, in no particular order.
    pub fn cells(&self) -> (r: Vec<(Cell, u32)>)
        requires
            self.wf(),
        ensures
            lists_sand(self.sand(), r@),
    {
        let r = cells_listing(&self.inner);
        proof {
            assert forall|i: int| 0 <= i < r@.len() implies self.sand().contains_key(
                #[trigger] pos_of(r@[i].0),
            ) && self.sand()[pos_of(r@[i].0)] == r@[i].1 as nat by {
                lemma_sand_lookup(self.inner@, r@[i].0);
            }
            assert forall|p: Pos| #[trigger] self.sand().contains_key(p) implies exists|i: int|
                0 <= i < r@.len() && pos_of(r@[i].0) == p by {
                let c = cell_of(p);
                assert(self.inner@.contains_key(c));
                let i = choose|i: int| 0 <= i < r@.len() && r@[i].0 == c;
                assert(pos_of(r@[i].0) == p);
            }
        }
        r
    }

    /// The bounding radius: the largest reach of any live cell along either axis.
    /// It fails on a grid with no live cell.
    pub fn max_dim(&self) -> (r: Result<u16, GridError>)
        requires
            self.wf(),
        ensures
            match r {
                Ok(d) => is_radius(self.sand(), d as nat),
                Err(e) => e == GridError::EmptyGrid,
            },
            r is Err <==> self.sand() == empty_sand(),
    {
        let entries = cells_listing(&self.inner);
        if entries.len() == 0 {
            proof {
                assert(self.sand() =~= empty_sand()) by {
                    assert forall|p: Pos| !self.sand().contains_key(p) by {
                        if self.sand().contains_key(p) {
                            assert(self.inner@.contains_key(cell_of(p)));
                        }
                    }
                }
            }
            return Err(GridError::EmptyGrid);
        }
        let mut d: u16 = reach(entries[0].0);
        let ghost mut w: int = 0;
        let mut i: usize = 1;
        while i < entries.len()
            invariant
                lists(self.inner@, entries@),
                1 <= i <= entries.len(),
                0 <= w < i,
                reach_of(pos_of(entries@[w].0)) == d,
                forall|idx: int| 0 <= idx < i ==> reach_of(#[trigger] pos_of(entries@[idx].0)) <= d,
            decreases entries.len() - i,
        {
            let e = reach(entries[i].0);
            if e > d {
                d = e;
                proof {
                    w = i as int;
                }
            }
            i = i + 1;
        }
        proof {
            lemma_sand_lookup(self.inner@, entries@[w].0);
            assert(self.sand().contains_key(pos_of(entries@[w].0)));
            assert forall|p: Pos| #[trigger] self.sand().contains_key(p) implies reach_of(p) <= d by {
                let c = cell_of(p);
                assert(self.inner@.contains_key(c));
                let idx = choose|idx: int| 0 <= idx < entries@.len() && entries@[idx].0 == c;
                assert(pos_of(entries@[idx].0) == p);
            }
            assert(self.sand().contains_key(pos_of(entries@[0].0)));
        }
        Ok(d)
    }

    /// Doubles the grains of every cell and raises the power by one; the
    /// pattern stays. It fails when a count or the power would overflow.
    pub fn double(self) -> (r: Result<Grid, GridError>)
        requires
            self.wf(),
        ensures
            match r {
                Ok(g) => {
                    &&& g.wf()
                    &&& g.sand() == doubled(self.sand())
                    &&& g.cells_of_pattern() == self.cells_of_pattern()
                    &&& g.seed_power() == self.seed_power() + 1
                    &&& g.pattern_name() == self.pattern_name()
                },
                Err(e) => e == GridError::Overflow,
            },
            r is Err <==> self.seed_power() == u32::MAX || exists|p: Pos|
                #[trigger] self.sand().contains_key(p) && 2 * self.sand()[p] > u32::MAX,
    {
        if self.power == u32::MAX {
            return Err(GridError::Overflow);
        }
        if self.cell_max > u32::MAX / 2 {
            proof {
                let c = choose|c: Cell| #[trigger] self.inner@.contains_key(c) && self.inner@[c] == self.cell_max;
                lemma_sand_lookup(self.inner@, c);
                assert(self.sand().contains_key(pos_of(c)));
            }
            return Err(GridError::Overflow);
        }
        let ghost m0 = self.inner@;
        let entries = cells_listing(&self.inner);
        let Grid { mut inner, topple_cells, cell_max, power, pattern } = self;
        let mut i: usize = 0;
        while i < entries.len()
            invariant
                lists(m0, entries@),
                i <= entries.len(),
                forall|c: Cell| #[trigger] inner@.contains_key(c) <==> m0.contains_key(c),
                forall|idx: int|
                    0 <= idx < i ==> inner@[#[trigger] entries@[idx].0] == 2 * entries@[idx].1,
                forall|idx: int|
                    i <= idx < entries.len() ==> inner@[#[trigger] entries@[idx].0]
                        == entries@[idx].1,
                forall|c: Cell| #[trigger] m0.contains_key(c) ==> m0[c] <= u32::MAX / 2,
            decreases entries.len() - i,
        {
            let (c, v) = entries[i];
            cells_insert(&mut inner, c, v * 2);
            i = i + 1;
        }
        let grid = Grid { inner, topple_cells, cell_max: cell_max * 2, power: power + 1, pattern };
        proof {
            assert forall|c: Cell| #[trigger] grid.inner@.contains_key(c) implies grid.inner@[c]
                == 2 * m0[c] by {
                let idx = choose|idx: int| 0 <= idx < entries@.len() && entries@[idx].0 == c;
            }
            assert(grid.inner@.dom() =~= m0.dom());
            assert(grid.sand() =~= doubled(sand_of(m0)));
            if grid.cell_max != 0 {
                let c = choose|c: Cell| #[trigger] m0.contains_key(c) && m0[c] * 2 == grid.cell_max;
                assert(grid.inner@.contains_key(c) && grid.inner@[c] == grid.cell_max);
            }
            assert(forall|p: Pos| #[trigger] sand_of(m0).contains_key(p) ==> 2 * sand_of(m0)[p] <= u32::MAX);
        }
        Ok(grid)
    }

    /// Adds the grains of `other` cell by cell. The result keeps this grid's
    /// pattern and power. It fails when a sum would overflow.
    pub fn combine(self, other: &Grid) -> (r: Result<Grid, GridError>)
        requires
            self.wf(),
            other.wf(),
        ensures
            match r {
                Ok(g) => {
                    &&& g.wf()
                    &&& g.sand() == merged(self.sand(), other.sand())
                    &&& g.cells_of_pattern() == self.cells_of_pattern()
                    &&& g.seed_power() == self.seed_power()
                    &&& g.pattern_name() == self.pattern_name()
                },
                Err(e) => e == GridError::Overflow,
            },
            r is Err <==> exists|p: Pos|
                #[trigger] merged(self.sand(), other.sand()).contains_key(p) && merged(
                    self.sand(),
                    other.sand(),
                )[p] > u32::MAX,
    {
        let ghost a0 = self.inner@;
        let ghost b = other.inner@;
        let ghost mg = merged(sand_of(a0), sand_of(b));
        let entries = cells_listing(&other.inner);
        let Grid { mut inner, topple_cells, cell_max, power, pattern } = self;
        let mut mx: u32 = cell_max;
        let mut i: usize = 0;
        while i < entries.len()
            invariant
                lists(b, entries@),
                b == other.inner@,
                a0 == self.inner@,
                mg == merged(sand_of(a0), sand_of(b)),
                a0.dom().finite(),
                i <= entries.len(),
                inner@.dom().finite(),
                is_max(inner@, mx),
                forall|idx: int|
                    0 <= idx < i ==> inner@.contains_key(#[trigger] entries@[idx].0)
                        && inner@[entries@[idx].0] as nat == mg[pos_of(entries@[idx].0)],
                forall|idx: int|
                    i <= idx < entries.len() ==> (inner@.contains_key(
                        #[trigger] entries@[idx].0,
                    ) <==> a0.contains_key(entries@[idx].0)) && (a0.contains_key(entries@[idx].0)
                        ==> inner@[entries@[idx].0] == a0[entries@[idx].0]),
                forall|c: Cell|
                    !b.contains_key(c) ==> (#[trigger] inner@.contains_key(c)
                        <==> a0.contains_key(c)) && (a0.contains_key(c) ==> inner@[c]
                        == a0[c]),
            decreases entries.len() - i,
        {
            let (c, v) = entries[i];
            proof {
                lemma_sand_lookup(a0, c);
                lemma_sand_lookup(b, c);
                assert(mg.contains_key(pos_of(c)));
            }
            let cur: u32 = match cells_get(&inner, c) {
                Some(w) => w,
                None => 0,
            };
            if cur as u64 + v as u64 > u32::MAX as u64 {
                proof {
                    assert(mg[pos_of(c)] > u32::MAX);
                    assert(merged(self.sand(), other.sand()).contains_key(pos_of(c)));
                }
                return Err(GridError::Overflow);
            }
            let w = cur + v;
            let ghost before = inner@;
            cells_insert(&mut inner, c, w);
            proof {
                if w <= mx && mx != 0 {
                    let c2 = choose|c2: Cell| #[trigger] before.contains_key(c2) && before[c2] == mx;
                    assert(inner@.contains_key(c2) && inner@[c2] == mx);
                }
                if w > mx {
                    assert(inner@.contains_key(c) && inner@[c] == w);
                }
            }
            if w > mx {
                mx = w;
            }
            i = i + 1;
        }
        let grid = Grid { inner, topple_cells, cell_max: mx, power, pattern };
        proof {
            assert forall|p: Pos| #[trigger] grid.sand().contains_key(p) == mg.contains_key(p) by {
                let c = cell_of(p);
                if in_cell_range(p) && b.contains_key(c) {
                    let idx = choose|idx: int| 0 <= idx < entries@.len() && entries@[idx].0 == c;
                    assert(pos_of(entries@[idx].0) == p);
                }
            }
            assert forall|p: Pos| #[trigger] grid.sand().contains_key(p) implies grid.sand()[p]
                == mg[p] by {
                let c = cell_of(p);
                if b.contains_key(c) {
                    let idx = choose|idx: int| 0 <= idx < entries@.len() && entries@[idx].0 == c;
                    assert(pos_of(entries@[idx].0) == p);
                }
            }
            assert(grid.sand() =~= mg);
        }
        Ok(grid)
    }
}

} // verus!
