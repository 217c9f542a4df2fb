//! The mathematical model of a sandpile: sparse configurations over the
//! integer plane and one synchronous round of firing.
use vstd::prelude::*;

use crate::Cell;

verus! {

/// A position of the unbounded plane.
pub type Pos = (int, int);

/// A sparse configuration: the grain count of each live position.
/// An absent position holds no grains.
pub type Sand = Map<Pos, nat>;

pub open spec fn pos_of(c: Cell) -> Pos {
    (c.0 as int, c.1 as int)
}

/// The position reached from `p` by the displacement `o`.
pub open spec fn shifted(p: Pos, o: Pos) -> Pos {
    (p.0 + o.0, p.1 + o.1)
}

/// The position from which the displacement `o` reaches `p`.
pub open spec fn source(p: Pos, o: Pos) -> Pos {
    (p.0 - o.0, p.1 - o.1)
}

/// The pattern's displacements, as positions.
pub open spec fn offsets_of(cells: Seq<Cell>) -> Seq<Pos> {
    cells.map_values(|c: Cell| pos_of(c))
}

pub open spec fn grains_at(g: Sand, p: Pos) -> nat {
    if g.contains_key(p) {
        g[p]
    } else {
        0
    }
}

/// A cell fires when it holds at least `k` grains.
pub open spec fn fires(g: Sand, k: nat, p: Pos) -> bool {
    g.contains_key(p) && g[p] >= k
}

/// What a cell keeps of its own grains in one round.
pub open spec fn kept(g: Sand, k: nat, p: Pos) -> nat {
    if fires(g, k, p) {
        g[p] % k
    } else {
        grains_at(g, p)
    }
}

/// What a cell sends along each displacement of the pattern in one round.
pub open spec fn quantum(g: Sand, k: nat, p: Pos) -> nat {
    if fires(g, k, p) {
        g[p] / k
    } else {
        0
    }
}

/// Grains that reach `p` in one round through the first `n` displacements.
pub open spec fn inflow(g: Sand, offs: Seq<Pos>, p: Pos, n: nat) -> nat
    decreases n,
{
    if n == 0 {
        0
    } else {
        inflow(g, offs, p, (n - 1) as nat) + quantum(g, offs.len(), source(p, offs[n - 1]))
    }
}

/// A position is live after a round when it was live before or a firing cell sends to it.
pub open spec fn reached(g: Sand, offs: Seq<Pos>, p: Pos) -> bool {
    g.contains_key(p) || exists|j: int|
        0 <= j < offs.len() && #[trigger] fires(g, offs.len(), source(p, offs[j]))
}

/// One synchronous round: every firing cell keeps the remainder of its
/// grains and sends the quotient along each displacement of the pattern.
pub open spec fn step(g: Sand, offs: Seq<Pos>) -> Sand {
    Map::new(
        |p: Pos| reached(g, offs, p),
        |p: Pos| kept(g, offs.len(), p) + inflow(g, offs, p, offs.len()),
    )
}

/// No cell can fire.
pub open spec fn stable(g: Sand, k: nat) -> bool {
    forall|p: Pos| #[trigger] g.contains_key(p) ==> g[p] < k
}

/// The configuration after `n` rounds.
pub open spec fn iterate(g: Sand, offs: Seq<Pos>, n: nat) -> Sand
    decreases n,
{
    if n == 0 {
        g
    } else {
        step(iterate(g, offs, (n - 1) as nat), offs)
    }
}

/// `g` first becomes stable after `n` rounds.
pub open spec fn settles_in(g: Sand, offs: Seq<Pos>, n: nat) -> bool {
    &&& stable(iterate(g, offs, n), offs.len())
    &&& forall|i: nat| i < n ==> !stable(#[trigger] iterate(g, offs, i), offs.len())
}

/// Positions fit the `i16` coordinates of a cell.
pub open spec fn in_cell_range(p: Pos) -> bool {
    i16::MIN <= p.0 <= i16::MAX && i16::MIN <= p.1 <= i16::MAX
}

/// A configuration that a grid can hold: `i16` coordinates and `u32` counts.
pub open spec fn representable(g: Sand) -> bool {
    forall|p: Pos| #[trigger] g.contains_key(p) ==> in_cell_range(p) && g[p] <= u32::MAX
}

} // verus!

verus! {

/// `2^n`.
pub open spec fn two_to(n: nat) -> nat
    decreases n,
{
    if n == 0 {
        1
    } else {
        2 * two_to((n - 1) as nat)
    }
}

pub proof fn lemma_two_to_monotone(a: nat, b: nat)
    requires
        a <= b,
    ensures
        two_to(a) <= two_to(b),
    decreases b,
{
    if a < b {
        lemma_two_to_monotone(a, (b - 1) as nat);
    }
}

/// A single cell at the origin holding `v` grains.
pub open spec fn seeded(v: nat) -> Sand {
    Map::empty().insert((0int, 0int), v)
}

/// Every cell holds twice its grains.
pub open spec fn doubled(g: Sand) -> Sand {
    Map::new(|p: Pos| g.contains_key(p), |p: Pos| 2 * g[p])
}

/// The cell-wise sum of two configurations.
pub open spec fn merged(a: Sand, b: Sand) -> Sand {
    Map::new(
        |p: Pos| a.contains_key(p) || b.contains_key(p),
        |p: Pos| grains_at(a, p) + grains_at(b, p),
    )
}

/// How far a position lies from the origin along either axis.
pub open spec fn reach_of(p: Pos) -> nat {
    let r = if p.0 >= 0 {
        p.0
    } else {
        -p.0
    };
    let c = if p.1 >= 0 {
        p.1
    } else {
        -p.1
    };
    (if r >= c {
        r
    } else {
        c
    }) as nat
}

/// `d` is the largest reach of any live position.
pub open spec fn is_radius(g: Sand, d: nat) -> bool {
    &&& forall|p: Pos| #[trigger] g.contains_key(p) ==> reach_of(p) <= d
    &&& exists|p: Pos| #[trigger] g.contains_key(p) && reach_of(p) == d
}

} // verus!

verus! {

/// The configuration with no live cell.
pub open spec fn empty_sand() -> Sand {
    Map::empty()
}

} // verus!
