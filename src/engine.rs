//! One synchronous round of firing over the sparse store.
//!
//! Each live cell of the next configuration is computed by gathering: what it
//! keeps of its own grains plus what each of its sources sends to it. The
//! gathering only reads the current store, so it runs as a parallel map over
//! the cells; and the value of a cell depends neither on the order in which
//! the store is walked nor on how the work is scheduled: the round is exactly
//! `step`.
use rayon::iter::{IndexedParallelIterator, IntoParallelRefIterator, ParallelIterator};
use vstd::prelude::*;

use crate::model::{
    fires, inflow, kept, offsets_of, pos_of, quantum, reached, representable,
    shifted, source, step, Pos, Sand,
};
use crate::sparse::{cell_of, cells_get, cells_insert, cells_listing, cells_new, lemma_sand_lookup, lists, sand_of, CellMap};
use crate::{Cell, GridError};

verus! {

/// `mx` is the largest count of the map, or zero for an empty map.
pub open spec fn is_max(m: Map<Cell, u32>, mx: u32) -> bool {
    &&& forall|c: Cell| #[trigger] m.contains_key(c) ==> m[c] <= mx
    &&& mx == 0 || exists|c: Cell| #[trigger] m.contains_key(c) && m[c] == mx
}

/// The count that a round gives to `p`, whether or not `p` is live afterwards.
pub open spec fn next_count(g: Sand, offs: Seq<Pos>, p: Pos) -> nat {
    kept(g, offs.len(), p) + inflow(g, offs, p, offs.len())
}

pub proof fn lemma_inflow_monotone(g: Sand, offs: Seq<Pos>, p: Pos, a: nat, b: nat)
    requires
        a <= b,
    ensures
        inflow(g, offs, p, a) <= inflow(g, offs, p, b),
    decreases b,
{
    if a < b {
        lemma_inflow_monotone(g, offs, p, a, (b - 1) as nat);
    }
}

/// `r` is the count that the next round gives to `c`, or `None` when that exceeds `u32`.
pub open spec fn settled(m: Map<Cell, u32>, offsets: Seq<Cell>, c: Cell, r: Option<u32>) -> bool {
    match r {
        Some(v) => v as nat == next_count(sand_of(m), offsets_of(offsets), pos_of(c)),
        None => next_count(sand_of(m), offsets_of(offsets), pos_of(c)) > u32::MAX,
    }
}

/// The count that the next round gives to `c`, gathered from `c` itself and
/// from the source of `c` along each displacement.
fn settle_cell(m: &CellMap, offsets: &Vec<Cell>, c: Cell) -> (r: Option<u32>)
    requires
        offsets.len() >= 1,
    ensures
        settled(m@, offsets@, c, r),
{
    let ghost g = sand_of(m@);
    let ghost offs = offsets_of(offsets@);
    let ghost p = pos_of(c);
    let k = offsets.len();
    let k64 = k as u64;
    proof {
        lemma_sand_lookup(m@, c);
    }
    let own: u32 = match cells_get(m, c) {
        Some(v) => {
            if v as u64 >= k64 {
                (v as u64 % k64) as u32
            } else {
                v
            }
        },
        None => 0,
    };
    let mut total: u64 = own as u64;
    let mut j: usize = 0;
    while j < k
        invariant
            k == offsets.len(),
            k64 == k as u64,
            k >= 1,
            g == sand_of(m@),
            offs == offsets_of(offsets@),
            p == pos_of(c),
            j <= k,
            total <= u32::MAX,
            total == kept(g, offs.len(), p) + inflow(g, offs, p, j as nat),
        decreases k - j,
    {
        let o = offsets[j];
        let sr: i32 = c.0 as i32 - o.0 as i32;
        let sc: i32 = c.1 as i32 - o.1 as i32;
        let ghost s = source(p, offs[j as int]);
        assert(s == (sr as int, sc as int));
        let mut sent: u64 = 0;
        if i16::MIN as i32 <= sr && sr <= i16::MAX as i32 && i16::MIN as i32 <= sc && sc
            <= i16::MAX as i32 {
            let sc16: Cell = (sr as i16, sc as i16);
            proof {
                lemma_sand_lookup(m@, sc16);
                assert(pos_of(sc16) == s);
            }
            match cells_get(m, sc16) {
                Some(v) => {
                    if v as u64 >= k64 {
                        sent = v as u64 / k64;
                    }
                },
                None => {},
            }
        }
        assert(sent == quantum(g, offs.len(), s));
        total = total + sent;
        if total > u32::MAX as u64 {
            proof {
                lemma_inflow_monotone(g, offs, p, (j + 1) as nat, k as nat);
            }
            return None;
        }
        j = j + 1;
    }
    Some(total as u32)
}


/// Relies on rayon's `par_iter`, `map` and `collect_into_vec`: an indexed
/// parallel map whose `i`-th result is the image of the `i`-th cell.
#[verifier::external_body]
fn settle_cells(m: &CellMap, offsets: &Vec<Cell>, cands: &Vec<Cell>) -> (r: Vec<Option<u32>>)
    requires
        offsets.len() >= 1,
    ensures
        r@.len() == cands@.len(),
        forall|i: int| 0 <= i < cands@.len() ==> settled(m@, offsets@, cands@[i], #[trigger] r@[i]),
{
    let mut r = Vec::new();
    cands.par_iter().map(|c| settle_cell(m, offsets, *c)).collect_into_vec(&mut r);
    r
}

proof fn lemma_sand_grows(a: Map<Cell, u32>, b: Map<Cell, u32>)
    requires
        a.dom().subset_of(b.dom()),
    ensures
        forall|p: Pos| sand_of(a).contains_key(p) ==> #[trigger] sand_of(b).contains_key(p),
{
    assert forall|p: Pos| sand_of(a).contains_key(p) implies #[trigger] sand_of(b).contains_key(
        p,
    ) by {
        assert(a.dom().contains(cell_of(p)));
    }
}

/// Every cell of `n` holds what the round gives it, and is live after the round.
pub open spec fn agrees(n: Map<Cell, u32>, g: Sand, offs: Seq<Pos>) -> bool {
    forall|c: Cell| #[trigger]
        n.contains_key(c) ==> step(g, offs).contains_key(pos_of(c)) && step(g, offs)[pos_of(
            c,
        )] == n[c] as nat
}

/// The cells marked in `seen` are exactly those listed in `cands`.
pub open spec fn tracks(seen: Map<Cell, u32>, cands: Seq<Cell>) -> bool {
    &&& forall|x: Cell| #[trigger]
        seen.contains_key(x) ==> exists|idx: int| 0 <= idx < cands.len() && cands[idx] == x
    &&& forall|idx: int| 0 <= idx < cands.len() ==> seen.contains_key(#[trigger] cands[idx])
}

/// Lists `c` once among the cells whose next count is to be gathered.
fn note(seen: &mut CellMap, cands: &mut Vec<Cell>, c: Cell, Ghost(g): Ghost<Sand>, Ghost(offs): Ghost<Seq<Pos>>)
    requires
        tracks(old(seen)@, old(cands)@),
        old(seen)@.dom().finite(),
        forall|x: Cell| #[trigger] old(seen)@.contains_key(x) ==> reached(g, offs, pos_of(x)),
        reached(g, offs, pos_of(c)),
    ensures
        tracks(final(seen)@, final(cands)@),
        final(seen)@.dom().finite(),
        forall|x: Cell| #[trigger] final(seen)@.contains_key(x) ==> reached(g, offs, pos_of(x)),
        final(seen)@.contains_key(c),
        old(seen)@.dom().subset_of(final(seen)@.dom()),
{
    if cells_get(seen, c).is_none() {
        let ghost before = cands@;
        cells_insert(seen, c, 0);
        cands.push(c);
        proof {
            assert forall|x: Cell| #[trigger] seen@.contains_key(x) implies exists|idx: int|
                0 <= idx < cands@.len() && cands@[idx] == x by {
                if x == c {
                    assert(cands@[before.len() as int] == c);
                } else {
                    let idx = choose|idx: int| 0 <= idx < before.len() && before[idx] == x;
                    assert(cands@[idx] == x);
                }
            }
            assert forall|idx: int| 0 <= idx < cands@.len() implies seen@.contains_key(
                #[trigger] cands@[idx],
            ) by {
                if idx < before.len() {
                    assert(cands@[idx] == before[idx]);
                }
            }
        }
    }
}

/// One round of firing: the store of the next configuration and its largest count.
/// It fails exactly when the next configuration leaves the range of a grid.
pub(crate) fn next_round(m: &CellMap, offsets: &Vec<Cell>) -> (r: Result<(CellMap, u32), GridError>)
    requires
        offsets.len() >= 1,
        m@.dom().finite(),
    ensures
        match r {
            Ok((n, mx)) => {
                &&& sand_of(n@) == step(sand_of(m@), offsets_of(offsets@))
                &&& n@.dom().finite()
                &&& is_max(n@, mx)
            },
            Err(e) => e == GridError::Overflow && !representable(
                step(sand_of(m@), offsets_of(offsets@)),
            ),
        },
{
    let ghost g = sand_of(m@);
    let ghost offs = offsets_of(offsets@);
    let k = offsets.len();
    let entries = cells_listing(m);
    // The live cells, and every cell a firing cell sends to, each once.
    let mut seen = cells_new();
    let mut cands: Vec<Cell> = Vec::new();
    let mut i: usize = 0;
    while i < entries.len()
        invariant
            k == offsets.len(),
            k >= 1,
            g == sand_of(m@),
            offs == offsets_of(offsets@),
            lists(m@, entries@),
            i <= entries.len(),
            tracks(seen@, cands@),
            seen@.dom().finite(),
            forall|x: Cell| #[trigger] seen@.contains_key(x) ==> reached(g, offs, pos_of(x)),
            forall|idx: int|
                0 <= idx < i ==> #[trigger] sand_of(seen@).contains_key(pos_of(entries@[idx].0)),
            forall|idx: int, j: int|
                0 <= idx < i && 0 <= j < k && entries@[idx].1 >= k ==> #[trigger] sand_of(
                    seen@,
                ).contains_key(shifted(pos_of(entries@[idx].0), #[trigger] offs[j])),
        decreases entries.len() - i,
    {
        let (c, v) = entries[i];
        proof {
            lemma_sand_lookup(m@, c);
        }
        let ghost before = seen@;
        note(&mut seen, &mut cands, c, Ghost(g), Ghost(offs));
        proof {
            lemma_sand_grows(before, seen@);
            lemma_sand_lookup(seen@, c);
        }
        if v as u64 >= k as u64 {
            let mut j: usize = 0;
            while j < k
                invariant
                    k == offsets.len(),
                    k >= 1,
                    g == sand_of(m@),
                    offs == offsets_of(offsets@),
                    lists(m@, entries@),
                    i < entries.len(),
                    (c, v) == entries@[i as int],
                    v >= k,
                    m@.contains_key(c),
                    m@[c] == v,
                    j <= k,
                    tracks(seen@, cands@),
                    seen@.dom().finite(),
                    forall|x: Cell| #[trigger] seen@.contains_key(x) ==> reached(g, offs, pos_of(x)),
                    forall|idx: int|
                        0 <= idx <= i ==> #[trigger] sand_of(seen@).contains_key(
                            pos_of(entries@[idx].0),
                        ),
                    forall|idx: int, jj: int|
                        0 <= idx < i && 0 <= jj < k && entries@[idx].1 >= k ==> #[trigger] sand_of(
                            seen@,
                        ).contains_key(shifted(pos_of(entries@[idx].0), #[trigger] offs[jj])),
                    forall|jj: int|
                        0 <= jj < j ==> #[trigger] sand_of(seen@).contains_key(
                            shifted(pos_of(c), offs[jj]),
                        ),
                decreases k - j,
            {
                let o = offsets[j];
                let tr: i32 = c.0 as i32 + o.0 as i32;
                let tc: i32 = c.1 as i32 + o.1 as i32;
                let ghost t = shifted(pos_of(c), offs[j as int]);
                assert(t == (tr as int, tc as int));
                assert(source(t, offs[j as int]) == pos_of(c));
                assert(fires(g, offs.len(), source(t, offs[j as int])));
                assert(reached(g, offs, t));
                if !(i16::MIN as i32 <= tr && tr <= i16::MAX as i32 && i16::MIN as i32 <= tc && tc
                    <= i16::MAX as i32) {
                    assert(step(g, offs).contains_key(t));
                    return Err(GridError::Overflow);
                }
                let target: Cell = (tr as i16, tc as i16);
                assert(pos_of(target) == t);
                let ghost before = seen@;
                note(&mut seen, &mut cands, target, Ghost(g), Ghost(offs));
                proof {
                    lemma_sand_grows(before, seen@);
                    lemma_sand_lookup(seen@, target);
                }
                j = j + 1;
            }
        }
        i = i + 1;
    }
    // Every position live after the round is listed.
    proof {
        let s = step(g, offs);
        assert forall|p: Pos| #[trigger] s.contains_key(p) implies sand_of(seen@).contains_key(p) by {
            if g.contains_key(p) {
                let c = cell_of(p);
                assert(m@.contains_key(c));
                let idx = choose|idx: int| 0 <= idx < entries@.len() && entries@[idx].0 == c;
                assert(pos_of(entries@[idx].0) == p);
            } else {
                let j = choose|j: int|
                    0 <= j < offs.len() && #[trigger] fires(g, offs.len(), source(p, offs[j]));
                let q = source(p, offs[j]);
                let c = cell_of(q);
                assert(m@.contains_key(c));
                let idx = choose|idx: int| 0 <= idx < entries@.len() && entries@[idx].0 == c;
                assert(pos_of(entries@[idx].0) == q);
                assert(shifted(q, offs[j]) == p);
            }
        }
    }
    let counts = settle_cells(m, offsets, &cands);
    let mut n = cells_new();
    let mut mx: u32 = 0;
    let mut i: usize = 0;
    while i < cands.len()
        invariant
            g == sand_of(m@),
            offs == offsets_of(offsets@),
            counts@.len() == cands@.len(),
            forall|idx: int|
                0 <= idx < cands@.len() ==> settled(m@, offsets@, cands@[idx], #[trigger] counts@[idx]),
            forall|x: Cell| #[trigger] seen@.contains_key(x) ==> reached(g, offs, pos_of(x)),
            tracks(seen@, cands@),
            i <= cands.len(),
            agrees(n@, g, offs),
            n@.dom().finite(),
            is_max(n@, mx),
            forall|idx: int| 0 <= idx < i ==> n@.contains_key(#[trigger] cands@[idx]),
        decreases cands.len() - i,
    {
        let c = cands[i];
        assert(seen@.contains_key(cands@[i as int]));
        match counts[i] {
            Some(v) => {
                let ghost before = n@;
                assert(settled(m@, offsets@, cands@[i as int], counts@[i as int]));
                cells_insert(&mut n, c, v);
                proof {
                    if v <= mx && mx != 0 {
                        let c2 = choose|c2: Cell| #[trigger] before.contains_key(c2) && before[c2] == mx;
                        assert(n@.contains_key(c2) && n@[c2] == mx);
                    }
                    if v > mx {
                        assert(n@.contains_key(c) && n@[c] == v);
                    }
                }
                if v > mx {
                    mx = v;
                }
            },
            None => {
                assert(settled(m@, offsets@, cands@[i as int], counts@[i as int]));
                assert(step(g, offs).contains_key(pos_of(c)));
                return Err(GridError::Overflow);
            },
        }
        i = i + 1;
    }
    proof {
        let s = step(g, offs);
        assert forall|p: Pos| #[trigger] s.contains_key(p) implies sand_of(n@).contains_key(p) by {
            let x = cell_of(p);
            assert(sand_of(seen@).contains_key(p));
            assert(seen@.contains_key(x));
            let idx = choose|idx: int| 0 <= idx < cands@.len() && cands@[idx] == x;
            assert(n@.contains_key(x));
        }
        assert forall|p: Pos| #[trigger] sand_of(n@).contains_key(p) implies s.contains_key(p)
            && sand_of(n@)[p] == s[p] by {
            assert(pos_of(cell_of(p)) == p);
        }
        assert(sand_of(n@) =~= s);
    }
    Ok((n, mx))
}

} // verus!
