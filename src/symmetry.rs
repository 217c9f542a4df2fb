//! Symmetry: a pattern that a symmetry of the plane maps onto itself topples
//! a symmetric configuration into symmetric configurations.
use vstd::prelude::*;

use crate::laws::lemma_no_inflow;
use crate::model::{
    grains_at, inflow, iterate, kept, quantum, reached, seeded, shifted, source, step, Pos,
    Sand,
};

verus! {

/// `f` is a symmetry of the plane: it respects displacements and tells
/// positions apart. Swapping the axes, negating coordinates and quarter
/// turns are such maps.
pub open spec fn is_symmetry(f: spec_fn(Pos) -> Pos) -> bool {
    &&& forall|p: Pos, q: Pos| #[trigger] f(shifted(p, q)) == shifted(f(p), f(q))
    &&& forall|p: Pos, q: Pos| #[trigger] f(p) == #[trigger] f(q) ==> p == q
}

/// `f` maps the pattern's displacements onto themselves, repeats included.
pub open spec fn keeps_pattern(f: spec_fn(Pos) -> Pos, offs: Seq<Pos>) -> bool {
    offs.map_values(f).to_multiset() == offs.to_multiset()
}

/// Every position holds as many grains as its image under `f`.
pub open spec fn symmetric(g: Sand, f: spec_fn(Pos) -> Pos) -> bool {
    forall|p: Pos| #[trigger] grains_at(g, f(p)) == grains_at(g, p)
}

spec fn sent_from(g: Sand, k: nat, p: Pos) -> spec_fn(nat, Pos) -> nat {
    |acc: nat, o: Pos| acc + quantum(g, k, source(p, o))
}

proof fn lemma_source_mapped(f: spec_fn(Pos) -> Pos, p: Pos, o: Pos)
    requires
        is_symmetry(f),
    ensures
        f(source(p, o)) == source(f(p), f(o)),
{
    assert(shifted(source(p, o), o) == p);
    assert(f(shifted(source(p, o), o)) == shifted(f(source(p, o)), f(o)));
}

/// What a cell keeps and sends depends on its grain count alone.
proof fn lemma_by_count(g: Sand, k: nat, p: Pos)
    requires
        k >= 1,
    ensures
        kept(g, k, p) == (if grains_at(g, p) >= k {
            grains_at(g, p) % k
        } else {
            grains_at(g, p)
        }),
        quantum(g, k, p) == (if grains_at(g, p) >= k {
            grains_at(g, p) / k
        } else {
            0
        }),
{
}

/// The count after a round is what the cell keeps plus what reaches it.
proof fn lemma_count_after_step(g: Sand, offs: Seq<Pos>, p: Pos)
    requires
        offs.len() >= 1,
    ensures
        grains_at(step(g, offs), p) == kept(g, offs.len(), p) + inflow(g, offs, p, offs.len()),
{
    if !reached(g, offs, p) {
        lemma_no_inflow(g, offs, p, offs.len());
    }
}

proof fn lemma_inflow_plain(g: Sand, offs: Seq<Pos>, p: Pos, n: nat)
    requires
        n <= offs.len(),
    ensures
        inflow(g, offs, p, n) == offs.subrange(0, n as int).fold_left(
            0nat,
            sent_from(g, offs.len(), p),
        ),
    decreases n,
{
    if n > 0 {
        lemma_inflow_plain(g, offs, p, (n - 1) as nat);
        assert(offs.subrange(0, n as int).drop_last() =~= offs.subrange(0, n - 1));
    }
}

/// On a symmetric configuration, what reaches `p` equals what reaches the
/// image of `p` along the images of the displacements.
proof fn lemma_inflow_mapped(g: Sand, offs: Seq<Pos>, f: spec_fn(Pos) -> Pos, p: Pos, n: nat)
    requires
        is_symmetry(f),
        symmetric(g, f),
        offs.len() >= 1,
        n <= offs.len(),
    ensures
        inflow(g, offs, p, n) == offs.map_values(f).subrange(0, n as int).fold_left(
            0nat,
            sent_from(g, offs.len(), f(p)),
        ),
    decreases n,
{
    let k = offs.len();
    if n > 0 {
        lemma_inflow_mapped(g, offs, f, p, (n - 1) as nat);
        assert(offs.map_values(f).subrange(0, n as int).drop_last() =~= offs.map_values(f).subrange(
            0,
            n - 1,
        ));
        let q = source(p, offs[n - 1]);
        lemma_source_mapped(f, p, offs[n - 1]);
        lemma_by_count(g, k, q);
        lemma_by_count(g, k, f(q));
        assert(grains_at(g, f(q)) == grains_at(g, q));
    }
}

/// One round keeps a configuration symmetric under a symmetry that keeps the pattern.
pub proof fn lemma_step_keeps_symmetric(g: Sand, offs: Seq<Pos>, f: spec_fn(Pos) -> Pos)
    requires
        is_symmetry(f),
        keeps_pattern(f, offs),
        offs.len() >= 1,
        symmetric(g, f),
    ensures
        symmetric(step(g, offs), f),
{
    let k = offs.len();
    assert forall|p: Pos| #[trigger] grains_at(step(g, offs), f(p)) == grains_at(step(g, offs), p) by {
        lemma_count_after_step(g, offs, p);
        lemma_count_after_step(g, offs, f(p));
        lemma_by_count(g, k, p);
        lemma_by_count(g, k, f(p));
        lemma_inflow_mapped(g, offs, f, p, k);
        lemma_inflow_plain(g, offs, f(p), k);
        assert(offs.map_values(f).subrange(0, k as int) =~= offs.map_values(f));
        assert(offs.subrange(0, k as int) =~= offs);
        vstd::seq_lib::lemma_fold_left_permutation(
            offs.map_values(f),
            offs,
            sent_from(g, k, f(p)),
            0nat,
        );
    }
}

/// Symmetry: when a symmetry keeps the pattern and the starting
/// configuration, it keeps the configuration after every number of rounds.
pub proof fn lemma_rounds_stay_symmetric(g: Sand, offs: Seq<Pos>, f: spec_fn(Pos) -> Pos, n: nat)
    requires
        is_symmetry(f),
        keeps_pattern(f, offs),
        offs.len() >= 1,
        symmetric(g, f),
    ensures
        symmetric(iterate(g, offs, n), f),
    decreases n,
{
    if n > 0 {
        lemma_rounds_stay_symmetric(g, offs, f, (n - 1) as nat);
        lemma_step_keeps_symmetric(iterate(g, offs, (n - 1) as nat), offs, f);
    }
}

/// A seed at the origin is symmetric under every symmetry.
pub proof fn lemma_seed_symmetric(v: nat, f: spec_fn(Pos) -> Pos)
    requires
        is_symmetry(f),
    ensures
        symmetric(seeded(v), f),
{
    let o = (0int, 0int);
    assert(shifted(o, o) == o);
    assert(f(shifted(o, o)) == shifted(f(o), f(o)));
    assert(f(o) == o);
    assert forall|p: Pos| #[trigger] grains_at(seeded(v), f(p)) == grains_at(seeded(v), p) by {
        if f(p) == o {
            assert(f(p) == f(o));
        }
    }
}

/// Symmetry of seeded sandpiles: for any seed size, every configuration on
/// the way to a stable grid is symmetric under a symmetry that keeps the pattern.
pub proof fn lemma_seeded_rounds_symmetric(v: nat, offs: Seq<Pos>, f: spec_fn(Pos) -> Pos, n: nat)
    requires
        is_symmetry(f),
        keeps_pattern(f, offs),
        offs.len() >= 1,
    ensures
        symmetric(iterate(seeded(v), offs, n), f),
{
    lemma_seed_symmetric(v, f);
    lemma_rounds_stay_symmetric(seeded(v), offs, f, n);
}

} // verus!
