//! Laws of toppling, stated over the model and proved.
use vstd::multiset::Multiset;
use vstd::prelude::*;

use crate::model::{
    doubled, fires, grains_at, inflow, iterate, kept, merged, quantum, reached,
    representable, settles_in, shifted, source, stable, step, Pos, Sand,
};
use crate::grid::{fails_after, settles_within_range};

verus! {

/// The grains of a configuration, one copy of a position per grain.
pub open spec fn grains(g: Sand) -> Multiset<Pos> {
    Multiset::from_map(g)
}

/// The total number of grains.
pub open spec fn total(g: Sand) -> nat {
    grains(g).len()
}

/// What every cell keeps in one round.
spec fn kept_map(g: Sand, k: nat) -> Sand {
    Map::new(|p: Pos| g.contains_key(p), |p: Pos| kept(g, k, p))
}

/// What every cell sends along one displacement in one round.
spec fn sent_map(g: Sand, k: nat) -> Sand {
    Map::new(|p: Pos| g.contains_key(p), |p: Pos| quantum(g, k, p))
}

/// A configuration moved by the displacement `o`.
spec fn moved(m: Sand, o: Pos) -> Sand {
    Map::new(|p: Pos| m.contains_key(source(p, o)), |p: Pos| m[source(p, o)])
}

/// The grains that arrive through the first `n` displacements.
spec fn arrivals(g: Sand, offs: Seq<Pos>, n: nat) -> Multiset<Pos>
    decreases n,
{
    if n == 0 {
        Multiset::empty()
    } else {
        arrivals(g, offs, (n - 1) as nat).add(
            grains(moved(sent_map(g, offs.len()), offs[n - 1])),
        )
    }
}

/// `n` copies of a multiset.
spec fn copies(m: Multiset<Pos>, n: nat) -> Multiset<Pos>
    decreases n,
{
    if n == 0 {
        Multiset::empty()
    } else {
        copies(m, (n - 1) as nat).add(m)
    }
}

proof fn lemma_copies(m: Multiset<Pos>, n: nat)
    ensures
        copies(m, n).len() == n * m.len(),
        forall|p: Pos| #[trigger] copies(m, n).count(p) == n * m.count(p),
    decreases n,
{
    broadcast use vstd::multiset::group_multiset_axioms;

    if n > 0 {
        lemma_copies(m, (n - 1) as nat);
        assert forall|p: Pos| #[trigger] copies(m, n).count(p) == n * m.count(p) by {
            assert((n - 1) * m.count(p) + m.count(p) == n * m.count(p)) by (nonlinear_arith);
        }
        assert((n - 1) * m.len() + m.len() == n * m.len()) by (nonlinear_arith);
    }
}

proof fn lemma_moved_finite(m: Sand, o: Pos)
    requires
        m.dom().finite(),
    ensures
        moved(m, o).dom().finite(),
        moved(m, o).dom() == m.dom().map(|q: Pos| shifted(q, o)),
{
    let f = |q: Pos| shifted(q, o);
    m.dom().lemma_map_finite(f);
    assert forall|p: Pos| #[trigger] moved(m, o).dom().contains(p) implies m.dom().map(f).contains(
        p,
    ) by {
        assert(f(source(p, o)) == p);
    }
    assert(moved(m, o).dom() =~= m.dom().map(f));
}

/// A single position holding `v` grains has `v` grains.
proof fn lemma_single_len(q: Pos, v: nat)
    ensures
        grains(Map::empty().insert(q, v)).len() == v,
    decreases v,
{
    broadcast use vstd::multiset::group_multiset_axioms;

    let m = Map::<Pos, nat>::empty().insert(q, v);
    assert(m.dom() =~= set![q]);
    if v == 0 {
        assert(grains(m) =~= Multiset::empty());
    } else {
        let m1 = Map::<Pos, nat>::empty().insert(q, (v - 1) as nat);
        assert(m1.dom() =~= set![q]);
        lemma_single_len(q, (v - 1) as nat);
        assert(grains(m) =~= grains(m1).insert(q));
    }
}

/// Splits one position off a finite configuration.
proof fn lemma_split_off(m: Sand, q: Pos)
    requires
        m.dom().finite(),
        m.contains_key(q),
    ensures
        grains(m) == grains(m.remove(q)).add(grains(Map::empty().insert(q, m[q]))),
{
    broadcast use vstd::multiset::group_multiset_axioms;

    let single = Map::<Pos, nat>::empty().insert(q, m[q]);
    assert(single.dom() =~= set![q]);
    assert(grains(m) =~= grains(m.remove(q)).add(grains(single)));
}

/// Moving a configuration keeps its number of grains.
proof fn lemma_moved_total(m: Sand, o: Pos)
    requires
        m.dom().finite(),
    ensures
        total(moved(m, o)) == total(m),
    decreases m.dom().len(),
{
    broadcast use vstd::multiset::group_multiset_axioms;

    lemma_moved_finite(m, o);
    if m.dom().len() == 0 {
        assert(m.dom() =~= Set::empty());
        assert(moved(m, o).dom() =~= Set::empty());
        assert(grains(m) =~= Multiset::empty());
        assert(grains(moved(m, o)) =~= Multiset::empty());
    } else {
        let q = m.dom().choose();
        let rest = m.remove(q);
        lemma_moved_total(rest, o);
        lemma_split_off(m, q);
        let mm = moved(m, o);
        let t = shifted(q, o);
        assert(source(t, o) == q);
        lemma_split_off(mm, t);
        assert(mm.remove(t) =~= moved(rest, o)) by {
            assert forall|p: Pos| #[trigger] mm.remove(t).contains_key(p) == moved(
                rest,
                o,
            ).contains_key(p) by {
                if source(p, o) == q {
                    assert(p == t);
                }
            }
        }
        lemma_single_len(q, m[q]);
        lemma_single_len(t, m[q]);
    }
}

proof fn lemma_arrivals(g: Sand, offs: Seq<Pos>, n: nat)
    requires
        g.dom().finite(),
        n <= offs.len(),
    ensures
        arrivals(g, offs, n).len() == n * total(sent_map(g, offs.len())),
        forall|p: Pos| #[trigger] arrivals(g, offs, n).count(p) == inflow(g, offs, p, n),
    decreases n,
{
    broadcast use vstd::multiset::group_multiset_axioms;

    if n > 0 {
        let k = offs.len();
        let o = offs[n - 1];
        let sm = sent_map(g, k);
        assert(sm.dom() =~= g.dom());
        lemma_arrivals(g, offs, (n - 1) as nat);
        lemma_moved_total(sm, o);
        lemma_moved_finite(sm, o);
        assert forall|p: Pos| #[trigger] arrivals(g, offs, n).count(p) == inflow(g, offs, p, n) by {
            if !moved(sm, o).contains_key(p) {
                assert(!g.contains_key(source(p, o)));
            }
        }
        assert((n - 1) * total(sm) + total(sm) == n * total(sm)) by (nonlinear_arith);
    }
}

/// A position that nothing reaches receives nothing.
pub proof fn lemma_no_inflow(g: Sand, offs: Seq<Pos>, p: Pos, n: nat)
    requires
        !reached(g, offs, p),
        n <= offs.len(),
    ensures
        inflow(g, offs, p, n) == 0,
    decreases n,
{
    if n > 0 {
        assert(!fires(g, offs.len(), source(p, offs[n - 1])));
        lemma_no_inflow(g, offs, p, (n - 1) as nat);
    }
}

/// The positions live after a round form a finite set.
proof fn lemma_step_finite(g: Sand, offs: Seq<Pos>)
    requires
        g.dom().finite(),
    ensures
        step(g, offs).dom().finite(),
{
    let k = offs.len();
    let sm = sent_map(g, k);
    assert(sm.dom() =~= g.dom());
    let reach = Seq::new(k, |j: int| moved(sm, offs[j]).dom());
    let all = reach.fold_left(g.dom(), |acc: Set<Pos>, s: Set<Pos>| acc.union(s));
    assert forall|j: int| 0 <= j < k implies (#[trigger] reach[j]).finite() by {
        lemma_moved_finite(sm, offs[j]);
    }
    lemma_union_fold(g.dom(), reach, k);
    assert forall|p: Pos| #[trigger] step(g, offs).dom().contains(p) implies all.contains(p) by {
        if !g.contains_key(p) {
            let j = choose|j: int| 0 <= j < k && #[trigger] fires(g, k, source(p, offs[j]));
            assert(reach[j].contains(p));
        }
    }
    vstd::set_lib::lemma_set_subset_finite(all, step(g, offs).dom());
}

/// The union of a finite set with finitely many moved copies of the senders is finite and
/// holds each of them.
proof fn lemma_union_fold(base: Set<Pos>, reach: Seq<Set<Pos>>, k: nat)
    requires
        base.finite(),
        reach.len() == k,
        forall|j: int| 0 <= j < k ==> (#[trigger] reach[j]).finite(),
    ensures
        ({
            let all = reach.fold_left(base, |acc: Set<Pos>, s: Set<Pos>| acc.union(s));
            &&& all.finite()
            &&& base.subset_of(all)
            &&& forall|j: int| 0 <= j < k ==> (#[trigger] reach[j]).subset_of(all)
        }),
    decreases k,
{
    let f = |acc: Set<Pos>, s: Set<Pos>| acc.union(s);
    if k > 0 {
        let front = reach.drop_last();
        lemma_union_fold(base, front, (k - 1) as nat);
        assert forall|j: int| 0 <= j < k - 1 implies (#[trigger] front[j]).finite() by {
            assert(front[j] == reach[j]);
        }
        let prev = front.fold_left(base, f);
        assert(reach.fold_left(base, f) == f(prev, reach.last()));
        assert forall|j: int| 0 <= j < k implies (#[trigger] reach[j]).subset_of(
            reach.fold_left(base, f),
        ) by {
            if j < k - 1 {
                assert(front[j] == reach[j]);
            }
        }
    }
}

/// One round redistributes grains and neither makes nor loses any.
pub proof fn lemma_step_conserves(g: Sand, offs: Seq<Pos>)
    requires
        g.dom().finite(),
        offs.len() >= 1,
    ensures
        step(g, offs).dom().finite(),
        total(step(g, offs)) == total(g),
{
    broadcast use vstd::multiset::group_multiset_axioms;

    let k = offs.len();
    let km = kept_map(g, k);
    let sm = sent_map(g, k);
    assert(km.dom() =~= g.dom());
    assert(sm.dom() =~= g.dom());
    lemma_step_finite(g, offs);
    lemma_arrivals(g, offs, k);
    lemma_copies(grains(sm), k);
    assert(grains(step(g, offs)) =~= grains(km).add(arrivals(g, offs, k))) by {
        assert forall|p: Pos| #[trigger] grains(step(g, offs)).count(p) == grains(km).count(p)
            + arrivals(g, offs, k).count(p) by {
            if !reached(g, offs, p) {
                lemma_no_inflow(g, offs, p, k);
            }
        }
    }
    assert(grains(g) =~= grains(km).add(copies(grains(sm), k))) by {
        assert forall|p: Pos| #[trigger] grains(g).count(p) == grains(km).count(p) + copies(
            grains(sm),
            k,
        ).count(p) by {
            assert(copies(grains(sm), k).count(p) == k * grains(sm).count(p));
            if !g.contains_key(p) {
                assert(grains(sm).count(p) == 0);
                assert(k * 0 == 0);
            } else if !fires(g, k, p) {
                assert(grains(sm).count(p) == 0);
                assert(k * 0 == 0);
            } else {
                let v = g[p];
                assert(grains(sm).count(p) == v / k);
                assert(grains(km).count(p) == v % k);
                assert(v == v % k + k * (v / k)) by (nonlinear_arith)
                    requires
                        k >= 1,
                ;
            }
        }
    }
}

/// Conservation: toppling for any number of rounds keeps the total number of grains.
pub proof fn lemma_rounds_conserve(g: Sand, offs: Seq<Pos>, n: nat)
    requires
        g.dom().finite(),
        offs.len() >= 1,
    ensures
        iterate(g, offs, n).dom().finite(),
        total(iterate(g, offs, n)) == total(g),
    decreases n,
{
    if n > 0 {
        lemma_rounds_conserve(g, offs, (n - 1) as nat);
        lemma_step_conserves(iterate(g, offs, (n - 1) as nat), offs);
    }
}

/// Idempotence: a stable configuration settles after no round, unchanged,
/// and no other number of rounds settles it; toppling a stable grid succeeds.
pub proof fn lemma_stable_is_fixed(g: Sand, offs: Seq<Pos>, n: nat)
    requires
        stable(g, offs.len()),
    ensures
        settles_in(g, offs, 0),
        iterate(g, offs, 0) == g,
        settles_in(g, offs, n) ==> n == 0,
        representable(g) ==> settles_within_range(g, offs, 0),
{
    if settles_in(g, offs, n) && n > 0 {
        assert(!stable(iterate(g, offs, 0), offs.len()));
    }
}

/// Determinism: the number of rounds to settle, and so the settled
/// configuration, are fixed by the configuration and the pattern alone.
pub proof fn lemma_settling_is_unique(g: Sand, offs: Seq<Pos>, n1: nat, n2: nat)
    requires
        settles_in(g, offs, n1),
        settles_in(g, offs, n2),
    ensures
        n1 == n2,
        iterate(g, offs, n1) == iterate(g, offs, n2),
{
    if n1 < n2 {
        assert(!stable(iterate(g, offs, n1), offs.len()));
    } else if n2 < n1 {
        assert(!stable(iterate(g, offs, n2), offs.len()));
    }
}

/// Threshold boundary: when the only cell holding grains holds fewer than
/// the threshold, the configuration settles after no round, unchanged.
pub proof fn lemma_below_threshold(g: Sand, offs: Seq<Pos>, c: Pos, n: nat)
    requires
        forall|p: Pos| #[trigger] g.contains_key(p) && g[p] != 0 ==> p == c,
        grains_at(g, c) < offs.len(),
    ensures
        settles_in(g, offs, 0),
        iterate(g, offs, 0) == g,
        settles_in(g, offs, n) ==> n == 0,
{
    assert(stable(g, offs.len())) by {
        assert forall|p: Pos| #[trigger] g.contains_key(p) implies g[p] < offs.len() by {
            if g[p] != 0 {
                assert(p == c);
            }
        }
    }
    lemma_stable_is_fixed(g, offs, n);
}

/// Combining two configurations adds up their grains.
pub proof fn lemma_merged_total(a: Sand, b: Sand)
    requires
        a.dom().finite(),
        b.dom().finite(),
    ensures
        merged(a, b).dom().finite(),
        total(merged(a, b)) == total(a) + total(b),
{
    broadcast use vstd::multiset::group_multiset_axioms;

    assert(merged(a, b).dom() =~= a.dom().union(b.dom()));
    assert(grains(merged(a, b)) =~= grains(a).add(grains(b)));
}

/// Settling a combination keeps the grains of both parts, for any number of rounds.
pub proof fn lemma_combined_rounds_total(a: Sand, b: Sand, offs: Seq<Pos>, n: nat)
    requires
        a.dom().finite(),
        b.dom().finite(),
        offs.len() >= 1,
    ensures
        total(iterate(merged(a, b), offs, n)) == total(a) + total(b),
{
    lemma_merged_total(a, b);
    lemma_rounds_conserve(merged(a, b), offs, n);
}

/// Doubling a configuration doubles its grains.
pub proof fn lemma_doubled_total(g: Sand)
    requires
        g.dom().finite(),
    ensures
        doubled(g).dom().finite(),
        total(doubled(g)) == 2 * total(g),
{
    broadcast use vstd::multiset::group_multiset_axioms;

    assert(doubled(g).dom() =~= g.dom());
    assert(grains(doubled(g)) =~= grains(g).add(grains(g)));
}

/// Determinism of failure: a run that leaves the range of a grid does so
/// after a number of rounds fixed by the configuration and the pattern alone.
pub proof fn lemma_failure_is_unique(g: Sand, offs: Seq<Pos>, m1: nat, m2: nat)
    requires
        fails_after(g, offs, m1),
        fails_after(g, offs, m2),
    ensures
        m1 == m2,
        iterate(g, offs, m1) == iterate(g, offs, m2),
{
    if m1 < m2 {
        assert(representable(iterate(g, offs, m1 + 1)));
    } else if m2 < m1 {
        assert(representable(iterate(g, offs, m2 + 1)));
    }
}

} // verus!
