//! The abelian property for combinations, proved by a least-action argument.
//!
//! Rounds of firing are tracked by their odometer: how often each cell has
//! fired so far. Any process that fires a cell only while it holds enough
//! grains never fires a cell more often than any odometer that leaves every
//! cell below the threshold. Settling two grids and then their sum, or
//! settling the sum at once, are two such processes that end stable, so
//! their odometers, and with them their results, agree.
use vstd::prelude::*;

use crate::laws::lemma_no_inflow;
use crate::model::{
    grains_at, inflow, iterate, kept, merged, quantum, reached, settles_in, source, stable,
    Pos, Sand,
};

verus! {

/// A grain count or odometer on the whole plane.
pub type Field = spec_fn(Pos) -> int;

/// The grain counts of a configuration.
pub open spec fn counts(g: Sand) -> Field {
    |p: Pos| grains_at(g, p) as int
}

pub open spec fn plus(u: Field, w: Field) -> Field {
    |p: Pos| u(p) + w(p)
}

pub open spec fn zero() -> Field {
    |p: Pos| 0int
}

/// What the first `n` displacements bring to `p` when every cell fires as `u` says.
pub open spec fn pull(u: Field, offs: Seq<Pos>, p: Pos, n: nat) -> int
    decreases n,
{
    if n == 0 {
        0
    } else {
        pull(u, offs, p, (n - 1) as nat) + u(source(p, offs[n - 1]))
    }
}

/// The count of `p` after firing every cell as often as `u` says, starting from `x`.
pub open spec fn after(x: Field, offs: Seq<Pos>, u: Field, p: Pos) -> int {
    x(p) - offs.len() * u(p) + pull(u, offs, p, offs.len())
}

/// How often `p` fired during the first `n` rounds from `g`.
pub open spec fn fired(g: Sand, offs: Seq<Pos>, n: nat, p: Pos) -> int
    decreases n,
{
    if n == 0 {
        0
    } else {
        fired(g, offs, (n - 1) as nat, p) + quantum(iterate(g, offs, (n - 1) as nat), offs.len(), p)
    }
}

/// The odometer of the first `n` rounds from `g`.
pub open spec fn odometer(g: Sand, offs: Seq<Pos>, n: nat) -> Field {
    |p: Pos| fired(g, offs, n, p)
}

proof fn lemma_pull_ext(u: Field, w: Field, offs: Seq<Pos>, p: Pos, n: nat)
    requires
        forall|q: Pos| #[trigger] u(q) == w(q),
    ensures
        pull(u, offs, p, n) == pull(w, offs, p, n),
    decreases n,
{
    if n > 0 {
        lemma_pull_ext(u, w, offs, p, (n - 1) as nat);
    }
}

proof fn lemma_pull_mono(u: Field, w: Field, offs: Seq<Pos>, p: Pos, n: nat)
    requires
        forall|q: Pos| #[trigger] u(q) <= w(q),
    ensures
        pull(u, offs, p, n) <= pull(w, offs, p, n),
    decreases n,
{
    if n > 0 {
        lemma_pull_mono(u, w, offs, p, (n - 1) as nat);
        assert(u(source(p, offs[n - 1])) <= w(source(p, offs[n - 1])));
    }
}

proof fn lemma_pull_plus(u: Field, w: Field, offs: Seq<Pos>, p: Pos, n: nat)
    ensures
        pull(plus(u, w), offs, p, n) == pull(u, offs, p, n) + pull(w, offs, p, n),
    decreases n,
{
    if n > 0 {
        lemma_pull_plus(u, w, offs, p, (n - 1) as nat);
    }
}

/// Firing `u` and then `w` is firing their sum.
proof fn lemma_after_plus(x: Field, y: Field, offs: Seq<Pos>, u: Field, w: Field, p: Pos)
    ensures
        after(plus(x, y), offs, plus(u, w), p) == after(x, offs, u, p) + after(y, offs, w, p),
{
    lemma_pull_plus(u, w, offs, p, offs.len());
    let k = offs.len();
    assert(k * (u(p) + w(p)) == k * u(p) + k * w(p)) by (nonlinear_arith);
}

proof fn lemma_after_ext(x: Field, y: Field, offs: Seq<Pos>, u: Field, w: Field, p: Pos)
    requires
        x(p) == y(p),
        forall|q: Pos| #[trigger] u(q) == w(q),
    ensures
        after(x, offs, u, p) == after(y, offs, w, p),
{
    lemma_pull_ext(u, w, offs, p, offs.len());
}

proof fn lemma_inflow_is_pull(g: Sand, offs: Seq<Pos>, p: Pos, n: nat)
    ensures
        inflow(g, offs, p, n) == pull(|s: Pos| quantum(g, offs.len(), s) as int, offs, p, n),
    decreases n,
{
    if n > 0 {
        lemma_inflow_is_pull(g, offs, p, (n - 1) as nat);
    }
}

/// The configuration after `n` rounds is the start fired by the odometer of those rounds.
pub proof fn lemma_rounds_fire(g: Sand, offs: Seq<Pos>, n: nat, p: Pos)
    requires
        offs.len() >= 1,
    ensures
        grains_at(iterate(g, offs, n), p) == after(counts(g), offs, odometer(g, offs, n), p),
    decreases n,
{
    let k = offs.len();
    if n == 0 {
        lemma_pull_ext(odometer(g, offs, 0), zero(), offs, p, k);
        lemma_pull_zero(offs, p, k);
        assert(k * 0 == 0);
    } else {
        let h = iterate(g, offs, (n - 1) as nat);
        let q = |s: Pos| quantum(h, k, s) as int;
        let prev = odometer(g, offs, (n - 1) as nat);
        lemma_rounds_fire(g, offs, (n - 1) as nat, p);
        assert forall|s: Pos| #[trigger] odometer(g, offs, n)(s) == plus(prev, q)(s) by {}
        lemma_after_ext(
            counts(g),
            plus(counts(g), zero()),
            offs,
            odometer(g, offs, n),
            plus(prev, q),
            p,
        );
        lemma_after_plus(counts(g), zero(), offs, prev, q, p);
        lemma_inflow_is_pull(h, offs, p, k);
        if reached(h, offs, p) {
            let v = grains_at(h, p);
            if v >= k {
                assert(v % k == v - k * (v / k)) by (nonlinear_arith)
                    requires
                        k >= 1,
                ;
            } else {
                assert(k * 0 == 0);
            }
            assert(kept(h, k, p) == grains_at(h, p) - k * q(p));
        } else {
            lemma_no_inflow(h, offs, p, k);
            assert(k * 0 == 0);
        }
    }
}

proof fn lemma_pull_zero(offs: Seq<Pos>, p: Pos, n: nat)
    ensures
        pull(zero(), offs, p, n) == 0,
    decreases n,
{
    if n > 0 {
        lemma_pull_zero(offs, p, (n - 1) as nat);
    }
}

/// Least action: rounds from `g`, run on top of the firings `base` from `x`
/// while the result never holds less than the rounds alone would, never fire
/// a cell more often than an odometer `v` that leaves every cell of `x` below the threshold.
proof fn lemma_least_action(x: Field, base: Field, g: Sand, offs: Seq<Pos>, n: nat, v: Field)
    requires
        offs.len() >= 1,
        forall|p: Pos| #[trigger] after(x, offs, v, p) < offs.len(),
        forall|p: Pos| #[trigger] base(p) <= v(p),
        forall|i: nat, p: Pos|
            i < n ==> #[trigger] after(x, offs, plus(base, odometer(g, offs, i)), p) >= grains_at(
                iterate(g, offs, i),
                p,
            ),
    ensures
        forall|p: Pos| #[trigger] plus(base, odometer(g, offs, n))(p) <= v(p),
    decreases n,
{
    let k = offs.len();
    if n == 0 {
        assert forall|p: Pos| #[trigger] plus(base, odometer(g, offs, n))(p) <= v(p) by {}
    } else {
        let m = (n - 1) as nat;
        lemma_least_action(x, base, g, offs, m, v);
        let u = plus(base, odometer(g, offs, m));
        let h = iterate(g, offs, m);
        assert forall|p: Pos| #[trigger] plus(base, odometer(g, offs, n))(p) <= v(p) by {
            let q = quantum(h, k, p) as int;
            assert(plus(base, odometer(g, offs, n))(p) == u(p) + q);
            if u(p) + q > v(p) {
                lemma_pull_mono(u, v, offs, p, k);
                assert(after(x, offs, u, p) >= grains_at(h, p));
                let gh = grains_at(h, p) as int;
                assert(k * q <= gh) by {
                    if grains_at(h, p) >= k {
                        assert(k * (gh / k as int) <= gh) by (nonlinear_arith)
                            requires
                                k >= 1,
                                gh >= 0,
                        ;
                    } else {
                        assert(k * 0 == 0);
                    }
                }
                assert(after(x, offs, v, p) >= k) by (nonlinear_arith)
                    requires
                        after(x, offs, v, p) == x(p) - k * v(p) + pull(v, offs, p, k),
                        after(x, offs, u, p) == x(p) - k * u(p) + pull(u, offs, p, k),
                        pull(u, offs, p, k) <= pull(v, offs, p, k),
                        after(x, offs, u, p) >= gh,
                        k * q <= gh,
                        u(p) + q >= v(p) + 1,
                        k >= 1,
                ;
                assert(after(x, offs, v, p) < k);
            }
        }
    }
}

proof fn lemma_stable_below(g: Sand, offs: Seq<Pos>, p: Pos)
    requires
        stable(g, offs.len()),
        offs.len() >= 1,
    ensures
        grains_at(g, p) < offs.len(),
{
}

proof fn lemma_fired_nonneg(g: Sand, offs: Seq<Pos>, n: nat, p: Pos)
    ensures
        fired(g, offs, n, p) >= 0,
    decreases n,
{
    if n > 0 {
        lemma_fired_nonneg(g, offs, (n - 1) as nat, p);
    }
}

proof fn lemma_after_zero(y: Field, offs: Seq<Pos>, p: Pos)
    ensures
        after(y, offs, zero(), p) == y(p),
{
    lemma_pull_zero(offs, p, offs.len());
    assert(offs.len() * 0 == 0);
}

/// Combining before or after settling: when two configurations, their sum,
/// and the sum of their settled forms all settle under the same pattern, the
/// sum settled at once and the sum of the settled forms, settled again, hold
/// the same grains in every cell.
pub proof fn lemma_combine_settles_alike(
    a: Sand,
    b: Sand,
    offs: Seq<Pos>,
    na: nat,
    nb: nat,
    n1: nat,
    n2: nat,
)
    requires
        offs.len() >= 1,
        settles_in(a, offs, na),
        settles_in(b, offs, nb),
        settles_in(merged(a, b), offs, n1),
        settles_in(merged(iterate(a, offs, na), iterate(b, offs, nb)), offs, n2),
    ensures
        forall|p: Pos|
            grains_at(#[trigger] iterate(merged(a, b), offs, n1), p) == grains_at(
                iterate(merged(iterate(a, offs, na), iterate(b, offs, nb)), offs, n2),
                p,
            ),
{
    let k = offs.len();
    let sa = iterate(a, offs, na);
    let sb = iterate(b, offs, nb);
    let ab = merged(a, b);
    let sab = merged(sa, sb);
    let x = counts(ab);
    let xs = plus(counts(a), counts(b));
    let ua = odometer(a, offs, na);
    let ub = odometer(b, offs, nb);
    let u1 = odometer(ab, offs, n1);
    let u2 = odometer(sab, offs, n2);
    let w = plus(ua, ub);
    let all = plus(w, u2);
    // Firing `ua` and `ub` leads from the sum to the sum of the settled forms.
    assert forall|p: Pos| #[trigger] after(x, offs, w, p) == grains_at(sab, p) by {
        lemma_after_ext(x, xs, offs, w, w, p);
        lemma_after_plus(counts(a), counts(b), offs, ua, ub, p);
        lemma_rounds_fire(a, offs, na, p);
        lemma_rounds_fire(b, offs, nb, p);
    }
    // Firing `w` and then rounds from the sum of the settled forms.
    assert forall|i: nat, p: Pos| #[trigger]
        after(x, offs, plus(w, odometer(sab, offs, i)), p) == grains_at(iterate(sab, offs, i), p) by {
        let o = odometer(sab, offs, i);
        lemma_after_ext(x, plus(x, zero()), offs, plus(w, o), plus(w, o), p);
        lemma_after_plus(x, zero(), offs, w, o, p);
        lemma_rounds_fire(sab, offs, i, p);
    }
    assert forall|p: Pos| #[trigger] zero()(p) <= u1(p) by {
        lemma_fired_nonneg(ab, offs, n1, p);
    }
    assert forall|p: Pos| #[trigger] zero()(p) <= all(p) by {
        lemma_fired_nonneg(a, offs, na, p);
        lemma_fired_nonneg(b, offs, nb, p);
        lemma_fired_nonneg(sab, offs, n2, p);
    }
    assert forall|p: Pos| #[trigger] after(x, offs, u1, p) < k by {
        lemma_rounds_fire(ab, offs, n1, p);
        lemma_stable_below(iterate(ab, offs, n1), offs, p);
    }
    assert forall|p: Pos| #[trigger] after(x, offs, all, p) < k by {
        assert(after(x, offs, plus(w, odometer(sab, offs, n2)), p) == grains_at(
            iterate(sab, offs, n2),
            p,
        ));
        lemma_stable_below(iterate(sab, offs, n2), offs, p);
    }
    // Settling the sum at once fires no more than the three stages together.
    assert forall|i: nat, p: Pos|
        i < n1 implies #[trigger] after(x, offs, plus(zero(), odometer(ab, offs, i)), p)
        >= grains_at(iterate(ab, offs, i), p) by {
        lemma_after_ext(x, x, offs, plus(zero(), odometer(ab, offs, i)), odometer(ab, offs, i), p);
        lemma_rounds_fire(ab, offs, i, p);
    }
    lemma_least_action(x, zero(), ab, offs, n1, all);
    // The three stages together fire no more than settling the sum at once.
    assert forall|i: nat, p: Pos|
        i < na implies #[trigger] after(x, offs, plus(zero(), odometer(a, offs, i)), p)
        >= grains_at(iterate(a, offs, i), p) by {
        let o = odometer(a, offs, i);
        lemma_after_ext(x, xs, offs, plus(zero(), o), plus(o, zero()), p);
        lemma_after_plus(counts(a), counts(b), offs, o, zero(), p);
        lemma_after_zero(counts(b), offs, p);
        lemma_rounds_fire(a, offs, i, p);
    }
    lemma_least_action(x, zero(), a, offs, na, u1);
    assert forall|p: Pos| #[trigger] ua(p) <= u1(p) by {
        assert(plus(zero(), odometer(a, offs, na))(p) <= u1(p));
    }
    assert forall|i: nat, p: Pos|
        i < nb implies #[trigger] after(x, offs, plus(ua, odometer(b, offs, i)), p)
        >= grains_at(iterate(b, offs, i), p) by {
        let o = odometer(b, offs, i);
        lemma_after_ext(x, xs, offs, plus(ua, o), plus(ua, o), p);
        lemma_after_plus(counts(a), counts(b), offs, ua, o, p);
        lemma_rounds_fire(a, offs, na, p);
        lemma_rounds_fire(b, offs, i, p);
    }
    lemma_least_action(x, ua, b, offs, nb, u1);
    assert forall|p: Pos| #[trigger] w(p) <= u1(p) by {
        assert(plus(ua, odometer(b, offs, nb))(p) <= u1(p));
    }
    assert forall|i: nat, p: Pos|
        i < n2 implies #[trigger] after(x, offs, plus(w, odometer(sab, offs, i)), p)
        >= grains_at(iterate(sab, offs, i), p) by {
        assert(after(x, offs, plus(w, odometer(sab, offs, i)), p) == grains_at(
            iterate(sab, offs, i),
            p,
        ));
    }
    lemma_least_action(x, w, sab, offs, n2, u1);
    // So both odometers agree, and so do the results.
    assert forall|p: Pos| #[trigger] u1(p) == all(p) by {
        assert(plus(zero(), odometer(ab, offs, n1))(p) <= all(p));
        assert(plus(w, odometer(sab, offs, n2))(p) <= u1(p));
    }
    assert forall|p: Pos|
        grains_at(#[trigger] iterate(ab, offs, n1), p) == grains_at(iterate(sab, offs, n2), p) by {
        lemma_rounds_fire(ab, offs, n1, p);
        lemma_after_ext(x, x, offs, u1, all, p);
        assert(after(x, offs, plus(w, odometer(sab, offs, n2)), p) == grains_at(
            iterate(sab, offs, n2),
            p,
        ));
    }
}

} // verus!
