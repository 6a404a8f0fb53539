//! Laws of the combinators, proved over their models.
use vstd::prelude::*;

use crate::model::{
    and_all_lazy_result, and_fold, and_lazy_run, and_of, nothing, or_all_lazy_result, or_fold,
    or_lazy_run, or_of, saturated, unbounded, SizeHint,
};

verus! {

broadcast use vstd::seq_lib::group_to_multiset_ensures;

/// `and` is associative.
pub proof fn lemma_and_associative(a: SizeHint, b: SizeHint, c: SizeHint)
    ensures
        and_of(and_of(a, b), c) == and_of(a, and_of(b, c)),
{
}

/// `and` is commutative.
pub proof fn lemma_and_commutative(a: SizeHint, b: SizeHint)
    ensures
        and_of(a, b) == and_of(b, a),
{
}

/// Consuming nothing first changes no hint.
pub proof fn lemma_and_identity(x: SizeHint)
    ensures
        and_of(nothing(), x) == x,
        and_of(x, nothing()) == x,
{
}

/// `or` is associative.
pub proof fn lemma_or_associative(a: SizeHint, b: SizeHint, c: SizeHint)
    ensures
        or_of(or_of(a, b), c) == or_of(a, or_of(b, c)),
{
}

/// `or` is commutative.
pub proof fn lemma_or_commutative(a: SizeHint, b: SizeHint)
    ensures
        or_of(a, b) == or_of(b, a),
{
}

/// A hint or the same hint is that hint.
pub proof fn lemma_or_idempotent(x: SizeHint)
    ensures
        or_of(x, x) == x,
{
}

/// Both folds give the hint of consuming nothing on no hints.
pub proof fn lemma_folds_of_empty()
    ensures
        and_fold(Seq::empty()) == nothing(),
        or_fold(Seq::empty()) == nothing(),
{
}

/// Any one hint can be taken out of the sum and added last.
proof fn lemma_and_fold_remove(s: Seq<SizeHint>, i: int)
    requires
        0 <= i < s.len(),
    ensures
        and_fold(s) == and_of(and_fold(s.remove(i)), s[i]),
    decreases s.len(),
{
    if i == s.len() - 1 {
        assert(s.remove(i) =~= s.drop_last());
    } else {
        let init = s.drop_last();
        lemma_and_fold_remove(init, i);
        assert(init.remove(i) =~= s.remove(i).drop_last());
        let rest = and_fold(init.remove(i));
        lemma_and_associative(rest, s[i], s.last());
        lemma_and_commutative(s[i], s.last());
        lemma_and_associative(rest, s.last(), s[i]);
    }
}

/// The sum of hints does not depend on their order: two sequences that hold
/// the same hints, as many times each, have the same sum.
pub proof fn lemma_and_fold_order_independent(s1: Seq<SizeHint>, s2: Seq<SizeHint>)
    requires
        s1.to_multiset() == s2.to_multiset(),
    ensures
        and_fold(s1) == and_fold(s2),
    decreases s1.len(),
{
    if s1.len() == 0 {
        assert(s1.to_multiset().len() == 0);
        assert(s2.to_multiset().len() == s2.len());
    } else {
        let x = s1.last();
        assert(s1.to_multiset().count(x) > 0) by {
            assert(s1.contains(x)) by {
                assert(s1[s1.len() - 1] == x);
            }
        }
        assert(s2.contains(x));
        let j = choose|j: int| 0 <= j < s2.len() && s2[j] == x;
        assert(s1.remove(s1.len() - 1) =~= s1.drop_last());
        assert(s1.remove(s1.len() - 1).to_multiset() == s1.to_multiset().remove(x));
        assert(s2.remove(j).to_multiset() == s2.to_multiset().remove(x));
        lemma_and_fold_order_independent(s1.drop_last(), s2.remove(j));
        lemma_and_fold_remove(s2, j);
    }
}

/// Once a prefix sums to `saturated()`, the whole sequence does.
proof fn lemma_and_fold_saturated_prefix(s: Seq<SizeHint>, k: int)
    requires
        0 <= k <= s.len(),
        and_fold(s.take(k)) == saturated(),
    ensures
        and_fold(s) == saturated(),
    decreases s.len() - k,
{
    if k == s.len() {
        assert(s.take(k) =~= s);
    } else {
        assert(s.take(k + 1).drop_last() =~= s.take(k));
        lemma_and_fold_saturated_prefix(s, k + 1);
    }
}

/// Once a nonempty prefix has `unbounded()` as its union, the whole sequence
/// does.
proof fn lemma_or_fold_unbounded_prefix(s: Seq<SizeHint>, k: int)
    requires
        1 <= k <= s.len(),
        or_fold(s.take(k)) == unbounded(),
    ensures
        or_fold(s) == unbounded(),
    decreases s.len() - k,
{
    if k == s.len() {
        assert(s.take(k) =~= s);
    } else {
        assert(s.take(k + 1).drop_last() =~= s.take(k));
        lemma_or_fold_unbounded_prefix(s, k + 1);
    }
}

/// When each of `hints` returns `vals[i]` for `depth` and nothing else, every
/// result of the lazy `and` fold is the sum of `vals`, as `and_all` gives it.
pub proof fn lemma_and_all_lazy_matches_eager<F: Fn(usize) -> SizeHint>(
    hints: Seq<F>,
    depth: usize,
    vals: Seq<SizeHint>,
    r: SizeHint,
)
    requires
        vals.len() == hints.len(),
        forall|i: int, v: SizeHint|
            0 <= i < hints.len() && #[trigger] call_ensures(hints[i], (depth,), v) ==> v == vals[i],
        and_all_lazy_result(hints, depth, r),
    ensures
        r == and_fold(vals),
{
    let outs = choose|outs: Seq<SizeHint>| and_lazy_run(hints, depth, outs) && r == and_fold(outs);
    assert(outs =~= vals.take(outs.len() as int)) by {
        assert forall|j: int| 0 <= j < outs.len() implies outs[j] == vals[j] by {
            assert(call_ensures(hints[j], (depth,), outs[j]));
        }
    }
    if outs.len() == vals.len() {
        assert(outs =~= vals);
    } else {
        lemma_and_fold_saturated_prefix(vals, outs.len() as int);
    }
}

/// When each of `hints` returns `vals[i]` for `depth` and nothing else, every
/// result of the lazy `or` fold is the union of `vals`, as `or_all` gives it.
pub proof fn lemma_or_all_lazy_matches_eager<F: Fn(usize) -> SizeHint>(
    hints: Seq<F>,
    depth: usize,
    vals: Seq<SizeHint>,
    r: SizeHint,
)
    requires
        vals.len() == hints.len(),
        forall|i: int, v: SizeHint|
            0 <= i < hints.len() && #[trigger] call_ensures(hints[i], (depth,), v) ==> v == vals[i],
        or_all_lazy_result(hints, depth, r),
    ensures
        r == or_fold(vals),
{
    let outs = choose|outs: Seq<SizeHint>| or_lazy_run(hints, depth, outs) && r == or_fold(outs);
    assert(outs =~= vals.take(outs.len() as int)) by {
        assert forall|j: int| 0 <= j < outs.len() implies outs[j] == vals[j] by {
            assert(call_ensures(hints[j], (depth,), outs[j]));
        }
    }
    if outs.len() == vals.len() {
        assert(outs =~= vals);
    } else {
        lemma_or_fold_unbounded_prefix(vals, outs.len() as int);
    }
}

/// The lazy `and` fold calls no hint after the sum of those it has called
/// reaches `saturated()`: in a run, a prefix with that sum is the whole run.
pub proof fn lemma_and_all_lazy_stops_when_saturated<F: Fn(usize) -> SizeHint>(
    hints: Seq<F>,
    depth: usize,
    outs: Seq<SizeHint>,
    k: int,
)
    requires
        and_lazy_run(hints, depth, outs),
        0 <= k <= outs.len(),
        and_fold(outs.take(k)) == saturated(),
    ensures
        outs.len() == k,
{
}

/// The lazy `or` fold calls no hint after the union of those it has called
/// reaches `unbounded()`: in a run, a nonempty prefix with that union is the
/// whole run.
pub proof fn lemma_or_all_lazy_stops_when_unbounded<F: Fn(usize) -> SizeHint>(
    hints: Seq<F>,
    depth: usize,
    outs: Seq<SizeHint>,
    k: int,
)
    requires
        or_lazy_run(hints, depth, outs),
        1 <= k <= outs.len(),
        or_fold(outs.take(k)) == unbounded(),
    ensures
        outs.len() == k,
{
}

} // verus!
