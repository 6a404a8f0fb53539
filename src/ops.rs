//! The executable combinators.
use vstd::prelude::*;

use crate::model::{
    and_all_lazy_result, and_fold, and_lazy_run, and_of, or_all_lazy_result, or_fold, or_lazy_run,
    or_of, saturated, unbounded, SizeHint,
};

verus! {

/// How deep a hint computation may recurse before it gives up.
pub const MAX_DEPTH: usize = 20;

/// Protects against infinite recursion when a hint is computed for a type that
/// refers to itself.
///
/// When `depth` is at most `MAX_DEPTH`, returns what `f` computes for
/// `depth + 1`; otherwise returns `(usize::MAX, None)` without calling `f`.
pub fn recursion_guard(depth: usize, f: impl FnOnce(usize) -> SizeHint) -> (r: SizeHint)
    requires
        depth <= MAX_DEPTH ==> call_requires(f, ((depth + 1) as usize,)),
    ensures
        depth > MAX_DEPTH ==> r == saturated(),
        depth <= MAX_DEPTH ==> call_ensures(f, ((depth + 1) as usize,), r),
{
    if depth > MAX_DEPTH {
        (usize::MAX, None)
    } else {
        f(depth + 1)
    }
}

/// Take the sum of the `lhs` and `rhs` size hints.
pub fn and(lhs: SizeHint, rhs: SizeHint) -> (r: SizeHint)
    ensures
        r == and_of(lhs, rhs),
{
    let lower = lhs.0.saturating_add(rhs.0);
    let upper = match (lhs.1, rhs.1) {
        (Some(a), Some(b)) => Some(a.saturating_add(b)),
        _ => None,
    };
    (lower, upper)
}

/// Take the sum of all of the given size hints.
///
/// If `hints` is empty, returns `(0, Some(0))`, the hint of consuming nothing.
pub fn and_all(hints: &[SizeHint]) -> (r: SizeHint)
    ensures
        r == and_fold(hints@),
        hints@.len() == 0 ==> r == (0usize, Some(0usize)),
{
    let mut acc: SizeHint = (0, Some(0));
    let mut i: usize = 0;
    while i < hints.len()
        invariant
            i <= hints@.len(),
            acc == and_fold(hints@.take(i as int)),
        decreases hints@.len() - i,
    {
        assert(hints@.take(i + 1).drop_last() =~= hints@.take(i as int));
        acc = and(acc, hints[i]);
        i = i + 1;
    }
    assert(hints@.take(i as int) =~= hints@);
    acc
}

/// Take the sum of the hints that `hints` compute for `depth`, from the left,
/// and stop calling them once the sum is `(usize::MAX, None)`, which no
/// further hint can change.
///
/// If `hints` is empty, returns `(0, Some(0))`.
pub fn and_all_lazy<F: Fn(usize) -> SizeHint>(hints: &[F], depth: usize) -> (r: SizeHint)
    requires
        forall|i: int| 0 <= i < hints@.len() ==> call_requires(#[trigger] hints@[i], (depth,)),
    ensures
        and_all_lazy_result(hints@, depth, r),
        hints@.len() == 0 ==> r == (0usize, Some(0usize)),
{
    let mut acc: SizeHint = (0, Some(0));
    let ghost mut outs: Seq<SizeHint> = Seq::empty();
    let mut i: usize = 0;
    while i < hints.len() && !(acc.0 == usize::MAX && acc.1.is_none())
        invariant
            i <= hints@.len(),
            outs.len() == i,
            acc == and_fold(outs),
            forall|k: int| 0 <= k < hints@.len() ==> call_requires(#[trigger] hints@[k], (depth,)),
            forall|j: int| 0 <= j < i ==> call_ensures(hints@[j], (depth,), #[trigger] outs[j]),
            forall|j: int| 0 <= j < i ==> and_fold(#[trigger] outs.take(j)) != saturated(),
        decreases hints@.len() - i,
    {
        let hint = &hints[i];
        let h = hint(depth);
        proof {
            let prev = outs;
            outs = outs.push(h);
            assert(outs.drop_last() =~= prev);
            assert(outs.take(i as int) =~= prev);
            assert forall|j: int| 0 <= j < i implies outs.take(j) =~= prev.take(j) by {}
        }
        acc = and(acc, h);
        i = i + 1;
    }
    assert(and_lazy_run(hints@, depth, outs));
    acc
}

/// Take the minimum of the lower bounds and maximum of the upper bounds in the
/// `lhs` and `rhs` size hints.
pub fn or(lhs: SizeHint, rhs: SizeHint) -> (r: SizeHint)
    ensures
        r == or_of(lhs, rhs),
{
    let lower = if lhs.0 <= rhs.0 {
        lhs.0
    } else {
        rhs.0
    };
    let upper = match (lhs.1, rhs.1) {
        (Some(a), Some(b)) => Some(if a >= b { a } else { b }),
        _ => None,
    };
    (lower, upper)
}

/// Take the union of all of the given size hints: the smallest lower bound
/// and the largest upper bound.
///
/// If `hints` is empty, returns `(0, Some(0))`, the hint of consuming nothing.
pub fn or_all(hints: &[SizeHint]) -> (r: SizeHint)
    ensures
        r == or_fold(hints@),
        hints@.len() == 0 ==> r == (0usize, Some(0usize)),
{
    if hints.len() == 0 {
        return (0, Some(0));
    }
    let mut acc: SizeHint = hints[0];
    let mut i: usize = 1;
    assert(hints@.take(1) =~= seq![hints@[0]]);
    while i < hints.len()
        invariant
            1 <= i <= hints@.len(),
            acc == or_fold(hints@.take(i as int)),
        decreases hints@.len() - i,
    {
        assert(hints@.take(i + 1).drop_last() =~= hints@.take(i as int));
        acc = or(acc, hints[i]);
        i = i + 1;
    }
    assert(hints@.take(i as int) =~= hints@);
    acc
}

/// Take the union of the hints that `hints` compute for `depth`, from the
/// left, and stop calling them once the union is `(0, None)`, which no further
/// hint can change.
///
/// If `hints` is empty, returns `(0, Some(0))`.
pub fn or_all_lazy<F: Fn(usize) -> SizeHint>(hints: &[F], depth: usize) -> (r: SizeHint)
    requires
        forall|i: int| 0 <= i < hints@.len() ==> call_requires(#[trigger] hints@[i], (depth,)),
    ensures
        or_all_lazy_result(hints@, depth, r),
        hints@.len() == 0 ==> r == (0usize, Some(0usize)),
{
    if hints.len() == 0 {
        assert(or_lazy_run(hints@, depth, Seq::empty()));
        return (0, Some(0));
    }
    let first = &hints[0];
    let mut acc: SizeHint = first(depth);
    let ghost mut outs: Seq<SizeHint> = seq![acc];
    let mut i: usize = 1;
    while i < hints.len() && !(acc.0 == 0 && acc.1.is_none())
        invariant
            1 <= i <= hints@.len(),
            outs.len() == i,
            acc == or_fold(outs),
            forall|k: int| 0 <= k < hints@.len() ==> call_requires(#[trigger] hints@[k], (depth,)),
            forall|j: int| 0 <= j < i ==> call_ensures(hints@[j], (depth,), #[trigger] outs[j]),
            forall|j: int| 1 <= j < i ==> or_fold(#[trigger] outs.take(j)) != unbounded(),
        decreases hints@.len() - i,
    {
        let hint = &hints[i];
        let h = hint(depth);
        proof {
            let prev = outs;
            outs = outs.push(h);
            assert(outs.drop_last() =~= prev);
            assert(outs.take(i as int) =~= prev);
            assert forall|j: int| 1 <= j < i implies outs.take(j) =~= prev.take(j) by {}
        }
        acc = or(acc, h);
        i = i + 1;
    }
    assert(or_lazy_run(hints@, depth, outs));
    acc
}

} // verus!
