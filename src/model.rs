//! The mathematical meaning of size hints and of their combinators.
use vstd::prelude::*;

verus! {

/// A lower bound and an optional upper bound (`None`: no known bound).
pub type SizeHint = (usize, Option<usize>);

/// The hint of consuming nothing: the identity of `and`.
pub open spec fn nothing() -> SizeHint {
    (0, Some(0))
}

/// The saturated hint: it absorbs everything under `and`.
pub open spec fn saturated() -> SizeHint {
    (usize::MAX, None)
}

/// The widest hint: it absorbs everything under `or`.
pub open spec fn unbounded() -> SizeHint {
    (0, None)
}

/// Addition that clamps at `usize::MAX`.
pub open spec fn sat_add(a: usize, b: usize) -> usize {
    if a + b > usize::MAX {
        usize::MAX
    } else {
        (a + b) as usize
    }
}

/// One hint after another: bounds add up, an unknown upper bound stays unknown.
pub open spec fn and_of(lhs: SizeHint, rhs: SizeHint) -> SizeHint {
    (
        sat_add(lhs.0, rhs.0),
        match (lhs.1, rhs.1) {
            (Some(a), Some(b)) => Some(sat_add(a, b)),
            _ => None,
        },
    )
}

/// One hint or the other: the smaller lower bound and the larger upper bound.
pub open spec fn or_of(lhs: SizeHint, rhs: SizeHint) -> SizeHint {
    (
        if lhs.0 <= rhs.0 { lhs.0 } else { rhs.0 },
        match (lhs.1, rhs.1) {
            (Some(a), Some(b)) => Some(if a >= b { a } else { b }),
            _ => None,
        },
    )
}

/// `and` folded from the left over `hints`, starting from `nothing()`.
pub open spec fn and_fold(hints: Seq<SizeHint>) -> SizeHint
    decreases hints.len(),
{
    if hints.len() == 0 {
        nothing()
    } else {
        and_of(and_fold(hints.drop_last()), hints.last())
    }
}

/// `or` folded from the left over `hints`, starting from the first hint;
/// `nothing()` when there is none.
pub open spec fn or_fold(hints: Seq<SizeHint>) -> SizeHint
    decreases hints.len(),
{
    if hints.len() == 0 {
        nothing()
    } else if hints.len() == 1 {
        hints[0]
    } else {
        or_of(or_fold(hints.drop_last()), hints.last())
    }
}

/// `outs` is what one run of the lazy `and` fold got from `hints`, each called
/// with `depth` from the left: the run went on while the sum of what it had
/// got was not `saturated()`, and stopped at the end of `hints` or as soon as
/// that sum was.
pub open spec fn and_lazy_run<F: Fn(usize) -> SizeHint>(
    hints: Seq<F>,
    depth: usize,
    outs: Seq<SizeHint>,
) -> bool {
    &&& outs.len() <= hints.len()
    &&& forall|j: int| 0 <= j < outs.len() ==> call_ensures(hints[j], (depth,), #[trigger] outs[j])
    &&& forall|j: int| 0 <= j < outs.len() ==> and_fold(#[trigger] outs.take(j)) != saturated()
    &&& (outs.len() == hints.len() || and_fold(outs) == saturated())
}

/// `r` is a result that the lazy `and` fold may give on `hints` and `depth`:
/// the sum of the hints of one such run.
pub open spec fn and_all_lazy_result<F: Fn(usize) -> SizeHint>(
    hints: Seq<F>,
    depth: usize,
    r: SizeHint,
) -> bool {
    exists|outs: Seq<SizeHint>| #[trigger] and_lazy_run(hints, depth, outs) && r == and_fold(outs)
}

/// `outs` is what one run of the lazy `or` fold got from `hints`, each called
/// with `depth` from the left: the run went on while the union of what it had
/// got (after the first hint) was not `unbounded()`, and stopped at the end of
/// `hints` or as soon as that union was.
pub open spec fn or_lazy_run<F: Fn(usize) -> SizeHint>(
    hints: Seq<F>,
    depth: usize,
    outs: Seq<SizeHint>,
) -> bool {
    &&& outs.len() <= hints.len()
    &&& (hints.len() > 0 ==> outs.len() > 0)
    &&& forall|j: int| 0 <= j < outs.len() ==> call_ensures(hints[j], (depth,), #[trigger] outs[j])
    &&& forall|j: int| 1 <= j < outs.len() ==> or_fold(#[trigger] outs.take(j)) != unbounded()
    &&& (outs.len() == hints.len() || or_fold(outs) == unbounded())
}

/// `r` is a result that the lazy `or` fold may give on `hints` and `depth`:
/// the union of the hints of one such run.
pub open spec fn or_all_lazy_result<F: Fn(usize) -> SizeHint>(
    hints: Seq<F>,
    depth: usize,
    r: SizeHint,
) -> bool {
    exists|outs: Seq<SizeHint>| #[trigger] or_lazy_run(hints, depth, outs) && r == or_fold(outs)
}

} // verus!
