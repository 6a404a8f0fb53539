use std::cell::Cell;

use size_hint::{and, and_all, and_all_lazy, or, or_all, or_all_lazy, recursion_guard, MAX_DEPTH};

const SAMPLES: [(usize, Option<usize>); 7] = [
    (0, Some(0)),
    (0, None),
    (3, Some(5)),
    (7, None),
    (usize::MAX, None),
    (usize::MAX - 1, Some(usize::MAX)),
    (2, Some(usize::MAX - 1)),
];

#[test]
fn and_laws_on_samples() {
    for &a in SAMPLES.iter() {
        assert_eq!(and((0, Some(0)), a), a);
        for &b in SAMPLES.iter() {
            assert_eq!(and(a, b), and(b, a));
            for &c in SAMPLES.iter() {
                assert_eq!(
                    and(and(a, b), c),
                    and(a, and(b, c))
                );
            }
        }
    }
}

#[test]
fn or_laws_on_samples() {
    for &a in SAMPLES.iter() {
        assert_eq!(or(a, a), a);
        for &b in SAMPLES.iter() {
            assert_eq!(or(a, b), or(b, a));
            for &c in SAMPLES.iter() {
                assert_eq!(
                    or(or(a, b), c),
                    or(a, or(b, c))
                );
            }
        }
    }
}

#[test]
fn and_saturates_instead_of_wrapping() {
    assert_eq!(
        and((usize::MAX - 1, Some(usize::MAX - 1)), (5, Some(5))),
        (usize::MAX, Some(usize::MAX))
    );
    assert_eq!(and((usize::MAX, None), (3, Some(3))), (usize::MAX, None));
}

#[test]
fn or_takes_min_lower_and_max_upper() {
    assert_eq!(or((4, Some(9)), (6, Some(7))), (4, Some(9)));
    assert_eq!(or((6, Some(7)), (4, Some(9))), (4, Some(9)));
}

#[test]
fn and_all_ignores_order() {
    let hints = [(1, Some(3)), (usize::MAX - 2, Some(10)), (4, None), (2, Some(2))];
    let reordered = [(2, Some(2)), (4, None), (1, Some(3)), (usize::MAX - 2, Some(10))];
    assert_eq!(and_all(&hints), and_all(&reordered));
    assert_eq!(and_all(&hints), (usize::MAX, None));
    let bounded = [(1, Some(3)), (5, Some(10)), (2, Some(2))];
    let bounded_reordered = [(2, Some(2)), (1, Some(3)), (5, Some(10))];
    assert_eq!(and_all(&bounded), (8, Some(15)));
    assert_eq!(and_all(&bounded_reordered), (8, Some(15)));
}

#[test]
fn or_all_of_one_hint_is_that_hint() {
    assert_eq!(or_all(&[(3, Some(8))]), (3, Some(8)));
    assert_eq!(or_all(&[(3, None)]), (3, None));
}

#[test]
fn lazy_folds_match_eager_folds() {
    let hints: [fn(usize) -> (usize, Option<usize>); 4] =
        [|_| (3, Some(4)), |_| (1, Some(9)), |_| (usize::MAX, Some(usize::MAX)), |_| (0, None)];
    let vals = [(3, Some(4)), (1, Some(9)), (usize::MAX, Some(usize::MAX)), (0, None)];
    assert_eq!(and_all_lazy(&hints, 7), and_all(&vals));
    assert_eq!(or_all_lazy(&hints, 7), or_all(&vals));
}

#[test]
fn lazy_folds_pass_depth_to_each_hint() {
    let hints = [|d: usize| (d, Some(d)); 3];
    assert_eq!(and_all_lazy(&hints, 5), (15, Some(15)));
    assert_eq!(or_all_lazy(&hints, 5), (5, Some(5)));
}

#[test]
fn and_all_lazy_stops_once_saturated() {
    let results = [(1, Some(1)), (usize::MAX, None), (3, Some(3)), (4, Some(4))];
    let calls = Cell::new(0usize);
    let hint = |_: usize| {
        let i = calls.get();
        calls.set(i + 1);
        results[i]
    };
    let hints = [hint; 4];
    assert_eq!(and_all_lazy(&hints, 0), (usize::MAX, None));
    assert_eq!(calls.get(), 2);
}

#[test]
fn or_all_lazy_stops_once_unbounded() {
    let results = [(2, Some(2)), (0, None), (3, Some(3)), (4, Some(4))];
    let calls = Cell::new(0usize);
    let hint = |_: usize| {
        let i = calls.get();
        calls.set(i + 1);
        results[i]
    };
    let hints = [hint; 4];
    assert_eq!(or_all_lazy(&hints, 0), (0, None));
    assert_eq!(calls.get(), 2);
}

#[test]
fn or_all_lazy_stops_after_an_unbounded_first_hint() {
    let calls = Cell::new(0usize);
    let hint = |_: usize| {
        calls.set(calls.get() + 1);
        (0, None)
    };
    let hints = [hint; 3];
    assert_eq!(or_all_lazy(&hints, 0), (0, None));
    assert_eq!(calls.get(), 1);
}

#[test]
fn recursion_guard_stops_beyond_max_depth() {
    let called = Cell::new(false);
    let r = recursion_guard(21, |_| {
        called.set(true);
        (1, Some(1))
    });
    assert_eq!(r, (usize::MAX, None));
    assert!(!called.get());
    assert_eq!(MAX_DEPTH, 20);
}

#[test]
fn recursion_guard_calls_with_next_depth() {
    assert_eq!(recursion_guard(0, |d| (d, Some(d))), (1, Some(1)));
    assert_eq!(recursion_guard(20, |d| (d, Some(d + 1))), (21, Some(22)));
    assert_eq!(recursion_guard(0, |_| (9, None)), (9, None));
}
