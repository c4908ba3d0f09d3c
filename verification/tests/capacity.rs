use collect_with::{
    collect_iterator, collect_with_exact_capacity, get_max_hint_bound, hashed_reserve,
    resolve_capacity, CollectVector, CollectWith, CollectWithCapacity, MAX_HASHED_RESERVE,
};
use std::cell::Cell;
use std::collections::VecDeque;

/// An iterator over `0..len` that reports no upper bound and a lower bound of 0.
fn unsized_numbers(len: u32) -> impl Iterator<Item = u32> {
    let mut next = 0;
    std::iter::from_fn(move || {
        if next < len {
            next += 1;
            Some(next - 1)
        } else {
            None
        }
    })
}

#[test]
fn hint_bound_takes_upper_bound() {
    assert_eq!(get_max_hint_bound((3, Some(7))), 7);
    assert_eq!(get_max_hint_bound((10, Some(10))), 10);
}

#[test]
fn hint_bound_takes_lower_bound_without_upper() {
    assert_eq!(get_max_hint_bound((0, None)), 0);
    assert_eq!(get_max_hint_bound((12, None)), 12);
}

#[test]
fn hint_bound_takes_larger_bound_when_lower_exceeds_upper() {
    assert_eq!(get_max_hint_bound((5, Some(3))), 5);
    assert_eq!(get_max_hint_bound((usize::MAX, Some(0))), usize::MAX);
}

#[test]
fn non_exact_capacity_covers_bounded_hint() {
    for lower in 0..6usize {
        for upper in lower..8usize {
            for requested in 0..10usize {
                let resolved = resolve_capacity((lower, Some(upper)), |_| requested, false);
                assert!(resolved >= lower.max(upper));
                assert_eq!(resolved, requested.max(upper));
            }
        }
    }
}

#[test]
fn non_exact_capacity_covers_open_hint() {
    for lower in 0..6usize {
        for requested in 0..10usize {
            let resolved = resolve_capacity((lower, None), |_| requested, false);
            assert!(resolved >= lower);
            assert_eq!(resolved, requested.max(lower));
        }
    }
}

#[test]
fn exact_capacity_is_the_request() {
    assert_eq!(resolve_capacity((10, Some(10)), |_| 2, true), 2);
    assert_eq!(resolve_capacity((10, None), |_| 0, true), 0);
    assert_eq!(resolve_capacity((0, Some(4)), |n| n + 9, true), 13);
}

#[test]
fn capacity_function_receives_the_bound() {
    let seen = Cell::new(0);
    let resolved = resolve_capacity(
        (3, Some(7)),
        |bound| {
            seen.set(bound);
            bound + 5
        },
        false,
    );
    assert_eq!(seen.get(), 7);
    assert_eq!(resolved, 12);
}

#[test]
fn request_below_bound_is_ignored_without_exact_mode() {
    assert_eq!(resolve_capacity((10, Some(10)), |_| 2, false), 10);
    let numbers = (0..10).collect_vec_with(|_size_bound| 2);
    assert_eq!(numbers.capacity(), 10);
    assert_eq!(numbers, vec![0, 1, 2, 3, 4, 5, 6, 7, 8, 9]);
}

#[test]
fn open_hint_uses_the_request() {
    let request = |n: usize| if n == 0 { 8 } else { n };
    assert_eq!(resolve_capacity((0, None), request, false), 8);
    assert_eq!(unsized_numbers(4).size_hint(), (0, None));
    let numbers = unsized_numbers(4).collect_vec_with(request);
    assert_eq!(numbers.capacity(), 8);
    assert_eq!(numbers.len(), 4);
    assert_eq!(numbers, vec![0, 1, 2, 3]);
}

#[test]
fn exact_mode_with_exact_hint() {
    assert_eq!(resolve_capacity((3, Some(3)), |n| n, true), 3);
    let numbers = vec![7, 8, 9].into_iter().collect_vec_with_exact(|n| n);
    assert_eq!(numbers.capacity(), 3);
    assert_eq!(numbers.len(), 3);
    assert_eq!(numbers, vec![7, 8, 9]);
}

#[test]
fn exact_mode_below_bound_still_collects_everything() {
    let numbers = (0..10).collect_vec_with_exact(|_| 2);
    assert_eq!(numbers, vec![0, 1, 2, 3, 4, 5, 6, 7, 8, 9]);
    assert!(numbers.capacity() >= 10);
}

#[test]
fn collect_with_capacity_reserves_the_number() {
    let numbers = (0..10).collect_with_capacity::<Vec<_>>(20);
    assert_eq!(numbers.capacity(), 20);
    assert_eq!(numbers.len(), 10);
    let fewer = (0..10).collect_with_capacity::<Vec<_>>(3);
    assert_eq!(fewer.capacity(), 10);
}

#[test]
fn collect_vec_with_adds_to_the_bound() {
    let numbers = (0..10).collect_vec_with(|hint| match hint {
        0 => 12,
        n => n + 5,
    });
    assert_eq!(numbers.capacity(), 15);
    let more = (0..10).collect_vec_with(|size_bound| size_bound + 2);
    assert_eq!(more.capacity(), 12);
}

#[test]
fn capacity_function_is_called_once() {
    let calls = Cell::new(0);
    let numbers = (0..5).collect_vec_with(|n| {
        calls.set(calls.get() + 1);
        n
    });
    assert_eq!(numbers.len(), 5);
    assert_eq!(calls.get(), 1);
}

#[test]
fn capacity_function_is_called_once_for_empty_iterator() {
    let calls = Cell::new(0);
    let numbers = std::iter::empty::<u8>().collect_vec_with(|n| {
        calls.set(calls.get() + 1);
        n
    });
    assert!(numbers.is_empty());
    assert_eq!(calls.get(), 1);

    let exact_calls = Cell::new(0);
    let none: VecDeque<u8> = std::iter::empty::<u8>().collect_with_exact(|n| {
        exact_calls.set(exact_calls.get() + 1);
        n
    });
    assert!(none.is_empty());
    assert_eq!(exact_calls.get(), 1);
}

#[test]
fn collect_iterator_honours_the_mode() {
    let exact: Vec<u32> = collect_iterator(0..4, true, |_| 9);
    assert_eq!(exact.capacity(), 9);
    assert_eq!(exact, vec![0, 1, 2, 3]);
    let raised: Vec<u32> = collect_iterator(0..4, false, |_| 1);
    assert_eq!(raised.capacity(), 4);
    assert_eq!(raised, vec![0, 1, 2, 3]);
}

#[test]
fn collect_with_exact_capacity_keeps_order() {
    let numbers: Vec<u32> = collect_with_exact_capacity([5, 3, 5, 1].into_iter(), 6);
    assert_eq!(numbers, vec![5, 3, 5, 1]);
    assert_eq!(numbers.capacity(), 6);
    let none: Vec<u32> = collect_with_exact_capacity(std::iter::empty(), 0);
    assert!(none.is_empty());
}

#[test]
fn hashed_reserve_caps_the_request() {
    assert_eq!(hashed_reserve(0), 0);
    assert_eq!(hashed_reserve(14), 14);
    assert_eq!(hashed_reserve(MAX_HASHED_RESERVE), MAX_HASHED_RESERVE);
    assert_eq!(hashed_reserve(MAX_HASHED_RESERVE + 1), MAX_HASHED_RESERVE);
    assert_eq!(hashed_reserve(usize::MAX), MAX_HASHED_RESERVE);
    assert_eq!(MAX_HASHED_RESERVE, usize::MAX / 128);
}
