use crate::extend::ExtendWithCapacity;
use vstd::prelude::*;
use vstd::std_specs::iter::IteratorSpec;

verus! {

/// The most items that a size hint speaks of: the larger of its two bounds,
/// or the lower bound where it has no upper bound.
pub open spec fn hint_bound(size_hint: (usize, Option<usize>)) -> usize {
    match size_hint.1 {
        Some(upper) => if size_hint.0 >= upper {
            size_hint.0
        } else {
            upper
        },
        None => size_hint.0,
    }
}

/// The capacity to reserve, given the bound of the size hint and what the
/// capacity function asked for on that bound. In exact mode the request is
/// taken as it is, even below the bound; otherwise the larger of the two is
/// taken, so that a request below the bound has no effect.
pub open spec fn resolved_capacity(bound: usize, requested: usize, exact: bool) -> usize {
    if exact || requested >= bound {
        requested
    } else {
        bound
    }
}

/// Whether `resolved` is what the rule gives for `bound` and some answer of
/// the capacity function to `bound`.
pub open spec fn resolves_to<F: FnOnce(usize) -> usize>(
    capacity: F,
    bound: usize,
    exact: bool,
    resolved: usize,
) -> bool {
    exists|requested: usize| #[trigger]
        call_ensures(capacity, (bound,), requested) && resolved == resolved_capacity(
            bound,
            requested,
            exact,
        )
}

/// Whether `container` is what collecting `items` gives: created with the
/// capacity that the rule gives for the bound of some size hint and the
/// capacity function's answer to that bound, then filled with `items` in
/// order.
pub open spec fn collected<T, C: ExtendWithCapacity<T>, F: FnOnce(usize) -> usize>(
    container: C,
    items: Seq<T>,
    capacity: F,
    exact: bool,
) -> bool {
    exists|bound: usize, requested: usize| #[trigger]
        call_ensures(capacity, (bound,), requested) && container.built_from(
            resolved_capacity(bound, requested, exact),
            items,
        )
}

/// Whether the iterator keeps to the rules of iteration: it yields the items
/// of a finite sequence one after the other and then ends, and it has a
/// measure that falls with each item.
pub open spec fn yields_finitely<I: Iterator>(iter: &I) -> bool {
    iter.obeys_prophetic_iter_laws() && iter.decrease() is Some
}

/// Without exact mode, the capacity for a size hint with an upper bound that
/// is not below its lower bound is at least the larger of the two bounds,
/// whatever was requested.
pub proof fn lemma_capacity_covers_bounded_hint(lower: usize, upper: usize, requested: usize)
    requires
        lower <= upper,
    ensures
        resolved_capacity(hint_bound((lower, Some(upper))), requested, false) >= lower,
        resolved_capacity(hint_bound((lower, Some(upper))), requested, false) >= upper,
{
}

/// Without exact mode, the capacity for a size hint without an upper bound is
/// at least its lower bound, whatever was requested.
pub proof fn lemma_capacity_covers_open_hint(lower: usize, requested: usize)
    ensures
        resolved_capacity(hint_bound((lower, None)), requested, false) >= lower,
{
}

/// In exact mode the capacity is what was requested, whatever the size hint
/// says, also where that is less than the hint's bound.
pub proof fn lemma_exact_capacity_is_requested(
    size_hint: (usize, Option<usize>),
    requested: usize,
)
    ensures
        resolved_capacity(hint_bound(size_hint), requested, true) == requested,
{
}

/// Without exact mode the capacity is the larger of the request and the
/// bound: a request below the bound changes nothing.
pub proof fn lemma_capacity_is_larger_of_both(bound: usize, requested: usize)
    ensures
        resolved_capacity(bound, requested, false) >= bound,
        resolved_capacity(bound, requested, false) >= requested,
        resolved_capacity(bound, requested, false) == bound || resolved_capacity(
            bound,
            requested,
            false,
        ) == requested,
{
}

/// `Iterator::size_hint` of std: the bounds that the iterator reports on
/// what it has left. std asks implementations for correct bounds and does not
/// hold them to it, so nothing is stated of the result.
#[verifier::external_body]
pub(crate) fn size_hint_of<I: Iterator>(iter: &I) -> (size_hint: (usize, Option<usize>)) {
    iter.size_hint()
}

/// The bound of a size hint: see [`hint_bound`].
pub fn get_max_hint_bound(size_hint: (usize, Option<usize>)) -> (bound: usize)
    ensures
        bound == hint_bound(size_hint),
{
    match size_hint {
        (lower, Some(upper)) => if lower >= upper {
            lower
        } else {
            upper
        },
        (n, _) => n,
    }
}

/// The capacity to reserve for an iterator that reports `size_hint`: asks
/// `capacity` once, for the bound of the hint, and applies the rule of
/// [`resolved_capacity`] to its answer.
pub fn resolve_capacity(
    size_hint: (usize, Option<usize>),
    capacity: impl FnOnce(usize) -> usize,
    exact: bool,
) -> (resolved: usize)
    requires
        call_requires(capacity, (hint_bound(size_hint),)),
    ensures
        resolves_to(capacity, hint_bound(size_hint), exact, resolved),
{
    let bound = get_max_hint_bound(size_hint);
    let requested = capacity(bound);
    if exact || requested >= bound {
        requested
    } else {
        bound
    }
}

/// Creates a container with `capacity` reserved and fills it with all that
/// `iter` yields, in the order in which it yields it.
pub fn collect_with_exact_capacity<T, I>(iter: I, capacity: usize) -> (container: T) where
    T: ExtendWithCapacity<I::Item>,
    I: Iterator,

    requires
        yields_finitely(&iter),
    ensures
        container.built_from(capacity, iter.remaining()),
{
    let mut rest = iter;
    let mut container = T::with_capacity(capacity);
    let ghost mut taken: Seq<I::Item> = Seq::empty();
    loop
        invariant
            yields_finitely(&rest),
            container.built_from(capacity, taken),
            taken + rest.remaining() == iter.remaining(),
        decreases rest.decrease()->0,
    {
        match rest.next() {
            Some(item) => {
                container.append_one(item);
                proof {
                    taken = taken.push(item);
                }
            },
            None => {
                assert(taken == iter.remaining());
                return container;
            },
        }
    }
}

/// Collects `iter` into a container whose capacity comes from the iterator's
/// size hint and `capacity`: see [`resolve_capacity`]. `capacity` is asked
/// once, also where the iterator yields nothing.
pub fn collect_iterator<T, I>(
    iter: I,
    exact: bool,
    capacity: impl FnOnce(usize) -> usize,
) -> (container: T) where T: ExtendWithCapacity<I::Item>, I: Iterator
    requires
        yields_finitely(&iter),
        forall|bound: usize| call_requires(capacity, (bound,)),
    ensures
        collected(container, iter.remaining(), capacity, exact),
{
    let size_hint = size_hint_of(&iter);
    let real_capacity = resolve_capacity(size_hint, capacity, exact);
    proof {
        let requested = choose|requested: usize| #[trigger]
            call_ensures(capacity, (hint_bound(size_hint),), requested) && real_capacity
                == resolved_capacity(hint_bound(size_hint), requested, exact);
        assert(call_ensures(capacity, (hint_bound(size_hint),), requested));
    }
    collect_with_exact_capacity(iter, real_capacity)
}

} // verus!
