use crate::common::{collect_iterator, collected, hint_bound, resolved_capacity, yields_finitely};
use crate::extend::ExtendWithCapacity;
use vstd::prelude::*;
use vstd::std_specs::iter::IteratorSpec;

verus! {

impl<I: Iterator> CollectWithCapacity for I {

}

/// Collecting into a container with a capacity given as a number.
pub trait CollectWithCapacity: Iterator {
    /// Collects into a container that is created with `capacity`, or with the
    /// bound of the iterator's size hint where that is larger, and filled with
    /// what the iterator yields, in order.
    fn collect_with_capacity<T>(self, capacity: usize) -> (container: T) where
        T: ExtendWithCapacity<Self::Item>,
        Self: Sized,

        requires
            yields_finitely(&self),
        ensures
            exists|size_hint: (usize, Option<usize>)| #[trigger]
                container.built_from(
                    resolved_capacity(hint_bound(size_hint), capacity, false),
                    self.remaining(),
                ),
    {
        let constant = |_bound: usize| -> (requested: usize)
            ensures
                requested == capacity,
            { capacity };
        let container: T = collect_iterator(self, false, constant);
        proof {
            let (bound, requested) = choose|bound: usize, requested: usize| #[trigger]
                call_ensures(constant, (bound,), requested) && container.built_from(
                    resolved_capacity(bound, requested, false),
                    self.remaining(),
                );
            assert(hint_bound((bound, None)) == bound);
            assert(container.built_from(
                resolved_capacity(hint_bound((bound, None)), capacity, false),
                self.remaining(),
            ));
        }
        container
    }
}

impl<I: Iterator> CollectWith for I {

}

/// Collecting into a container whose capacity a function of the caller
/// decides, from the bound of the iterator's size hint.
pub trait CollectWith: Iterator {
    /// Collects into a container that is created with the larger of what
    /// `capacity` answers to the bound of the size hint and that bound, and
    /// filled with what the iterator yields, in order. An answer below the
    /// bound has no effect.
    fn collect_with<T>(self, capacity: impl FnOnce(usize) -> usize) -> (container: T) where
        T: ExtendWithCapacity<Self::Item>,
        Self: Sized,

        requires
            yields_finitely(&self),
            forall|bound: usize| call_requires(capacity, (bound,)),
        ensures
            collected(container, self.remaining(), capacity, false),
    {
        collect_iterator(self, false, capacity)
    }

    /// Collects into a container that is created with exactly what `capacity`
    /// answers to the bound of the size hint, also where that is less than
    /// the bound, and filled with what the iterator yields, in order.
    fn collect_with_exact<T>(self, capacity: impl FnOnce(usize) -> usize) -> (container: T) where
        T: ExtendWithCapacity<Self::Item>,
        Self: Sized,

        requires
            yields_finitely(&self),
            forall|bound: usize| call_requires(capacity, (bound,)),
        ensures
            collected(container, self.remaining(), capacity, true),
    {
        collect_iterator(self, true, capacity)
    }
}

} // verus!
