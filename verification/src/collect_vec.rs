use crate::collect::CollectWith;
use crate::common::yields_finitely;
use vstd::prelude::*;
use vstd::std_specs::iter::IteratorSpec;

verus! {

impl<I: Iterator> CollectVector for I {

}

/// Collecting into a vector: [`CollectWith`] with the container fixed.
pub trait CollectVector: Iterator {
    /// The vector of what the iterator yields, in order, with its capacity
    /// reserved as [`CollectWith::collect_with`] reserves it.
    fn collect_vec_with<F>(self, capacity: F) -> (items: Vec<Self::Item>) where
        F: FnOnce(usize) -> usize,
        Self: Sized,

        requires
            yields_finitely(&self),
            forall|bound: usize| call_requires(capacity, (bound,)),
        ensures
            items@ == self.remaining(),
    {
        self.collect_with(capacity)
    }

    /// The vector of what the iterator yields, in order, with its capacity
    /// reserved as [`CollectWith::collect_with_exact`] reserves it.
    fn collect_vec_with_exact<F>(self, capacity: F) -> (items: Vec<Self::Item>) where
        F: FnOnce(usize) -> usize,
        Self: Sized,

        requires
            yields_finitely(&self),
            forall|bound: usize| call_requires(capacity, (bound,)),
        ensures
            items@ == self.remaining(),
    {
        self.collect_with_exact(capacity)
    }
}

} // verus!
