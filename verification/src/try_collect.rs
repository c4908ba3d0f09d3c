use crate::common::{
    collected, hint_bound, resolve_capacity, resolved_capacity, size_hint_of, yields_finitely,
};
use crate::extend::ExtendWithCapacity;
use crate::try_extract::TryExtract;
use vstd::prelude::*;
use vstd::std_specs::iter::IteratorSpec;

verus! {

/// Whether every item stands for a success.
pub open spec fn all_succeed<'a, X: TryExtract<'a>>(items: Seq<X>) -> bool {
    forall|j: int| 0 <= j < items.len() ==> (#[trigger] items[j]).extracted() is Ok
}

/// Whether the item at `k` stands for a failure and every item before it for
/// a success.
pub open spec fn is_first_failure<'a, X: TryExtract<'a>>(items: Seq<X>, k: int) -> bool {
    &&& 0 <= k < items.len()
    &&& items[k].extracted() is Err
    &&& forall|j: int| 0 <= j < k ==> (#[trigger] items[j]).extracted() is Ok
}

/// What the items carry as successes, in their order. It is meant for items
/// that all succeed.
pub open spec fn extracted_values<'a, X: TryExtract<'a>>(items: Seq<X>) -> Seq<X::Ok> {
    Seq::new(items.len(), |j: int| items[j].extracted()->Ok_0)
}

/// Items that do not all succeed have a first failure.
pub proof fn lemma_first_failure_exists<'a, X: TryExtract<'a>>(items: Seq<X>)
    requires
        !all_succeed(items),
    ensures
        exists|k: int| is_first_failure(items, k),
    decreases items.len(),
{
    let front = items.drop_last();
    if all_succeed(front) {
        let k = items.len() - 1;
        assert forall|j: int| 0 <= j < k implies (#[trigger] items[j]).extracted() is Ok by {
            assert(front[j] == items[j]);
        }
        let bad = choose|j: int| 0 <= j < items.len() && !((#[trigger] items[j]).extracted() is Ok);
        assert(bad == k);
        assert(is_first_failure(items, k));
    } else {
        lemma_first_failure_exists(front);
        let k = choose|k: int| is_first_failure(front, k);
        assert(items[k] == front[k]);
        assert forall|j: int| 0 <= j < k implies (#[trigger] items[j]).extracted() is Ok by {
            assert(front[j] == items[j]);
        }
        assert(is_first_failure(items, k));
    }
}

/// Items have at most one first failure, and none where they all succeed.
pub proof fn lemma_first_failure_is_unique<'a, X: TryExtract<'a>>(items: Seq<X>, k: int, l: int)
    requires
        is_first_failure(items, k),
    ensures
        !all_succeed(items),
        is_first_failure(items, l) ==> l == k,
{
    if is_first_failure(items, l) {
        if l < k {
            assert(items[l].extracted() is Ok);
        } else if k < l {
            assert(items[k].extracted() is Ok);
        }
    }
}

impl<I: Iterator> TryCollectWith for I {

}

/// Collecting items that may fail, up to the first failure.
pub trait TryCollectWith: Iterator {
    /// Collects what the items carry as successes into a container whose
    /// capacity comes from the size hint and `capacity`, never below the
    /// hint's bound. At the first item that stands for a failure it stops and
    /// returns what that failure carries; the items after it are not looked
    /// at, and what was collected so far is dropped.
    fn try_collect_with<'a, T, OK, ERR>(self, capacity: impl FnOnce(usize) -> usize) -> (out:
        Result<T, ERR>) where
        T: ExtendWithCapacity<OK>,
        Self: Sized,
        Self::Item: TryExtract<'a, Ok = OK, Err = ERR>,

        requires
            yields_finitely(&self),
            forall|bound: usize| call_requires(capacity, (bound,)),
        ensures
            out is Ok <==> all_succeed(self.remaining()),
            out matches Ok(container) ==> collected(
                container,
                extracted_values(self.remaining()),
                capacity,
                false,
            ),
            forall|k: int|
                is_first_failure(self.remaining(), k) ==> out == Err::<T, ERR>(
                    self.remaining()[k].extracted()->Err_0,
                ),
    {
        let size_hint = size_hint_of(&self);
        let real_capacity = resolve_capacity(size_hint, capacity, false);
        let ghost requested = choose|requested: usize| #[trigger]
            call_ensures(capacity, (hint_bound(size_hint),), requested) && real_capacity
                == resolved_capacity(hint_bound(size_hint), requested, false);
        let mut container = T::with_capacity(real_capacity);
        let mut rest = self;
        let ghost mut taken: Seq<Self::Item> = Seq::empty();
        assert(extracted_values(taken) =~= Seq::<OK>::empty());
        loop
            invariant
                yields_finitely(&rest),
                all_succeed(taken),
                container.built_from(real_capacity, extracted_values(taken)),
                taken + rest.remaining() == self.remaining(),
                call_ensures(capacity, (hint_bound(size_hint),), requested),
                real_capacity == resolved_capacity(hint_bound(size_hint), requested, false),
            decreases rest.decrease()->0,
        {
            match rest.next() {
                Some(item) => {
                    match item.try_extract() {
                        Ok(value) => {
                            container.append_one(value);
                            proof {
                                assert(extracted_values(taken.push(item)) =~= extracted_values(
                                    taken,
                                ).push(value));
                                taken = taken.push(item);
                            }
                        },
                        Err(error) => {
                            proof {
                                let k = taken.len() as int;
                                assert(self.remaining()[k] == item);
                                assert forall|j: int| 0 <= j < k implies (
                                #[trigger] self.remaining()[j]).extracted() is Ok by {
                                    assert(self.remaining()[j] == taken[j]);
                                }
                                assert(is_first_failure(self.remaining(), k));
                                assert forall|l: int|
                                    is_first_failure(self.remaining(), l) implies l == k by {
                                    lemma_first_failure_is_unique(self.remaining(), k, l);
                                }
                            }
                            return Err(error);
                        },
                    }
                },
                None => {
                    assert(taken == self.remaining());
                    proof {
                        assert forall|k: int| !is_first_failure(self.remaining(), k) by {
                            if is_first_failure(self.remaining(), k) {
                                lemma_first_failure_is_unique(self.remaining(), k, k);
                            }
                        }
                    }
                    return Ok(container);
                },
            }
        }
    }

    /// [`TryCollectWith::try_collect_with`] into a vector: where every item
    /// succeeds, the vector holds what they carry, in their order.
    fn try_collect_vec_with<'a, OK, ERR>(self, capacity: impl FnOnce(usize) -> usize) -> (out:
        Result<Vec<OK>, ERR>) where Self: Sized, Self::Item: TryExtract<'a, Ok = OK, Err = ERR>
        requires
            yields_finitely(&self),
            forall|bound: usize| call_requires(capacity, (bound,)),
        ensures
            out is Ok <==> all_succeed(self.remaining()),
            out matches Ok(values) ==> values@ == extracted_values(self.remaining()),
            forall|k: int|
                is_first_failure(self.remaining(), k) ==> out == Err::<Vec<OK>, ERR>(
                    self.remaining()[k].extracted()->Err_0,
                ),
    {
        self.try_collect_with(capacity)
    }
}

} // verus!
