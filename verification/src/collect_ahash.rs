use crate::collect::CollectWith;
use crate::common::{collected, yields_finitely};
use crate::extend::{
    hashed_reserve, lemma_map_of_push, map_of, ExtendWithCapacity, MAX_HASHED_RESERVE,
};
use ahash::{AHashMap, AHashSet};
use std::hash::Hash;
use vstd::prelude::*;
use vstd::std_specs::iter::IteratorSpec;

verus! {

/// `ahash::RandomState`: the hasher state of the two containers below. Nothing
/// is known of what is inside.
#[verifier::external_type_specification]
#[verifier::external_body]
pub struct ExRandomState(ahash::RandomState);

/// `ahash::AHashMap`: a hash map. Nothing is known of what is inside but
/// through [`ahash_map_entries`].
#[verifier::external_type_specification]
#[verifier::external_body]
#[verifier::reject_recursive_types(K)]
#[verifier::reject_recursive_types(V)]
#[verifier::reject_recursive_types(S)]
pub struct ExAHashMap<K, V, S>(AHashMap<K, V, S>);

/// `ahash::AHashSet`: a hash set. Nothing is known of what is inside but
/// through [`ahash_set_members`].
#[verifier::external_type_specification]
#[verifier::external_body]
#[verifier::reject_recursive_types(T)]
#[verifier::reject_recursive_types(S)]
pub struct ExAHashSet<T, S>(AHashSet<T, S>);

/// The keys that the map holds, each with its value.
pub uninterp spec fn ahash_map_entries(map: AHashMap<u64, u64>) -> Map<u64, u64>;

/// The values that the set holds.
pub uninterp spec fn ahash_set_members(set: AHashSet<u64>) -> Set<u64>;

/// `AHashMap::with_capacity`: a map with a fresh hasher state that holds
/// nothing. The capacity is handed to the map of std inside, which reserves
/// room for at least that many entries; a request so large that the size of
/// the table would not fit the address space is left out.
#[verifier::external_body]
fn ahash_map_with_capacity(capacity: usize) -> (created: AHashMap<u64, u64>)
    requires
        capacity <= MAX_HASHED_RESERVE,
    ensures
        ahash_map_entries(created).dom() == Set::<u64>::empty(),
{
    AHashMap::with_capacity(capacity)
}

/// `AHashMap::insert`: the key has the new value afterwards and every other
/// key keeps its own. It returns the value that the key had before, if it
/// had one.
#[verifier::external_body]
fn ahash_map_insert(map: &mut AHashMap<u64, u64>, key: u64, value: u64) -> (replaced: Option<u64>)
    ensures
        ahash_map_entries(*final(map)) == ahash_map_entries(*old(map)).insert(key, value),
        replaced == if ahash_map_entries(*old(map)).contains_key(key) {
            Some(ahash_map_entries(*old(map))[key])
        } else {
            None::<u64>
        },
{
    map.insert(key, value)
}

/// `AHashSet::with_capacity`: a set with a fresh hasher state that holds
/// nothing. The capacity is handed to the set of std inside; a request so
/// large that the size of the table would not fit the address space is left
/// out.
#[verifier::external_body]
fn ahash_set_with_capacity(capacity: usize) -> (created: AHashSet<u64>)
    requires
        capacity <= MAX_HASHED_RESERVE,
    ensures
        ahash_set_members(created) == Set::<u64>::empty(),
{
    AHashSet::with_capacity(capacity)
}

/// `insert` of the set of std inside an `AHashSet`, reached through the
/// set's `DerefMut`: the value is in the set afterwards, beside all that was
/// in it. It returns whether the value was new.
#[verifier::external_body]
fn ahash_set_insert(set: &mut AHashSet<u64>, value: u64) -> (added: bool)
    ensures
        ahash_set_members(*final(set)) == ahash_set_members(*old(set)).insert(value),
        added == !ahash_set_members(*old(set)).contains(value),
{
    set.insert(value)
}

impl ExtendWithCapacity<(u64, u64)> for AHashMap<u64, u64> {
    /// The map holds what inserting the pairs in order gives. The capacity
    /// has no part in it.
    open spec fn built_from(&self, capacity: usize, items: Seq<(u64, u64)>) -> bool {
        ahash_map_entries(*self) == map_of(items)
    }

    /// Reserves `capacity`, or [`MAX_HASHED_RESERVE`] where `capacity` is
    /// more than that.
    fn with_capacity(capacity: usize) -> (container: Self) {
        let container = ahash_map_with_capacity(hashed_reserve(capacity));
        assert(ahash_map_entries(container) =~= Map::<u64, u64>::empty());
        container
    }

    fn append_one(&mut self, item: (u64, u64)) {
        proof {
            assert forall|items: Seq<(u64, u64)>| #[trigger]
                map_of(items.push(item)) == map_of(items).insert(item.0, item.1) by {
                lemma_map_of_push(items, item.0, item.1);
            }
        }
        ahash_map_insert(self, item.0, item.1);
    }
}

impl ExtendWithCapacity<u64> for AHashSet<u64> {
    /// The set holds the items that it took, each once. The capacity has no
    /// part in it.
    open spec fn built_from(&self, capacity: usize, items: Seq<u64>) -> bool {
        ahash_set_members(*self) == items.to_set()
    }

    /// Reserves `capacity`, or [`MAX_HASHED_RESERVE`] where `capacity` is
    /// more than that.
    fn with_capacity(capacity: usize) -> (container: Self) {
        let container = ahash_set_with_capacity(hashed_reserve(capacity));
        assert(Seq::<u64>::empty().to_set() =~= Set::<u64>::empty());
        container
    }

    fn append_one(&mut self, item: u64) {
        proof {
            assert forall|items: Seq<u64>| #[trigger]
                items.push(item).to_set() == items.to_set().insert(item) by {
                items.lemma_push_to_set_commute(item);
            }
        }
        ahash_set_insert(self, item);
    }
}

impl<I: Iterator> CollectAHash for I {

}

/// Collecting into the hash map and the hash set of `ahash`: [`CollectWith`]
/// with the container fixed.
pub trait CollectAHash: Iterator {
    /// The map of the pairs that the iterator yields, with its capacity
    /// reserved as [`CollectWith::collect_with`] reserves it.
    fn collect_ahashmap_with<K, V>(self, capacity: impl FnOnce(usize) -> usize) -> (map: AHashMap<
        K,
        V,
    >) where
        Self: Sized + Iterator<Item = (K, V)>,
        K: Hash + Eq,
        AHashMap<K, V>: ExtendWithCapacity<(K, V)>,

        requires
            yields_finitely(&self),
            forall|bound: usize| call_requires(capacity, (bound,)),
        ensures
            collected(map, self.remaining(), capacity, false),
    {
        self.collect_with(capacity)
    }

    /// The map of the pairs that the iterator yields, with its capacity
    /// reserved as [`CollectWith::collect_with_exact`] reserves it.
    fn collect_ahashmap_with_exact<K, V>(self, capacity: impl FnOnce(usize) -> usize) -> (map:
        AHashMap<K, V>) where
        Self: Sized + Iterator<Item = (K, V)>,
        K: Hash + Eq,
        AHashMap<K, V>: ExtendWithCapacity<(K, V)>,

        requires
            yields_finitely(&self),
            forall|bound: usize| call_requires(capacity, (bound,)),
        ensures
            collected(map, self.remaining(), capacity, true),
    {
        self.collect_with_exact(capacity)
    }

    /// The set of what the iterator yields, with its capacity reserved as
    /// [`CollectWith::collect_with`] reserves it.
    fn collect_ahashset_with<K>(self, capacity: impl FnOnce(usize) -> usize) -> (set: AHashSet<
        K,
    >) where Self: Sized + Iterator<Item = K>, K: Hash + Eq, AHashSet<K>: ExtendWithCapacity<K>
        requires
            yields_finitely(&self),
            forall|bound: usize| call_requires(capacity, (bound,)),
        ensures
            collected(set, self.remaining(), capacity, false),
    {
        self.collect_with(capacity)
    }

    /// The set of what the iterator yields, with its capacity reserved as
    /// [`CollectWith::collect_with_exact`] reserves it.
    fn collect_ahashset_with_exact<K>(self, capacity: impl FnOnce(usize) -> usize) -> (set:
        AHashSet<K>) where
        Self: Sized + Iterator<Item = K>,
        K: Hash + Eq,
        AHashSet<K>: ExtendWithCapacity<K>,

        requires
            yields_finitely(&self),
            forall|bound: usize| call_requires(capacity, (bound,)),
        ensures
            collected(set, self.remaining(), capacity, true),
    {
        self.collect_with_exact(capacity)
    }
}

} // verus!
