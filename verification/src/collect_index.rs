use crate::collect::CollectWith;
use crate::common::{collected, yields_finitely};
use crate::extend::{hashed_reserve, ExtendWithCapacity, MAX_HASHED_RESERVE};
use indexmap::{IndexMap, IndexSet};
use std::hash::Hash;
use vstd::prelude::*;
use vstd::std_specs::iter::IteratorSpec;

verus! {

/// `indexmap::IndexMap`: a hash map that keeps its entries in the order in
/// which their keys first came. Nothing is known of what is inside but
/// through [`index_map_entries`].
#[verifier::external_type_specification]
#[verifier::external_body]
#[verifier::reject_recursive_types(K)]
#[verifier::reject_recursive_types(V)]
#[verifier::reject_recursive_types(S)]
pub struct ExIndexMap<K, V, S>(IndexMap<K, V, S>);

/// `indexmap::IndexSet`: a hash set that keeps its values in the order in
/// which they first came. Nothing is known of what is inside but through
/// [`index_set_members`].
#[verifier::external_type_specification]
#[verifier::external_body]
#[verifier::reject_recursive_types(T)]
#[verifier::reject_recursive_types(S)]
pub struct ExIndexSet<T, S>(IndexSet<T, S>);

/// The entries of the map, each a key with its value, in the map's order.
pub uninterp spec fn index_map_entries(map: IndexMap<u64, u64>) -> Seq<(u64, u64)>;

/// The values of the set, in the set's order.
pub uninterp spec fn index_set_members(set: IndexSet<u64>) -> Seq<u64>;

/// Whether some entry has the key.
pub open spec fn has_key(entries: Seq<(u64, u64)>, key: u64) -> bool {
    exists|i: int| 0 <= i < entries.len() && (#[trigger] entries[i]).0 == key
}

/// Where the entry with the key stands. It is meant for entries of which one
/// has the key.
pub open spec fn key_position(entries: Seq<(u64, u64)>, key: u64) -> int {
    choose|i: int| 0 <= i < entries.len() && (#[trigger] entries[i]).0 == key
}

/// The entries after the key was given the value: where an entry has the key,
/// that entry keeps its place and gets the value; otherwise a new entry comes
/// last.
pub open spec fn with_entry(entries: Seq<(u64, u64)>, key: u64, value: u64) -> Seq<(u64, u64)> {
    if has_key(entries, key) {
        entries.update(key_position(entries, key), (key, value))
    } else {
        entries.push((key, value))
    }
}

/// The entries that giving each key its value, pair by pair, leaves: every key
/// once, at the place of its first pair, with the value of its last pair.
pub open spec fn ordered_entries(pairs: Seq<(u64, u64)>) -> Seq<(u64, u64)>
    decreases pairs.len(),
{
    if pairs.len() == 0 {
        Seq::empty()
    } else {
        with_entry(ordered_entries(pairs.drop_last()), pairs.last().0, pairs.last().1)
    }
}

/// The values after one more came: it comes last where it is new, and changes
/// nothing where it is there already.
pub open spec fn with_member(members: Seq<u64>, value: u64) -> Seq<u64> {
    if members.contains(value) {
        members
    } else {
        members.push(value)
    }
}

/// Every value once, in the order in which the values first come in `items`.
pub open spec fn first_occurrences(items: Seq<u64>) -> Seq<u64>
    decreases items.len(),
{
    if items.len() == 0 {
        Seq::empty()
    } else {
        with_member(first_occurrences(items.drop_last()), items.last())
    }
}

/// Whether no two entries have the same key.
pub open spec fn keys_distinct(entries: Seq<(u64, u64)>) -> bool {
    forall|i: int, j: int|
        0 <= i < j < entries.len() ==> (#[trigger] entries[i]).0 != (#[trigger] entries[j]).0
}

/// Giving a key a value keeps the keys distinct, and leaves the key with that
/// value.
pub proof fn lemma_with_entry_keeps_keys_distinct(entries: Seq<(u64, u64)>, key: u64, value: u64)
    requires
        keys_distinct(entries),
    ensures
        keys_distinct(with_entry(entries, key, value)),
        has_key(with_entry(entries, key, value), key),
        with_entry(entries, key, value).contains((key, value)),
{
    let after = with_entry(entries, key, value);
    if has_key(entries, key) {
        let at = key_position(entries, key);
        assert(after[at] == (key, value));
        assert forall|i: int, j: int| 0 <= i < j < after.len() implies (#[trigger] after[i]).0 != (
        #[trigger] after[j]).0 by {
            assert(entries[i].0 != entries[j].0);
        }
    } else {
        let at = entries.len() as int;
        assert(after[at] == (key, value));
        assert forall|i: int, j: int| 0 <= i < j < after.len() implies (#[trigger] after[i]).0 != (
        #[trigger] after[j]).0 by {
            if j < entries.len() {
                assert(entries[i].0 != entries[j].0);
            } else {
                assert(entries[i].0 != key);
            }
        }
    }
}

/// The entries that pairs leave have every key once.
pub proof fn lemma_ordered_entries_keys_distinct(pairs: Seq<(u64, u64)>)
    ensures
        keys_distinct(ordered_entries(pairs)),
    decreases pairs.len(),
{
    if pairs.len() > 0 {
        lemma_ordered_entries_keys_distinct(pairs.drop_last());
        lemma_with_entry_keeps_keys_distinct(
            ordered_entries(pairs.drop_last()),
            pairs.last().0,
            pairs.last().1,
        );
    }
}

/// The first occurrences hold a value exactly when the items do, and hold no
/// value twice.
pub proof fn lemma_first_occurrences(items: Seq<u64>)
    ensures
        first_occurrences(items).no_duplicates(),
        forall|value: u64| first_occurrences(items).contains(value) <==> items.contains(value),
    decreases items.len(),
{
    if items.len() > 0 {
        let front = items.drop_last();
        let last = items.last();
        lemma_first_occurrences(front);
        let before = first_occurrences(front);
        let after = first_occurrences(items);
        assert forall|value: u64| after.contains(value) <==> items.contains(value) by {
            if items.contains(value) {
                let i = choose|i: int| 0 <= i < items.len() && items[i] == value;
                if i < front.len() {
                    assert(front[i] == value);
                    assert(front.contains(value));
                    assert(before.contains(value));
                    let at = choose|at: int| 0 <= at < before.len() && before[at] == value;
                    assert(after[at] == value);
                } else if before.contains(last) {
                } else {
                    assert(after[before.len() as int] == value);
                }
            }
            if after.contains(value) {
                let at = choose|at: int| 0 <= at < after.len() && after[at] == value;
                if at < before.len() {
                    assert(before[at] == value);
                    assert(front.contains(value));
                    let i = choose|i: int| 0 <= i < front.len() && front[i] == value;
                    assert(items[i] == value);
                } else {
                    assert(items[items.len() - 1] == value);
                }
            }
        }
        if !before.contains(last) {
            assert forall|i: int, j: int|
                0 <= i < after.len() && 0 <= j < after.len() && i != j implies after[i]
                != after[j] by {
                if i < before.len() && j < before.len() {
                    assert(before[i] != before[j]);
                } else if i < before.len() {
                    assert(before.contains(before[i]));
                } else {
                    assert(before.contains(before[j]));
                }
            }
        }
    }
}

/// `IndexMap::with_capacity`: a map that holds nothing, with room for
/// `capacity` entries. A request so large that the entries or their index
/// would not fit one allocation is left out.
#[verifier::external_body]
fn index_map_with_capacity(capacity: usize) -> (created: IndexMap<u64, u64>)
    requires
        capacity <= MAX_HASHED_RESERVE,
    ensures
        index_map_entries(created).len() == 0,
{
    IndexMap::with_capacity(capacity)
}

/// `IndexMap::insert`: where the key is in the map, its entry keeps its place
/// and gets the new value, and the value it had is returned; otherwise a new
/// entry comes last and nothing is returned. The other entries stay as they
/// are.
#[verifier::external_body]
fn index_map_insert(map: &mut IndexMap<u64, u64>, key: u64, value: u64) -> (replaced: Option<u64>)
    ensures
        index_map_entries(*final(map)) == with_entry(index_map_entries(*old(map)), key, value),
        replaced == if has_key(index_map_entries(*old(map)), key) {
            Some(
                index_map_entries(*old(map))[key_position(index_map_entries(*old(map)), key)].1,
            )
        } else {
            None::<u64>
        },
{
    map.insert(key, value)
}

/// `IndexSet::with_capacity`: a set that holds nothing, with room for
/// `capacity` values. A request so large that the values or their index
/// would not fit one allocation is left out.
#[verifier::external_body]
fn index_set_with_capacity(capacity: usize) -> (created: IndexSet<u64>)
    requires
        capacity <= MAX_HASHED_RESERVE,
    ensures
        index_set_members(created).len() == 0,
{
    IndexSet::with_capacity(capacity)
}

/// `IndexSet::insert`: a value that is new comes last, and `true` is
/// returned; one that the set holds already changes nothing, and `false` is
/// returned.
#[verifier::external_body]
fn index_set_insert(set: &mut IndexSet<u64>, value: u64) -> (added: bool)
    ensures
        index_set_members(*final(set)) == with_member(index_set_members(*old(set)), value),
        added == !index_set_members(*old(set)).contains(value),
{
    set.insert(value)
}

impl ExtendWithCapacity<(u64, u64)> for IndexMap<u64, u64> {
    /// The map holds the entries that the pairs leave, in that order. The
    /// capacity has no part in it.
    open spec fn built_from(&self, capacity: usize, items: Seq<(u64, u64)>) -> bool {
        index_map_entries(*self) == ordered_entries(items)
    }

    /// Reserves `capacity`, or [`MAX_HASHED_RESERVE`] where `capacity` is
    /// more than that.
    fn with_capacity(capacity: usize) -> (container: Self) {
        let container = index_map_with_capacity(hashed_reserve(capacity));
        assert(index_map_entries(container) =~= Seq::<(u64, u64)>::empty());
        container
    }

    fn append_one(&mut self, item: (u64, u64)) {
        proof {
            assert forall|items: Seq<(u64, u64)>| #[trigger]
                ordered_entries(items.push(item)) == with_entry(
                    ordered_entries(items),
                    item.0,
                    item.1,
                ) by {
                assert(items.push(item).drop_last() =~= items);
            }
        }
        index_map_insert(self, item.0, item.1);
    }
}

impl ExtendWithCapacity<u64> for IndexSet<u64> {
    /// The set holds every item once, in the order in which the items first
    /// came. The capacity has no part in it.
    open spec fn built_from(&self, capacity: usize, items: Seq<u64>) -> bool {
        index_set_members(*self) == first_occurrences(items)
    }

    /// Reserves `capacity`, or [`MAX_HASHED_RESERVE`] where `capacity` is
    /// more than that.
    fn with_capacity(capacity: usize) -> (container: Self) {
        let container = index_set_with_capacity(hashed_reserve(capacity));
        assert(index_set_members(container) =~= Seq::<u64>::empty());
        container
    }

    fn append_one(&mut self, item: u64) {
        proof {
            assert forall|items: Seq<u64>| #[trigger]
                first_occurrences(items.push(item)) == with_member(
                    first_occurrences(items),
                    item,
                ) by {
                assert(items.push(item).drop_last() =~= items);
            }
        }
        index_set_insert(self, item);
    }
}

impl<I: Iterator> CollectIndex for I {

}

/// Collecting into the map and the set of `indexmap`, which keep the order
/// in which keys first came: [`CollectWith`] with the container fixed.
pub trait CollectIndex: Iterator {
    /// The map of the pairs that the iterator yields, with its capacity
    /// reserved as [`CollectWith::collect_with`] reserves it.
    fn collect_indexmap_with<K, V>(self, capacity: impl FnOnce(usize) -> usize) -> (map: IndexMap<
        K,
        V,
    >) where
        Self: Sized + Iterator<Item = (K, V)>,
        K: Hash + Eq,
        IndexMap<K, V>: ExtendWithCapacity<(K, V)>,

        requires
            yields_finitely(&self),
            forall|bound: usize| call_requires(capacity, (bound,)),
        ensures
            collected(map, self.remaining(), capacity, false),
    {
        self.collect_with(capacity)
    }

    /// The map of the pairs that the iterator yields, with its capacity
    /// reserved as [`CollectWith::collect_with_exact`] reserves it.
    fn collect_indexmap_with_exact<K, V>(self, capacity: impl FnOnce(usize) -> usize) -> (map:
        IndexMap<K, V>) where
        Self: Sized + Iterator<Item = (K, V)>,
        K: Hash + Eq,
        IndexMap<K, V>: ExtendWithCapacity<(K, V)>,

        requires
            yields_finitely(&self),
            forall|bound: usize| call_requires(capacity, (bound,)),
        ensures
            collected(map, self.remaining(), capacity, true),
    {
        self.collect_with_exact(capacity)
    }

    /// The set of what the iterator yields, with its capacity reserved as
    /// [`CollectWith::collect_with`] reserves it.
    fn collect_indexset_with<K>(self, capacity: impl FnOnce(usize) -> usize) -> (set: IndexSet<
        K,
    >) where Self: Sized + Iterator<Item = K>, K: Hash + Eq, IndexSet<K>: ExtendWithCapacity<K>
        requires
            yields_finitely(&self),
            forall|bound: usize| call_requires(capacity, (bound,)),
        ensures
            collected(set, self.remaining(), capacity, false),
    {
        self.collect_with(capacity)
    }

    /// The set of what the iterator yields, with its capacity reserved as
    /// [`CollectWith::collect_with_exact`] reserves it.
    fn collect_indexset_with_exact<K>(self, capacity: impl FnOnce(usize) -> usize) -> (set:
        IndexSet<K>) where
        Self: Sized + Iterator<Item = K>,
        K: Hash + Eq,
        IndexSet<K>: ExtendWithCapacity<K>,

        requires
            yields_finitely(&self),
            forall|bound: usize| call_requires(capacity, (bound,)),
        ensures
            collected(set, self.remaining(), capacity, true),
    {
        self.collect_with_exact(capacity)
    }
}

} // verus!
