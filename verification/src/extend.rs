use std::collections::{HashMap, HashSet, VecDeque};
use std::hash::Hash;
use vstd::prelude::*;
use vstd::std_specs::hash::{axiom_random_state_builds_valid_hashers, obeys_key_model};
use vstd::string::StringExecFns;

verus! {

/// A container that can be created with room reserved for a number of items
/// and then takes items one at a time.
///
/// `built_from(capacity, items)` relates a container to its history: it holds
/// of a container that was created by `with_capacity(capacity)` and has since
/// taken exactly `items`, in that order. Each implementation says what that
/// means for what the container holds.
pub trait ExtendWithCapacity<T>: Sized {
    spec fn built_from(&self, capacity: usize, items: Seq<T>) -> bool;

    /// An empty container with room reserved for `capacity` items. The
    /// reservation is a hint: a container may reserve more, or less.
    fn with_capacity(capacity: usize) -> (container: Self)
        ensures
            container.built_from(capacity, Seq::<T>::empty()),
    ;

    /// Takes one more item, after all those taken before.
    fn append_one(&mut self, item: T)
        ensures
            forall|capacity: usize, items: Seq<T>| #[trigger]
                old(self).built_from(capacity, items) ==> final(self).built_from(
                    capacity,
                    items.push(item),
                ),
    ;
}

/// The most entries that a hash table of an outside crate is asked to reserve
/// ahead. With entries of up to 24 bytes, as the tables filled here have, a
/// table and its index for this many entries stay below the `isize::MAX`
/// bytes that one allocation can have.
pub const MAX_HASHED_RESERVE: usize = usize::MAX / 128;

/// The capacity that a hash table of an outside crate is asked to reserve:
/// the request, or [`MAX_HASHED_RESERVE`] where the request is beyond that.
pub fn hashed_reserve(capacity: usize) -> (reserve: usize)
    ensures
        reserve == if capacity <= MAX_HASHED_RESERVE {
            capacity
        } else {
            MAX_HASHED_RESERVE
        },
{
    if capacity <= MAX_HASHED_RESERVE {
        capacity
    } else {
        MAX_HASHED_RESERVE
    }
}

/// The characters of all the pieces, one piece after the other.
pub open spec fn joined(pieces: Seq<&str>) -> Seq<char> {
    pieces.map_values(|piece: &str| piece@).flatten()
}

/// The map that inserting the pairs in order gives: of two pairs with the same
/// key, the later one decides the value.
pub open spec fn map_of<K, V>(pairs: Seq<(K, V)>) -> Map<K, V>
    decreases pairs.len(),
{
    if pairs.len() == 0 {
        Map::empty()
    } else {
        map_of(pairs.drop_last()).insert(pairs.last().0, pairs.last().1)
    }
}

/// Inserting one more pair after `pairs` inserts it into their map.
pub proof fn lemma_map_of_push<K, V>(pairs: Seq<(K, V)>, key: K, value: V)
    ensures
        map_of(pairs.push((key, value))) == map_of(pairs).insert(key, value),
{
    assert(pairs.push((key, value)).drop_last() =~= pairs);
}

/// A key is in the map of `pairs` exactly when some pair has it.
pub proof fn lemma_map_of_keys<K, V>(pairs: Seq<(K, V)>, key: K)
    ensures
        map_of(pairs).contains_key(key) <==> exists|i: int|
            0 <= i < pairs.len() && (#[trigger] pairs[i]).0 == key,
    decreases pairs.len(),
{
    if pairs.len() > 0 {
        let front = pairs.drop_last();
        lemma_map_of_keys(front, key);
        if pairs.last().0 == key {
            assert(pairs[pairs.len() - 1].0 == key);
        } else if map_of(front).contains_key(key) {
            let i = choose|i: int| 0 <= i < front.len() && (#[trigger] front[i]).0 == key;
            assert(pairs[i].0 == key);
        } else if exists|i: int| 0 <= i < pairs.len() && (#[trigger] pairs[i]).0 == key {
            let i = choose|i: int| 0 <= i < pairs.len() && (#[trigger] pairs[i]).0 == key;
            assert(front[i].0 == key);
        }
    }
}

/// Of the pairs with one key, the last decides: the map gives the key of
/// `pairs[i]` the value of `pairs[i]` where no later pair has that key.
pub proof fn lemma_map_of_last_pair_wins<K, V>(pairs: Seq<(K, V)>, i: int)
    requires
        0 <= i < pairs.len(),
        forall|j: int| i < j < pairs.len() ==> (#[trigger] pairs[j]).0 != pairs[i].0,
    ensures
        map_of(pairs).contains_key(pairs[i].0),
        map_of(pairs)[pairs[i].0] == pairs[i].1,
    decreases pairs.len(),
{
    if i < pairs.len() - 1 {
        let front = pairs.drop_last();
        assert(front[i] == pairs[i]);
        assert forall|j: int| i < j < front.len() implies (#[trigger] front[j]).0
            != front[i].0 by {
            assert(front[j] == pairs[j]);
        }
        lemma_map_of_last_pair_wins(front, i);
        assert(pairs[pairs.len() - 1].0 != pairs[i].0);
    }
}

impl<T> ExtendWithCapacity<T> for Vec<T> {
    /// The vector holds the items, in the order in which it took them.
    open spec fn built_from(&self, capacity: usize, items: Seq<T>) -> bool {
        self@ == items
    }

    fn with_capacity(capacity: usize) -> (container: Self) {
        Vec::with_capacity(capacity)
    }

    fn append_one(&mut self, item: T) {
        self.push(item);
    }
}

impl<T> ExtendWithCapacity<T> for VecDeque<T> {
    /// The deque holds the items from front to back, in the order in which it
    /// took them.
    open spec fn built_from(&self, capacity: usize, items: Seq<T>) -> bool {
        self@ == items
    }

    fn with_capacity(capacity: usize) -> (container: Self) {
        VecDeque::with_capacity(capacity)
    }

    fn append_one(&mut self, item: T) {
        self.push_back(item);
    }
}

/// `String::with_capacity` of std: the string it returns is empty. Its
/// documentation promises room for `capacity` bytes, which has no part in
/// what the string holds. A request for more than `isize::MAX` bytes is left
/// out: no allocation can be that large.
#[verifier::external_body]
fn string_with_capacity(capacity: usize) -> (text: String)
    requires
        capacity <= isize::MAX,
    ensures
        text@ == Seq::<char>::empty(),
{
    String::with_capacity(capacity)
}

/// `String::push` of std: the character is appended at the end, and what came
/// before it stays.
pub assume_specification[ String::push ](text: &mut String, ch: char)
    ensures
        final(text)@ == old(text)@.push(ch),
;

/// The capacity a string is asked to reserve: the request, or the most bytes
/// that a string can ever hold where the request is beyond that.
fn string_reserve(capacity: usize) -> (reserve: usize)
    ensures
        reserve <= isize::MAX,
        capacity <= isize::MAX ==> reserve == capacity,
{
    let most: usize = usize::MAX / 2;
    if capacity <= most {
        capacity
    } else {
        most
    }
}

impl ExtendWithCapacity<char> for String {
    /// The string is made of the characters, in the order in which it took
    /// them.
    open spec fn built_from(&self, capacity: usize, items: Seq<char>) -> bool {
        self@ == items
    }

    fn with_capacity(capacity: usize) -> (container: Self) {
        string_with_capacity(string_reserve(capacity))
    }

    fn append_one(&mut self, item: char) {
        self.push(item);
    }
}

impl<'a> ExtendWithCapacity<&'a str> for String {
    /// The string is the pieces joined, in the order in which it took them.
    open spec fn built_from(&self, capacity: usize, items: Seq<&'a str>) -> bool {
        self@ == joined(items)
    }

    fn with_capacity(capacity: usize) -> (container: Self) {
        let container = string_with_capacity(string_reserve(capacity));
        assert(Seq::<&str>::empty().map_values(|piece: &str| piece@) =~= Seq::<
            Seq<char>,
        >::empty());
        container
    }

    fn append_one(&mut self, item: &'a str) {
        proof {
            assert forall|items: Seq<&'a str>| #[trigger]
                joined(items.push(item)) == joined(items) + item@ by {
                let views = items.map_values(|piece: &str| piece@);
                assert(items.push(item).map_values(|piece: &str| piece@) =~= views.push(item@));
                views.lemma_flatten_push(item@);
            }
        }
        self.append(item);
    }
}

impl<K: Eq + Hash, V> ExtendWithCapacity<(K, V)> for HashMap<K, V> {
    /// Where the key type hashes and compares as the map's model asks, the map
    /// holds what inserting the pairs in order gives.
    open spec fn built_from(&self, capacity: usize, items: Seq<(K, V)>) -> bool {
        obeys_key_model::<K>() ==> self@ == map_of(items)
    }

    fn with_capacity(capacity: usize) -> (container: Self) {
        HashMap::with_capacity(capacity)
    }

    fn append_one(&mut self, item: (K, V)) {
        proof {
            broadcast use axiom_random_state_builds_valid_hashers;
            assert forall|items: Seq<(K, V)>| #[trigger]
                map_of(items.push(item)) == map_of(items).insert(item.0, item.1) by {
                lemma_map_of_push(items, item.0, item.1);
            }
        }
        let (key, value) = item;
        self.insert(key, value);
    }
}

impl<K: Eq + Hash> ExtendWithCapacity<K> for HashSet<K> {
    /// Where the key type hashes and compares as the set's model asks, the set
    /// holds the items that it took, each once.
    open spec fn built_from(&self, capacity: usize, items: Seq<K>) -> bool {
        obeys_key_model::<K>() ==> self@ == items.to_set()
    }

    fn with_capacity(capacity: usize) -> (container: Self) {
        let container = HashSet::with_capacity(capacity);
        assert(Seq::<K>::empty().to_set() =~= Set::<K>::empty());
        container
    }

    fn append_one(&mut self, item: K) {
        proof {
            broadcast use axiom_random_state_builds_valid_hashers;
            assert forall|items: Seq<K>| #[trigger]
                items.push(item).to_set() == items.to_set().insert(item) by {
                items.lemma_push_to_set_commute(item);
            }
        }
        self.insert(item);
    }
}

} // verus!
