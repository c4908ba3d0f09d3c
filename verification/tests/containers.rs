use ahash::{AHashMap, AHashSet};
use collect_with::{CollectAHash, CollectIndex, CollectWith, ExtendWithCapacity};
use indexmap::{IndexMap, IndexSet};
use std::collections::{HashMap, HashSet, VecDeque};

#[test]
fn test_collect_with() {
    let s = [vec!["a"], vec!["b", "c", "d"]]
        .into_iter()
        .flatten()
        .collect_with::<String>(|size| match size {
            0 => 8,
            n => n,
        });
    assert_eq!(s.len(), 4);
    assert_eq!(s.capacity(), 8);
}

#[test]
fn string_joins_pieces_in_order() {
    let s = ["ab", "", "cde", "f"].into_iter().collect_with::<String>(|n| n);
    assert_eq!(s, "abcdef");
}

#[test]
fn string_takes_characters_in_order() {
    let s = "héllo".chars().collect_with::<String>(|n| n);
    assert_eq!(s, "héllo");
    let exact = ['x', 'y'].into_iter().collect_with_exact::<String>(|_| 16);
    assert_eq!(exact, "xy");
    assert_eq!(exact.capacity(), 16);
}

#[test]
fn vec_deque_keeps_order_and_count() {
    let deque = [4, 1, 4, 2].into_iter().collect_with::<VecDeque<_>>(|n| n);
    assert_eq!(deque.len(), 4);
    assert_eq!(deque.into_iter().collect::<Vec<_>>(), vec![4, 1, 4, 2]);
}

#[test]
fn vec_keeps_order_and_count() {
    let input = vec![9, 9, 1, 0, 3, 9];
    let output = input.clone().into_iter().collect_with::<Vec<_>>(|_| 0);
    assert_eq!(output, input);
}

#[test]
fn containers_are_built_one_item_at_a_time() {
    let mut numbers = <Vec<u8> as ExtendWithCapacity<u8>>::with_capacity(4);
    assert!(numbers.is_empty());
    assert_eq!(numbers.capacity(), 4);
    numbers.append_one(3);
    numbers.append_one(1);
    assert_eq!(numbers, vec![3, 1]);

    let mut text = <String as ExtendWithCapacity<&str>>::with_capacity(2);
    text.append_one("ab");
    text.append_one("cd");
    assert_eq!(text, "abcd");
}

#[test]
fn hash_map_keeps_last_value_of_a_key() {
    let map = [("a", 1), ("b", 2), ("a", 3)]
        .into_iter()
        .collect_with::<HashMap<_, _>>(|n| n);
    assert_eq!(map.len(), 2);
    assert_eq!(map.get("a"), Some(&3));
    assert_eq!(map.get("b"), Some(&2));
}

#[test]
fn hash_set_holds_each_item_once() {
    let set = [3, 1, 3, 2, 1].into_iter().collect_with_exact::<HashSet<_>>(|n| n);
    assert_eq!(set.len(), 3);
    assert!(set.contains(&1) && set.contains(&2) && set.contains(&3));
}

#[test]
fn dbg_collect_ahash_map() {
    let map = (1u64..=9).zip(1u64..20).collect_ahashmap_with(|x| x);
    assert_eq!(map.get(&1), Some(&1));
    assert_eq!(map.len(), 9);
}

#[test]
fn dbg_collect_ahash_set() {
    let set = (1u64..=9).collect_ahashset_with(|x| x);
    assert_eq!(set.len(), 9);
    assert!(set.contains(&9));
    assert!(!set.contains(&10));
}

#[test]
fn ahash_map_reserves_and_holds_the_pairs() {
    let map = (1u64..=9).zip(101u64..=109).collect_ahashmap_with(|u| u + 5);
    assert_eq!(map.get(&1), Some(&101));
    assert_eq!(map.len(), 9);
    assert_eq!(map.capacity(), 14);
}

#[test]
fn ahash_map_keeps_last_value_of_a_key() {
    let map: AHashMap<u64, u64> = [(1, 10), (2, 20), (1, 30)]
        .into_iter()
        .collect_ahashmap_with_exact(|size_hint| size_hint);
    assert_eq!(map.len(), 2);
    assert_eq!(map.get(&1), Some(&30));
    assert_eq!(map.get(&2), Some(&20));
    assert_eq!(map.get(&3), None);
}

#[test]
fn ahash_set_holds_each_item_once() {
    let set: AHashSet<u64> = [0u64, 1, 2, 1, 0]
        .into_iter()
        .collect_ahashset_with_exact(|size_hint| size_hint);
    assert_eq!(set.len(), 3);
    assert!(set.contains(&0) && set.contains(&1) && set.contains(&2));
    let empty: AHashSet<u64> = std::iter::empty().collect_ahashset_with(|n| n);
    assert!(empty.is_empty());
}

#[test]
fn test_index_map() {
    let map = (1u64..=9).zip(101u64..=109).collect_indexmap_with(|u| u + 1);
    assert_eq!(map.get(&1), Some(&101));
    assert_eq!(map.capacity(), 10);

    assert_eq!(map.get_index(2), Some((&3, &103)));
}

#[test]
fn index_map_keeps_first_place_and_last_value() {
    let map: IndexMap<u64, u64> = [(5, 50), (1, 10), (5, 55), (9, 90), (1, 11)]
        .into_iter()
        .collect_indexmap_with_exact(|size_hint| size_hint);
    assert_eq!(map.len(), 3);
    assert_eq!(map.capacity(), 5);
    assert_eq!(map.get_index(0), Some((&5, &55)));
    assert_eq!(map.get_index(1), Some((&1, &11)));
    assert_eq!(map.get_index(2), Some((&9, &90)));
    assert_eq!(map.get_index(3), None);
}

#[test]
fn index_set_keeps_first_occurrences_in_order() {
    let set = [3u64, 1, 3, 2, 1].into_iter().collect_indexset_with(|size_hint| size_hint + 2);
    assert_eq!(set.len(), 3);
    assert!(set.capacity() >= 3);
    assert_eq!(set.into_iter().collect::<Vec<_>>(), vec![3, 1, 2]);
}

#[test]
fn index_set_with_exact_capacity() {
    let set: IndexSet<u64> = (0u64..3).collect_indexset_with_exact(|size_hint| size_hint);
    assert_eq!(set.len(), 3);
    assert_eq!(set.capacity(), 3);
    assert_eq!(set.get_index(0), Some(&0));
    assert_eq!(set.get_index(2), Some(&2));
}

#[test]
fn hashed_containers_accept_a_request_of_zero() {
    let map: IndexMap<u64, u64> = [(1, 2)].into_iter().collect_indexmap_with_exact(|_| 0);
    assert_eq!(map.get(&1), Some(&2));
    let hashed: AHashMap<u64, u64> = [(1, 2)].into_iter().collect_ahashmap_with_exact(|_| 0);
    assert_eq!(hashed.get(&1), Some(&2));
}
