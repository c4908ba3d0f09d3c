//! Collecting an iterator into a container whose capacity is reserved ahead,
//! from the iterator's size hint and a capacity function of the caller, and
//! collecting fallible items up to the first failure.

mod collect;
mod collect_ahash;
mod collect_index;
mod collect_vec;
mod common;
mod extend;
mod try_collect;
mod try_extract;

pub use collect::{CollectWith, CollectWithCapacity};
pub use collect_ahash::{ahash_map_entries, ahash_set_members, CollectAHash};
pub use collect_index::{
    first_occurrences, has_key, index_map_entries, index_set_members, key_position, keys_distinct,
    lemma_first_occurrences, lemma_ordered_entries_keys_distinct,
    lemma_with_entry_keeps_keys_distinct, ordered_entries, with_entry, with_member, CollectIndex,
};
pub use collect_vec::CollectVector;
pub use common::{
    collect_iterator, collect_with_exact_capacity, collected, get_max_hint_bound, hint_bound,
    lemma_capacity_covers_bounded_hint, lemma_capacity_covers_open_hint,
    lemma_capacity_is_larger_of_both, lemma_exact_capacity_is_requested, resolve_capacity,
    resolved_capacity, resolves_to, yields_finitely,
};
pub use extend::{
    hashed_reserve, joined, lemma_map_of_keys, lemma_map_of_last_pair_wins, lemma_map_of_push,
    map_of, ExtendWithCapacity, MAX_HASHED_RESERVE,
};
pub use try_collect::{
    all_succeed, extracted_values, is_first_failure, lemma_first_failure_exists,
    lemma_first_failure_is_unique, TryCollectWith,
};
pub use try_extract::TryExtract;
