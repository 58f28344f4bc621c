//! The concurrent map that stores the registry's entries.
//!
//! The entries live in a `dashmap::DashMap`, keyed by the user's identifier.
//! Nothing in this file is proved: each function states what the map's own
//! code does. The map is a private field of the registry and is changed only
//! through an exclusive reference, so what it holds is determined by the
//! calls made on it.

use dashmap::DashMap;
use vstd::prelude::*;

verus! {

/// `dashmap::DashMap`, of which the verifier sees nothing but the name.
#[verifier::external_type_specification]
#[verifier::external_body]
#[verifier::reject_recursive_types(K)]
#[verifier::reject_recursive_types(V)]
#[verifier::reject_recursive_types(S)]
pub struct ExDashMap<K, V, S>(DashMap<K, V, S>);

/// The map of the registry: from a user's identifier to the text of the token
/// and the time at which the verification began.
pub type EntryMap = DashMap<u64, (String, u64)>;

/// What a map holds: for each key the text of the stored token and the time
/// stored with it.
pub uninterp spec fn stored_entries(map: EntryMap) -> Map<u64, (Seq<char>, u64)>;

/// `DashMap::new`: a map that holds nothing.
#[verifier::external_body]
pub(crate) fn new_map() -> (created: EntryMap)
    ensures
        stored_entries(created) == (Map::<u64, (Seq<char>, u64)>::empty()),
{
    DashMap::new()
}

/// `DashMap::len`: the number of keys in the map.
#[verifier::external_body]
pub(crate) fn count_entries(map: &EntryMap) -> (count: usize)
    ensures
        count == stored_entries(*map).len(),
{
    map.len()
}

/// `DashMap::contains_key`: whether the map has an entry for `key`.
#[verifier::external_body]
pub(crate) fn has_entry(map: &EntryMap, key: u64) -> (present: bool)
    ensures
        present == stored_entries(*map).contains_key(key),
{
    map.contains_key(&key)
}

/// `DashMap::insert`: afterwards `key` maps to the new value and every other
/// key is as before; the value that `key` had, if any, is returned. The call
/// does not unwind: the keys are integers, whose hashing and comparing cannot
/// panic.
#[verifier::external_body]
pub(crate) fn insert_entry(
    map: &mut EntryMap,
    key: u64,
    token: String,
    started_at: u64,
) -> (previous: Option<(String, u64)>)
    ensures
        stored_entries(*final(map)) == stored_entries(*old(map)).insert(key, (token@, started_at)),
        previous is Some <==> stored_entries(*old(map)).contains_key(key),
        previous matches Some(value) ==> (value.0@, value.1) == stored_entries(*old(map))[key],
    no_unwind
{
    map.insert(key, (token, started_at))
}

/// `DashMap::remove`: afterwards the map has no entry for `key` and every
/// other key is as before; the value that `key` had, if any, is returned. The
/// call does not unwind, for the same reason as an insertion.
#[verifier::external_body]
pub(crate) fn remove_entry(map: &mut EntryMap, key: u64) -> (removed: Option<(String, u64)>)
    ensures
        stored_entries(*final(map)) == stored_entries(*old(map)).remove(key),
        removed is Some <==> stored_entries(*old(map)).contains_key(key),
        removed matches Some(value) ==> (value.0@, value.1) == stored_entries(*old(map))[key],
    no_unwind
{
    match map.remove(&key) {
        Some((_, value)) => Some(value),
        None => None,
    }
}

/// `DashMap::iter`: every entry of the map exactly once, each as its key, a
/// copy of the stored token and the time stored with it. The order is that
/// of the map's shards and buckets, of which nothing is promised.
#[verifier::external_body]
pub(crate) fn list_entries(map: &EntryMap) -> (listing: Vec<(u64, String, u64)>)
    ensures
        forall|i: int|
            0 <= i < listing@.len() ==> stored_entries(*map).contains_key(
                (#[trigger] listing@[i]).0,
            ) && stored_entries(*map)[listing@[i].0] == (listing@[i].1@, listing@[i].2),
        forall|key: u64|
            stored_entries(*map).contains_key(key) ==> exists|i: int|
                0 <= i < listing@.len() && (#[trigger] listing@[i]).0 == key,
        forall|i: int, j: int|
            0 <= i < j < listing@.len() ==> (#[trigger] listing@[i]).0 != (#[trigger] listing@[j]).0,
{
    map.iter().map(|entry| (*entry.key(), entry.value().0.clone(), entry.value().1)).collect()
}

} // verus!
