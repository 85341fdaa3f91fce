//! A hash map from numbers to instances of the scene.
//!
//! The map is bevy's hash map. Nothing is proved of it: what it holds has the name
//! `held_entities`, and each operation on it states over that name what the hash map does.
//! The order in which its entries are walked is left open.

use vstd::prelude::*;

verus! {

/// A hash map from 64-bit keys to instances, each instance written as its bits. What it
/// holds is known through `held_entities` alone.
#[verifier::external_body]
#[derive(Debug)]
pub struct EntityMap {
    held: bevy::utils::HashMap<u64, u64>,
}

/// What a map holds: the instance of each key.
pub uninterp spec fn held_entities(map: EntityMap) -> Map<u64, u64>;

impl View for EntityMap {
    type V = Map<u64, u64>;

    open spec fn view(&self) -> Map<u64, u64> {
        held_entities(*self)
    }
}

/// The map that holds nothing.
pub open spec fn no_entities() -> Map<u64, u64> {
    Map::empty()
}

/// No key has an instance.
pub open spec fn none_held(held: Map<u64, u64>) -> bool {
    forall|key: u64| !held.contains_key(key)
}

/// The instance of `key`, where it has one.
pub open spec fn entity_at(held: Map<u64, u64>, key: u64) -> Option<u64> {
    if held.contains_key(key) {
        Some(held[key])
    } else {
        None
    }
}

/// No key occurs in two entries.
pub open spec fn keys_once(entries: Seq<(u64, u64)>) -> bool {
    forall|i: int, j: int|
        0 <= i < j < entries.len() ==> (#[trigger] entries[i]).0 != (#[trigger] entries[j]).0
}

/// Some entry is for `key`.
pub open spec fn has_entry(entries: Seq<(u64, u64)>, key: u64) -> bool {
    exists|i: int| 0 <= i < entries.len() && (#[trigger] entries[i]).0 == key
}

/// `entries` lists what `held` holds, each key once with its instance, in some order.
pub open spec fn lists_entries(entries: Seq<(u64, u64)>, held: Map<u64, u64>) -> bool {
    &&& keys_once(entries)
    &&& forall|i: int|
        0 <= i < entries.len() ==> held.contains_key((#[trigger] entries[i]).0)
            && held[entries[i].0] == entries[i].1
    &&& forall|key: u64| #[trigger] held.contains_key(key) ==> has_entry(entries, key)
}

/// The instances of the entries, in their order.
pub open spec fn entry_instances(entries: Seq<(u64, u64)>) -> Seq<u64> {
    Seq::new(entries.len(), |i: int| entries[i].1)
}

/// `instances` lists the instances that `held` holds, one for each key, in some order.
pub open spec fn lists_instances(instances: Seq<u64>, held: Map<u64, u64>) -> bool {
    exists|entries: Seq<(u64, u64)>|
        lists_entries(entries, held) && instances == #[trigger] entry_instances(entries)
}

/// Makes bevy's hash map with its default hasher (`HashMap::default`): it holds nothing.
#[verifier::external_body]
pub(crate) fn map_new() -> (made: EntityMap)
    ensures
        held_entities(made) == no_entities(),
{
    EntityMap { held: bevy::utils::HashMap::default() }
}

/// `HashMap::contains_key`: whether the key has an instance.
#[verifier::external_body]
pub(crate) fn map_contains(map: &EntityMap, key: u64) -> (found: bool)
    ensures
        found == held_entities(*map).contains_key(key),
{
    map.held.contains_key(&key)
}

/// `HashMap::is_empty`: whether the map holds nothing.
#[verifier::external_body]
pub(crate) fn map_is_empty(map: &EntityMap) -> (empty: bool)
    ensures
        empty == none_held(held_entities(*map)),
{
    map.held.is_empty()
}

/// `HashMap::iter`, each entry copied out: every key that the map holds comes once, with
/// its instance, and nothing else comes. Nothing is said of the order.
#[verifier::external_body]
pub(crate) fn map_entries(map: &EntityMap) -> (entries: Vec<(u64, u64)>)
    ensures
        lists_entries(entries@, held_entities(*map)),
{
    map.held.iter().map(|(key, instance)| (*key, *instance)).collect()
}

/// `HashMap::insert`: the key has the new instance afterwards and the other keys are as
/// before. Returns the instance that the key had.
#[verifier::external_body]
pub(crate) fn map_insert(map: &mut EntityMap, key: u64, instance: u64) -> (before: Option<u64>)
    ensures
        held_entities(*final(map)) == held_entities(*old(map)).insert(key, instance),
        before == entity_at(held_entities(*old(map)), key),
{
    map.held.insert(key, instance)
}

/// `HashMap::remove`: the key has no instance afterwards and the other keys are as before.
/// Returns the instance that the key had.
#[verifier::external_body]
pub(crate) fn map_remove(map: &mut EntityMap, key: u64) -> (removed: Option<u64>)
    ensures
        held_entities(*final(map)) == held_entities(*old(map)).remove(key),
        removed == entity_at(held_entities(*old(map)), key),
{
    map.held.remove(&key)
}

/// `HashMap::clear`: the map holds nothing afterwards.
#[verifier::external_body]
pub(crate) fn map_clear(map: &mut EntityMap)
    ensures
        held_entities(*final(map)) == no_entities(),
{
    map.held.clear()
}

} // verus!
