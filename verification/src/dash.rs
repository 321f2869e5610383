//! The concurrent hash map of the `dashmap` crate, from inode numbers to plain values.
use dashmap::DashMap;
use vstd::prelude::*;

verus! {

/// `dashmap::DashMap`, of which nothing is known but what it holds.
#[verifier::external_type_specification]
#[verifier::external_body]
#[verifier::reject_recursive_types(K)]
#[verifier::reject_recursive_types(V)]
#[verifier::reject_recursive_types(S)]
pub struct ExDashMap<K, V, S>(dashmap::DashMap<K, V, S>);

/// What a map holds. The library changes a map only through an exclusive reference, so what a
/// shared one leads to stays the same.
pub uninterp spec fn held(map: DashMap<i64, u64>) -> Map<i64, u64>;

/// What a new map holds.
pub open spec fn nothing() -> Map<i64, u64> {
    Map::empty()
}

/// Calls `DashMap::new`. The new map holds nothing.
#[verifier::external_body]
pub(crate) fn dash_new() -> (r: DashMap<i64, u64>)
    ensures
        held(r) == nothing(),
{
    DashMap::new()
}

/// Calls `DashMap::get`. It gives the value under the key, if there is one; a copy of the value
/// leaves, and no reference into the map stays behind.
#[verifier::external_body]
pub(crate) fn dash_get(map: &DashMap<i64, u64>, key: i64) -> (r: Option<u64>)
    ensures
        r == (if held(*map).contains_key(key) {
            Some(held(*map)[key])
        } else {
            None
        }),
{
    map.get(&key).map(|entry| *entry.value())
}

/// Calls `DashMap::insert`. The value stands under the key afterwards, whatever stood there
/// before, and the other keys keep their values.
#[verifier::external_body]
pub(crate) fn dash_insert(map: &mut DashMap<i64, u64>, key: i64, value: u64)
    ensures
        held(*final(map)) == held(*old(map)).insert(key, value),
{
    map.insert(key, value);
}

/// Calls `DashMap::entry` and `Entry::or_insert`. A key that is there keeps its value, a new one
/// gets the value given, and the other keys keep theirs.
#[verifier::external_body]
pub(crate) fn dash_or_insert(map: &mut DashMap<i64, u64>, key: i64, value: u64)
    ensures
        held(*final(map)) == (if held(*old(map)).contains_key(key) {
            held(*old(map))
        } else {
            held(*old(map)).insert(key, value)
        }),
{
    map.entry(key).or_insert(value);
}

} // verus!
