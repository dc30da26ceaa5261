//! The maps of numbers that a domain keeps in `dashmap`.
//!
//! A `DashMap` can be written through a shared reference. The functions here
//! write through an exclusive one, so that a map changes only where the
//! contracts say so.

use dashmap::DashMap;
use std::hash::RandomState;
use vstd::prelude::*;

verus! {

/// `dashmap::DashMap`, carried as an opaque value.
#[verifier::external_type_specification]
#[verifier::external_body]
#[verifier::reject_recursive_types(K)]
#[verifier::reject_recursive_types(V)]
#[verifier::reject_recursive_types(S)]
pub struct ExDashMap<K, V, S>(DashMap<K, V, S>);

/// What a map of numbers holds: its keys, each with its value.
pub uninterp spec fn contents(map: DashMap<u64, u64, RandomState>) -> Map<u64, u64>;

/// Whether `pairs` lists the map `numbers`: each of its keys once, in some
/// order, with its value.
pub open spec fn lists(pairs: Seq<(u64, u64)>, numbers: Map<u64, u64>) -> bool {
    &&& forall|i: int|
        0 <= i < pairs.len() ==> numbers.contains_key((#[trigger] pairs[i]).0)
            && numbers[pairs[i].0] == pairs[i].1
    &&& forall|i: int, j: int|
        0 <= i < j < pairs.len() ==> (#[trigger] pairs[i]).0 != (#[trigger] pairs[j]).0
    &&& forall|key: u64| #[trigger]
        numbers.contains_key(key) ==> pairs.contains((key, numbers[key]))
}

/// Whether the map `numbers` holds `len` keys.
pub open spec fn counts(len: nat, numbers: Map<u64, u64>) -> bool {
    &&& numbers.dom().finite()
    &&& numbers.dom().len() == len
}

/// Whether two numbers are the same.
pub(crate) fn same_number(present: &u64, expected: u64) -> (same: bool)
    ensures
        same == (*present == expected),
{
    *present == expected
}

/// `DashMap::new`: a map that holds nothing.
#[verifier::external_body]
pub(crate) fn new_table() -> (created: DashMap<u64, u64, RandomState>)
    ensures
        (contents(created) == Map::<u64, u64>::empty()),
{
    DashMap::new()
}

/// `DashMap::get`: the value under `key`, where there is one.
#[verifier::external_body]
pub(crate) fn lookup(map: &DashMap<u64, u64, RandomState>, key: u64) -> (value: Option<u64>)
    ensures
        value == contents(*map).get(key),
{
    map.get(&key).map(|found| *found.value())
}

/// `DashMap::entry` with `Entry::or_insert`: the value under `key`, after
/// `value` was put there if there was none.
#[verifier::external_body]
pub(crate) fn lookup_or_store(
    map: &mut DashMap<u64, u64, RandomState>,
    key: u64,
    value: u64,
) -> (present: u64)
    ensures
        present == (if contents(*old(map)).contains_key(key) {
            contents(*old(map))[key]
        } else {
            value
        }),
        contents(*final(map)) == contents(*old(map)).insert(key, present),
{
    *map.entry(key).or_insert(value).value()
}

/// `DashMap::insert`: puts `value` under `key`, in place of any value there.
#[verifier::external_body]
pub(crate) fn store(map: &mut DashMap<u64, u64, RandomState>, key: u64, value: u64)
    ensures
        contents(*final(map)) == contents(*old(map)).insert(key, value),
{
    map.insert(key, value);
}

/// `DashMap::remove`: takes `key` and its value out, where it is there.
#[verifier::external_body]
pub(crate) fn discard(map: &mut DashMap<u64, u64, RandomState>, key: u64)
    ensures
        contents(*final(map)) == contents(*old(map)).remove(key),
{
    map.remove(&key);
}

/// `DashMap::remove_if`: takes `key` out if the value under it is `expected`,
/// and says whether it was.
#[verifier::external_body]
pub(crate) fn discard_if(
    map: &mut DashMap<u64, u64, RandomState>,
    key: u64,
    expected: u64,
) -> (removed: bool)
    ensures
        removed == (contents(*old(map)).get(key) == Some(expected)),
        contents(*final(map)) == (if removed {
            contents(*old(map)).remove(key)
        } else {
            contents(*old(map))
        }),
{
    map.remove_if(&key, |_, present| same_number(present, expected)).is_some()
}

/// `DashMap::iter`: every key with its value, in no particular order.
#[verifier::external_body]
pub(crate) fn list(map: &DashMap<u64, u64, RandomState>) -> (pairs: Vec<(u64, u64)>)
    ensures
        lists(pairs@, contents(*map)),
{
    map.iter().map(|found| (*found.key(), *found.value())).collect()
}

/// `DashMap::len`: how many keys the map holds.
#[verifier::external_body]
pub(crate) fn count(map: &DashMap<u64, u64, RandomState>) -> (len: usize)
    ensures
        counts(len as nat, contents(*map)),
{
    map.len()
}

/// `DashMap::is_empty`: whether the map holds nothing.
#[verifier::external_body]
pub(crate) fn holds_nothing(map: &DashMap<u64, u64, RandomState>) -> (empty: bool)
    ensures
        empty == contents(*map).is_empty(),
{
    map.is_empty()
}

} // verus!
