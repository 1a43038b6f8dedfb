//! The insertion-ordered map that stores the registry's entries.
//!
//! The map is `indexmap::IndexMap`, keyed by operation id. Nothing in this
//! file is proved: each function states what the `indexmap` documentation and
//! source say of the method it calls, over the sequence of key-value pairs
//! that the map holds.

use crate::action::Action;
use indexmap::IndexMap;
use std::collections::hash_map::RandomState;
use vstd::prelude::*;

verus! {

/// `indexmap::IndexMap`, taken as an opaque type.
#[verifier::external_type_specification]
#[verifier::external_body]
#[verifier::reject_recursive_types(K)]
#[verifier::reject_recursive_types(V)]
#[verifier::reject_recursive_types(S)]
pub struct ExIndexMap<K, V, S>(IndexMap<K, V, S>);

/// The key-value pairs that a map holds, in the map's order: the pair at
/// index `i` of the map is element `i` of the sequence.
pub uninterp spec fn map_entries(map: IndexMap<u32, Action, RandomState>) -> Seq<(u32, Action)>;

/// `IndexMap::new`: the new map holds nothing.
#[verifier::external_body]
pub(crate) fn map_new() -> (map: IndexMap<u32, Action, RandomState>)
    ensures
        map_entries(map) == Seq::<(u32, Action)>::empty(),
{
    IndexMap::new()
}

/// `IndexMap::len`: the number of key-value pairs in the map.
#[verifier::external_body]
pub(crate) fn map_len(map: &IndexMap<u32, Action, RandomState>) -> (len: usize)
    ensures
        len == map_entries(*map).len(),
{
    map.len()
}

/// `IndexMap::insert`: where the key is already in the map, the pair keeps
/// its place, its value is replaced and the old value is returned; where it
/// is not, the new pair goes last and `None` is returned.
#[verifier::external_body]
pub(crate) fn map_insert(
    map: &mut IndexMap<u32, Action, RandomState>,
    key: u32,
    value: Action,
) -> (previous: Option<Action>)
    ensures
        match previous {
            Some(replaced) => exists|i: int|
                0 <= i < map_entries(*old(map)).len() && #[trigger] map_entries(*old(map))[i] == (
                    key,
                    replaced,
                ) && map_entries(*final(map)) == map_entries(*old(map)).update(i, (key, value)),
            None => {
                &&& forall|i: int|
                    0 <= i < map_entries(*old(map)).len() ==> (#[trigger] map_entries(
                        *old(map),
                    )[i]).0 != key
                &&& map_entries(*final(map)) == map_entries(*old(map)).push((key, value))
            },
        },
{
    map.insert(key, value)
}

/// `IndexMap::get`: a reference to the value stored for the key, or `None`
/// where the key is not in the map.
#[verifier::external_body]
pub(crate) fn map_get(map: &IndexMap<u32, Action, RandomState>, key: u32) -> (found: Option<
    &Action,
>)
    ensures
        match found {
            Some(value) => exists|i: int|
                0 <= i < map_entries(*map).len() && #[trigger] map_entries(*map)[i] == (
                    key,
                    *value,
                ),
            None => forall|i: int|
                0 <= i < map_entries(*map).len() ==> (#[trigger] map_entries(*map)[i]).0 != key,
        },
{
    map.get(&key)
}

/// `IndexMap::get_mut`: a mutable reference to the value stored for the key,
/// or `None` where the key is not in the map. What the caller writes through
/// the reference becomes the value of that pair; nothing else changes.
#[verifier::external_body]
pub(crate) fn map_get_mut(map: &mut IndexMap<u32, Action, RandomState>, key: u32) -> (found:
    Option<&mut Action>)
    ensures
        match found {
            Some(value) => exists|i: int|
                0 <= i < map_entries(*old(map)).len() && #[trigger] map_entries(*old(map))[i] == (
                    key,
                    *value,
                ) && map_entries(*final(map)) == map_entries(*old(map)).update(
                    i,
                    (key, *final(value)),
                ),
            None => {
                &&& forall|i: int|
                    0 <= i < map_entries(*old(map)).len() ==> (#[trigger] map_entries(
                        *old(map),
                    )[i]).0 != key
                &&& map_entries(*final(map)) == map_entries(*old(map))
            },
        },
{
    map.get_mut(&key)
}

/// `IndexMap::get_index`: the pair at the index, or `None` where the index
/// is not below the length.
#[verifier::external_body]
pub(crate) fn map_get_index(map: &IndexMap<u32, Action, RandomState>, index: usize) -> (found:
    Option<(&u32, &Action)>)
    ensures
        match found {
            Some((key, value)) => index < map_entries(*map).len() && map_entries(*map)[index as int]
                == (*key, *value),
            None => index >= map_entries(*map).len(),
        },
{
    map.get_index(index)
}

/// `IndexMap::shift_remove_full`: removes the pair with the key and returns
/// the index it had together with the pair; the pairs behind it move up by
/// one and keep their order. Where the key is not in the map, nothing
/// changes and `None` is returned.
#[verifier::external_body]
pub(crate) fn map_shift_remove_full(map: &mut IndexMap<u32, Action, RandomState>, key: u32) -> (
    taken: Option<(usize, u32, Action)>)
    ensures
        match taken {
            Some((index, taken_key, value)) => {
                &&& index < map_entries(*old(map)).len()
                &&& taken_key == key
                &&& map_entries(*old(map))[index as int] == (key, value)
                &&& map_entries(*final(map)) == map_entries(*old(map)).remove(index as int)
            },
            None => {
                &&& forall|i: int|
                    0 <= i < map_entries(*old(map)).len() ==> (#[trigger] map_entries(
                        *old(map),
                    )[i]).0 != key
                &&& map_entries(*final(map)) == map_entries(*old(map))
            },
        },
{
    map.shift_remove_full(&key)
}

/// `IndexMap::shift_remove_index`: removes the pair at the index and returns
/// it; the pairs behind it move up by one and keep their order. Where the
/// index is not below the length, nothing changes and `None` is returned.
#[verifier::external_body]
pub(crate) fn map_shift_remove_index(
    map: &mut IndexMap<u32, Action, RandomState>,
    index: usize,
) -> (taken: Option<(u32, Action)>)
    ensures
        match taken {
            Some(pair) => {
                &&& index < map_entries(*old(map)).len()
                &&& map_entries(*old(map))[index as int] == pair
                &&& map_entries(*final(map)) == map_entries(*old(map)).remove(index as int)
            },
            None => {
                &&& index >= map_entries(*old(map)).len()
                &&& map_entries(*final(map)) == map_entries(*old(map))
            },
        },
{
    map.shift_remove_index(index)
}

} // verus!
