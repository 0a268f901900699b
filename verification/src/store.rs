//! The slot maps that the arenas and the side tables are built on, and what
//! is taken on trust of them.
//!
//! Keys cross this boundary as the integer that `KeyData::as_ffi` gives.
//! `KeyData::from_ffi` turns such an integer back into the same key when its
//! generation is odd, which every contract here asks for.

use vstd::prelude::*;
use slotmap::{DefaultKey, Key, KeyData, SecondaryMap, SlotMap};
use crate::key::{key_index, key_is_canonical, key_is_regular};

verus! {

/// A `slotmap::SlotMap` that hands out keys and keeps one integer per key.
#[verifier::external_body]
pub struct KeyTable {
    map: SlotMap<DefaultKey, u64>,
}

/// A `slotmap::SecondaryMap` that keeps one integer for keys handed out elsewhere.
#[verifier::external_body]
pub struct SideTable {
    map: SecondaryMap<DefaultKey, u64>,
}

/// What a key table holds: each live key with its value.
pub uninterp spec fn key_table_entries(t: KeyTable) -> Map<u64, u64>;

/// What a side table holds: each key that has a value, with that value.
pub uninterp spec fn side_table_entries(t: SideTable) -> Map<u64, u64>;

/// `SlotMap::new`: the table starts without entries.
#[verifier::external_body]
pub(crate) fn key_table_new() -> (t: KeyTable)
    ensures
        key_table_entries(t) == (Map::<u64, u64>::empty()),
{
    KeyTable { map: SlotMap::new() }
}

/// `SlotMap::insert`: stores the value under a key that is not live, and
/// returns that key. The key is regular, and its position is that of no
/// live key. The slot map panics when it is full: with 2^32 - 2 entries.
#[verifier::external_body]
pub(crate) fn key_table_insert(t: &mut KeyTable, value: u64) -> (key: u64)
    requires
        key_table_entries(*old(t)).dom().finite(),
        key_table_entries(*old(t)).len() < 0xffff_fffe,
    ensures
        key_is_regular(key),
        !key_table_entries(*old(t)).dom().contains(key),
        forall|k: u64| #[trigger]
            key_table_entries(*old(t)).dom().contains(k) ==> key_index(k) != key_index(key),
        key_table_entries(*final(t)) == key_table_entries(*old(t)).insert(key, value),
{
    t.map.insert(value).data().as_ffi()
}

/// `SlotMap::get`: the value of a live key, nothing for any other key.
#[verifier::external_body]
pub(crate) fn key_table_get(t: &KeyTable, key: u64) -> (r: Option<u64>)
    requires
        key_is_canonical(key),
    ensures
        r == (if key_table_entries(*t).dom().contains(key) {
            Some(key_table_entries(*t)[key])
        } else {
            None
        }),
{
    t.map.get(DefaultKey::from(KeyData::from_ffi(key))).copied()
}

/// `IndexMut::index_mut` of `SlotMap`, assigned to: replaces the value of a
/// live key. It panics on a key that is not live.
#[verifier::external_body]
pub(crate) fn key_table_set(t: &mut KeyTable, key: u64, value: u64)
    requires
        key_is_canonical(key),
        key_table_entries(*old(t)).dom().contains(key),
    ensures
        key_table_entries(*final(t)) == key_table_entries(*old(t)).insert(key, value),
{
    t.map[DefaultKey::from(KeyData::from_ffi(key))] = value;
}

/// `SlotMap::remove`: takes a live key out and returns its value; does
/// nothing for any other key.
#[verifier::external_body]
pub(crate) fn key_table_remove(t: &mut KeyTable, key: u64) -> (r: Option<u64>)
    requires
        key_is_canonical(key),
    ensures
        r == (if key_table_entries(*old(t)).dom().contains(key) {
            Some(key_table_entries(*old(t))[key])
        } else {
            None
        }),
        key_table_entries(*final(t)) == key_table_entries(*old(t)).remove(key),
{
    t.map.remove(DefaultKey::from(KeyData::from_ffi(key)))
}

/// `SecondaryMap::new`: the table starts without entries.
#[verifier::external_body]
pub(crate) fn side_table_new() -> (t: SideTable)
    ensures
        side_table_entries(t) == (Map::<u64, u64>::empty()),
{
    SideTable { map: SecondaryMap::new() }
}

/// `SecondaryMap::insert`: sets the value of a key. A secondary map keeps
/// one entry per position and does not let an older key push a newer one
/// out, so this is claimed only where no other key of the same position has
/// an entry. The null key, which the map ignores, is left out too.
#[verifier::external_body]
pub(crate) fn side_table_insert(t: &mut SideTable, key: u64, value: u64)
    requires
        key_is_regular(key),
        forall|k: u64| #[trigger]
            side_table_entries(*old(t)).dom().contains(k) && key_index(k) == key_index(key) ==> k
                == key,
    ensures
        side_table_entries(*final(t)) == side_table_entries(*old(t)).insert(key, value),
{
    t.map.insert(DefaultKey::from(KeyData::from_ffi(key)), value);
}

/// `SecondaryMap::get`: the value of a key that has one.
#[verifier::external_body]
pub(crate) fn side_table_get(t: &SideTable, key: u64) -> (r: Option<u64>)
    requires
        key_is_canonical(key),
    ensures
        r == (if side_table_entries(*t).dom().contains(key) {
            Some(side_table_entries(*t)[key])
        } else {
            None
        }),
{
    t.map.get(DefaultKey::from(KeyData::from_ffi(key))).copied()
}

/// `SecondaryMap::remove`: takes the entry of a key out and returns its
/// value; does nothing for a key without one.
#[verifier::external_body]
pub(crate) fn side_table_remove(t: &mut SideTable, key: u64) -> (r: Option<u64>)
    requires
        key_is_canonical(key),
    ensures
        r == (if side_table_entries(*old(t)).dom().contains(key) {
            Some(side_table_entries(*old(t))[key])
        } else {
            None
        }),
        side_table_entries(*final(t)) == side_table_entries(*old(t)).remove(key),
{
    t.map.remove(DefaultKey::from(KeyData::from_ffi(key)))
}

/// `SecondaryMap::iter`: every entry once, as a pair of key and value.
#[verifier::external_body]
pub(crate) fn side_table_pairs(t: &SideTable) -> (pairs: Vec<(u64, u64)>)
    ensures
        forall|i: int|
            0 <= i < pairs@.len() ==> side_table_entries(*t).dom().contains(#[trigger] pairs@[i].0)
                && side_table_entries(*t)[pairs@[i].0] == pairs@[i].1,
        forall|k: u64|
            side_table_entries(*t).dom().contains(k) ==> exists|i: int|
                0 <= i < pairs@.len() && #[trigger] pairs@[i].0 == k,
        forall|i: int, j: int|
            0 <= i < j < pairs@.len() ==> #[trigger] pairs@[i].0 != #[trigger] pairs@[j].0,
{
    t.map.iter().map(|(k, v)| (k.data().as_ffi(), *v)).collect()
}

} // verus!
