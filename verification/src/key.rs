//! Generational keys for nodes and slots.
//!
//! A key is one 64-bit integer: the position of the entry in its arena in the
//! low half, the generation of that position in the high half. An arena only
//! ever hands out keys with an odd generation, and never the position
//! `0xffff_ffff`.

use vstd::prelude::*;

verus! {

/// The position that a key's low 32 bits hold.
pub open spec fn key_index(raw: u64) -> u64 {
    raw & 0xffff_ffff
}

/// Whether the generation in a key's high 32 bits is odd.
pub open spec fn key_is_canonical(raw: u64) -> bool {
    raw & 0x1_0000_0000 == 0x1_0000_0000
}

/// Whether a key has the form of the keys that an arena hands out.
pub open spec fn key_is_regular(raw: u64) -> bool {
    key_is_canonical(raw) && key_index(raw) != 0xffff_ffff
}

/// Decides `key_is_regular`.
pub fn is_regular_key(raw: u64) -> (b: bool)
    ensures
        b == key_is_regular(raw),
{
    raw & 0x1_0000_0000 == 0x1_0000_0000 && raw & 0xffff_ffff != 0xffff_ffff
}

/// Identity of a node, stable for as long as the node lives.
#[derive(Clone, Copy, Debug, PartialEq, Eq, Structural, Hash, PartialOrd, Ord)]
pub struct NodeId(pub u64);

/// Identity of a slot. Input and output slots share one key space.
#[derive(Clone, Copy, Debug, PartialEq, Eq, Structural, Hash, PartialOrd, Ord)]
pub struct SlotId(pub u64);

impl View for NodeId {
    type V = u64;

    open spec fn view(&self) -> u64 {
        self.0
    }
}

impl View for SlotId {
    type V = u64;

    open spec fn view(&self) -> u64 {
        self.0
    }
}

} // verus!
