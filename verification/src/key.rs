//! Stable item keys.
//!
//! Every item of a lazy list is identified by a key that survives insertions
//! and removals elsewhere in the list. A key is either supplied by the caller
//! or derived from the item's position; the two flavours are kept apart both
//! as values and as 64-bit slot identifiers.

use vstd::prelude::*;

verus! {

/// The bit that marks a slot identifier as derived from an index.
pub const INDEX_KEY_TAG: u64 = 0x8000_0000_0000_0000;

/// Key of one item of a lazy list.
#[derive(Clone, Copy, Debug, PartialEq, Eq, Hash, Structural)]
pub enum LazyLayoutKey {
    /// A key chosen by the caller.
    User(u64),
    /// The default key of the item at a global index.
    Index(usize),
}

/// The slot identifier of a key, as a mathematical function.
pub open spec fn slot_id_of(key: LazyLayoutKey) -> u64 {
    match key {
        LazyLayoutKey::User(k) => k,
        LazyLayoutKey::Index(i) => INDEX_KEY_TAG | (i as u64),
    }
}

impl LazyLayoutKey {
    /// The 64-bit slot identifier of this key. A user key keeps its value;
    /// an index key is tagged with the top bit.
    #[inline]
    pub fn to_slot_id(self) -> (id: u64)
        ensures
            id == slot_id_of(self),
            self is User ==> id == self->User_0,
            self is Index ==> id >= INDEX_KEY_TAG,
            self is Index && self->Index_0 < INDEX_KEY_TAG ==> id == INDEX_KEY_TAG + self->Index_0,
    {
        match self {
            LazyLayoutKey::User(k) => k,
            LazyLayoutKey::Index(i) => {
                let low: u64 = i as u64;
                proof {
                    lemma_tag_sets_top_bit(low);
                }
                INDEX_KEY_TAG | low
            },
        }
    }

    /// Whether the caller chose this key.
    #[inline]
    pub fn is_user_key(self) -> (b: bool)
        ensures
            b == (self is User),
    {
        matches!(self, LazyLayoutKey::User(_))
    }

    /// Whether this key was derived from an index.
    #[inline]
    pub fn is_index_key(self) -> (b: bool)
        ensures
            b == (self is Index),
    {
        matches!(self, LazyLayoutKey::Index(_))
    }
}

/// Tagging a value sets the top bit, and adds exactly the tag when the value
/// lies below it.
pub proof fn lemma_tag_sets_top_bit(low: u64)
    ensures
        (INDEX_KEY_TAG | low) >= INDEX_KEY_TAG,
        low < INDEX_KEY_TAG ==> (INDEX_KEY_TAG | low) == INDEX_KEY_TAG + low,
        (INDEX_KEY_TAG | low) & INDEX_KEY_TAG != 0,
{
    assert((0x8000_0000_0000_0000u64 | low) >= 0x8000_0000_0000_0000u64) by (bit_vector);
    assert(low < 0x8000_0000_0000_0000u64 ==> (0x8000_0000_0000_0000u64 | low)
        == 0x8000_0000_0000_0000u64 + low) by (bit_vector);
    assert((0x8000_0000_0000_0000u64 | low) & 0x8000_0000_0000_0000u64 != 0) by (bit_vector);
}

/// A default key never equals a user key, whatever their payloads.
pub proof fn lemma_default_key_differs_from_user_key(index: usize, user: u64)
    ensures
        LazyLayoutKey::Index(index) != LazyLayoutKey::User(user),
{
}

/// The default key of an index below the tag and the user key of the same
/// value have different slot identifiers.
pub proof fn lemma_default_slot_differs_from_same_user_slot(index: usize)
    requires
        (index as u64) < INDEX_KEY_TAG,
    ensures
        slot_id_of(LazyLayoutKey::Index(index)) != slot_id_of(LazyLayoutKey::User(index as u64)),
{
    lemma_tag_sets_top_bit(index as u64);
}

/// A default key's slot identifier differs from that of every user key
/// below the tag.
pub proof fn lemma_default_slot_differs_from_small_user_slot(index: usize, user: u64)
    requires
        user < INDEX_KEY_TAG,
    ensures
        slot_id_of(LazyLayoutKey::Index(index)) != slot_id_of(LazyLayoutKey::User(user)),
{
    lemma_tag_sets_top_bit(index as u64);
}

/// Distinct indices below the tag have distinct default slot identifiers.
pub proof fn lemma_default_slots_injective(a: usize, b: usize)
    requires
        (a as u64) < INDEX_KEY_TAG,
        (b as u64) < INDEX_KEY_TAG,
        a != b,
    ensures
        slot_id_of(LazyLayoutKey::Index(a)) != slot_id_of(LazyLayoutKey::Index(b)),
{
    lemma_tag_sets_top_bit(a as u64);
    lemma_tag_sets_top_bit(b as u64);
}

} // verus!
