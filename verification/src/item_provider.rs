//! The minimal interface of an item source: how many items there are, and
//! the 64-bit key and the content type of each.

use crate::key::slot_id_of;
use crate::scope::{content_type_at, item_total, key_at, LazyListIntervalContent};
use vstd::prelude::*;

verus! {

/// Tells a lazy layout what it needs to know about its items.
pub trait LazyLayoutItemProvider {
    /// Whether the provider may be asked.
    spec fn provider_wf(&self) -> bool;

    /// Number of items.
    spec fn provided_count(&self) -> usize;

    /// Key of the item at `index`.
    spec fn provided_key(&self, index: usize) -> u64;

    /// Content type of the item at `index`.
    spec fn provided_content_type(&self, index: usize) -> Option<u64>;

    /// Number of items, visible or not.
    fn item_count(&self) -> (count: usize)
        requires
            self.provider_wf(),
        ensures
            count == self.provided_count(),
    ;

    /// Key of the item at `index`.
    fn get_key(&self, index: usize) -> (key: u64)
        requires
            self.provider_wf(),
        ensures
            key == self.provided_key(index),
    ;

    /// Content type of the item at `index`; `None` for an item that goes
    /// with any type.
    fn get_content_type(&self, index: usize) -> (content_type: Option<u64>)
        requires
            self.provider_wf(),
        ensures
            content_type == self.provided_content_type(index),
    ;

    /// The smallest index whose item has the key `key`.
    fn get_index(&self, key: u64) -> (index: Option<usize>)
        requires
            self.provider_wf(),
        ensures
            match index {
                Some(i) => {
                    &&& i < self.provided_count()
                    &&& self.provided_key(i) == key
                    &&& forall|j: usize| j < i ==> self.provided_key(j) != key
                },
                None => forall|j: usize| j < self.provided_count() ==> self.provided_key(j) != key,
            },
    {
        let count = self.item_count();
        let mut i: usize = 0;
        while i < count
            invariant
                self.provider_wf(),
                count == self.provided_count(),
                i <= count,
                forall|j: usize| j < i ==> self.provided_key(j) != key,
            decreases count - i,
        {
            if self.get_key(i) == key {
                return Some(i);
            }
            i += 1;
        }
        None
    }
}

impl<K: Fn(usize) -> u64, T: Fn(usize) -> u64, C: Fn(usize)> LazyLayoutItemProvider for LazyListIntervalContent<
    K,
    T,
    C,
> {
    open spec fn provider_wf(&self) -> bool {
        self.wf()
    }

    open spec fn provided_count(&self) -> usize {
        item_total(self@) as usize
    }

    open spec fn provided_key(&self, index: usize) -> u64 {
        slot_id_of(key_at(self@, index))
    }

    open spec fn provided_content_type(&self, index: usize) -> Option<u64> {
        content_type_at(self@, index)
    }

    fn item_count(&self) -> (count: usize) {
        LazyListIntervalContent::item_count(self)
    }

    fn get_key(&self, index: usize) -> (key: u64) {
        LazyListIntervalContent::get_key(self, index).to_slot_id()
    }

    fn get_content_type(&self, index: usize) -> (content_type: Option<u64>) {
        LazyListIntervalContent::get_content_type(self, index)
    }
}

} // verus!
