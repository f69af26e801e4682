//! Item addressing.
//!
//! The content of a lazy list is declared as a sequence of intervals, each a
//! run of items that share a key function, a content-type function and a
//! content callback. The intervals lie end to end from index zero, so that
//! the interval of an index is found by binary search.

use crate::key::{slot_id_of, LazyLayoutKey};
use std::collections::HashMap;
use std::ops::Range;
use vstd::prelude::*;

verus! {

/// Lists longer than this get no lookup table from slot identifier to index.
pub const MAX_KEY_CACHE_SIZE: usize = 10000;

/// Marks the block in which the content of a lazy list is declared.
pub struct LazyScopeMarker;

/// A value for every item of an interval: one value for all of them, or a
/// function of the item's position in the interval.
pub enum IntervalFn<F> {
    /// Every item has this value.
    Constant(u64),
    /// The item at a local index has the value the function returns for it.
    Indexed(F),
}

/// The source that gives every item the value `value`, if there is one.
pub open spec fn constant_source<F>(value: Option<u64>) -> Option<IntervalFn<F>> {
    match value {
        Some(v) => Some(IntervalFn::Constant(v)),
        None => None,
    }
}

/// The source that asks `function`, if there is one.
pub open spec fn indexed_source<F>(function: Option<F>) -> Option<IntervalFn<F>> {
    match function {
        Some(f) => Some(IntervalFn::Indexed(f)),
        None => None,
    }
}

/// Whether a source can be asked for each of `count` items and gives each
/// the same value whenever it is asked.
pub open spec fn source_wf<F: Fn(usize) -> u64>(source: IntervalFn<F>, count: usize) -> bool {
    match source {
        IntervalFn::Constant(_) => true,
        IntervalFn::Indexed(f) => {
            &&& forall|local: usize| local < count ==> call_requires(f, (local,))
            &&& forall|local: usize, a: u64, b: u64|
                call_ensures(f, (local,), a) && call_ensures(f, (local,), b) ==> a == b
        },
    }
}

/// The value that a source gives the item at `local`.
pub open spec fn source_value<F: Fn(usize) -> u64>(source: IntervalFn<F>, local: usize) -> u64 {
    match source {
        IntervalFn::Constant(value) => value,
        IntervalFn::Indexed(f) => choose|value: u64| call_ensures(f, (local,), value),
    }
}

/// Whether `value` is what a source answers when asked for the item at
/// `local`.
pub open spec fn source_yields<F: Fn(usize) -> u64>(
    source: IntervalFn<F>,
    local: usize,
    value: u64,
) -> bool {
    match source {
        IntervalFn::Constant(v) => value == v,
        IntervalFn::Indexed(f) => call_ensures(f, (local,), value),
    }
}

/// What a well-formed source answers for an item is the value it gives the
/// item.
pub proof fn lemma_source_value<F: Fn(usize) -> u64>(
    source: IntervalFn<F>,
    count: usize,
    local: usize,
    value: u64,
)
    requires
        source_wf(source, count),
        source_yields(source, local, value),
    ensures
        source_value(source, local) == value,
{
}

/// Asks a source for the value of the item at `local`.
fn evaluate_source<F: Fn(usize) -> u64>(
    source: &IntervalFn<F>,
    local: usize,
    Ghost(count): Ghost<usize>,
) -> (value: u64)
    requires
        source_wf(*source, count),
        local < count,
    ensures
        value == source_value(*source, local),
        source_yields(*source, local, value),
{
    match source {
        IntervalFn::Constant(value) => *value,
        IntervalFn::Indexed(f) => f(local),
    }
}

/// A run of items that share their key, content-type and content functions.
pub struct LazyListInterval<K, T, C> {
    /// Index of the first item of the run.
    pub start_index: usize,
    /// Number of items in the run.
    pub count: usize,
    /// Keys of the items; default keys if absent.
    pub key: Option<IntervalFn<K>>,
    /// Content types of the items; none if absent.
    pub content_type: Option<IntervalFn<T>>,
    /// Emits the content of the item at a local index.
    pub content: C,
}

/// Index after the last item of an interval.
pub open spec fn interval_end<K, T, C>(interval: LazyListInterval<K, T, C>) -> int {
    interval.start_index + interval.count
}

/// Whether an interval holds at least one item, ends within `usize`, and has
/// functions that can be asked for each of its items.
pub open spec fn interval_wf<K: Fn(usize) -> u64, T: Fn(usize) -> u64, C: Fn(usize)>(
    interval: LazyListInterval<K, T, C>,
) -> bool {
    &&& interval.count >= 1
    &&& interval_end(interval) <= usize::MAX
    &&& interval.key is Some ==> source_wf(interval.key->0, interval.count)
    &&& interval.content_type is Some ==> source_wf(interval.content_type->0, interval.count)
    &&& forall|local: usize| local < interval.count ==> call_requires(interval.content, (local,))
}

/// Whether interval `p + 1` starts where interval `p` ends.
pub open spec fn adjoins<K, T, C>(s: Seq<LazyListInterval<K, T, C>>, p: int) -> bool {
    s[p + 1].start_index == interval_end(s[p])
}

/// Whether the intervals are well formed and lie end to end from index zero.
pub open spec fn intervals_wf<K: Fn(usize) -> u64, T: Fn(usize) -> u64, C: Fn(usize)>(
    s: Seq<LazyListInterval<K, T, C>>,
) -> bool {
    &&& forall|p: int| 0 <= p < s.len() ==> interval_wf(#[trigger] s[p])
    &&& s.len() > 0 ==> s[0].start_index == 0
    &&& forall|p: int| 0 <= p < s.len() - 1 ==> #[trigger] adjoins(s, p)
}

/// Number of items in all intervals together.
pub open spec fn item_total<K, T, C>(s: Seq<LazyListInterval<K, T, C>>) -> int {
    if s.len() == 0 {
        0
    } else {
        interval_end(s.last())
    }
}

/// Whether interval `p` holds `index`.
pub open spec fn holds_index<K, T, C>(
    s: Seq<LazyListInterval<K, T, C>>,
    p: int,
    index: usize,
) -> bool {
    0 <= p < s.len() && s[p].start_index <= index < interval_end(s[p])
}

/// Position of the interval that holds `index`.
pub open spec fn owner_of<K, T, C>(s: Seq<LazyListInterval<K, T, C>>, index: usize) -> int {
    choose|p: int| holds_index(s, p, index)
}

/// Key of the item at `index`: the user key that the owning interval gives
/// it, or the default key of the index if the interval has no keys or no
/// interval holds the index.
pub open spec fn key_at<K: Fn(usize) -> u64, T, C>(
    s: Seq<LazyListInterval<K, T, C>>,
    index: usize,
) -> LazyLayoutKey {
    if index < item_total(s) && s[owner_of(s, index)].key is Some {
        let interval = s[owner_of(s, index)];
        LazyLayoutKey::User(
            source_value(interval.key->0, (index - interval.start_index) as usize),
        )
    } else {
        LazyLayoutKey::Index(index)
    }
}

/// Content type of the item at `index`, if its interval gives it one.
pub open spec fn content_type_at<K, T: Fn(usize) -> u64, C>(
    s: Seq<LazyListInterval<K, T, C>>,
    index: usize,
) -> Option<u64> {
    if index < item_total(s) && s[owner_of(s, index)].content_type is Some {
        let interval = s[owner_of(s, index)];
        Some(source_value(interval.content_type->0, (index - interval.start_index) as usize))
    } else {
        None
    }
}

/// The largest index below `below` whose key has the slot identifier
/// `slot_id`.
pub open spec fn last_index_with_slot_id<K: Fn(usize) -> u64, T, C>(
    s: Seq<LazyListInterval<K, T, C>>,
    slot_id: u64,
    below: int,
) -> Option<usize>
    decreases below,
{
    if below <= 0 {
        None
    } else if slot_id_of(key_at(s, (below - 1) as usize)) == slot_id {
        Some((below - 1) as usize)
    } else {
        last_index_with_slot_id(s, slot_id, below - 1)
    }
}

/// The smallest index in `[from, to)` whose key is `key`.
pub open spec fn first_index_with_key<K: Fn(usize) -> u64, T, C>(
    s: Seq<LazyListInterval<K, T, C>>,
    key: LazyLayoutKey,
    from: int,
    to: int,
) -> Option<usize>
    decreases to - from,
{
    if from >= to {
        None
    } else if key_at(s, from as usize) == key {
        Some(from as usize)
    } else {
        first_index_with_key(s, key, from + 1, to)
    }
}

/// The smallest index in `[from, to)` whose key has the slot identifier
/// `slot_id`.
pub open spec fn first_index_with_slot_id<K: Fn(usize) -> u64, T, C>(
    s: Seq<LazyListInterval<K, T, C>>,
    slot_id: u64,
    from: int,
    to: int,
) -> Option<usize>
    decreases to - from,
{
    if from >= to {
        None
    } else if slot_id_of(key_at(s, from as usize)) == slot_id {
        Some(from as usize)
    } else {
        first_index_with_slot_id(s, slot_id, from + 1, to)
    }
}

/// Intervals that lie end to end end in ascending order.
pub proof fn lemma_interval_ends_ascend<K: Fn(usize) -> u64, T: Fn(usize) -> u64, C: Fn(usize)>(
    s: Seq<LazyListInterval<K, T, C>>,
    p: int,
    q: int,
)
    requires
        intervals_wf(s),
        0 <= p <= q < s.len(),
    ensures
        interval_end(s[p]) <= interval_end(s[q]),
        p < q ==> interval_end(s[p]) <= s[q].start_index,
        s[p].start_index <= s[q].start_index,
    decreases q - p,
{
    assert(interval_wf(s[p]));
    assert(interval_wf(s[q]));
    if p < q {
        lemma_interval_ends_ascend(s, p, q - 1);
        assert(adjoins(s, q - 1));
    }
}

/// At most one interval holds an index, and one does if the index is below
/// the number of items.
pub proof fn lemma_owner_unique<K: Fn(usize) -> u64, T: Fn(usize) -> u64, C: Fn(usize)>(
    s: Seq<LazyListInterval<K, T, C>>,
    p: int,
    index: usize,
)
    requires
        intervals_wf(s),
        holds_index(s, p, index),
    ensures
        owner_of(s, index) == p,
        index < item_total(s),
{
    let q = owner_of(s, index);
    assert(holds_index(s, q, index));
    if p < q {
        lemma_interval_ends_ascend(s, p, q);
    } else if q < p {
        lemma_interval_ends_ascend(s, q, p);
    }
    lemma_interval_ends_ascend(s, p, s.len() - 1);
}

/// Receiver of the declaration of a list's content.
pub trait LazyListScope {
    /// Key function of an interval.
    type Key;

    /// Content-type function of an interval.
    type ContentType;

    /// Content callback of an interval.
    type Content;

    /// Number of items declared so far.
    spec fn declared_items(&self) -> int;

    /// Whether a run of `count` items with these functions can be declared.
    spec fn admits(
        &self,
        count: usize,
        key: Option<IntervalFn<Self::Key>>,
        content_type: Option<IntervalFn<Self::ContentType>>,
        content: Self::Content,
    ) -> bool;

    /// Declares a single item.
    fn item(&mut self, key: Option<u64>, content_type: Option<u64>, content: Self::Content)
        requires
            old(self).admits(1, constant_source(key), constant_source(content_type), content),
        ensures
            final(self).declared_items() == old(self).declared_items() + 1,
    ;

    /// Declares a run of `count` items.
    fn items(
        &mut self,
        count: usize,
        key: Option<Self::Key>,
        content_type: Option<Self::ContentType>,
        item_content: Self::Content,
    )
        requires
            old(self).admits(count, indexed_source(key), indexed_source(content_type), item_content),
        ensures
            final(self).declared_items() == old(self).declared_items() + count,
    ;
}

/// Shorthands for declaring the items of a slice.
pub trait LazyListScopeExt: LazyListScope {
    /// Declares one item for every element of `items`, without keys or
    /// content types. `item_content` gets the position of the element.
    fn items_slice<E>(&mut self, items: &[E], item_content: Self::Content)
        requires
            old(self).admits(items@.len() as usize, None, None, item_content),
        ensures
            final(self).declared_items() == old(self).declared_items() + items@.len(),
    {
        self.items(items.len(), None, None, item_content)
    }

    /// Declares one item for every element of `items`, without keys or
    /// content types. `item_content` gets the position of the element.
    fn items_indexed<E>(&mut self, items: &[E], item_content: Self::Content)
        requires
            old(self).admits(items@.len() as usize, None, None, item_content),
        ensures
            final(self).declared_items() == old(self).declared_items() + items@.len(),
    {
        self.items(items.len(), None, None, item_content)
    }
}

impl<S: LazyListScope + ?Sized> LazyListScopeExt for S {

}

/// The declared content of a lazy list.
pub struct LazyListIntervalContent<K, T, C> {
    intervals: Vec<LazyListInterval<K, T, C>>,
    total_count: usize,
    /// From slot identifier to index, once built; dropped when content is
    /// added.
    key_cache: Option<HashMap<u64, usize>>,
}

impl<K, T, C> View for LazyListIntervalContent<K, T, C> {
    type V = Seq<LazyListInterval<K, T, C>>;

    closed spec fn view(&self) -> Seq<LazyListInterval<K, T, C>> {
        self.intervals@
    }
}

impl<K: Fn(usize) -> u64, T: Fn(usize) -> u64, C: Fn(usize)> LazyListIntervalContent<K, T, C> {
    /// Whether the lookup table, if built, maps every slot identifier that
    /// occurs to the largest index that has it.
    closed spec fn cache_wf(&self) -> bool {
        match self.key_cache {
            Some(cache) => {
                &&& self.total_count <= MAX_KEY_CACHE_SIZE
                &&& forall|slot_id: u64|
                    (#[trigger] cache@.contains_key(slot_id)) == (last_index_with_slot_id(
                        self@,
                        slot_id,
                        self.total_count as int,
                    ) is Some)
                &&& forall|slot_id: u64| #[trigger]
                    cache@.contains_key(slot_id) ==> Some(cache@[slot_id])
                        == last_index_with_slot_id(self@, slot_id, self.total_count as int)
            },
            None => true,
        }
    }

    /// The invariant of the content.
    pub closed spec fn wf(&self) -> bool {
        &&& intervals_wf(self@)
        &&& self.total_count == item_total(self@)
        &&& self.cache_wf()
    }

    /// Content without items.
    pub fn new() -> (content: Self)
        ensures
            content.wf(),
            content@ == Seq::<LazyListInterval<K, T, C>>::empty(),
    {
        Self { intervals: Vec::new(), total_count: 0, key_cache: None }
    }

    /// Drops the lookup table.
    fn invalidate_cache(&mut self)
        ensures
            final(self).intervals == old(self).intervals,
            final(self).total_count == old(self).total_count,
            final(self).key_cache is None,
    {
        self.key_cache = None;
    }

    /// Builds the lookup table unless it exists or the list is too long.
    fn ensure_cache(&mut self)
        requires
            old(self).wf(),
        ensures
            final(self).wf(),
            final(self)@ == old(self)@,
            final(self).key_cache is Some == (item_total(old(self)@) <= MAX_KEY_CACHE_SIZE),
    {
        broadcast use vstd::std_specs::hash::group_hash_axioms;

        if self.key_cache.is_some() {
            return ;
        }
        if self.total_count > MAX_KEY_CACHE_SIZE {
            return ;
        }
        let mut map: HashMap<u64, usize> = HashMap::new();
        let mut index: usize = 0;
        while index < self.total_count
            invariant
                self.wf(),
                self.intervals == old(self).intervals,
                self.total_count == old(self).total_count,
                self.key_cache is None,
                index <= self.total_count,
                forall|slot_id: u64|
                    (#[trigger] map@.contains_key(slot_id)) == (last_index_with_slot_id(
                        self@,
                        slot_id,
                        index as int,
                    ) is Some),
                forall|slot_id: u64| #[trigger]
                    map@.contains_key(slot_id) ==> Some(map@[slot_id]) == last_index_with_slot_id(
                        self@,
                        slot_id,
                        index as int,
                    ),
            decreases self.total_count - index,
        {
            let slot_id = self.get_key(index).to_slot_id();
            map.insert(slot_id, index);
            index += 1;
        }
        self.key_cache = Some(map);
    }

    /// Number of items in all intervals together.
    pub fn item_count(&self) -> (count: usize)
        requires
            self.wf(),
        ensures
            count == item_total(self@),
    {
        self.total_count
    }

    /// The intervals in list order.
    pub fn intervals(&self) -> (intervals: &[LazyListInterval<K, T, C>])
        ensures
            intervals@ == self@,
    {
        self.intervals.as_slice()
    }

    /// Key of the item at `index`.
    pub fn get_key(&self, index: usize) -> (key: LazyLayoutKey)
        requires
            self.wf(),
        ensures
            key == key_at(self@, index),
            index < item_total(self@) && self@[owner_of(self@, index)].key is Some
                ==> source_yields(
                self@[owner_of(self@, index)].key->0,
                (index - self@[owner_of(self@, index)].start_index) as usize,
                key->User_0,
            ),
    {
        match self.find_interval(index) {
            Some((interval, local_index)) => {
                match &interval.key {
                    Some(key_fn) => {
                        return LazyLayoutKey::User(
                            evaluate_source(key_fn, local_index, Ghost(interval.count)),
                        );
                    },
                    None => {},
                }
            },
            None => {},
        }
        LazyLayoutKey::Index(index)
    }

    /// Content type of the item at `index`.
    pub fn get_content_type(&self, index: usize) -> (content_type: Option<u64>)
        requires
            self.wf(),
        ensures
            content_type == content_type_at(self@, index),
            index < item_total(self@) && self@[owner_of(self@, index)].content_type is Some
                ==> source_yields(
                self@[owner_of(self@, index)].content_type->0,
                (index - self@[owner_of(self@, index)].start_index) as usize,
                content_type->0,
            ),
    {
        match self.find_interval(index) {
            Some((interval, local_index)) => {
                match &interval.content_type {
                    Some(type_fn) => {
                        return Some(evaluate_source(type_fn, local_index, Ghost(interval.count)));
                    },
                    None => {},
                }
            },
            None => {},
        }
        None
    }

    /// Emits the content of the item at `index` through the callback of its
    /// interval. Nothing is emitted for an index outside the list.
    pub fn invoke_content(&self, index: usize)
        requires
            self.wf(),
        ensures
            index < item_total(self@) ==> call_ensures(
                self@[owner_of(self@, index)].content,
                ((index - self@[owner_of(self@, index)].start_index) as usize,),
                (),
            ),
    {
        match self.find_interval(index) {
            Some((interval, local_index)) => {
                (interval.content)(local_index);
            },
            None => {},
        }
    }

    /// Calls `block` with the local index of `global_index` and the interval
    /// that holds it; `None` for an index outside the list.
    pub fn with_interval<R, F>(&self, global_index: usize, block: F) -> (result: Option<R>) where
        F: FnOnce(usize, &LazyListInterval<K, T, C>) -> R,

        requires
            self.wf(),
            global_index < item_total(self@) ==> call_requires(
                block,
                (
                    (global_index - self@[owner_of(self@, global_index)].start_index) as usize,
                    &self@[owner_of(self@, global_index)],
                ),
            ),
        ensures
            result is Some == (global_index < item_total(self@)),
            result is Some ==> call_ensures(
                block,
                (
                    (global_index - self@[owner_of(self@, global_index)].start_index) as usize,
                    &self@[owner_of(self@, global_index)],
                ),
                result->0,
            ),
    {
        match self.find_interval(global_index) {
            Some((interval, local_index)) => Some(block(local_index, interval)),
            None => None,
        }
    }

    /// Index of the item with the given key: the largest one if several have
    /// it, none if there is none or the list is longer than
    /// `MAX_KEY_CACHE_SIZE`.
    #[must_use]
    pub fn get_index_by_key(&mut self, key: LazyLayoutKey) -> (index: Option<usize>)
        requires
            old(self).wf(),
        ensures
            final(self).wf(),
            final(self)@ == old(self)@,
            index == if item_total(old(self)@) <= MAX_KEY_CACHE_SIZE {
                last_index_with_slot_id(old(self)@, slot_id_of(key), item_total(old(self)@))
            } else {
                None
            },
    {
        let slot_id = key.to_slot_id();
        self.get_index_by_slot_id(slot_id)
    }

    /// Index of the first item in `range` with the given key.
    pub fn get_index_by_key_in_range(&self, key: LazyLayoutKey, range: Range<usize>) -> (index:
        Option<usize>)
        requires
            self.wf(),
        ensures
            index == first_index_with_key(
                self@,
                key,
                if range.start <= item_total(self@) {
                    range.start as int
                } else {
                    item_total(self@)
                },
                if range.end <= item_total(self@) {
                    range.end as int
                } else {
                    item_total(self@)
                },
            ),
    {
        let start: usize = if range.start < self.total_count {
            range.start
        } else {
            self.total_count
        };
        let end: usize = if range.end < self.total_count {
            range.end
        } else {
            self.total_count
        };
        let mut index: usize = start;
        while index < end
            invariant
                self.wf(),
                start <= index || end <= start,
                start == if range.start <= item_total(self@) {
                    range.start as int
                } else {
                    item_total(self@)
                },
                end == if range.end <= item_total(self@) {
                    range.end as int
                } else {
                    item_total(self@)
                },
                first_index_with_key(self@, key, index as int, end as int) == first_index_with_key(
                    self@,
                    key,
                    start as int,
                    end as int,
                ),
            decreases end - index,
        {
            if self.get_key(index) == key {
                return Some(index);
            }
            index += 1;
        }
        None
    }

    /// Index of the item whose key has the given slot identifier: the
    /// largest one if several have it, none if there is none or the list is
    /// longer than `MAX_KEY_CACHE_SIZE`.
    #[must_use]
    pub fn get_index_by_slot_id(&mut self, slot_id: u64) -> (index: Option<usize>)
        requires
            old(self).wf(),
        ensures
            final(self).wf(),
            final(self)@ == old(self)@,
            index == if item_total(old(self)@) <= MAX_KEY_CACHE_SIZE {
                last_index_with_slot_id(old(self)@, slot_id, item_total(old(self)@))
            } else {
                None
            },
    {
        broadcast use vstd::std_specs::hash::group_hash_axioms;

        self.ensure_cache();
        match &self.key_cache {
            Some(cache) => {
                match cache.get(&slot_id) {
                    Some(index) => Some(*index),
                    None => None,
                }
            },
            None => None,
        }
    }

    /// Index of the first item in `range` whose key has the given slot
    /// identifier.
    pub fn get_index_by_slot_id_in_range(&self, slot_id: u64, range: Range<usize>) -> (index:
        Option<usize>)
        requires
            self.wf(),
        ensures
            index == first_index_with_slot_id(
                self@,
                slot_id,
                if range.start <= item_total(self@) {
                    range.start as int
                } else {
                    item_total(self@)
                },
                if range.end <= item_total(self@) {
                    range.end as int
                } else {
                    item_total(self@)
                },
            ),
    {
        let start: usize = if range.start < self.total_count {
            range.start
        } else {
            self.total_count
        };
        let end: usize = if range.end < self.total_count {
            range.end
        } else {
            self.total_count
        };
        let mut index: usize = start;
        while index < end
            invariant
                self.wf(),
                start <= index || end <= start,
                start == if range.start <= item_total(self@) {
                    range.start as int
                } else {
                    item_total(self@)
                },
                end == if range.end <= item_total(self@) {
                    range.end as int
                } else {
                    item_total(self@)
                },
                first_index_with_slot_id(self@, slot_id, index as int, end as int)
                    == first_index_with_slot_id(self@, slot_id, start as int, end as int),
            decreases end - index,
        {
            if self.get_key(index).to_slot_id() == slot_id {
                return Some(index);
            }
            index += 1;
        }
        None
    }

    /// The interval that holds `index` and the position of `index` in it;
    /// none for an index outside the list.
    fn find_interval(&self, index: usize) -> (found: Option<(&LazyListInterval<K, T, C>, usize)>)
        requires
            self.wf(),
        ensures
            found is Some == (index < item_total(self@)),
            found is Some ==> {
                let (interval, local_index) = found->0;
                &&& holds_index(self@, owner_of(self@, index), index)
                &&& *interval == self@[owner_of(self@, index)]
                &&& local_index == index - interval.start_index
                &&& local_index < interval.count
                &&& interval_wf(*interval)
            },
    {
        if self.intervals.len() == 0 || index >= self.total_count {
            return None;
        }
        let mut low: usize = 0;
        let mut high: usize = self.intervals.len();
        while low < high
            invariant
                self.wf(),
                index < self.total_count,
                low <= high <= self.intervals.len(),
                forall|p: int| 0 <= p < low ==> interval_end(#[trigger] self@[p]) <= index,
                forall|p: int| high <= p < self@.len() ==> interval_end(#[trigger] self@[p]) > index,
            decreases high - low,
        {
            let middle: usize = low + (high - low) / 2;
            let interval = &self.intervals[middle];
            assert(interval_wf(self@[middle as int]));
            if interval.start_index + interval.count <= index {
                proof {
                    assert forall|p: int| 0 <= p < middle + 1 implies interval_end(
                        #[trigger] self@[p],
                    ) <= index by {
                        lemma_interval_ends_ascend(self@, p, middle as int);
                    }
                }
                low = middle + 1;
            } else {
                proof {
                    assert forall|p: int| middle <= p < self@.len() implies interval_end(
                        #[trigger] self@[p],
                    ) > index by {
                        lemma_interval_ends_ascend(self@, middle as int, p);
                    }
                }
                high = middle;
            }
        }
        proof {
            if low >= self@.len() {
                assert(interval_end(self@[self@.len() - 1]) <= index);
            }
        }
        let pos = low;
        let interval = &self.intervals[pos];
        proof {
            assert(interval_wf(self@[pos as int]));
            if pos > 0 {
                assert(interval_end(self@[pos - 1]) <= index);
                assert(adjoins(self@, pos - 1));
            }
            assert(holds_index(self@, pos as int, index));
            lemma_owner_unique(self@, pos as int, index);
        }
        if index >= interval.start_index && index < interval.start_index + interval.count {
            let local_index: usize = index - interval.start_index;
            return Some((interval, local_index));
        }
        None
    }

    /// Whether a run of `count` items with these functions can be appended.
    pub open spec fn admits_run(
        &self,
        count: usize,
        key: Option<IntervalFn<K>>,
        content_type: Option<IntervalFn<T>>,
        content: C,
    ) -> bool {
        &&& self.wf()
        &&& item_total(self@) + count <= usize::MAX
        &&& key is Some ==> source_wf(key->0, count)
        &&& content_type is Some ==> source_wf(content_type->0, count)
        &&& forall|local: usize| local < count ==> call_requires(content, (local,))
    }

    /// Appends a run of `count` items; a run without items leaves the
    /// content as it is.
    fn append_run(
        &mut self,
        count: usize,
        key: Option<IntervalFn<K>>,
        content_type: Option<IntervalFn<T>>,
        content: C,
    )
        requires
            old(self).admits_run(count, key, content_type, content),
        ensures
            final(self).wf(),
            count == 0 ==> final(self)@ == old(self)@,
            count > 0 ==> final(self)@ == old(self)@.push(
                LazyListInterval {
                    start_index: item_total(old(self)@) as usize,
                    count,
                    key,
                    content_type,
                    content,
                },
            ),
            item_total(final(self)@) == item_total(old(self)@) + count,
    {
        if count == 0 {
            return ;
        }
        self.invalidate_cache();
        let start_index = self.total_count;
        let ghost before = self@;
        self.intervals.push(LazyListInterval { start_index, count, key, content_type, content });
        self.total_count = self.total_count + count;
        proof {
            let after = self@;
            assert forall|p: int| 0 <= p < after.len() implies interval_wf(#[trigger] after[p]) by {
                if p < before.len() {
                    assert(after[p] == before[p]);
                }
            }
            assert forall|p: int| 0 <= p < after.len() - 1 implies #[trigger] adjoins(after, p) by {
                if p < before.len() - 1 {
                    assert(adjoins(before, p));
                }
            }
        }
    }
}

impl<K: Fn(usize) -> u64, T: Fn(usize) -> u64, C: Fn(usize)> Default for LazyListIntervalContent<
    K,
    T,
    C,
> {
    fn default() -> (content: Self)
        ensures
            content.wf(),
            content@ == Seq::<LazyListInterval<K, T, C>>::empty(),
    {
        Self::new()
    }
}

impl<K: Fn(usize) -> u64, T: Fn(usize) -> u64, C: Fn(usize)> LazyListScope for LazyListIntervalContent<
    K,
    T,
    C,
> {
    type Key = K;

    type ContentType = T;

    type Content = C;

    open spec fn declared_items(&self) -> int {
        item_total(self@)
    }

    open spec fn admits(
        &self,
        count: usize,
        key: Option<IntervalFn<K>>,
        content_type: Option<IntervalFn<T>>,
        content: C,
    ) -> bool {
        self.admits_run(count, key, content_type, content)
    }

    fn item(&mut self, key: Option<u64>, content_type: Option<u64>, content: C)
        ensures
            final(self).wf(),
            final(self)@ == old(self)@.push(
                LazyListInterval {
                    start_index: item_total(old(self)@) as usize,
                    count: 1,
                    key: constant_source(key),
                    content_type: constant_source(content_type),
                    content,
                },
            ),
    {
        let key_source: Option<IntervalFn<K>> = match key {
            Some(k) => Some(IntervalFn::Constant(k)),
            None => None,
        };
        let type_source: Option<IntervalFn<T>> = match content_type {
            Some(t) => Some(IntervalFn::Constant(t)),
            None => None,
        };
        self.append_run(1, key_source, type_source, content);
    }

    fn items(&mut self, count: usize, key: Option<K>, content_type: Option<T>, item_content: C)
        ensures
            final(self).wf(),
            count == 0 ==> final(self)@ == old(self)@,
            count > 0 ==> final(self)@ == old(self)@.push(
                LazyListInterval {
                    start_index: item_total(old(self)@) as usize,
                    count,
                    key: indexed_source(key),
                    content_type: indexed_source(content_type),
                    content: item_content,
                },
            ),
    {
        let key_source: Option<IntervalFn<K>> = match key {
            Some(k) => Some(IntervalFn::Indexed(k)),
            None => None,
        };
        let type_source: Option<IntervalFn<T>> = match content_type {
            Some(t) => Some(IntervalFn::Indexed(t)),
            None => None,
        };
        self.append_run(count, key_source, type_source, item_content);
    }
}

} // verus!
