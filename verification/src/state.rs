//! Scroll state of one lazy list.
//!
//! The state holds the scroll anchor, the requests that the next measurement
//! pass will consume, a small cache of measured sizes with their running
//! mean, and the bookkeeping that surrounds a pass.

use crate::extent::{add_distances, clamp_distance, is_distance, is_extent, MAX_EXTENT};
use crate::layout_info::{LazyListLayoutInfo, LazyListLayoutInfoView};
use crate::nearest_range::NearestRangeState;
use crate::prefetch::{
    prefetch_queue_for, PrefetchScheduler, PrefetchSchedulerView, PrefetchStrategy,
};
use std::collections::HashMap;
use std::collections::VecDeque;
use std::ops::Range;
use vstd::prelude::*;

verus! {

/// Size assumed for an item before anything has been measured.
pub const DEFAULT_ITEM_SIZE_ESTIMATE: i64 = 48;

/// Number of measured sizes the state remembers.
pub const MAX_CACHED_SIZES: usize = 100;

/// Counters of item lifecycle events.
#[derive(Clone, Copy, Debug, PartialEq, Eq, Structural)]
pub struct LazyLayoutStats {
    /// Number of items currently instantiated and visible.
    pub items_in_use: usize,
    /// Number of slots waiting for reuse.
    pub items_in_pool: usize,
    /// Number of items instantiated so far.
    pub total_composed: usize,
    /// Number of those that took over an existing slot.
    pub reuse_count: usize,
}

impl Default for LazyLayoutStats {
    fn default() -> (stats: Self)
        ensures
            stats == LazyLayoutStats::zero(),
    {
        Self { items_in_use: 0, items_in_pool: 0, total_composed: 0, reuse_count: 0 }
    }
}

impl LazyLayoutStats {
    /// The counters of a list on which nothing has happened.
    pub open spec fn zero() -> Self {
        LazyLayoutStats { items_in_use: 0, items_in_pool: 0, total_composed: 0, reuse_count: 0 }
    }
}

/// One more than `n`, unless `n` is the largest count.
pub open spec fn count_up(n: usize) -> usize {
    if n < usize::MAX {
        (n + 1) as usize
    } else {
        n
    }
}

/// `index` held within a list of `item_count` items.
pub open spec fn clamp_index(index: usize, item_count: usize) -> usize {
    if item_count == 0 {
        0
    } else if index < item_count {
        index
    } else {
        (item_count - 1) as usize
    }
}

/// Sign of a scroll distance: `1`, `0` or `-1`.
pub open spec fn direction_of(delta: i64) -> i64 {
    if delta > 0 {
        1
    } else if delta < 0 {
        -1i64
    } else {
        0
    }
}

/// Where the anchor moves when the data set has changed: to the index at
/// which its key was found, or, when no key was remembered or the key is
/// gone, to the nearest index of the new list.
pub open spec fn relocated_index(
    index: usize,
    key: Option<u64>,
    found: Option<usize>,
    new_item_count: usize,
) -> usize {
    if key is Some && found is Some {
        found->0
    } else {
        clamp_index(index, new_item_count)
    }
}

/// The scroll state as a mathematical value.
pub struct LazyListStateView {
    /// Index of the anchor item.
    pub first_visible_item_index: usize,
    /// How far the anchor item is scrolled out at the start.
    pub first_visible_item_scroll_offset: i64,
    /// Slot identifier of the anchor item at the last pass.
    pub last_known_first_visible_key: Option<u64>,
    /// Scroll distance waiting for the next pass.
    pub scroll_to_be_consumed: i64,
    /// Jump waiting for the next pass.
    pub pending_scroll_to_index: Option<(usize, i64)>,
    /// Snapshot of the last pass.
    pub layout_info: LazyListLayoutInfoView,
    /// Lifecycle counters.
    pub stats: LazyLayoutStats,
    /// Whether the counters changed since they were last checked.
    pub stats_changed: bool,
    /// Remembered sizes by index.
    pub cached_sizes: Map<usize, i64>,
    /// The remembered indices, least recently stored first.
    pub cache_order: Seq<usize>,
    /// Sum of all sizes that entered the cache as new entries.
    pub measured_size_total: nat,
    /// Number of sizes that entered the cache as new entries.
    pub measured_item_count: usize,
    /// The prefetch scheduler.
    pub prefetch: PrefetchSchedulerView,
    /// The prefetch configuration.
    pub prefetch_strategy: PrefetchStrategy,
    /// Direction of the last recorded movement.
    pub last_scroll_direction: i64,
    /// The window in which keys are looked up.
    pub nearest_range: NearestRangeState,
}

impl LazyListStateView {
    /// Mean of the measured sizes, or the default estimate before the first
    /// measurement.
    pub open spec fn average_item_size(self) -> int {
        if self.measured_item_count == 0 {
            DEFAULT_ITEM_SIZE_ESTIMATE as int
        } else {
            self.measured_size_total as int / self.measured_item_count as int
        }
    }

    /// The remembered size of `index`, if any.
    pub open spec fn cached_size(self, index: usize) -> Option<i64> {
        if self.cached_sizes.contains_key(index) {
            Some(self.cached_sizes[index])
        } else {
            None
        }
    }

    /// The invariant of the size cache: the order lists each remembered index
    /// once, at most `MAX_CACHED_SIZES` sizes are remembered, and each is a
    /// length.
    pub open spec fn cache_wf(self) -> bool {
        &&& self.cache_order.no_duplicates()
        &&& self.cache_order.to_set() == self.cached_sizes.dom()
        &&& self.cache_order.len() <= MAX_CACHED_SIZES
        &&& forall|i: usize| #[trigger]
            self.cached_sizes.contains_key(i) ==> is_extent(self.cached_sizes[i] as int)
        &&& self.measured_size_total <= self.measured_item_count * MAX_EXTENT
    }

    /// The invariant of the state.
    pub open spec fn wf(self) -> bool {
        &&& is_extent(self.first_visible_item_scroll_offset as int)
        &&& is_distance(self.scroll_to_be_consumed as int)
        &&& match self.pending_scroll_to_index {
            Some((_, offset)) => is_extent(offset as int),
            None => true,
        }
        &&& -1 <= self.last_scroll_direction <= 1
        &&& self.cache_wf()
    }

    /// A state that waits for neither a jump nor a scroll distance.
    pub open spec fn is_settled(self) -> bool {
        &&& self.pending_scroll_to_index is None
        &&& self.scroll_to_be_consumed == 0
    }

    /// Position of a remembered index in the cache order.
    pub open spec fn cache_position(self, index: usize) -> int {
        choose|p: int| 0 <= p < self.cache_order.len() && self.cache_order[p] == index
    }

    /// The state after the size of `index` has been stored. A remembered
    /// index gets the new size and becomes the most recent entry. A new index
    /// pushes out the least recent entry of a full cache, becomes the most
    /// recent entry and enters the mean.
    pub open spec fn with_cached_size(self, index: usize, size: i64) -> Self {
        if self.cached_sizes.contains_key(index) {
            LazyListStateView {
                cached_sizes: self.cached_sizes.insert(index, size),
                cache_order: self.cache_order.remove(self.cache_position(index)).push(index),
                ..self
            }
        } else {
            let full = self.cache_order.len() >= MAX_CACHED_SIZES;
            let kept_sizes = if full {
                self.cached_sizes.remove(self.cache_order[0])
            } else {
                self.cached_sizes
            };
            let kept_order = if full {
                self.cache_order.drop_first()
            } else {
                self.cache_order
            };
            let counted = self.measured_item_count < usize::MAX;
            LazyListStateView {
                cached_sizes: kept_sizes.insert(index, size),
                cache_order: kept_order.push(index),
                measured_size_total: if counted {
                    (self.measured_size_total + size) as nat
                } else {
                    self.measured_size_total
                },
                measured_item_count: count_up(self.measured_item_count),
                ..self
            }
        }
    }

    /// The state of a list that starts at the given position.
    pub open spec fn initial(index: usize, scroll_offset: i64) -> Self {
        LazyListStateView {
            first_visible_item_index: index,
            first_visible_item_scroll_offset: scroll_offset,
            last_known_first_visible_key: None,
            scroll_to_be_consumed: 0,
            pending_scroll_to_index: None,
            layout_info: LazyListLayoutInfoView::empty(),
            stats: LazyLayoutStats::zero(),
            stats_changed: false,
            cached_sizes: Map::empty(),
            cache_order: Seq::empty(),
            measured_size_total: 0,
            measured_item_count: 0,
            prefetch: PrefetchSchedulerView { queue: Seq::empty(), prefetched: Set::empty() },
            prefetch_strategy: PrefetchStrategy { prefetch_count: 2, enabled: true },
            last_scroll_direction: 0,
            nearest_range: NearestRangeState::around(index),
        }
    }
}

/// Scroll position of a lazy list, with what the next measurement pass needs.
pub struct LazyListState {
    first_visible_item_index: usize,
    first_visible_item_scroll_offset: i64,
    last_known_first_visible_key: Option<u64>,
    scroll_to_be_consumed: i64,
    pending_scroll_to_index: Option<(usize, i64)>,
    layout_info: LazyListLayoutInfo,
    stats: LazyLayoutStats,
    stats_changed: bool,
    item_size_cache: HashMap<usize, i64>,
    item_size_lru: VecDeque<usize>,
    measured_size_total: u128,
    total_measured_items: usize,
    prefetch_scheduler: PrefetchScheduler,
    prefetch_strategy: PrefetchStrategy,
    last_scroll_direction: i64,
    nearest_range_state: NearestRangeState,
}

impl View for LazyListState {
    type V = LazyListStateView;

    closed spec fn view(&self) -> LazyListStateView {
        LazyListStateView {
            first_visible_item_index: self.first_visible_item_index,
            first_visible_item_scroll_offset: self.first_visible_item_scroll_offset,
            last_known_first_visible_key: self.last_known_first_visible_key,
            scroll_to_be_consumed: self.scroll_to_be_consumed,
            pending_scroll_to_index: self.pending_scroll_to_index,
            layout_info: self.layout_info@,
            stats: self.stats,
            stats_changed: self.stats_changed,
            cached_sizes: self.item_size_cache@,
            cache_order: self.item_size_lru@,
            measured_size_total: self.measured_size_total as nat,
            measured_item_count: self.total_measured_items,
            prefetch: self.prefetch_scheduler@,
            prefetch_strategy: self.prefetch_strategy,
            last_scroll_direction: self.last_scroll_direction,
            nearest_range: self.nearest_range_state,
        }
    }
}

impl Default for LazyListState {
    fn default() -> (state: Self)
        ensures
            state@.wf(),
            state@ == LazyListStateView::initial(0, 0),
    {
        Self::new()
    }
}

impl LazyListState {
    /// The state of a list that starts at its first item.
    pub fn new() -> (state: Self)
        ensures
            state@.wf(),
            state@ == LazyListStateView::initial(0, 0),
    {
        Self::with_initial_position(0, 0)
    }

    /// The state of a list that starts with item
    /// `initial_first_visible_item_index` scrolled out by
    /// `initial_first_visible_item_scroll_offset`.
    pub fn with_initial_position(
        initial_first_visible_item_index: usize,
        initial_first_visible_item_scroll_offset: i64,
    ) -> (state: Self)
        requires
            is_extent(initial_first_visible_item_scroll_offset as int),
        ensures
            state@.wf(),
            state@ == LazyListStateView::initial(
                initial_first_visible_item_index,
                initial_first_visible_item_scroll_offset,
            ),
    {
        let state = Self {
            first_visible_item_index: initial_first_visible_item_index,
            first_visible_item_scroll_offset: initial_first_visible_item_scroll_offset,
            last_known_first_visible_key: None,
            scroll_to_be_consumed: 0,
            pending_scroll_to_index: None,
            layout_info: LazyListLayoutInfo::default(),
            stats: LazyLayoutStats::default(),
            stats_changed: false,
            item_size_cache: HashMap::new(),
            item_size_lru: VecDeque::new(),
            measured_size_total: 0,
            total_measured_items: 0,
            prefetch_scheduler: PrefetchScheduler::new(),
            prefetch_strategy: PrefetchStrategy::default(),
            last_scroll_direction: 0,
            nearest_range_state: NearestRangeState::new(initial_first_visible_item_index),
        };
        proof {
            assert(state@.cache_order.to_set() =~= state@.cached_sizes.dom());
            assert(state@.cached_sizes =~= Map::empty());
        }
        state
    }

    /// Index of the anchor item.
    pub fn first_visible_item_index(&self) -> (index: usize)
        ensures
            index == self@.first_visible_item_index,
    {
        self.first_visible_item_index
    }

    /// How far the anchor item is scrolled out at the start of the viewport.
    pub fn first_visible_item_scroll_offset(&self) -> (offset: i64)
        ensures
            offset == self@.first_visible_item_scroll_offset,
    {
        self.first_visible_item_scroll_offset
    }

    /// Slot identifier of the anchor item at the last pass, if one was
    /// recorded since the last jump.
    pub fn last_known_first_visible_key(&self) -> (key: Option<u64>)
        ensures
            key == self@.last_known_first_visible_key,
    {
        self.last_known_first_visible_key
    }

    /// The snapshot of the last measurement pass.
    pub fn layout_info(&self) -> (info: LazyListLayoutInfo)
        ensures
            info@ == self@.layout_info,
    {
        self.layout_info.clone()
    }

    /// The lifecycle counters.
    pub fn stats(&self) -> (stats: LazyLayoutStats)
        ensures
            stats == self@.stats,
    {
        self.stats
    }

    /// Stores how many items are in use and how many wait in the pool, and
    /// notes whether either number changed.
    pub fn update_stats(&mut self, items_in_use: usize, items_in_pool: usize)
        ensures
            final(self)@ == (LazyListStateView {
                stats: LazyLayoutStats { items_in_use, items_in_pool, ..old(self)@.stats },
                stats_changed: old(self)@.stats_changed || old(self)@.stats.items_in_use
                    != items_in_use || old(self)@.stats.items_in_pool != items_in_pool,
                ..old(self)@
            }),
    {
        if self.stats.items_in_use != items_in_use || self.stats.items_in_pool != items_in_pool {
            self.stats.items_in_use = items_in_use;
            self.stats.items_in_pool = items_in_pool;
            self.stats_changed = true;
        }
    }

    /// Whether the counters changed since the last call; the note is cleared.
    pub fn check_stats_changed(&mut self) -> (changed: bool)
        ensures
            changed == old(self)@.stats_changed,
            final(self)@ == (LazyListStateView { stats_changed: false, ..old(self)@ }),
    {
        let changed = self.stats_changed;
        self.stats_changed = false;
        changed
    }

    /// Counts one instantiated item, and one reuse if `was_reused`. A counter
    /// that has reached the largest count stays there.
    pub fn record_composition(&mut self, was_reused: bool)
        ensures
            final(self)@ == (LazyListStateView {
                stats: LazyLayoutStats {
                    total_composed: count_up(old(self)@.stats.total_composed),
                    reuse_count: if was_reused {
                        count_up(old(self)@.stats.reuse_count)
                    } else {
                        old(self)@.stats.reuse_count
                    },
                    ..old(self)@.stats
                },
                ..old(self)@
            }),
    {
        if self.stats.total_composed < usize::MAX {
            self.stats.total_composed += 1;
        }
        if was_reused && self.stats.reuse_count < usize::MAX {
            self.stats.reuse_count += 1;
        }
    }

    /// Remembers the direction of a movement; a zero distance leaves the
    /// remembered direction as it is.
    pub fn record_scroll_direction(&mut self, delta: i64)
        ensures
            final(self)@ == (LazyListStateView {
                last_scroll_direction: if delta != 0 {
                    direction_of(delta)
                } else {
                    old(self)@.last_scroll_direction
                },
                ..old(self)@
            }),
    {
        if delta > 0 {
            self.last_scroll_direction = 1;
        } else if delta < 0 {
            self.last_scroll_direction = -1;
        }
    }

    /// Rebuilds the prefetch queue for the given window, in the remembered
    /// direction.
    pub fn update_prefetch_queue(
        &mut self,
        first_visible_index: usize,
        last_visible_index: usize,
        total_items: usize,
    )
        ensures
            final(self)@ == (LazyListStateView {
                prefetch: PrefetchSchedulerView {
                    queue: prefetch_queue_for(
                        first_visible_index,
                        last_visible_index,
                        total_items,
                        old(self)@.last_scroll_direction,
                        old(self)@.prefetch_strategy,
                    ),
                    prefetched: old(self)@.prefetch.prefetched,
                },
                ..old(self)@
            }),
    {
        let direction = self.last_scroll_direction;
        let strategy = self.prefetch_strategy;
        self.prefetch_scheduler.update(
            first_visible_index,
            last_visible_index,
            total_items,
            direction,
            &strategy,
        );
    }

    /// Empties the prefetch queue and returns what it held, most urgent
    /// first.
    pub fn take_prefetch_indices(&mut self) -> (indices: Vec<usize>)
        ensures
            indices@ == old(self)@.prefetch.queue,
            final(self)@ == (LazyListStateView {
                prefetch: PrefetchSchedulerView {
                    queue: Seq::empty(),
                    prefetched: old(self)@.prefetch.prefetched,
                },
                ..old(self)@
            }),
    {
        let mut indices: Vec<usize> = Vec::new();
        let ghost queued = self.prefetch_scheduler@.queue;
        loop
            invariant
                indices@ + self.prefetch_scheduler@.queue == queued,
                self.prefetch_scheduler@.prefetched == old(self)@.prefetch.prefetched,
                self.first_visible_item_index == old(self).first_visible_item_index,
                self.first_visible_item_scroll_offset == old(self).first_visible_item_scroll_offset,
                self.last_known_first_visible_key == old(self).last_known_first_visible_key,
                self.scroll_to_be_consumed == old(self).scroll_to_be_consumed,
                self.pending_scroll_to_index == old(self).pending_scroll_to_index,
                self.layout_info == old(self).layout_info,
                self.stats == old(self).stats,
                self.stats_changed == old(self).stats_changed,
                self.item_size_cache == old(self).item_size_cache,
                self.item_size_lru == old(self).item_size_lru,
                self.measured_size_total == old(self).measured_size_total,
                self.total_measured_items == old(self).total_measured_items,
                self.prefetch_strategy == old(self).prefetch_strategy,
                self.last_scroll_direction == old(self).last_scroll_direction,
                self.nearest_range_state == old(self).nearest_range_state,
            ensures
                self.prefetch_scheduler@.queue.len() == 0,
            decreases self.prefetch_scheduler@.queue.len(),
        {
            let ghost before = self.prefetch_scheduler@.queue;
            match self.prefetch_scheduler.next_prefetch() {
                Some(index) => {
                    indices.push(index);
                    assert(indices@ + self.prefetch_scheduler@.queue =~= queued) by {
                        assert(before =~= seq![index] + before.drop_first());
                    }
                },
                None => {
                    break ;
                },
            }
        }
        proof {
            assert(self.prefetch_scheduler@.queue =~= Seq::<usize>::empty());
            assert(indices@ =~= queued);
        }
        indices
    }

    /// Asks the next pass to show item `index` scrolled out by
    /// `scroll_offset`. The anchor moves there at once, and the remembered
    /// key is dropped so that it cannot pull the anchor back.
    pub fn scroll_to_item(&mut self, index: usize, scroll_offset: i64)
        requires
            is_extent(scroll_offset as int),
        ensures
            final(self)@ == (LazyListStateView {
                pending_scroll_to_index: Some((index, scroll_offset)),
                first_visible_item_index: index,
                first_visible_item_scroll_offset: scroll_offset,
                last_known_first_visible_key: None,
                ..old(self)@
            }),
            old(self)@.wf() ==> final(self)@.wf(),
    {
        self.pending_scroll_to_index = Some((index, scroll_offset));
        self.first_visible_item_index = index;
        self.first_visible_item_scroll_offset = scroll_offset;
        self.last_known_first_visible_key = None;
    }

    /// Adds `delta` to the scroll distance that waits for the next pass and
    /// returns `delta`. The waiting distance stays within `MAX_EXTENT` in
    /// either direction.
    pub fn dispatch_scroll_delta(&mut self, delta: i64) -> (consumed: i64)
        requires
            old(self)@.wf(),
        ensures
            consumed == delta,
            final(self)@ == (LazyListStateView {
                scroll_to_be_consumed: clamp_distance(
                    old(self)@.scroll_to_be_consumed + clamp_distance(delta as int),
                ) as i64,
                ..old(self)@
            }),
            final(self)@.wf(),
    {
        self.scroll_to_be_consumed = add_distances(self.scroll_to_be_consumed, delta);
        delta
    }

    /// Takes the waiting scroll distance; none waits afterwards.
    pub fn consume_scroll_delta(&mut self) -> (delta: i64)
        ensures
            delta == old(self)@.scroll_to_be_consumed,
            final(self)@ == (LazyListStateView { scroll_to_be_consumed: 0, ..old(self)@ }),
            old(self)@.wf() ==> final(self)@.wf(),
    {
        let delta = self.scroll_to_be_consumed;
        self.scroll_to_be_consumed = 0;
        delta
    }

    /// Takes the waiting jump; none waits afterwards.
    pub fn consume_scroll_to_index(&mut self) -> (request: Option<(usize, i64)>)
        ensures
            request == old(self)@.pending_scroll_to_index,
            final(self)@ == (LazyListStateView { pending_scroll_to_index: None, ..old(self)@ }),
            old(self)@.wf() ==> final(self)@.wf(),
    {
        self.pending_scroll_to_index.take()
    }

    /// Remembers the measured size of item `index`.
    pub fn cache_item_size(&mut self, index: usize, size: i64)
        requires
            old(self)@.wf(),
            is_extent(size as int),
        ensures
            final(self)@ == old(self)@.with_cached_size(index, size),
            final(self)@.wf(),
    {
        broadcast use vstd::std_specs::hash::group_hash_axioms;

        let ghost pre = self@;
        if self.item_size_cache.contains_key(&index) {
            self.item_size_cache.insert(index, size);
            let mut pos: usize = 0;
            while pos < self.item_size_lru.len() && self.item_size_lru[pos] != index
                invariant
                    pos <= self.item_size_lru.len(),
                    self.item_size_lru@ == pre.cache_order,
                    forall|j: int| 0 <= j < pos ==> self.item_size_lru@[j] != index,
                decreases self.item_size_lru.len() - pos,
            {
                pos += 1;
            }
            proof {
                assert(pre.cache_order.to_set().contains(index));
                assert(pre.cache_order.contains(index));
                assert(pos < pre.cache_order.len());
                let p = pre.cache_position(index);
                assert(p == pos);
            }
            self.item_size_lru.remove(pos);
            self.item_size_lru.push_back(index);
            proof {
                let moved = pre.cache_order.remove(pos as int).push(index);
                assert(self.item_size_lru@ == moved);
                assert(moved.no_duplicates()) by {
                    assert forall|a: int, b: int|
                        0 <= a < moved.len() && 0 <= b < moved.len() && a != b implies moved[a]
                        != moved[b] by {
                        let src = |k: int|
                            if k < pos {
                                k
                            } else if k < moved.len() - 1 {
                                k + 1
                            } else {
                                pos as int
                            };
                        assert(moved[a] == pre.cache_order[src(a)]);
                        assert(moved[b] == pre.cache_order[src(b)]);
                    }
                }
                assert(moved.to_set() =~= pre.cache_order.to_set()) by {
                    assert forall|x: usize| moved.to_set().contains(x) implies pre.cache_order.to_set().contains(
                        x,
                    ) by {
                        let k = choose|k: int| 0 <= k < moved.len() && moved[k] == x;
                        if k < pos {
                            assert(pre.cache_order[k] == x);
                        } else if k < moved.len() - 1 {
                            assert(pre.cache_order[k + 1] == x);
                        } else {
                            assert(pre.cache_order[pos as int] == x);
                        }
                    }
                    assert forall|x: usize| pre.cache_order.to_set().contains(x) implies moved.to_set().contains(
                        x,
                    ) by {
                        let k = choose|k: int| 0 <= k < pre.cache_order.len() && pre.cache_order[k] == x;
                        if k < pos {
                            assert(moved[k] == x);
                        } else if k == pos {
                            assert(moved[moved.len() - 1] == x);
                        } else {
                            assert(moved[k - 1] == x);
                        }
                    }
                }
                assert(self.item_size_cache@.dom() =~= pre.cached_sizes.dom());
                assert(self@ == pre.with_cached_size(index, size));
            }
            return ;
        }
        if self.item_size_cache.len() >= MAX_CACHED_SIZES {
            proof {
                pre.cache_order.unique_seq_to_set();
                assert(pre.cache_order.len() == pre.cached_sizes.dom().len());
            }
            if let Some(oldest) = self.item_size_lru.pop_front() {
                self.item_size_cache.remove(&oldest);
            }
        }
        proof {
            pre.cache_order.unique_seq_to_set();
        }
        let ghost full = pre.cache_order.len() >= MAX_CACHED_SIZES;
        let ghost kept_order = if full {
            pre.cache_order.drop_first()
        } else {
            pre.cache_order
        };
        let ghost kept_sizes = if full {
            pre.cached_sizes.remove(pre.cache_order[0])
        } else {
            pre.cached_sizes
        };
        proof {
            assert(self.item_size_lru@ =~= kept_order);
            assert(self.item_size_cache@ =~= kept_sizes);
            assert(kept_order.no_duplicates());
            assert(kept_order.to_set() =~= kept_sizes.dom()) by {
                if full {
                    assert forall|x: usize| kept_order.to_set().contains(x) implies kept_sizes.dom().contains(
                        x,
                    ) by {
                        let k = choose|k: int| 0 <= k < kept_order.len() && kept_order[k] == x;
                        assert(pre.cache_order[k + 1] == x);
                        assert(pre.cache_order.to_set().contains(x));
                    }
                    assert forall|x: usize| kept_sizes.dom().contains(x) implies kept_order.to_set().contains(
                        x,
                    ) by {
                        assert(pre.cache_order.to_set().contains(x));
                        let k = choose|k: int|
                            0 <= k < pre.cache_order.len() && pre.cache_order[k] == x;
                        assert(k != 0);
                        assert(kept_order[k - 1] == x);
                    }
                }
            }
            assert(!kept_order.contains(index)) by {
                if kept_order.contains(index) {
                    assert(kept_order.to_set().contains(index));
                    assert(kept_sizes.dom().contains(index));
                }
            }
        }
        self.item_size_cache.insert(index, size);
        self.item_size_lru.push_back(index);
        if self.total_measured_items < usize::MAX {
            proof {
                assert(self.measured_size_total + size <= (self.total_measured_items + 1)
                    * MAX_EXTENT) by (nonlinear_arith)
                    requires
                        self.measured_size_total <= self.total_measured_items * MAX_EXTENT,
                        0 <= size <= MAX_EXTENT,
                ;
                assert((self.total_measured_items + 1) * MAX_EXTENT <= usize::MAX * MAX_EXTENT)
                    by (nonlinear_arith)
                    requires
                        self.total_measured_items + 1 <= usize::MAX,
                ;
                assert(usize::MAX * MAX_EXTENT <= 0xffff_ffff_ffff_ffff * 0x100_0000_0000)
                    by (nonlinear_arith)
                    requires
                        usize::MAX <= 0xffff_ffff_ffff_ffff,
                        MAX_EXTENT == 0x100_0000_0000,
                ;
            }
            self.total_measured_items += 1;
            self.measured_size_total = self.measured_size_total + (size as u128);
        }
        proof {
            let order = kept_order.push(index);
            assert(self.item_size_lru@ == order);
            assert(order.no_duplicates()) by {
                assert forall|a: int, b: int|
                    0 <= a < order.len() && 0 <= b < order.len() && a != b implies order[a]
                    != order[b] by {
                    if a < kept_order.len() {
                        assert(kept_order.contains(order[a]));
                    }
                    if b < kept_order.len() {
                        assert(kept_order.contains(order[b]));
                    }
                }
            }
            assert(order.to_set() =~= kept_sizes.insert(index, size).dom()) by {
                assert forall|x: usize| order.to_set().contains(x) implies kept_sizes.insert(
                    index,
                    size,
                ).dom().contains(x) by {
                    let k = choose|k: int| 0 <= k < order.len() && order[k] == x;
                    if k < kept_order.len() {
                        assert(kept_order.to_set().contains(x));
                    }
                }
                assert forall|x: usize| kept_sizes.insert(index, size).dom().contains(
                    x,
                ) implies order.to_set().contains(x) by {
                    if x == index {
                        assert(order[order.len() - 1] == x);
                    } else {
                        assert(kept_order.to_set().contains(x));
                        let k = choose|k: int| 0 <= k < kept_order.len() && kept_order[k] == x;
                        assert(order[k] == x);
                    }
                }
            }
            assert(self@ == pre.with_cached_size(index, size));
        }
    }

    /// The remembered size of item `index`, if any.
    pub fn get_cached_size(&self, index: usize) -> (size: Option<i64>)
        ensures
            size == self@.cached_size(index),
            self@.wf() && size is Some ==> is_extent(size->0 as int),
    {
        broadcast use vstd::std_specs::hash::group_hash_axioms;

        match self.item_size_cache.get(&index) {
            Some(size) => Some(*size),
            None => None,
        }
    }

    /// Mean of the measured sizes, or the default estimate before the first
    /// measurement.
    pub fn average_item_size(&self) -> (average: i64)
        requires
            self@.wf(),
        ensures
            average == self@.average_item_size(),
            is_extent(average as int),
    {
        if self.total_measured_items == 0 {
            DEFAULT_ITEM_SIZE_ESTIMATE
        } else {
            let count: u128 = self.total_measured_items as u128;
            let mean: u128 = self.measured_size_total / count;
            proof {
                assert(self.measured_size_total as int / count as int <= MAX_EXTENT)
                    by (nonlinear_arith)
                    requires
                        self.measured_size_total <= count * MAX_EXTENT,
                        count > 0,
                ;
            }
            mean as i64
        }
    }

    /// The window in which keys are looked up.
    pub fn nearest_range(&self) -> (r: Range<usize>)
        ensures
            r.start == self@.nearest_range.spec_start(),
            r.end == self@.nearest_range.spec_end(),
    {
        self.nearest_range_state.range()
    }

    /// Moves the lookup window so that it lies around the anchor.
    pub fn update_nearest_range(&mut self)
        ensures
            final(self)@ == (LazyListStateView {
                nearest_range: NearestRangeState::around(old(self)@.first_visible_item_index),
                ..old(self)@
            }),
    {
        let index = self.first_visible_item_index;
        self.nearest_range_state.update(index);
    }

    /// Moves the anchor; the remembered key stays.
    pub fn update_scroll_position(
        &mut self,
        first_visible_item_index: usize,
        first_visible_item_scroll_offset: i64,
    )
        ensures
            final(self)@ == (LazyListStateView {
                first_visible_item_index,
                first_visible_item_scroll_offset,
                ..old(self)@
            }),
    {
        self.first_visible_item_index = first_visible_item_index;
        self.first_visible_item_scroll_offset = first_visible_item_scroll_offset;
    }

    /// Moves the anchor and remembers the slot identifier of the anchor item.
    pub fn update_scroll_position_with_key(
        &mut self,
        first_visible_item_index: usize,
        first_visible_item_scroll_offset: i64,
        first_visible_item_key: u64,
    )
        ensures
            final(self)@ == (LazyListStateView {
                first_visible_item_index,
                first_visible_item_scroll_offset,
                last_known_first_visible_key: Some(first_visible_item_key),
                ..old(self)@
            }),
    {
        self.first_visible_item_index = first_visible_item_index;
        self.first_visible_item_scroll_offset = first_visible_item_scroll_offset;
        self.last_known_first_visible_key = Some(first_visible_item_key);
    }

    /// Moves the anchor after the data set has changed, given the index at
    /// which the remembered key was found (`None` when it was not found or
    /// not looked for). Returns the new anchor index.
    pub fn relocate_anchor(&mut self, new_item_count: usize, found: Option<usize>) -> (index:
        usize)
        ensures
            index == relocated_index(
                old(self)@.first_visible_item_index,
                old(self)@.last_known_first_visible_key,
                found,
                new_item_count,
            ),
            final(self)@ == (LazyListStateView { first_visible_item_index: index, ..old(self)@ }),
            old(self)@.wf() ==> final(self)@.wf(),
    {
        let moved: Option<usize> = match self.last_known_first_visible_key {
            Some(_) => found,
            None => None,
        };
        match moved {
            Some(new_index) => {
                self.first_visible_item_index = new_index;
            },
            None => {
                if new_item_count == 0 {
                    self.first_visible_item_index = 0;
                } else if self.first_visible_item_index >= new_item_count {
                    self.first_visible_item_index = new_item_count - 1;
                }
            },
        }
        self.first_visible_item_index
    }

    /// Keeps the anchor on its item after the data set has changed. If a key
    /// was remembered, `get_index_by_key` is asked where that key lives now;
    /// the anchor moves there, or to the nearest index of the new list if the
    /// key is gone. Without a remembered key nothing is looked up and the
    /// anchor moves to the nearest index of the new list.
    pub fn update_scroll_position_if_item_moved<F>(
        &mut self,
        new_item_count: usize,
        get_index_by_key: F,
    ) -> (index: usize) where F: Fn(u64) -> Option<usize>
        requires
            old(self)@.last_known_first_visible_key is Some ==> call_requires(
                get_index_by_key,
                (old(self)@.last_known_first_visible_key->0,),
            ),
        ensures
            final(self)@ == (LazyListStateView { first_visible_item_index: index, ..old(self)@ }),
            old(self)@.last_known_first_visible_key is None ==> index == clamp_index(
                old(self)@.first_visible_item_index,
                new_item_count,
            ),
            old(self)@.last_known_first_visible_key is Some ==> exists|found: Option<usize>|
                {
                    &&& call_ensures(
                        get_index_by_key,
                        (old(self)@.last_known_first_visible_key->0,),
                        found,
                    )
                    &&& index == relocated_index(
                        old(self)@.first_visible_item_index,
                        old(self)@.last_known_first_visible_key,
                        found,
                        new_item_count,
                    )
                },
            old(self)@.wf() ==> final(self)@.wf(),
    {
        match self.last_known_first_visible_key {
            Some(last_key) => {
                let found = get_index_by_key(last_key);
                self.relocate_anchor(new_item_count, found)
            },
            None => self.relocate_anchor(new_item_count, None),
        }
    }

    /// Replaces the snapshot of the last pass.
    pub fn update_layout_info(&mut self, info: LazyListLayoutInfo)
        ensures
            final(self)@ == (LazyListStateView { layout_info: info@, ..old(self)@ }),
            old(self)@.wf() ==> final(self)@.wf(),
    {
        self.layout_info = info;
    }

    /// Whether content remains after what the last pass placed.
    pub fn can_scroll_forward(&self) -> (b: bool)
        ensures
            b == self@.layout_info.can_scroll_forward(),
    {
        let info = &self.layout_info;
        let n = info.visible_items_info.len();
        if n > 0 {
            let last_visible = info.visible_items_info[n - 1];
            let rest: usize = if info.total_items_count > 0 {
                info.total_items_count - 1
            } else {
                0
            };
            let last_end: i128 = last_visible.offset as i128 + last_visible.size as i128;
            last_visible.index < rest || last_end > info.viewport_size as i128
        } else {
            false
        }
    }

    /// Whether content remains before the viewport.
    pub fn can_scroll_backward(&self) -> (b: bool)
        ensures
            b == (self@.first_visible_item_index > 0 || self@.first_visible_item_scroll_offset
                > 0),
    {
        self.first_visible_item_index > 0 || self.first_visible_item_scroll_offset > 0
    }
}

} // verus!
