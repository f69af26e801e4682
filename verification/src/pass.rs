//! What surrounds a measurement pass.
//!
//! Before a pass the anchor is moved to where its item lives after the data
//! set has changed. After a pass the lifecycle counters, the remembered
//! direction and the prefetch queue are brought up to date, and the items
//! worth instantiating ahead of time are handed out.

use crate::extent::{is_extent, max_int};
use crate::measured_item::{LazyListMeasureResult, LazyListMeasuredItem};
use crate::nearest_range::NearestRangeState;
use crate::prefetch::{prefetch_queue_for, PrefetchSchedulerView};
use crate::scope::{
    first_index_with_slot_id, item_total, last_index_with_slot_id, LazyListInterval,
    LazyListIntervalContent, MAX_KEY_CACHE_SIZE,
};
use crate::state::{
    relocated_index, LazyLayoutStats, LazyListState, LazyListStateView, DEFAULT_ITEM_SIZE_ESTIMATE,
};
use vstd::prelude::*;

verus! {

/// Where the key with slot identifier `slot_id` lives: in a list short
/// enough for a lookup table, at the largest index that has it; otherwise,
/// or if the table does not know it, at the smallest index that has it
/// within `[start, end)`.
pub open spec fn slot_index<K: Fn(usize) -> u64, T, C>(
    s: Seq<LazyListInterval<K, T, C>>,
    slot_id: u64,
    start: usize,
    end: usize,
) -> Option<usize> {
    let by_table = if item_total(s) <= MAX_KEY_CACHE_SIZE {
        last_index_with_slot_id(s, slot_id, item_total(s))
    } else {
        None
    };
    if by_table is Some {
        by_table
    } else {
        first_index_with_slot_id(
            s,
            slot_id,
            if start <= item_total(s) {
                start as int
            } else {
                item_total(s)
            },
            if end <= item_total(s) {
                end as int
            } else {
                item_total(s)
            },
        )
    }
}

/// The state after the anchor has been moved to where its item lives in
/// `s`. Nothing moves while the list is empty. Otherwise the remembered key
/// is looked up, the anchor goes where it was found or to the nearest index
/// of the list, and the lookup window is put around the new anchor.
pub open spec fn anchor_settled<K: Fn(usize) -> u64, T, C>(
    state: LazyListStateView,
    s: Seq<LazyListInterval<K, T, C>>,
) -> LazyListStateView {
    if item_total(s) == 0 {
        state
    } else {
        let found = match state.last_known_first_visible_key {
            Some(slot_id) => slot_index(
                s,
                slot_id,
                state.nearest_range.spec_start(),
                state.nearest_range.spec_end(),
            ),
            None => None,
        };
        let index = relocated_index(
            state.first_visible_item_index,
            state.last_known_first_visible_key,
            found,
            item_total(s) as usize,
        );
        LazyListStateView {
            first_visible_item_index: index,
            nearest_range: NearestRangeState::around(index),
            ..state
        }
    }
}

/// Moves the anchor to where its item lives in `content`, so that items
/// added or removed before it do not move what is on screen.
pub fn settle_anchor<K: Fn(usize) -> u64, T: Fn(usize) -> u64, C: Fn(usize)>(
    state: &mut LazyListState,
    content: &mut LazyListIntervalContent<K, T, C>,
)
    requires
        old(content).wf(),
    ensures
        final(content).wf(),
        final(content)@ == old(content)@,
        final(state)@ == anchor_settled(old(state)@, old(content)@),
        old(state)@.wf() ==> final(state)@.wf(),
{
    let items_count = content.item_count();
    if items_count > 0 {
        let found: Option<usize> = match state.last_known_first_visible_key() {
            Some(slot_id) => {
                let range = state.nearest_range();
                match content.get_index_by_slot_id(slot_id) {
                    Some(index) => Some(index),
                    None => content.get_index_by_slot_id_in_range(slot_id, range),
                }
            },
            None => None,
        };
        state.relocate_anchor(items_count, found);
        state.update_nearest_range();
    }
}

/// Number of items of `v` of which some part lies inside a viewport of
/// `viewport_size`.
pub open spec fn truly_visible_count(v: Seq<LazyListMeasuredItem>, viewport_size: int) -> nat
    decreases v.len(),
{
    if v.len() == 0 {
        0
    } else {
        truly_visible_count(v.drop_last(), viewport_size) + if v.last().offset < viewport_size
            && v.last().end() > 0 {
            1nat
        } else {
            0nat
        }
    }
}

/// An item to instantiate ahead of time, with the room to reserve for it
/// along the scrolling axis.
#[derive(Clone, Copy, Debug, PartialEq, Eq, Structural)]
pub struct PrefetchRequest {
    /// Index of the item.
    pub index: usize,
    /// Its remembered size, or the larger of the mean size and the default
    /// estimate, plus the spacing.
    pub estimated_size: i64,
}

/// The request for the item at `index`.
pub open spec fn prefetch_request(state: LazyListStateView, index: usize, spacing: i64) -> PrefetchRequest {
    PrefetchRequest {
        index,
        estimated_size: (match state.cached_size(index) {
            Some(size) => size as int,
            None => max_int(state.average_item_size(), DEFAULT_ITEM_SIZE_ESTIMATE as int),
        } + spacing) as i64,
    }
}

/// Direction in which the first placed item moved against the first item
/// of the snapshot.
pub open spec fn inferred_direction(state: LazyListStateView, first: usize) -> i64 {
    let previous: usize = if state.layout_info.visible_items_info.len() > 0 {
        state.layout_info.visible_items_info[0].index
    } else {
        0
    };
    if first > previous {
        1
    } else if first < previous {
        -1i64
    } else {
        0
    }
}

/// The state with the number of items on screen and in the pool stored.
pub open spec fn with_counts(
    state: LazyListStateView,
    items_in_use: usize,
    items_in_pool: usize,
) -> LazyListStateView {
    LazyListStateView {
        stats: LazyLayoutStats { items_in_use, items_in_pool, ..state.stats },
        stats_changed: state.stats_changed || state.stats.items_in_use != items_in_use
            || state.stats.items_in_pool != items_in_pool,
        ..state
    }
}

/// The direction remembered once the first placed item is known.
pub open spec fn direction_after(state: LazyListStateView, first: usize) -> i64 {
    if inferred_direction(state, first) != 0 {
        inferred_direction(state, first)
    } else {
        state.last_scroll_direction
    }
}

/// The indices handed out for prefetching after a pass that placed `v`.
pub open spec fn prefetch_indices_after(
    state: LazyListStateView,
    v: Seq<LazyListMeasuredItem>,
    items_count: usize,
) -> Seq<usize> {
    if v.len() == 0 {
        Seq::empty()
    } else {
        prefetch_queue_for(
            v[0].index,
            v.last().index,
            items_count,
            direction_after(state, v[0].index),
            state.prefetch_strategy,
        )
    }
}

/// The state once a pass that placed `v` has been recorded: the counters
/// hold the number of items inside the viewport and the number of slots in
/// the pool; if anything was placed, the direction is the one inferred, or
/// the one remembered if none can be inferred, and the prefetch queue has
/// been built and handed out.
pub open spec fn pass_recorded(
    state: LazyListStateView,
    v: Seq<LazyListMeasuredItem>,
    viewport_size: i64,
    items_in_pool: usize,
) -> LazyListStateView {
    let counted = with_counts(
        state,
        truly_visible_count(v, viewport_size as int) as usize,
        items_in_pool,
    );
    if v.len() == 0 {
        counted
    } else {
        LazyListStateView {
            last_scroll_direction: direction_after(state, v[0].index),
            prefetch: PrefetchSchedulerView {
                queue: Seq::empty(),
                prefetched: state.prefetch.prefetched,
            },
            ..counted
        }
    }
}

/// Counts the items of which some part lies inside the viewport.
fn count_truly_visible(items: &Vec<LazyListMeasuredItem>, viewport_size: i64) -> (count: usize)
    ensures
        count == truly_visible_count(items@, viewport_size as int),
{
    let mut count: usize = 0;
    let mut i: usize = 0;
    while i < items.len()
        invariant
            i <= items.len(),
            count <= i,
            count == truly_visible_count(items@.take(i as int), viewport_size as int),
        decreases items.len() - i,
    {
        proof {
            let next = items@.take(i + 1);
            assert(next.drop_last() =~= items@.take(i as int));
            assert(next.last() == items@[i as int]);
        }
        let item = &items[i];
        let item_end: i128 = item.offset as i128 + item.main_axis_size as i128;
        if item.offset < viewport_size && item_end > 0 {
            count += 1;
        }
        i += 1;
    }
    assert(items@.take(i as int) =~= items@);
    count
}

/// Records a finished pass in the state and returns, most urgent first, the
/// items to instantiate ahead of time.
pub fn record_pass(
    state: &mut LazyListState,
    result: &LazyListMeasureResult,
    items_count: usize,
    viewport_size: i64,
    spacing: i64,
    items_in_pool: usize,
) -> (requests: Vec<PrefetchRequest>)
    requires
        old(state)@.wf(),
        is_extent(spacing as int),
    ensures
        final(state)@ == pass_recorded(
            old(state)@,
            result.visible_items@,
            viewport_size,
            items_in_pool,
        ),
        final(state)@.wf(),
        requests@ == Seq::new(
            prefetch_indices_after(old(state)@, result.visible_items@, items_count).len(),
            |k: int|
                prefetch_request(
                    old(state)@,
                    prefetch_indices_after(old(state)@, result.visible_items@, items_count)[k],
                    spacing,
                ),
        ),
{
    let ghost pre = state@;
    let ghost v = result.visible_items@;
    let truly_visible = count_truly_visible(&result.visible_items, viewport_size);
    state.update_stats(truly_visible, items_in_pool);
    let mut requests: Vec<PrefetchRequest> = Vec::new();
    let n = result.visible_items.len();
    if n > 0 {
        let layout_info = state.layout_info();
        let first_visible = result.visible_items[0].index;
        let last_visible = result.visible_items[n - 1].index;
        let prev_first: usize = if layout_info.visible_items_info.len() > 0 {
            layout_info.visible_items_info[0].index
        } else {
            0
        };
        let direction: i64 = if first_visible > prev_first {
            1
        } else if first_visible < prev_first {
            -1
        } else {
            0
        };
        state.record_scroll_direction(direction);
        state.update_prefetch_queue(first_visible, last_visible, items_count);
        let prefetch_indices = state.take_prefetch_indices();
        let ghost handed_out = prefetch_indices_after(pre, v, items_count);
        assert(prefetch_indices@ == handed_out);
        let average_size = state.average_item_size();
        let fallback: i64 = if average_size > DEFAULT_ITEM_SIZE_ESTIMATE {
            average_size
        } else {
            DEFAULT_ITEM_SIZE_ESTIMATE
        };
        let mut k: usize = 0;
        while k < prefetch_indices.len()
            invariant
                k <= prefetch_indices.len(),
                prefetch_indices@ == handed_out,
                state@ == pass_recorded(pre, v, viewport_size, items_in_pool),
                state@.wf(),
                pre.wf(),
                is_extent(spacing as int),
                fallback == max_int(pre.average_item_size(), DEFAULT_ITEM_SIZE_ESTIMATE as int),
                is_extent(fallback as int),
                requests@ == Seq::new(
                    k as nat,
                    |j: int| prefetch_request(pre, handed_out[j], spacing),
                ),
            decreases prefetch_indices.len() - k,
        {
            let idx = prefetch_indices[k];
            let estimated_size: i64 = match state.get_cached_size(idx) {
                Some(size) => size,
                None => fallback,
            };
            requests.push(PrefetchRequest { index: idx, estimated_size: estimated_size + spacing });
            k += 1;
            assert(requests@ =~= Seq::new(
                k as nat,
                |j: int| prefetch_request(pre, handed_out[j], spacing),
            ));
        }
    } else {
        assert(requests@ =~= Seq::new(
            0nat,
            |k: int| prefetch_request(pre, prefetch_indices_after(pre, v, items_count)[k], spacing),
        ));
    }
    requests
}

} // verus!
