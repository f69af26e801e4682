//! Where a measurement pass starts.
//!
//! A pass begins by turning the state's anchor and its waiting requests into
//! the index and offset from which items are laid out. A waiting jump
//! replaces the anchor, the waiting scroll distance moves it, and an anchor
//! that has left its item is walked to the item that now holds it; long
//! distances are bridged by estimate instead of item by item.

use crate::extent::{is_extent, max_int, min_int, MAX_EXTENT};
use crate::state::{LazyListState, LazyListStateView, DEFAULT_ITEM_SIZE_ESTIMATE};
use vstd::prelude::*;

verus! {

/// Viewports above this size are taken to be unbounded.
pub const MAX_REASONABLE_VIEWPORT: i64 = 100_000;

/// Number of items that the stand-in for an unbounded viewport shows.
pub const UNBOUNDED_VIEWPORT_ITEMS: i64 = 20;

/// A scroll position: an item and how far it is scrolled out at the start.
pub struct ScrollAnchor {
    pub index: int,
    pub offset: int,
}

/// The viewport that is laid out: the given one, or for an unbounded one a
/// stand-in that shows about `UNBOUNDED_VIEWPORT_ITEMS` items of average
/// size.
pub open spec fn effective_viewport_size(viewport_size: int, average: int, spacing: int) -> int {
    if viewport_size > MAX_REASONABLE_VIEWPORT {
        (max_int(average, DEFAULT_ITEM_SIZE_ESTIMATE as int) + spacing) * UNBOUNDED_VIEWPORT_ITEMS
    } else {
        viewport_size
    }
}

/// The position asked for: the waiting jump if there is one, else the
/// anchor, held within the list and moved by the waiting scroll distance.
pub open spec fn requested_anchor(state: LazyListStateView, items_count: int) -> ScrollAnchor {
    let (index, offset) = match state.pending_scroll_to_index {
        Some((target, target_offset)) => (target, target_offset),
        None => (state.first_visible_item_index, state.first_visible_item_scroll_offset),
    };
    ScrollAnchor {
        index: min_int(index as int, items_count - 1),
        offset: offset - state.scroll_to_be_consumed,
    }
}

/// Bridges a backward distance of more than one viewport by whole items of
/// average size.
pub open spec fn bulk_jump_back(
    a: ScrollAnchor,
    average: int,
    spacing: int,
    viewport: int,
) -> ScrollAnchor {
    if a.offset < 0 && a.index > 0 && average > 0 && a.offset < -viewport {
        let jump = min_int((-a.offset - viewport) / (average + spacing), a.index);
        ScrollAnchor { index: a.index - jump, offset: a.offset + jump * (average + spacing) }
    } else {
        a
    }
}

/// The size assumed for an item that precedes the anchor: its remembered
/// size, or the average.
pub open spec fn estimated_size(cached: Map<usize, i64>, average: int, index: int) -> int {
    if cached.contains_key(index as usize) {
        cached[index as usize] as int
    } else {
        average
    }
}

/// Walks a negative offset back item by item until it is inside an item or
/// the list starts.
pub open spec fn walk_back(
    a: ScrollAnchor,
    cached: Map<usize, i64>,
    average: int,
    spacing: int,
) -> ScrollAnchor
    decreases a.index,
{
    if a.offset < 0 && a.index > 0 {
        walk_back(
            ScrollAnchor {
                index: a.index - 1,
                offset: a.offset + estimated_size(cached, average, a.index - 1) + spacing,
            },
            cached,
            average,
            spacing,
        )
    } else {
        a
    }
}

/// Holds a position within the list and its offset at or above zero.
pub open spec fn clamp_anchor(a: ScrollAnchor, items_count: int) -> ScrollAnchor {
    ScrollAnchor { index: min_int(a.index, items_count - 1), offset: max_int(a.offset, 0) }
}

/// Bridges a forward distance of more than one viewport by whole items of
/// average size, without passing the last item.
pub open spec fn skip_forward(
    a: ScrollAnchor,
    average: int,
    viewport: int,
    items_count: int,
) -> ScrollAnchor {
    if a.offset > 0 && average > 0 && a.offset > viewport {
        let skip = min_int((a.offset - viewport) / average, items_count - 1 - a.index);
        ScrollAnchor { index: a.index + skip, offset: a.offset - skip * average }
    } else {
        a
    }
}

/// The position from which a pass lays items out.
pub open spec fn resolved_anchor(
    state: LazyListStateView,
    items_count: int,
    viewport: int,
    spacing: int,
) -> ScrollAnchor {
    let average = state.average_item_size();
    skip_forward(
        clamp_anchor(
            walk_back(
                bulk_jump_back(requested_anchor(state, items_count), average, spacing, viewport),
                state.cached_sizes,
                average,
                spacing,
            ),
            items_count,
        ),
        average,
        viewport,
        items_count,
    )
}

/// The state once a pass has taken its waiting requests.
pub open spec fn requests_consumed(state: LazyListStateView) -> LazyListStateView {
    LazyListStateView { pending_scroll_to_index: None, scroll_to_be_consumed: 0, ..state }
}

/// A whole number of steps that fits into a distance covers no more than
/// that distance.
proof fn lemma_steps_within(distance: int, step: int, count: int)
    requires
        distance >= 0,
        step > 0,
        0 <= count <= distance / step,
    ensures
        0 <= count * step <= distance,
        distance / step <= distance,
        distance - (distance / step) * step < step,
{
    assert(count * step <= (distance / step) * step) by (nonlinear_arith)
        requires
            0 <= count <= distance / step,
            step > 0,
    ;
    assert((distance / step) * step <= distance && distance - (distance / step) * step < step
        && distance / step <= distance) by (nonlinear_arith)
        requires
            distance >= 0,
            step > 0,
    ;
    assert(0 <= count * step) by (nonlinear_arith)
        requires
            0 <= count,
            step > 0,
    ;
}

/// The viewport that is laid out for `viewport_size`.
pub fn effective_viewport(viewport_size: i64, average: i64, spacing: i64) -> (viewport: i64)
    requires
        viewport_size > 0,
        is_extent(average as int),
        is_extent(spacing as int),
    ensures
        viewport == effective_viewport_size(viewport_size as int, average as int, spacing as int),
        0 < viewport <= 40 * MAX_EXTENT,
{
    if viewport_size > MAX_REASONABLE_VIEWPORT {
        let item: i64 = if average > DEFAULT_ITEM_SIZE_ESTIMATE {
            average
        } else {
            DEFAULT_ITEM_SIZE_ESTIMATE
        };
        (item + spacing) * UNBOUNDED_VIEWPORT_ITEMS
    } else {
        viewport_size
    }
}

/// Takes the waiting requests off the state and returns the position from
/// which the pass lays items out.
pub fn resolve_anchor(
    items_count: usize,
    state: &mut LazyListState,
    viewport: i64,
    spacing: i64,
) -> (anchor: (usize, i64))
    requires
        items_count > 0,
        old(state)@.wf(),
        0 < viewport <= 40 * MAX_EXTENT,
        is_extent(spacing as int),
    ensures
        (ScrollAnchor { index: anchor.0 as int, offset: anchor.1 as int }) == resolved_anchor(
            old(state)@,
            items_count as int,
            viewport as int,
            spacing as int,
        ),
        anchor.0 < items_count,
        0 <= anchor.1 <= 2 * MAX_EXTENT,
        final(state)@ == requests_consumed(old(state)@),
        final(state)@.wf(),
{
    let ghost pre = state@;
    let ghost requested = requested_anchor(pre, items_count as int);
    let last_index: usize = items_count - 1;
    let (mut first_item_index, mut first_item_scroll_offset): (usize, i64) =
        match state.consume_scroll_to_index() {
        Some((target_index, target_offset)) => {
            (if target_index < last_index {
                target_index
            } else {
                last_index
            }, target_offset)
        },
        None => {
            let index = state.first_visible_item_index();
            (if index < last_index {
                index
            } else {
                last_index
            }, state.first_visible_item_scroll_offset())
        },
    };
    let scroll_delta = state.consume_scroll_delta();
    first_item_scroll_offset = first_item_scroll_offset - scroll_delta;
    assert(state@ == requests_consumed(pre));
    assert(first_item_index == requested.index && first_item_scroll_offset == requested.offset);
    let average_size = state.average_item_size();
    assert(average_size == pre.average_item_size());
    let step: i64 = average_size + spacing;

    if first_item_scroll_offset < 0 && first_item_index > 0 {
        if average_size > 0 && first_item_scroll_offset < -viewport {
            let pixels_to_jump: i64 = (-first_item_scroll_offset) - viewport;
            let items_to_jump: u64 = (pixels_to_jump / step) as u64;
            let index_reach: u64 = first_item_index as u64;
            let actual_jump: u64 = if items_to_jump < index_reach {
                items_to_jump
            } else {
                index_reach
            };
            proof {
                lemma_steps_within(pixels_to_jump as int, step as int, actual_jump as int);
                assert(actual_jump as int == min_int(
                    (-requested.offset - viewport) / (average_size + spacing),
                    requested.index,
                ));
                assert(0 * (average_size + spacing) == 0);
            }
            if actual_jump > 0 {
                first_item_index = first_item_index - (actual_jump as usize);
                first_item_scroll_offset = first_item_scroll_offset + (actual_jump as i64) * step;
            }
        }
        let ghost jumped = ScrollAnchor {
            index: first_item_index as int,
            offset: first_item_scroll_offset as int,
        };
        assert(jumped == bulk_jump_back(
            requested,
            average_size as int,
            spacing as int,
            viewport as int,
        ));
        while first_item_scroll_offset < 0 && first_item_index > 0
            invariant
                state@ == requests_consumed(pre),
                pre.wf(),
                average_size == pre.average_item_size(),
                is_extent(average_size as int),
                is_extent(spacing as int),
                first_item_index < items_count,
                -2 * MAX_EXTENT <= first_item_scroll_offset <= 2 * MAX_EXTENT,
                walk_back(
                    ScrollAnchor {
                        index: first_item_index as int,
                        offset: first_item_scroll_offset as int,
                    },
                    pre.cached_sizes,
                    average_size as int,
                    spacing as int,
                ) == walk_back(jumped, pre.cached_sizes, average_size as int, spacing as int),
            decreases first_item_index,
        {
            first_item_index -= 1;
            let estimated: i64 = match state.get_cached_size(first_item_index) {
                Some(size) => size,
                None => average_size,
            };
            assert(estimated == estimated_size(
                pre.cached_sizes,
                average_size as int,
                first_item_index as int,
            ));
            first_item_scroll_offset = first_item_scroll_offset + estimated + spacing;
        }
    }
    let ghost walked = ScrollAnchor {
        index: first_item_index as int,
        offset: first_item_scroll_offset as int,
    };
    assert(walked == walk_back(
        bulk_jump_back(requested, average_size as int, spacing as int, viewport as int),
        pre.cached_sizes,
        average_size as int,
        spacing as int,
    ));

    if first_item_index > last_index {
        first_item_index = last_index;
    }
    if first_item_scroll_offset < 0 {
        first_item_scroll_offset = 0;
    }
    assert((ScrollAnchor {
        index: first_item_index as int,
        offset: first_item_scroll_offset as int,
    }) == clamp_anchor(walked, items_count as int));

    if first_item_scroll_offset > 0 {
        if average_size > 0 {
            let buffer_pixels: i64 = viewport;
            if first_item_scroll_offset > buffer_pixels {
                let pixels_to_skip: i64 = first_item_scroll_offset - buffer_pixels;
                let items_to_skip: u64 = (pixels_to_skip / average_size) as u64;
                let max_skip: u64 = (last_index - first_item_index) as u64;
                let actual_skip: u64 = if items_to_skip < max_skip {
                    items_to_skip
                } else {
                    max_skip
                };
                proof {
                    lemma_steps_within(
                        pixels_to_skip as int,
                        average_size as int,
                        actual_skip as int,
                    );
                    assert(actual_skip as int == min_int(
                        (first_item_scroll_offset - viewport) / (average_size as int),
                        items_count - 1 - first_item_index,
                    ));
                    assert(0 * (average_size as int) == 0);
                }
                if actual_skip > 0 {
                    first_item_index = first_item_index + (actual_skip as usize);
                    first_item_scroll_offset = first_item_scroll_offset - (actual_skip as i64)
                        * average_size;
                }
            }
        }
    }
    assert((ScrollAnchor {
        index: first_item_index as int,
        offset: first_item_scroll_offset as int,
    }) == skip_forward(
        clamp_anchor(walked, items_count as int),
        average_size as int,
        viewport as int,
        items_count as int,
    ));
    (first_item_index, first_item_scroll_offset)
}

} // verus!
