//! The window of indices in which keys are looked up.
//!
//! Searching a very long list for a key is only affordable near the current
//! scroll position. The window slides in steps, so that it changes rarely
//! while the list scrolls.

use std::ops::Range;
use vstd::prelude::*;

verus! {

/// The window moves in steps of this many items.
pub const NEAREST_ITEMS_SLIDING_WINDOW_SIZE: usize = 30;

/// Items kept on either side of the current step.
pub const NEAREST_ITEMS_EXTRA_COUNT: usize = 100;

/// First index of the step that holds `first_visible`.
pub open spec fn sliding_window_start(first_visible: usize) -> int {
    (first_visible as int / NEAREST_ITEMS_SLIDING_WINDOW_SIZE as int)
        * NEAREST_ITEMS_SLIDING_WINDOW_SIZE as int
}

/// First index of the window around `first_visible`.
pub open spec fn nearest_range_start(first_visible: usize) -> int {
    if sliding_window_start(first_visible) >= NEAREST_ITEMS_EXTRA_COUNT {
        sliding_window_start(first_visible) - NEAREST_ITEMS_EXTRA_COUNT
    } else {
        0
    }
}

/// End (exclusive) of the window around `first_visible`, held within `usize`.
pub open spec fn nearest_range_end(first_visible: usize) -> int {
    let end = sliding_window_start(first_visible) + NEAREST_ITEMS_SLIDING_WINDOW_SIZE
        + NEAREST_ITEMS_EXTRA_COUNT;
    if end <= usize::MAX {
        end
    } else {
        usize::MAX as int
    }
}

/// A sliding window of indices around the first visible item.
#[derive(Clone, Copy, Debug)]
pub struct NearestRangeState {
    start: usize,
    end: usize,
}

impl NearestRangeState {
    /// First index of the window.
    pub closed spec fn spec_start(&self) -> usize {
        self.start
    }

    /// End (exclusive) of the window.
    pub closed spec fn spec_end(&self) -> usize {
        self.end
    }

    /// The window around `first_visible`.
    pub closed spec fn around(first_visible: usize) -> Self {
        NearestRangeState {
            start: nearest_range_start(first_visible) as usize,
            end: nearest_range_end(first_visible) as usize,
        }
    }

    /// The window around `first_visible_item`.
    pub fn new(first_visible_item: usize) -> (state: Self)
        ensures
            state == Self::around(first_visible_item),
            state.spec_start() == nearest_range_start(first_visible_item),
            state.spec_end() == nearest_range_end(first_visible_item),
    {
        let mut state = Self { start: 0, end: 0 };
        state.update(first_visible_item);
        state
    }

    /// The window as a range of indices.
    pub fn range(&self) -> (r: Range<usize>)
        ensures
            r.start == self.spec_start(),
            r.end == self.spec_end(),
    {
        self.start..self.end
    }

    /// Moves the window so that it lies around `first_visible_item`.
    pub fn update(&mut self, first_visible_item: usize)
        ensures
            *final(self) == Self::around(first_visible_item),
            final(self).spec_start() == nearest_range_start(first_visible_item),
            final(self).spec_end() == nearest_range_end(first_visible_item),
    {
        let step: usize = first_visible_item / NEAREST_ITEMS_SLIDING_WINDOW_SIZE;
        let window_start: usize = step * NEAREST_ITEMS_SLIDING_WINDOW_SIZE;
        self.start = if window_start >= NEAREST_ITEMS_EXTRA_COUNT {
            window_start - NEAREST_ITEMS_EXTRA_COUNT
        } else {
            0
        };
        let reach: usize = NEAREST_ITEMS_SLIDING_WINDOW_SIZE + NEAREST_ITEMS_EXTRA_COUNT;
        self.end = if window_start <= usize::MAX - reach {
            window_start + reach
        } else {
            usize::MAX
        };
    }
}

/// The window around an index starts and ends where the two bounds say.
pub proof fn lemma_nearest_range_bounds(first_visible: usize)
    ensures
        NearestRangeState::around(first_visible).spec_start() == nearest_range_start(
            first_visible,
        ),
        NearestRangeState::around(first_visible).spec_end() == nearest_range_end(first_visible),
{
}

/// The window around an index holds that index, unless the index is the
/// largest that `usize` can hold.
pub proof fn lemma_nearest_range_holds_anchor(first_visible: usize)
    ensures
        nearest_range_start(first_visible) <= first_visible,
        first_visible < usize::MAX ==> first_visible < nearest_range_end(first_visible),
        nearest_range_end(first_visible) - nearest_range_start(first_visible)
            <= NEAREST_ITEMS_SLIDING_WINDOW_SIZE + 2 * NEAREST_ITEMS_EXTRA_COUNT,
{
}

} // verus!
