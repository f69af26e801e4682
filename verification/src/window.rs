//! The window of items that a pass instantiates.
//!
//! Starting at the resolved anchor, items are measured forward until the
//! viewport is filled, then a few more on either side as a buffer against
//! fast scrolling. The window is described here before the edges of the list
//! are taken into account.

use crate::anchor::ScrollAnchor;
use crate::extent::{is_extent, min_int, MAX_EXTENT};
use crate::measured_item::LazyListMeasuredItem;
use vstd::prelude::*;

verus! {

/// A pass never fills the viewport with more items than this.
pub const MAX_VISIBLE_ITEMS: usize = 500;

/// Largest buffer, in items, that a pass measures on either side.
pub const MAX_BEYOND_BOUNDS_ITEMS: usize = 0x1_0000;

/// How the items of a line are distributed along it.
#[derive(Clone, Copy, Debug, PartialEq, Eq, Structural)]
pub enum LinearArrangement {
    /// Packed at the start.
    Start,
    /// Packed at the end.
    End,
    /// Packed around the middle.
    Center,
    /// Spread out, first and last at the edges.
    SpaceBetween,
    /// Spread out with half a gap at the edges.
    SpaceAround,
    /// Spread out with equal gaps everywhere.
    SpaceEvenly,
    /// Packed at the start with a fixed gap between neighbours.
    SpacedBy(i64),
}

/// The gap that an arrangement puts between neighbours in a scrolling list.
pub fn get_spacing(arrangement: LinearArrangement) -> (spacing: i64)
    ensures
        spacing == match arrangement {
            LinearArrangement::SpacedBy(gap) => gap,
            _ => 0,
        },
{
    match arrangement {
        LinearArrangement::SpacedBy(gap) => gap,
        _ => 0,
    }
}

/// Configuration of a measurement pass.
#[derive(Clone, Copy, Debug)]
pub struct LazyListMeasureConfig {
    /// Whether the list scrolls vertically.
    pub is_vertical: bool,
    /// Whether the layout is reversed.
    pub reverse_layout: bool,
    /// Content padding before the first item.
    pub before_content_padding: i64,
    /// Content padding after the last item.
    pub after_content_padding: i64,
    /// Gap between neighbouring items.
    pub spacing: i64,
    /// Number of items measured beyond the viewport on either side.
    pub beyond_bounds_item_count: usize,
    /// Arrangement of a vertical list whose items do not fill the viewport.
    pub vertical_arrangement: Option<LinearArrangement>,
    /// Arrangement of a horizontal list whose items do not fill the viewport.
    pub horizontal_arrangement: Option<LinearArrangement>,
}

impl Default for LazyListMeasureConfig {
    fn default() -> (config: Self)
        ensures
            config == LazyListMeasureConfig::standard(),
            config.is_valid(),
    {
        Self {
            is_vertical: true,
            reverse_layout: false,
            before_content_padding: 0,
            after_content_padding: 0,
            spacing: 0,
            beyond_bounds_item_count: 2,
            vertical_arrangement: None,
            horizontal_arrangement: None,
        }
    }
}

impl LazyListMeasureConfig {
    /// A vertical list without padding or gaps and with a buffer of two.
    pub open spec fn standard() -> Self {
        LazyListMeasureConfig {
            is_vertical: true,
            reverse_layout: false,
            before_content_padding: 0,
            after_content_padding: 0,
            spacing: 0,
            beyond_bounds_item_count: 2,
            vertical_arrangement: None,
            horizontal_arrangement: None,
        }
    }

    /// Paddings and spacing are lengths, and the buffer is at most
    /// `MAX_BEYOND_BOUNDS_ITEMS`.
    pub open spec fn is_valid(self) -> bool {
        &&& is_extent(self.before_content_padding as int)
        &&& is_extent(self.after_content_padding as int)
        &&& is_extent(self.spacing as int)
        &&& self.beyond_bounds_item_count <= MAX_BEYOND_BOUNDS_ITEMS
    }

    /// Whether a pass accepts this configuration.
    pub fn check_valid(&self) -> (ok: bool)
        ensures
            ok == self.is_valid(),
    {
        0 <= self.before_content_padding && self.before_content_padding <= MAX_EXTENT && 0
            <= self.after_content_padding && self.after_content_padding <= MAX_EXTENT && 0
            <= self.spacing && self.spacing <= MAX_EXTENT && self.beyond_bounds_item_count
            <= MAX_BEYOND_BOUNDS_ITEMS
    }
}

/// Number of buffer items before, items filling the viewport, and buffer
/// items after.
pub struct WindowShape {
    pub before: int,
    pub visible: int,
    pub after: int,
}

/// Offset at which the neighbour after `item` starts.
pub open spec fn next_offset(item: LazyListMeasuredItem, spacing: int) -> int {
    item.offset + item.main_axis_size + spacing
}

/// Whether item `j + 1` of `w` starts where item `j` ends plus the spacing.
pub open spec fn follows(w: Seq<LazyListMeasuredItem>, j: int, spacing: int) -> bool {
    w[j + 1].offset == next_offset(w[j], spacing)
}

/// Whether item `j` of a run measured backward from `start` ends, spacing
/// included, where the item measured before it starts.
spec fn precedes(b: Seq<LazyListMeasuredItem>, j: int, spacing: int, start: int) -> bool {
    next_offset(b[j], spacing) == if j == 0 {
        start
    } else {
        b[j - 1].offset as int
    }
}

/// Offset at which the item after the visible run starts.
pub open spec fn scan_end(
    w: Seq<LazyListMeasuredItem>,
    shape: WindowShape,
    start: int,
    spacing: int,
) -> int {
    if shape.visible == 0 {
        start
    } else {
        next_offset(w[shape.before + shape.visible - 1], spacing)
    }
}

/// Whether `w` is the window that a pass measures from `anchor` in a list of
/// `items_count` items.
///
/// The items are consecutive and each starts where its predecessor ends plus
/// the spacing; the anchor item starts at the leading padding minus the
/// anchor offset. The visible run starts at the anchor item and goes on while
/// items start before `viewport_end`, the list has items and the cap is not
/// reached. The buffer after it holds the configured number of items, or as
/// many as the list has left; the buffer before it likewise, unless nothing
/// was measured at or after the anchor.
pub open spec fn is_window(
    w: Seq<LazyListMeasuredItem>,
    shape: WindowShape,
    anchor: ScrollAnchor,
    items_count: int,
    viewport_end: int,
    config: LazyListMeasureConfig,
) -> bool {
    let start = config.before_content_padding - anchor.offset;
    let spacing = config.spacing as int;
    let buffer = config.beyond_bounds_item_count as int;
    &&& 0 <= shape.before && 0 <= shape.visible && 0 <= shape.after
    &&& w.len() == shape.before + shape.visible + shape.after
    &&& forall|j: int| 0 <= j < w.len() ==> (#[trigger] w[j]).index == anchor.index - shape.before + j
    &&& forall|j: int| 0 <= j < w.len() ==> is_extent((#[trigger] w[j]).main_axis_size as int)
    &&& forall|j: int| 0 <= j < w.len() - 1 ==> #[trigger] follows(w, j, spacing)
    &&& w.len() > 0 ==> w[shape.before].offset == start
    &&& shape.visible <= MAX_VISIBLE_ITEMS
    &&& anchor.index + shape.visible <= items_count
    &&& forall|j: int|
        shape.before <= j < shape.before + shape.visible ==> (#[trigger] w[j]).offset
            < viewport_end
    &&& (shape.visible == MAX_VISIBLE_ITEMS || anchor.index + shape.visible == items_count
        || scan_end(w, shape, start, spacing) >= viewport_end)
    &&& shape.after == min_int(buffer, items_count - anchor.index - shape.visible)
    &&& shape.before == if anchor.index > 0 && shape.visible + shape.after > 0 {
        min_int(buffer, anchor.index)
    } else {
        0
    }
}

/// What a pass needs of its measuring callback: it accepts every index of
/// the list, and what it returns carries the index it was asked for and a
/// length as its size.
pub open spec fn measures_items<F: FnMut(usize) -> LazyListMeasuredItem>(
    measure_item: F,
    items_count: usize,
) -> bool {
    &&& forall|i: usize| i < items_count ==> call_requires(measure_item, (i,))
    &&& forall|i: usize, item: LazyListMeasuredItem| #[trigger]
        call_ensures(measure_item, (i,), item) ==> item.index == i && is_extent(
            item.main_axis_size as int,
        )
}

/// Whether `item` is what the callback returned for its index, placed at its
/// offset.
pub open spec fn was_measured<F: FnMut(usize) -> LazyListMeasuredItem>(
    measure_item: F,
    item: LazyListMeasuredItem,
) -> bool {
    exists|raw: LazyListMeasuredItem| #[trigger]
        call_ensures(measure_item, (item.index,), raw) && item == raw.with_offset(item.offset)
}

/// A run measured forward from `start`, beginning with item `first`.
spec fn is_forward_run(
    run: Seq<LazyListMeasuredItem>,
    first: int,
    start: int,
    spacing: int,
) -> bool {
    &&& run.len() > 0 ==> run[0].offset == start
    &&& forall|j: int|
        0 <= j < run.len() ==> {
            &&& (#[trigger] run[j]).index == first + j
            &&& is_extent(run[j].main_axis_size as int)
            &&& start <= run[j].offset <= start + j * 0x200_0000_0000
        }
    &&& forall|j: int| 0 <= j < run.len() - 1 ==> #[trigger] follows(run, j, spacing)
}

/// A run measured backward from `start`, beginning with item `first - 1`.
spec fn is_backward_run(
    run: Seq<LazyListMeasuredItem>,
    first: int,
    start: int,
    spacing: int,
) -> bool {
    &&& forall|j: int|
        0 <= j < run.len() ==> {
            &&& (#[trigger] run[j]).index == first - 1 - j
            &&& is_extent(run[j].main_axis_size as int)
            &&& start - (j + 1) * 0x200_0000_0000 <= run[j].offset <= start
        }
    &&& forall|j: int| 0 <= j < run.len() ==> #[trigger] precedes(run, j, spacing, start)
}

/// Offset at which the item after a forward run starts.
spec fn run_end(run: Seq<LazyListMeasuredItem>, start: int, spacing: int) -> int {
    if run.len() == 0 {
        start
    } else {
        next_offset(run.last(), spacing)
    }
}

/// A forward run stays one when the next item is placed at its end.
proof fn lemma_forward_run_push(
    run: Seq<LazyListMeasuredItem>,
    item: LazyListMeasuredItem,
    first: int,
    start: int,
    spacing: int,
)
    requires
        is_forward_run(run, first, start, spacing),
        item.index == first + run.len(),
        is_extent(item.main_axis_size as int),
        item.offset == run_end(run, start, spacing),
        start <= item.offset <= start + run.len() * 0x200_0000_0000,
    ensures
        is_forward_run(run.push(item), first, start, spacing),
{
    let longer = run.push(item);
    assert forall|j: int| 0 <= j < longer.len() - 1 implies #[trigger] follows(
        longer,
        j,
        spacing,
    ) by {
        if j < run.len() - 1 {
            assert(follows(run, j, spacing));
        }
    }
}

/// A backward run stays one when the next item is placed before its start.
proof fn lemma_backward_run_push(
    run: Seq<LazyListMeasuredItem>,
    item: LazyListMeasuredItem,
    first: int,
    start: int,
    spacing: int,
)
    requires
        is_backward_run(run, first, start, spacing),
        item.index == first - 1 - run.len(),
        is_extent(item.main_axis_size as int),
        0 <= spacing <= MAX_EXTENT,
        next_offset(item, spacing) == if run.len() == 0 {
            start
        } else {
            run.last().offset as int
        },
    ensures
        is_backward_run(run.push(item), first, start, spacing),
{
    let longer = run.push(item);
    if run.len() > 0 {
        assert(run[run.len() - 1].index == first - 1 - (run.len() - 1));
    }
    assert forall|j: int| 0 <= j < longer.len() implies #[trigger] precedes(
        longer,
        j,
        spacing,
        start,
    ) by {
        if j < run.len() {
            assert(precedes(run, j, spacing, start));
        }
    }
}

/// A backward run, turned round and put before a forward run, is a window.
proof fn lemma_runs_form_window(
    w: Seq<LazyListMeasuredItem>,
    before: Seq<LazyListMeasuredItem>,
    forward: Seq<LazyListMeasuredItem>,
    shape: WindowShape,
    anchor: ScrollAnchor,
    items_count: int,
    viewport_end: int,
    config: LazyListMeasureConfig,
)
    requires
        config.is_valid(),
        0 <= anchor.index < items_count,
        is_forward_run(
            forward,
            anchor.index,
            config.before_content_padding - anchor.offset,
            config.spacing as int,
        ),
        is_backward_run(
            before,
            anchor.index,
            config.before_content_padding - anchor.offset,
            config.spacing as int,
        ),
        w.len() == before.len() + forward.len(),
        forall|j: int| 0 <= j < before.len() ==> #[trigger] w[j] == before[before.len() - 1 - j],
        forall|j: int| before.len() <= j < w.len() ==> #[trigger] w[j] == forward[j - before.len()],
        shape.before == before.len(),
        shape.visible + shape.after == forward.len(),
        0 <= shape.visible <= MAX_VISIBLE_ITEMS,
        0 <= shape.after <= MAX_BEYOND_BOUNDS_ITEMS,
        shape.before <= MAX_BEYOND_BOUNDS_ITEMS,
        anchor.index + shape.visible <= items_count,
        forall|j: int| 0 <= j < shape.visible ==> (#[trigger] forward[j]).offset < viewport_end,
        shape.visible == MAX_VISIBLE_ITEMS || anchor.index + shape.visible == items_count
            || run_end(
            forward.take(shape.visible),
            config.before_content_padding - anchor.offset,
            config.spacing as int,
        ) >= viewport_end,
        shape.after == min_int(
            config.beyond_bounds_item_count as int,
            items_count - anchor.index - shape.visible,
        ),
        shape.before == if anchor.index > 0 && shape.visible + shape.after > 0 {
            min_int(config.beyond_bounds_item_count as int, anchor.index)
        } else {
            0
        },
        -0x200_0000_0000 <= config.before_content_padding - anchor.offset <= 0x100_0000_0000,
    ensures
        is_window(w, shape, anchor, items_count, viewport_end, config),
        forall|j: int|
            0 <= j < w.len() ==> -0x400_0000_0000_0000 <= (#[trigger] w[j]).offset
                <= 0x400_0000_0000_0000,
{
    let start = config.before_content_padding - anchor.offset;
    let spacing = config.spacing as int;
    let n = before.len() as int;
    assert forall|j: int| 0 <= j < w.len() implies {
        &&& (#[trigger] w[j]).index == anchor.index - shape.before + j
        &&& is_extent(w[j].main_axis_size as int)
        &&& -0x400_0000_0000_0000 <= w[j].offset <= 0x400_0000_0000_0000
    } by {
        if j < n {
            let k = n - 1 - j;
            assert(w[j] == before[k]);
            assert(before[k].index == anchor.index - 1 - k);
        } else {
            let k = j - n;
            assert(w[j] == forward[k]);
            assert(forward[k].index == anchor.index + k);
        }
    }
    assert forall|j: int| 0 <= j < w.len() - 1 implies #[trigger] follows(w, j, spacing) by {
        if j + 1 < n {
            assert(w[j] == before[n - 1 - j]);
            assert(w[j + 1] == before[n - 2 - j]);
            assert(precedes(before, n - 1 - j, spacing, start));
        } else if j + 1 == n {
            assert(w[j] == before[0]);
            assert(w[j + 1] == forward[0]);
            assert(precedes(before, 0, spacing, start));
        } else {
            assert(w[j] == forward[j - n]);
            assert(w[j + 1] == forward[j - n + 1]);
            assert(follows(forward, j - n, spacing));
        }
    }
    if w.len() > 0 {
        assert(w[shape.before] == forward[0]);
    }
    assert forall|j: int| shape.before <= j < shape.before + shape.visible implies (
    #[trigger] w[j]).offset < viewport_end by {
        assert(w[j] == forward[j - n]);
    }
    if shape.visible > 0 {
        assert(w[shape.before + shape.visible - 1] == forward[shape.visible - 1]);
        assert(forward.take(shape.visible).last() == forward[shape.visible - 1]);
    }
}

/// Puts the items of `before_items`, last first, ahead of `forward_items`.
fn join_runs(
    mut before_items: Vec<LazyListMeasuredItem>,
    mut forward_items: Vec<LazyListMeasuredItem>,
) -> (joined: Vec<LazyListMeasuredItem>)
    ensures
        joined.len() == before_items.len() + forward_items.len(),
        forall|j: int|
            0 <= j < before_items.len() ==> #[trigger] joined@[j] == before_items@[
                before_items.len() - 1 - j],
        forall|j: int|
            before_items.len() <= j < joined.len() ==> #[trigger] joined@[j] == forward_items@[j
                - before_items.len()],
{
    let ghost measured_before = before_items@;
    let ghost measured_forward = forward_items@;
    let before_len: usize = before_items.len();
    let mut joined: Vec<LazyListMeasuredItem> = Vec::new();
    while before_items.len() > 0
        invariant
            before_len == measured_before.len(),
            joined.len() + before_items.len() == before_len,
            before_items@ == measured_before.take(before_items.len() as int),
            forall|j: int|
                0 <= j < joined.len() ==> #[trigger] joined@[j] == measured_before[before_len - 1
                    - j],
        decreases before_items.len(),
    {
        let item = before_items.pop().unwrap();
        joined.push(item);
        assert(before_items@ =~= measured_before.take(before_items.len() as int));
    }
    let ghost reversed = joined@;
    joined.append(&mut forward_items);
    assert(joined@ =~= reversed + measured_forward);
    joined
}

/// Measures the window from the position `(first_item_index,
/// first_item_scroll_offset)`: the visible run, the buffer after it and the
/// buffer before it, in list order.
pub(crate) fn measure_window<F>(
    items_count: usize,
    first_item_index: usize,
    first_item_scroll_offset: i64,
    viewport_end: i64,
    config: &LazyListMeasureConfig,
    mut measure_item: F,
) -> (out: (Vec<LazyListMeasuredItem>, Ghost<WindowShape>)) where
    F: FnMut(usize) -> LazyListMeasuredItem,

    requires
        first_item_index < items_count,
        0 <= first_item_scroll_offset <= 0x200_0000_0000,
        config.is_valid(),
        measures_items(measure_item, items_count),
    ensures
        is_window(
            out.0@,
            out.1@,
            ScrollAnchor {
                index: first_item_index as int,
                offset: first_item_scroll_offset as int,
            },
            items_count as int,
            viewport_end as int,
            *config,
        ),
        forall|j: int| 0 <= j < out.0@.len() ==> was_measured(measure_item, #[trigger] out.0@[j]),
        forall|j: int|
            0 <= j < out.0@.len() ==> -0x400_0000_0000_0000 <= (#[trigger] out.0@[j]).offset
                <= 0x400_0000_0000_0000,
{
    let ghost callback = measure_item;
    let ghost first = first_item_index as int;
    let spacing = config.spacing;
    let buffer = config.beyond_bounds_item_count;
    let start: i64 = config.before_content_padding - first_item_scroll_offset;
    let mut visible_items: Vec<LazyListMeasuredItem> = Vec::new();
    let mut current_offset: i64 = start;
    let mut current_index: usize = first_item_index;

    while current_index < items_count && current_offset < viewport_end && visible_items.len()
        < MAX_VISIBLE_ITEMS
        invariant
            measure_item == callback,
            measures_items(measure_item, items_count),
            is_extent(spacing as int),
            first == first_item_index,
            current_index == first_item_index + visible_items.len(),
            current_index <= items_count,
            visible_items.len() <= MAX_VISIBLE_ITEMS,
            -0x200_0000_0000 <= start <= 0x100_0000_0000,
            start <= current_offset <= start + visible_items.len() * 0x200_0000_0000,
            current_offset == run_end(visible_items@, start as int, spacing as int),
            is_forward_run(visible_items@, first, start as int, spacing as int),
            forall|j: int|
                0 <= j < visible_items.len() ==> (#[trigger] visible_items@[j]).offset
                    < viewport_end,
            forall|j: int|
                0 <= j < visible_items.len() ==> was_measured(
                    measure_item,
                    #[trigger] visible_items@[j],
                ),
        decreases items_count - current_index,
    {
        let mut item = measure_item(current_index);
        let ghost raw = item;
        item.offset = current_offset;
        proof {
            assert(call_ensures(measure_item, (current_index,), raw));
            assert(raw.index == current_index);
            assert(item == raw.with_offset(item.offset));
            assert(call_ensures(measure_item, (item.index,), raw));
            lemma_forward_run_push(visible_items@, item, first, start as int, spacing as int);
        }
        current_offset = current_offset + item.main_axis_size + spacing;
        visible_items.push(item);
        current_index += 1;
    }
    let visible_count: usize = visible_items.len();
    let ghost visible_run = visible_items@;

    let left: usize = items_count - current_index;
    let after_count: usize = if buffer < left {
        buffer
    } else {
        left
    };
    let mut taken: usize = 0;
    while taken < after_count
        invariant
            measure_item == callback,
            measures_items(measure_item, items_count),
            is_extent(spacing as int),
            first == first_item_index,
            taken <= after_count,
            after_count <= MAX_BEYOND_BOUNDS_ITEMS,
            first_item_index + visible_count + after_count <= items_count,
            visible_count <= MAX_VISIBLE_ITEMS,
            visible_items.len() == visible_count + taken,
            current_index == first_item_index + visible_items.len(),
            -0x200_0000_0000 <= start <= 0x100_0000_0000,
            start <= current_offset <= start + visible_items.len() * 0x200_0000_0000,
            current_offset == run_end(visible_items@, start as int, spacing as int),
            is_forward_run(visible_items@, first, start as int, spacing as int),
            visible_items@.take(visible_count as int) == visible_run,
            forall|j: int|
                0 <= j < visible_items.len() ==> was_measured(
                    measure_item,
                    #[trigger] visible_items@[j],
                ),
        decreases after_count - taken,
    {
        let mut item = measure_item(current_index);
        let ghost raw = item;
        item.offset = current_offset;
        proof {
            assert(call_ensures(measure_item, (current_index,), raw));
            assert(raw.index == current_index);
            assert(item == raw.with_offset(item.offset));
            assert(call_ensures(measure_item, (item.index,), raw));
            lemma_forward_run_push(visible_items@, item, first, start as int, spacing as int);
            assert(visible_items@.push(item).take(visible_count as int) =~= visible_items@.take(
                visible_count as int,
            ));
        }
        current_offset = current_offset + item.main_axis_size + spacing;
        visible_items.push(item);
        current_index += 1;
        taken += 1;
    }
    let ghost forward = visible_items@;

    let mut before_items: Vec<LazyListMeasuredItem> = Vec::new();
    if first_item_index > 0 && visible_items.len() > 0 {
        let before_count: usize = if buffer < first_item_index {
            buffer
        } else {
            first_item_index
        };
        let mut before_offset: i64 = visible_items[0].offset;
        let mut i: usize = 0;
        while i < before_count
            invariant
                measure_item == callback,
                measures_items(measure_item, items_count),
                is_extent(spacing as int),
                first == first_item_index,
                first_item_index < items_count,
                i <= before_count,
                before_count <= first_item_index,
                before_count <= MAX_BEYOND_BOUNDS_ITEMS,
                before_items.len() == i,
                -0x200_0000_0000 <= start <= 0x100_0000_0000,
                start - i * 0x200_0000_0000 <= before_offset <= start,
                before_offset == if i == 0 {
                    start as int
                } else {
                    before_items@.last().offset as int
                },
                is_backward_run(before_items@, first, start as int, spacing as int),
                forall|j: int|
                    0 <= j < before_items.len() ==> was_measured(
                        measure_item,
                        #[trigger] before_items@[j],
                    ),
            decreases before_count - i,
        {
            let idx: usize = first_item_index - 1 - i;
            let mut item = measure_item(idx);
            let ghost raw = item;
            before_offset = before_offset - (item.main_axis_size + spacing);
            item.offset = before_offset;
            proof {
                assert(call_ensures(measure_item, (idx,), raw));
                assert(raw.index == idx);
                assert(item == raw.with_offset(item.offset));
                assert(call_ensures(measure_item, (item.index,), raw));
                lemma_backward_run_push(before_items@, item, first, start as int, spacing as int);
            }
            before_items.push(item);
            i += 1;
        }
    }
    let ghost measured_before = before_items@;
    let ghost shape = WindowShape {
        before: before_items.len() as int,
        visible: visible_count as int,
        after: after_count as int,
    };
    let window = join_runs(before_items, visible_items);
    proof {
        let anchor = ScrollAnchor {
            index: first_item_index as int,
            offset: first_item_scroll_offset as int,
        };
        assert forall|j: int| 0 <= j < shape.visible implies (#[trigger] forward[j]).offset
            < viewport_end by {
            assert(forward[j] == visible_run[j]);
        }
        assert(forward.take(shape.visible) == visible_run);
        lemma_runs_form_window(
            window@,
            measured_before,
            forward,
            shape,
            anchor,
            items_count as int,
            viewport_end as int,
            *config,
        );
        assert forall|j: int| 0 <= j < window@.len() implies was_measured(
            callback,
            #[trigger] window@[j],
        ) by {
            if j < measured_before.len() {
                assert(window@[j] == measured_before[measured_before.len() - 1 - j]);
            } else {
                assert(window@[j] == forward[j - measured_before.len()]);
            }
        }
    }
    (window, Ghost(shape))
}

} // verus!
