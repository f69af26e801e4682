//! What holds of every measurement pass.

use crate::anchor::{
    bulk_jump_back, clamp_anchor, effective_viewport_size, requested_anchor, resolved_anchor,
    skip_forward, walk_back, ScrollAnchor,
};
use crate::extent::{is_extent, min_int};
use crate::measure::{
    edge_clamped, end_shift, first_reaching, lemma_cached_sizes_keep_position,
    lemma_start_shift_is_zero, lemma_window_offsets_ascend, measure_pass, pass_outcome, placed,
    reaches_forward,
};
use crate::measured_item::{LazyListMeasureResult, LazyListMeasuredItem};
use crate::state::LazyListStateView;
use crate::window::{
    follows, is_window, next_offset, scan_end, was_measured, LazyListMeasureConfig, WindowShape,
    MAX_VISIBLE_ITEMS,
};
use vstd::prelude::*;

verus! {

/// A position that lies inside its item, or at the start of the list, and
/// no more than a viewport into it, is the position the pass starts from.
pub proof fn lemma_anchor_at_rest(
    state: LazyListStateView,
    items_count: int,
    viewport: int,
    spacing: int,
)
    requires
        items_count > 0,
        viewport > 0,
        requested_anchor(state, items_count).index == 0 || requested_anchor(
            state,
            items_count,
        ).offset >= 0,
        requested_anchor(state, items_count).offset <= viewport || state.average_item_size() <= 0,
    ensures
        resolved_anchor(state, items_count, viewport, spacing) == clamp_anchor(
            requested_anchor(state, items_count),
            items_count,
        ),
        resolved_anchor(state, items_count, viewport, spacing).index == requested_anchor(
            state,
            items_count,
        ).index,
{
    let r = requested_anchor(state, items_count);
    let average = state.average_item_size();
    assert(bulk_jump_back(r, average, spacing, viewport) == r);
    assert(walk_back(r, state.cached_sizes, average, spacing) == r);
    let c = clamp_anchor(r, items_count);
    assert(skip_forward(c, average, viewport, items_count) == c);
}

/// In a window of items of one size, every item lies a whole number of
/// steps from the anchor item.
pub proof fn lemma_uniform_window_offsets(
    w: Seq<LazyListMeasuredItem>,
    shape: WindowShape,
    anchor: ScrollAnchor,
    items_count: int,
    viewport_end: int,
    config: LazyListMeasureConfig,
    size: int,
    j: int,
)
    requires
        is_window(w, shape, anchor, items_count, viewport_end, config),
        forall|k: int| 0 <= k < w.len() ==> (#[trigger] w[k]).main_axis_size == size,
        0 <= j < w.len(),
    ensures
        w[j].offset == config.before_content_padding - anchor.offset + (j - shape.before) * (size
            + config.spacing),
    decreases
            if j >= shape.before {
                j - shape.before
            } else {
                shape.before - j
            },
{
    let step = size + config.spacing;
    if j > shape.before {
        lemma_uniform_window_offsets(
            w,
            shape,
            anchor,
            items_count,
            viewport_end,
            config,
            size,
            j - 1,
        );
        assert(follows(w, j - 1, config.spacing as int));
        assert(w[j - 1].main_axis_size == size);
        assert((j - 1 - shape.before) * step + step == (j - shape.before) * step)
            by (nonlinear_arith);
    } else if j < shape.before {
        lemma_uniform_window_offsets(
            w,
            shape,
            anchor,
            items_count,
            viewport_end,
            config,
            size,
            j + 1,
        );
        assert(follows(w, j, config.spacing as int));
        assert(w[j].main_axis_size == size);
        assert((j + 1 - shape.before) * step - step == (j - shape.before) * step)
            by (nonlinear_arith);
    } else {
        assert((j - shape.before) * step == 0) by (nonlinear_arith)
            requires
                j - shape.before == 0,
        ;
    }
}

/// A single item that fits into the viewport, in a list that is not
/// scrolled, is placed alone at the leading padding, and the list can scroll
/// in neither direction.
pub proof fn lemma_single_item_fits<F: FnMut(usize) -> LazyListMeasuredItem>(
    pre: LazyListStateView,
    viewport_size: i64,
    config: LazyListMeasureConfig,
    measure_item: F,
    result: LazyListMeasureResult,
    post: LazyListStateView,
    size: int,
)
    requires
        pre.wf(),
        config.is_valid(),
        viewport_size > 0,
        measure_pass(pre, 1, viewport_size, config, measure_item, result, post),
        requested_anchor(pre, 1).offset <= 0,
        forall|i: usize, item: LazyListMeasuredItem| #[trigger]
            call_ensures(measure_item, (i,), item) ==> item.main_axis_size == size,
        config.before_content_padding + size + config.after_content_padding
            <= effective_viewport_size(
            viewport_size as int,
            pre.average_item_size(),
            config.spacing as int,
        ),
        config.before_content_padding + config.after_content_padding < effective_viewport_size(
            viewport_size as int,
            pre.average_item_size(),
            config.spacing as int,
        ),
    ensures
        result.visible_items@.len() == 1,
        result.visible_items@[0].index == 0,
        result.visible_items@[0].offset == config.before_content_padding,
        result.first_visible_item_index == 0,
        result.first_visible_item_scroll_offset == 0,
        !result.can_scroll_forward,
        !result.can_scroll_backward,
{
    let viewport = effective_viewport_size(
        viewport_size as int,
        pre.average_item_size(),
        config.spacing as int,
    );
    let anchor = resolved_anchor(pre, 1, viewport, config.spacing as int);
    let viewport_end = viewport - config.after_content_padding;
    let padding = config.before_content_padding as int;
    lemma_anchor_at_rest(pre, 1, viewport, config.spacing as int);
    assert(anchor == ScrollAnchor { index: 0, offset: 0 });
    let (w, shape) = choose|w: Seq<LazyListMeasuredItem>, shape: WindowShape|
        {
            &&& #[trigger] is_window(w, shape, anchor, 1, viewport_end, config)
            &&& forall|j: int| 0 <= j < w.len() ==> was_measured(measure_item, #[trigger] w[j])
            &&& pass_outcome(pre, 1, viewport, config, anchor, w, result, post)
        };
    assert(shape.before == 0);
    assert(shape.visible == 1) by {
        if shape.visible == 0 {
            assert(scan_end(w, shape, padding, config.spacing as int) == padding);
        }
    }
    assert(shape.after == 0);
    assert(w.len() == 1);
    assert(was_measured(measure_item, w[0]));
    assert(w[0].main_axis_size == size);
    assert(w[0].index == 0);
    assert(w[0].offset == padding);
    lemma_start_shift_is_zero(w, shape, anchor, 1, viewport_end, config);
    assert(w.last() == w[0]);
    assert(end_shift(w, 1, viewport_end, padding) == 0);
    assert(placed(w, 0) =~= w);
    let v = edge_clamped(w, anchor.offset, 1, viewport_end, padding);
    assert(v == w);
    assert(first_reaching(v, padding, 1) == 1);
    if size > 0 {
        assert(first_reaching(v, padding, 0) == 0);
    } else {
        assert(first_reaching(v, padding, 0) == 1);
    }
}

/// The smallest number of steps of `size` that cover `length`.
pub open spec fn steps_to_cover(length: int, size: int) -> int {
    (length + size - 1) / size
}

/// The steps that cover a length do cover it, and one step fewer does not.
pub proof fn lemma_steps_to_cover(length: int, size: int)
    requires
        length > 0,
        size > 0,
    ensures
        steps_to_cover(length, size) >= 1,
        steps_to_cover(length, size) * size >= length,
        (steps_to_cover(length, size) - 1) * size < length,
{
    let c = steps_to_cover(length, size);
    assert(c * size <= length + size - 1 && length + size - 1 - c * size < size && c >= 1)
        by (nonlinear_arith)
        requires
            c == (length + size - 1) / size,
            length > 0,
            size > 0,
    ;
    assert((c - 1) * size == c * size - size) by (nonlinear_arith);
}

/// In a list of items of one size, without paddings or spacing, that rests
/// at the start of an item with enough items left to fill the viewport, a
/// pass places at least as many items as cover the viewport, and at most
/// the buffer on either side more.
pub proof fn lemma_uniform_items_fill_viewport<F: FnMut(usize) -> LazyListMeasuredItem>(
    pre: LazyListStateView,
    items_count: usize,
    viewport_size: i64,
    config: LazyListMeasureConfig,
    measure_item: F,
    result: LazyListMeasureResult,
    post: LazyListStateView,
    size: int,
)
    requires
        pre.wf(),
        config.is_valid(),
        config.before_content_padding == 0,
        config.after_content_padding == 0,
        config.spacing == 0,
        items_count > 0,
        0 < viewport_size <= crate::anchor::MAX_REASONABLE_VIEWPORT,
        size > 0,
        measure_pass(pre, items_count, viewport_size, config, measure_item, result, post),
        forall|i: usize, item: LazyListMeasuredItem| #[trigger]
            call_ensures(measure_item, (i,), item) ==> item.main_axis_size == size,
        pre.is_settled(),
        pre.first_visible_item_scroll_offset == 0,
        pre.first_visible_item_index + steps_to_cover(viewport_size as int, size) <= items_count,
        steps_to_cover(viewport_size as int, size) <= MAX_VISIBLE_ITEMS,
    ensures
        steps_to_cover(viewport_size as int, size) <= result.visible_items@.len()
            <= steps_to_cover(viewport_size as int, size) + 2 * config.beyond_bounds_item_count,
{
    let viewport = viewport_size as int;
    let cover = steps_to_cover(viewport, size);
    lemma_steps_to_cover(viewport, size);
    let anchor = resolved_anchor(pre, items_count as int, viewport, 0);
    lemma_anchor_at_rest(pre, items_count as int, viewport, 0);
    assert(anchor == ScrollAnchor { index: pre.first_visible_item_index as int, offset: 0 });
    let (w, shape) = choose|w: Seq<LazyListMeasuredItem>, shape: WindowShape|
        {
            &&& #[trigger] is_window(w, shape, anchor, items_count as int, viewport, config)
            &&& forall|j: int| 0 <= j < w.len() ==> was_measured(measure_item, #[trigger] w[j])
            &&& pass_outcome(pre, items_count, viewport, config, anchor, w, result, post)
        };
    assert forall|k: int| 0 <= k < w.len() implies (#[trigger] w[k]).main_axis_size == size by {
        assert(was_measured(measure_item, w[k]));
    }
    if shape.visible > cover {
        let j = shape.before + cover;
        lemma_uniform_window_offsets(w, shape, anchor, items_count as int, viewport, config, size, j);
        assert(w[j].offset < viewport);
    }
    if shape.visible < cover {
        if shape.visible > 0 {
            let j = shape.before + shape.visible - 1;
            lemma_uniform_window_offsets(
                w,
                shape,
                anchor,
                items_count as int,
                viewport,
                config,
                size,
                j,
            );
            assert(scan_end(w, shape, 0, 0) == (shape.visible - 1) * size + size);
            assert((shape.visible - 1) * size + size <= (cover - 1) * size) by (nonlinear_arith)
                requires
                    shape.visible <= cover - 1,
                    size > 0,
            ;
        }
        assert(false);
    }
    assert(shape.visible == cover);
    assert(result.visible_items@.len() == w.len());
}

/// A jump to an item, followed by a pass, makes that item the anchor at the
/// offset asked for, if the offset lies inside the item and within one
/// viewport, no scroll distance was waiting, and content remains after the
/// viewport.
pub proof fn lemma_scroll_to_item_round_trip<F: FnMut(usize) -> LazyListMeasuredItem>(
    pre: LazyListStateView,
    items_count: usize,
    viewport_size: i64,
    config: LazyListMeasureConfig,
    measure_item: F,
    result: LazyListMeasureResult,
    post: LazyListStateView,
    index: usize,
    scroll_offset: i64,
)
    requires
        pre.wf(),
        config.is_valid(),
        items_count > 0,
        viewport_size > 0,
        pre.pending_scroll_to_index == Some((index, scroll_offset)),
        pre.scroll_to_be_consumed == 0,
        measure_pass(pre, items_count, viewport_size, config, measure_item, result, post),
        scroll_offset <= effective_viewport_size(
            viewport_size as int,
            pre.average_item_size(),
            config.spacing as int,
        ),
        forall|item: LazyListMeasuredItem| #[trigger]
            call_ensures(measure_item, (min_int(index as int, items_count - 1) as usize,), item)
                ==> item.main_axis_size > scroll_offset,
        result.can_scroll_forward,
    ensures
        result.first_visible_item_index == min_int(index as int, items_count - 1),
        result.first_visible_item_scroll_offset == scroll_offset,
        post.first_visible_item_index == result.first_visible_item_index,
        post.first_visible_item_scroll_offset == scroll_offset,
        post.is_settled(),
{
    let viewport = effective_viewport_size(
        viewport_size as int,
        pre.average_item_size(),
        config.spacing as int,
    );
    let spacing = config.spacing as int;
    let padding = config.before_content_padding as int;
    let viewport_end = viewport - config.after_content_padding;
    let anchor = resolved_anchor(pre, items_count as int, viewport, spacing);
    lemma_anchor_at_rest(pre, items_count as int, viewport, spacing);
    let target = min_int(index as int, items_count - 1);
    assert(anchor == ScrollAnchor { index: target, offset: scroll_offset as int });
    let (w, shape) = choose|w: Seq<LazyListMeasuredItem>, shape: WindowShape|
        {
            &&& #[trigger] is_window(w, shape, anchor, items_count as int, viewport_end, config)
            &&& forall|j: int| 0 <= j < w.len() ==> was_measured(measure_item, #[trigger] w[j])
            &&& pass_outcome(pre, items_count, viewport, config, anchor, w, result, post)
        };
    lemma_start_shift_is_zero(w, shape, anchor, items_count as int, viewport_end, config);
    let shift = end_shift(w, items_count as int, viewport_end, padding);
    let v = placed(w, shift);
    assert(v == edge_clamped(w, anchor.offset, items_count as int, viewport_end, padding));
    assert(w.len() > 0);
    assert(shift == 0) by {
        if shift != 0 {
            let last = w.len() - 1;
            assert(is_extent(w[last].main_axis_size as int));
            assert(w[last].offset + shift == viewport_end - w[last].main_axis_size);
            assert(v[last] == w[last].with_offset((w[last].offset + shift) as i64));
            assert(v.last().index == w.last().index);
            assert(v.last().end() == viewport_end);
            assert(!reaches_forward(v, items_count as int, viewport_end));
        }
    }
    assert(v =~= w);
    let at = shape.before;
    assert(w[at].index == target);
    assert(was_measured(measure_item, w[at]));
    let raw = choose|raw: LazyListMeasuredItem| #[trigger]
        call_ensures(measure_item, (w[at].index,), raw) && w[at] == raw.with_offset(w[at].offset);
    assert(w[at].index == target as usize);
    assert(call_ensures(measure_item, (target as usize,), raw));
    assert(w[at].main_axis_size > scroll_offset);
    assert(w[at].end() > padding);
    lemma_first_reaching_is(w, spacing, padding, at, 0);
    lemma_cached_sizes_keep_position(crate::anchor::requests_consumed(pre), v);
}

/// In a window whose item at `at` is the first to end after the leading
/// padding, `first_reaching` finds that item.
proof fn lemma_first_reaching_is(
    w: Seq<LazyListMeasuredItem>,
    spacing: int,
    padding: int,
    at: int,
    from: int,
)
    requires
        spacing >= 0,
        forall|i: int| 0 <= i < w.len() ==> is_extent((#[trigger] w[i]).main_axis_size as int),
        forall|i: int| 0 <= i < w.len() - 1 ==> #[trigger] follows(w, i, spacing),
        0 <= from <= at < w.len(),
        w[at].end() > padding,
        w[at].offset <= padding,
    ensures
        first_reaching(w, padding, from) == at,
    decreases at - from,
{
    if from < at {
        lemma_window_offsets_ascend(w, spacing, from + 1, at);
        assert(follows(w, from, spacing));
        assert(w[from].end() <= w[from + 1].offset);
        lemma_first_reaching_is(w, spacing, padding, at, from + 1);
    }
}

/// Walking back never passes the start of the list and never moves forward.
pub proof fn lemma_walk_back_stays_in_list(
    a: ScrollAnchor,
    cached: Map<usize, i64>,
    average: int,
    spacing: int,
)
    requires
        a.index >= 0,
    ensures
        0 <= walk_back(a, cached, average, spacing).index <= a.index,
    decreases a.index,
{
    if a.offset < 0 && a.index > 0 {
        lemma_walk_back_stays_in_list(
            ScrollAnchor {
                index: a.index - 1,
                offset: a.offset + crate::anchor::estimated_size(cached, average, a.index - 1)
                    + spacing,
            },
            cached,
            average,
            spacing,
        );
    }
}

/// Skipping forward ends inside the list at an offset of zero or more, and
/// skipping again changes nothing.
pub proof fn lemma_skip_forward_settles(
    a: ScrollAnchor,
    average: int,
    viewport: int,
    items_count: int,
)
    requires
        0 <= a.index < items_count,
        a.offset >= 0,
        viewport > 0,
    ensures
        0 <= skip_forward(a, average, viewport, items_count).index < items_count,
        skip_forward(a, average, viewport, items_count).offset >= 0,
        skip_forward(skip_forward(a, average, viewport, items_count), average, viewport, items_count)
            == skip_forward(a, average, viewport, items_count),
{
    if a.offset > 0 && average > 0 && a.offset > viewport {
        let distance = a.offset - viewport;
        let reach = distance / average;
        let room = items_count - 1 - a.index;
        let skip = min_int(reach, room);
        assert(0 <= reach && reach * average <= distance && distance - reach * average < average)
            by (nonlinear_arith)
            requires
                reach == distance / average,
                distance > 0,
                average > 0,
        ;
        assert(0 <= skip * average <= reach * average) by (nonlinear_arith)
            requires
                0 <= skip <= reach,
                average > 0,
        ;
        let b = skip_forward(a, average, viewport, items_count);
        assert(b == ScrollAnchor { index: a.index + skip, offset: a.offset - skip * average });
        if b.offset > viewport {
            let again = min_int((b.offset - viewport) / average, items_count - 1 - b.index);
            if skip == room {
                assert((b.offset - viewport) / average >= 0) by (nonlinear_arith)
                    requires
                        b.offset - viewport > 0,
                        average > 0,
                ;
                assert(again == 0);
            } else {
                assert(skip == reach);
                assert((b.offset - viewport) / average == 0) by (nonlinear_arith)
                    requires
                        0 <= b.offset - viewport < average,
                ;
                assert(again == 0);
            }
            assert(again * average == 0) by (nonlinear_arith)
                requires
                    again == 0,
            ;
        }
    }
}

/// The position a pass starts from lies inside the list at an offset of
/// zero or more.
pub proof fn lemma_resolved_anchor_in_list(
    state: LazyListStateView,
    items_count: int,
    viewport: int,
    spacing: int,
)
    requires
        items_count > 0,
        viewport > 0,
        spacing >= 0,
    ensures
        0 <= resolved_anchor(state, items_count, viewport, spacing).index < items_count,
        resolved_anchor(state, items_count, viewport, spacing).offset >= 0,
{
    let average = state.average_item_size();
    let r = requested_anchor(state, items_count);
    let jumped = bulk_jump_back(r, average, spacing, viewport);
    assert(0 <= jumped.index) by {
        if r.offset < 0 && r.index > 0 && average > 0 && r.offset < -viewport {
            assert((-r.offset - viewport) / (average + spacing) >= 0) by (nonlinear_arith)
                requires
                    -r.offset - viewport > 0,
                    average + spacing > 0,
            ;
        }
    }
    lemma_walk_back_stays_in_list(jumped, state.cached_sizes, average, spacing);
    let walked = walk_back(jumped, state.cached_sizes, average, spacing);
    let clamped = clamp_anchor(walked, items_count);
    lemma_skip_forward_settles(clamped, average, viewport, items_count);
}

/// Offset of the `j`-th item at or after the anchor when every item has the
/// size that `sizes` gives its index.
pub open spec fn forward_offset(
    sizes: spec_fn(usize) -> i64,
    first: int,
    start: int,
    spacing: int,
    j: int,
) -> int
    decreases j,
{
    if j <= 0 {
        start
    } else {
        forward_offset(sizes, first, start, spacing, j - 1) + sizes((first + j - 1) as usize)
            + spacing
    }
}

/// Offset of the `i`-th item before the anchor, counted from the anchor,
/// when every item has the size that `sizes` gives its index.
pub open spec fn backward_offset(
    sizes: spec_fn(usize) -> i64,
    first: int,
    start: int,
    spacing: int,
    i: int,
) -> int
    decreases i,
{
    if i <= 0 {
        start
    } else {
        backward_offset(sizes, first, start, spacing, i - 1) - sizes((first - i) as usize)
            - spacing
    }
}

/// Whether every item of `w` has the size that `sizes` gives its index.
pub open spec fn sized_by(w: Seq<LazyListMeasuredItem>, sizes: spec_fn(usize) -> i64) -> bool {
    forall|j: int| 0 <= j < w.len() ==> (#[trigger] w[j]).main_axis_size == sizes(w[j].index)
}

/// In a window, the items at and after the anchor lie where the sizes of
/// the items between put them.
pub proof fn lemma_window_forward_offsets(
    w: Seq<LazyListMeasuredItem>,
    shape: WindowShape,
    anchor: ScrollAnchor,
    items_count: int,
    viewport_end: int,
    config: LazyListMeasureConfig,
    sizes: spec_fn(usize) -> i64,
    j: int,
)
    requires
        is_window(w, shape, anchor, items_count, viewport_end, config),
        sized_by(w, sizes),
        anchor.index >= 0,
        0 <= j < shape.visible + shape.after,
    ensures
        w[shape.before + j].offset == forward_offset(
            sizes,
            anchor.index,
            config.before_content_padding - anchor.offset,
            config.spacing as int,
            j,
        ),
        next_offset(w[shape.before + j], config.spacing as int) == forward_offset(
            sizes,
            anchor.index,
            config.before_content_padding - anchor.offset,
            config.spacing as int,
            j + 1,
        ),
    decreases j,
{
    let at = shape.before + j;
    let start = config.before_content_padding - anchor.offset;
    assert(w[at].index == anchor.index + j);
    assert(w[at].main_axis_size == sizes(w[at].index));
    assert(w[at].index == (anchor.index + (j + 1) - 1) as usize);
    assert(forward_offset(sizes, anchor.index, start, config.spacing as int, j + 1)
        == forward_offset(sizes, anchor.index, start, config.spacing as int, j) + sizes(
        (anchor.index + (j + 1) - 1) as usize,
    ) + config.spacing);
    if j > 0 {
        lemma_window_forward_offsets(
            w,
            shape,
            anchor,
            items_count,
            viewport_end,
            config,
            sizes,
            j - 1,
        );
        assert(follows(w, at - 1, config.spacing as int));
    }
}

/// In a window, the items before the anchor lie where the sizes of the
/// items between put them.
pub proof fn lemma_window_backward_offsets(
    w: Seq<LazyListMeasuredItem>,
    shape: WindowShape,
    anchor: ScrollAnchor,
    items_count: int,
    viewport_end: int,
    config: LazyListMeasureConfig,
    sizes: spec_fn(usize) -> i64,
    i: int,
)
    requires
        is_window(w, shape, anchor, items_count, viewport_end, config),
        sized_by(w, sizes),
        0 <= i <= shape.before,
        w.len() > 0,
    ensures
        w[shape.before - i].offset == backward_offset(
            sizes,
            anchor.index,
            config.before_content_padding - anchor.offset,
            config.spacing as int,
            i,
        ),
    decreases i,
{
    if i > 0 {
        lemma_window_backward_offsets(
            w,
            shape,
            anchor,
            items_count,
            viewport_end,
            config,
            sizes,
            i - 1,
        );
        let at = shape.before - i;
        assert(follows(w, at, config.spacing as int));
        assert(w[at].index == anchor.index - i);
        assert(w[at].main_axis_size == sizes(w[at].index));
    }
}

/// Two windows measured from one position over items of the same sizes do
/// not differ in how many items they hold on either side.
proof fn lemma_window_shape_determined(
    w1: Seq<LazyListMeasuredItem>,
    shape1: WindowShape,
    w2: Seq<LazyListMeasuredItem>,
    shape2: WindowShape,
    anchor: ScrollAnchor,
    items_count: int,
    viewport_end: int,
    config: LazyListMeasureConfig,
    sizes: spec_fn(usize) -> i64,
)
    requires
        is_window(w1, shape1, anchor, items_count, viewport_end, config),
        is_window(w2, shape2, anchor, items_count, viewport_end, config),
        sized_by(w1, sizes),
        sized_by(w2, sizes),
        anchor.index >= 0,
    ensures
        shape1.visible <= shape2.visible,
{
    let start = config.before_content_padding - anchor.offset;
    let spacing = config.spacing as int;
    if shape1.visible > shape2.visible {
        let n = shape2.visible;
        lemma_window_forward_offsets(w1, shape1, anchor, items_count, viewport_end, config, sizes, n);
        assert(w1[shape1.before + n].offset < viewport_end);
        if n > 0 {
            lemma_window_forward_offsets(
                w2,
                shape2,
                anchor,
                items_count,
                viewport_end,
                config,
                sizes,
                n - 1,
            );
        }
        assert(scan_end(w2, shape2, start, spacing) == forward_offset(
            sizes,
            anchor.index,
            start,
            spacing,
            n,
        ));
        assert(false);
    }
}

/// Two windows measured from one position over items of the same sizes hold
/// the same items at the same offsets.
pub proof fn lemma_window_determined(
    w1: Seq<LazyListMeasuredItem>,
    shape1: WindowShape,
    w2: Seq<LazyListMeasuredItem>,
    shape2: WindowShape,
    anchor: ScrollAnchor,
    items_count: int,
    viewport_end: int,
    config: LazyListMeasureConfig,
    sizes: spec_fn(usize) -> i64,
)
    requires
        is_window(w1, shape1, anchor, items_count, viewport_end, config),
        is_window(w2, shape2, anchor, items_count, viewport_end, config),
        sized_by(w1, sizes),
        sized_by(w2, sizes),
        anchor.index >= 0,
    ensures
        shape1 == shape2,
        w1.len() == w2.len(),
        forall|j: int|
            0 <= j < w1.len() ==> {
                &&& (#[trigger] w1[j]).index == w2[j].index
                &&& w1[j].offset == w2[j].offset
                &&& w1[j].main_axis_size == w2[j].main_axis_size
            },
{
    lemma_window_shape_determined(
        w1,
        shape1,
        w2,
        shape2,
        anchor,
        items_count,
        viewport_end,
        config,
        sizes,
    );
    lemma_window_shape_determined(
        w2,
        shape2,
        w1,
        shape1,
        anchor,
        items_count,
        viewport_end,
        config,
        sizes,
    );
    assert(shape1 == shape2);
    assert forall|j: int| 0 <= j < w1.len() implies {
        &&& (#[trigger] w1[j]).index == w2[j].index
        &&& w1[j].offset == w2[j].offset
        &&& w1[j].main_axis_size == w2[j].main_axis_size
    } by {
        assert(w1[j].main_axis_size == sizes(w1[j].index));
        assert(w2[j].main_axis_size == sizes(w2[j].index));
        if j >= shape1.before {
            lemma_window_forward_offsets(
                w1,
                shape1,
                anchor,
                items_count,
                viewport_end,
                config,
                sizes,
                j - shape1.before,
            );
            lemma_window_forward_offsets(
                w2,
                shape2,
                anchor,
                items_count,
                viewport_end,
                config,
                sizes,
                j - shape1.before,
            );
        } else {
            lemma_window_backward_offsets(
                w1,
                shape1,
                anchor,
                items_count,
                viewport_end,
                config,
                sizes,
                shape1.before - j,
            );
            lemma_window_backward_offsets(
                w2,
                shape2,
                anchor,
                items_count,
                viewport_end,
                config,
                sizes,
                shape1.before - j,
            );
        }
    }
}

/// Whether two sequences of items agree in index, offset and size.
pub open spec fn same_layout(a: Seq<LazyListMeasuredItem>, b: Seq<LazyListMeasuredItem>) -> bool {
    &&& a.len() == b.len()
    &&& forall|j: int|
        0 <= j < a.len() ==> {
            &&& (#[trigger] a[j]).index == b[j].index
            &&& a[j].offset == b[j].offset
            &&& a[j].main_axis_size == b[j].main_axis_size
        }
}

/// The first item that ends after the leading padding is found at the same
/// position in sequences that agree in offsets and sizes.
proof fn lemma_first_reaching_same(
    a: Seq<LazyListMeasuredItem>,
    b: Seq<LazyListMeasuredItem>,
    padding: int,
    from: int,
)
    requires
        same_layout(a, b),
        0 <= from,
    ensures
        first_reaching(a, padding, from) == first_reaching(b, padding, from),
        from <= a.len() ==> from <= first_reaching(a, padding, from) <= a.len(),
    decreases a.len() - from,
{
    if from < a.len() {
        assert(a[from].offset == b[from].offset);
        if !(a[from].end() > padding) {
            lemma_first_reaching_same(a, b, padding, from + 1);
        }
    }
}

/// Moving two sequences that agree in layout by the same distance leaves
/// them in agreement.
proof fn lemma_placed_same(a: Seq<LazyListMeasuredItem>, b: Seq<LazyListMeasuredItem>, shift: int)
    requires
        same_layout(a, b),
    ensures
        same_layout(placed(a, shift), placed(b, shift)),
{
    assert forall|j: int| 0 <= j < a.len() implies {
        &&& (#[trigger] placed(a, shift)[j]).index == placed(b, shift)[j].index
        &&& placed(a, shift)[j].offset == placed(b, shift)[j].offset
        &&& placed(a, shift)[j].main_axis_size == placed(b, shift)[j].main_axis_size
    } by {
        assert(a[j].offset == b[j].offset);
    }
}

/// A pass that follows a pass which published the position it started from
/// repeats it: with no scroll request in between, the same list, the same
/// viewport and items of unchanged sizes, the second pass publishes the same
/// anchor and places the same items at the same offsets.
pub proof fn lemma_pass_is_idempotent<F: FnMut(usize) -> LazyListMeasuredItem>(
    pre: LazyListStateView,
    items_count: usize,
    viewport_size: i64,
    config: LazyListMeasureConfig,
    measure_item: F,
    first: LazyListMeasureResult,
    between: LazyListStateView,
    second: LazyListMeasureResult,
    post: LazyListStateView,
    sizes: spec_fn(usize) -> i64,
)
    requires
        config.is_valid(),
        items_count > 0,
        viewport_size > 0,
        measure_pass(pre, items_count, viewport_size, config, measure_item, first, between),
        measure_pass(between, items_count, viewport_size, config, measure_item, second, post),
        forall|i: usize, item: LazyListMeasuredItem| #[trigger]
            call_ensures(measure_item, (i,), item) ==> item.main_axis_size == sizes(i),
        viewport_size <= crate::anchor::MAX_REASONABLE_VIEWPORT,
        first.first_visible_item_scroll_offset <= viewport_size,
        first.first_visible_item_index == resolved_anchor(
            pre,
            items_count as int,
            effective_viewport_size(
                viewport_size as int,
                pre.average_item_size(),
                config.spacing as int,
            ),
            config.spacing as int,
        ).index,
        first.first_visible_item_scroll_offset == resolved_anchor(
            pre,
            items_count as int,
            effective_viewport_size(
                viewport_size as int,
                pre.average_item_size(),
                config.spacing as int,
            ),
            config.spacing as int,
        ).offset,
    ensures
        second.first_visible_item_index == first.first_visible_item_index,
        second.first_visible_item_scroll_offset == first.first_visible_item_scroll_offset,
        same_layout(second.visible_items@, first.visible_items@),
        second.can_scroll_forward == first.can_scroll_forward,
        second.can_scroll_backward == first.can_scroll_backward,
        post.first_visible_item_index == between.first_visible_item_index,
        post.first_visible_item_scroll_offset == between.first_visible_item_scroll_offset,
{
    let spacing = config.spacing as int;
    let padding = config.before_content_padding as int;
    let viewport = effective_viewport_size(viewport_size as int, pre.average_item_size(), spacing);
    let viewport_end = viewport - config.after_content_padding;
    let anchor = resolved_anchor(pre, items_count as int, viewport, spacing);
    let (w1, shape1) = choose|w: Seq<LazyListMeasuredItem>, shape: WindowShape|
        {
            &&& #[trigger] is_window(w, shape, anchor, items_count as int, viewport_end, config)
            &&& forall|j: int| 0 <= j < w.len() ==> was_measured(measure_item, #[trigger] w[j])
            &&& pass_outcome(pre, items_count, viewport, config, anchor, w, first, between)
        };
    lemma_resolved_anchor_in_list(pre, items_count as int, viewport, spacing);
    let v = edge_clamped(w1, anchor.offset, items_count as int, viewport_end, padding);
    lemma_cached_sizes_keep_position(crate::anchor::requests_consumed(pre), v);
    lemma_anchor_at_rest(between, items_count as int, viewport, spacing);
    assert(resolved_anchor(between, items_count as int, viewport, spacing) == anchor);
    let (w2, shape2) = choose|w: Seq<LazyListMeasuredItem>, shape: WindowShape|
        {
            &&& #[trigger] is_window(w, shape, anchor, items_count as int, viewport_end, config)
            &&& forall|j: int| 0 <= j < w.len() ==> was_measured(measure_item, #[trigger] w[j])
            &&& pass_outcome(between, items_count, viewport, config, anchor, w, second, post)
        };
    assert(sized_by(w1, sizes)) by {
        assert forall|j: int| 0 <= j < w1.len() implies (#[trigger] w1[j]).main_axis_size == sizes(
            w1[j].index,
        ) by {
            assert(was_measured(measure_item, w1[j]));
        }
    }
    assert(sized_by(w2, sizes)) by {
        assert forall|j: int| 0 <= j < w2.len() implies (#[trigger] w2[j]).main_axis_size == sizes(
            w2[j].index,
        ) by {
            assert(was_measured(measure_item, w2[j]));
        }
    }
    lemma_window_determined(
        w2,
        shape2,
        w1,
        shape1,
        anchor,
        items_count as int,
        viewport_end,
        config,
        sizes,
    );
    assert(same_layout(w2, w1));
    lemma_start_shift_is_zero(w1, shape1, anchor, items_count as int, viewport_end, config);
    lemma_start_shift_is_zero(w2, shape2, anchor, items_count as int, viewport_end, config);
    let shift1 = end_shift(w1, items_count as int, viewport_end, padding);
    let shift2 = end_shift(w2, items_count as int, viewport_end, padding);
    assert(shift1 == shift2) by {
        if w1.len() > 0 {
            assert(w1[0].offset == w2[0].offset);
            assert(w1[w1.len() - 1].offset == w2[w1.len() - 1].offset);
        }
    }
    lemma_placed_same(w2, w1, shift1);
    let v1 = placed(w1, shift1);
    let v2 = placed(w2, shift1);
    assert(first.visible_items@ == v1);
    assert(second.visible_items@ == v2);
    lemma_first_reaching_same(v2, v1, padding, 0);
    let at = first_reaching(v1, padding, 0);
    if at < v1.len() {
        assert(v1[at].offset == v2[at].offset);
    }
    if v1.len() > 0 {
        assert(v1[0].index == v2[0].index);
        assert(v1[v1.len() - 1].offset == v2[v1.len() - 1].offset);
    }
}

} // verus!
