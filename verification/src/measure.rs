//! The measurement pass.
//!
//! A pass takes the waiting scroll requests off the state, measures the
//! window of items around the resulting position, keeps the window from
//! leaving the ends of the list, and publishes the new anchor, a layout
//! snapshot and the scroll capabilities.

use crate::anchor::{
    effective_viewport, effective_viewport_size, requests_consumed, resolve_anchor,
    resolved_anchor, ScrollAnchor,
};
use crate::extent::{is_extent, MAX_EXTENT};
use crate::layout_info::{LazyListItemInfo, LazyListLayoutInfo, LazyListLayoutInfoView};
use crate::measured_item::{LazyListMeasureResult, LazyListMeasuredItem};
use crate::state::{LazyListState, LazyListStateView};
use crate::window::{
    follows, is_window, measure_window, measures_items, was_measured, LazyListMeasureConfig,
    WindowShape,
};
use vstd::prelude::*;

verus! {

/// The items of `w`, each moved by `shift`.
pub open spec fn placed(w: Seq<LazyListMeasuredItem>, shift: int) -> Seq<LazyListMeasuredItem> {
    Seq::new(w.len(), |j: int| w[j].with_offset((w[j].offset + shift) as i64))
}

/// How far a window moves so that the first item of the list does not start
/// after the leading padding while the anchor is scrolled into its item.
pub open spec fn start_shift(
    w: Seq<LazyListMeasuredItem>,
    anchor_offset: int,
    padding: int,
) -> int {
    if anchor_offset > 0 && w.len() > 0 && w[0].index == 0 && w[0].offset > padding {
        padding - w[0].offset
    } else {
        0
    }
}

/// How far a window moves so that the last item of the list ends at the end
/// of the viewport instead of before it. The window stays where it is if
/// that would detach the first item of the list from the leading padding.
pub open spec fn end_shift(
    w: Seq<LazyListMeasuredItem>,
    items_count: int,
    viewport_end: int,
    padding: int,
) -> int {
    if w.len() > 0 && w.last().index == items_count - 1 && w.last().end() < viewport_end {
        let adjustment = viewport_end - w.last().end();
        if w[0].offset + adjustment <= padding || w[0].index > 0 {
            adjustment
        } else {
            0
        }
    } else {
        0
    }
}

/// A window after both ends of the list have been taken into account.
pub open spec fn edge_clamped(
    w: Seq<LazyListMeasuredItem>,
    anchor_offset: int,
    items_count: int,
    viewport_end: int,
    padding: int,
) -> Seq<LazyListMeasuredItem> {
    let at_start = placed(w, start_shift(w, anchor_offset, padding));
    placed(at_start, end_shift(at_start, items_count, viewport_end, padding))
}

/// Position in `v`, from `from` on, of the first item that ends after the
/// leading padding; the length of `v` if there is none.
pub open spec fn first_reaching(v: Seq<LazyListMeasuredItem>, padding: int, from: int) -> int
    decreases v.len() - from,
{
    if from >= v.len() {
        v.len() as int
    } else if v[from].end() > padding {
        from
    } else {
        first_reaching(v, padding, from + 1)
    }
}

/// Index of the anchor that a pass publishes: that of the first item that
/// ends after the leading padding, else that of the first item, else zero.
pub open spec fn published_index(v: Seq<LazyListMeasuredItem>, padding: int) -> usize {
    let j = first_reaching(v, padding, 0);
    if j < v.len() {
        v[j].index
    } else if v.len() > 0 {
        v[0].index
    } else {
        0
    }
}

/// Offset of the anchor that a pass publishes: how far the anchor item
/// starts before the leading padding, and zero if it starts after it.
pub open spec fn published_offset(v: Seq<LazyListMeasuredItem>, padding: int) -> int {
    let j = first_reaching(v, padding, 0);
    if j < v.len() && padding - v[j].offset > 0 {
        padding - v[j].offset
    } else {
        0
    }
}

/// Key that a pass remembers: that of the published anchor item; the one
/// remembered before if nothing was measured.
pub open spec fn published_key(
    v: Seq<LazyListMeasuredItem>,
    padding: int,
    previous: Option<u64>,
) -> Option<u64> {
    let j = first_reaching(v, padding, 0);
    if j < v.len() {
        Some(v[j].key)
    } else if v.len() > 0 {
        Some(v[0].key)
    } else {
        previous
    }
}

/// Sum of the sizes of `v`.
pub open spec fn total_size(v: Seq<LazyListMeasuredItem>) -> int
    decreases v.len(),
{
    if v.len() == 0 {
        0
    } else {
        total_size(v.drop_last()) + v.last().main_axis_size
    }
}

/// Estimate of the size of the whole content: the paddings, and for every
/// item of the list the mean size of the measured items plus the spacing,
/// less one spacing. Without measured items the mean of the state stands in.
/// The estimate is held within `i64`.
pub open spec fn estimated_total_content_size(
    items_count: int,
    v: Seq<LazyListMeasuredItem>,
    config: LazyListMeasureConfig,
    state_average: int,
) -> int {
    if items_count == 0 {
        0
    } else {
        let average = if v.len() > 0 {
            total_size(v) / v.len() as int
        } else {
            state_average
        };
        let total = config.before_content_padding + (average + config.spacing) * items_count
            - config.spacing + config.after_content_padding;
        if total > i64::MAX {
            i64::MAX as int
        } else {
            total
        }
    }
}

/// The snapshot that a pass publishes.
pub open spec fn published_layout(
    v: Seq<LazyListMeasuredItem>,
    items_count: usize,
    viewport: i64,
    config: LazyListMeasureConfig,
) -> LazyListLayoutInfoView {
    LazyListLayoutInfoView {
        visible_items_info: Seq::new(v.len(), |j: int| v[j].item_info()),
        total_items_count: items_count,
        viewport_size: viewport,
        viewport_start_offset: config.before_content_padding,
        viewport_end_offset: config.after_content_padding,
        before_content_padding: config.before_content_padding,
        after_content_padding: config.after_content_padding,
    }
}

/// The state after the sizes of the items of `v` have been stored, one
/// after the other in list order.
pub open spec fn with_cached_sizes(
    state: LazyListStateView,
    v: Seq<LazyListMeasuredItem>,
) -> LazyListStateView
    decreases v.len(),
{
    if v.len() == 0 {
        state
    } else {
        with_cached_sizes(state, v.drop_last()).with_cached_size(
            v.last().index,
            v.last().main_axis_size,
        )
    }
}

/// Whether content follows what was placed: items after the last placed one,
/// or a last item that ends after the viewport does.
pub open spec fn reaches_forward(
    v: Seq<LazyListMeasuredItem>,
    items_count: int,
    viewport_end: int,
) -> bool {
    v.len() > 0 && (v.last().index < items_count - 1 || v.last().end() > viewport_end)
}

/// What a pass returns and leaves in the state once it has measured the
/// window `w` from `anchor` in a viewport of size `viewport`: the window held
/// at the ends of the list, the estimate of the content size, the sizes of
/// the measured items in the cache, the new anchor with its key, the layout
/// snapshot and the scroll capabilities.
pub open spec fn pass_outcome(
    pre: LazyListStateView,
    items_count: usize,
    viewport: int,
    config: LazyListMeasureConfig,
    anchor: ScrollAnchor,
    w: Seq<LazyListMeasuredItem>,
    result: LazyListMeasureResult,
    post: LazyListStateView,
) -> bool {
    let padding = config.before_content_padding as int;
    let viewport_end = viewport - config.after_content_padding;
    let v = edge_clamped(w, anchor.offset, items_count as int, viewport_end, padding);
    &&& result.visible_items@ == v
    &&& result.first_visible_item_index == published_index(v, padding)
    &&& result.first_visible_item_scroll_offset == published_offset(v, padding)
    &&& result.viewport_size == viewport
    &&& result.total_content_size == estimated_total_content_size(
        items_count as int,
        v,
        config,
        pre.average_item_size(),
    )
    &&& result.can_scroll_backward == (result.first_visible_item_index > 0
        || result.first_visible_item_scroll_offset > 0)
    &&& result.can_scroll_forward == reaches_forward(v, items_count as int, viewport_end)
    &&& post == (LazyListStateView {
        first_visible_item_index: result.first_visible_item_index,
        first_visible_item_scroll_offset: result.first_visible_item_scroll_offset,
        last_known_first_visible_key: published_key(v, padding, pre.last_known_first_visible_key),
        layout_info: published_layout(v, items_count, result.viewport_size, config),
        ..with_cached_sizes(requests_consumed(pre), v)
    })
}

/// What a pass over a list with items and a viewport with room does: it
/// resolves the anchor, measures the window there with the callback, and
/// returns and publishes the outcome.
pub open spec fn measure_pass<F: FnMut(usize) -> LazyListMeasuredItem>(
    pre: LazyListStateView,
    items_count: usize,
    viewport_size: i64,
    config: LazyListMeasureConfig,
    measure_item: F,
    result: LazyListMeasureResult,
    post: LazyListStateView,
) -> bool {
    let viewport = effective_viewport_size(
        viewport_size as int,
        pre.average_item_size(),
        config.spacing as int,
    );
    let anchor = resolved_anchor(pre, items_count as int, viewport, config.spacing as int);
    exists|w: Seq<LazyListMeasuredItem>, shape: WindowShape|
        {
            &&& #[trigger] is_window(
                w,
                shape,
                anchor,
                items_count as int,
                viewport - config.after_content_padding,
                config,
            )
            &&& forall|j: int| 0 <= j < w.len() ==> was_measured(measure_item, #[trigger] w[j])
            &&& pass_outcome(pre, items_count, viewport, config, anchor, w, result, post)
        }
}

/// Along a window, offsets never decrease.
pub proof fn lemma_window_offsets_ascend(
    w: Seq<LazyListMeasuredItem>,
    spacing: int,
    j: int,
    k: int,
)
    requires
        spacing >= 0,
        forall|i: int| 0 <= i < w.len() ==> is_extent((#[trigger] w[i]).main_axis_size as int),
        forall|i: int| 0 <= i < w.len() - 1 ==> #[trigger] follows(w, i, spacing),
        0 <= j <= k < w.len(),
    ensures
        w[j].offset <= w[k].offset,
    decreases k - j,
{
    if j < k {
        lemma_window_offsets_ascend(w, spacing, j, k - 1);
        assert(follows(w, k - 1, spacing));
        assert(is_extent(w[k - 1].main_axis_size as int));
    }
}

/// The first item of a window never starts after the leading padding while
/// the anchor is scrolled into its item, so a window never moves on account
/// of the start of the list.
pub proof fn lemma_start_shift_is_zero(
    w: Seq<LazyListMeasuredItem>,
    shape: WindowShape,
    anchor: ScrollAnchor,
    items_count: int,
    viewport_end: int,
    config: LazyListMeasureConfig,
)
    requires
        config.is_valid(),
        is_window(w, shape, anchor, items_count, viewport_end, config),
    ensures
        start_shift(w, anchor.offset, config.before_content_padding as int) == 0,
        placed(w, 0) == w,
{
    if w.len() > 0 {
        lemma_window_offsets_ascend(w, config.spacing as int, 0, shape.before);
    }
    assert(placed(w, 0) =~= w);
}

/// Estimates the size of the whole content from the measured items.
pub fn estimate_total_content_size(
    items_count: usize,
    measured_items: &[LazyListMeasuredItem],
    config: &LazyListMeasureConfig,
    state_average_size: i64,
) -> (total: i64)
    requires
        config.is_valid(),
        is_extent(state_average_size as int),
        forall|j: int|
            0 <= j < measured_items@.len() ==> is_extent(
                (#[trigger] measured_items@[j]).main_axis_size as int,
            ),
    ensures
        total == estimated_total_content_size(
            items_count as int,
            measured_items@,
            *config,
            state_average_size as int,
        ),
        total >= 0,
{
    if items_count == 0 {
        return 0;
    }
    let n: usize = measured_items.len();
    let average: i128 = if n > 0 {
        let mut total_measured_size: i128 = 0;
        let mut i: usize = 0;
        while i < n
            invariant
                i <= n,
                n == measured_items@.len(),
                total_measured_size == total_size(measured_items@.take(i as int)),
                0 <= total_measured_size <= i * MAX_EXTENT,
                forall|j: int|
                    0 <= j < measured_items@.len() ==> is_extent(
                        (#[trigger] measured_items@[j]).main_axis_size as int,
                    ),
            decreases n - i,
        {
            proof {
                let longer = measured_items@.take(i + 1);
                assert(longer.drop_last() =~= measured_items@.take(i as int));
                assert(longer.last() == measured_items@[i as int]);
                assert(is_extent(measured_items@[i as int].main_axis_size as int));
                assert(i * MAX_EXTENT + MAX_EXTENT == (i + 1) * MAX_EXTENT) by (nonlinear_arith);
                assert((i + 1) * MAX_EXTENT <= usize::MAX * MAX_EXTENT) by (nonlinear_arith)
                    requires
                        i + 1 <= usize::MAX,
                ;
            }
            total_measured_size = total_measured_size + measured_items[i].main_axis_size as i128;
            i += 1;
        }
        proof {
            assert(measured_items@.take(n as int) =~= measured_items@);
            assert(total_measured_size as int / n as int <= MAX_EXTENT) by (nonlinear_arith)
                requires
                    0 <= total_measured_size <= n * MAX_EXTENT,
                    n > 0,
            ;
            assert(0 <= total_measured_size as int / n as int) by (nonlinear_arith)
                requires
                    0 <= total_measured_size,
                    n > 0,
            ;
        }
        total_measured_size / (n as i128)
    } else {
        state_average_size as i128
    };
    let per_item: i128 = average + config.spacing as i128;
    proof {
        assert(0 <= per_item * items_count <= 0x200_0000_0000 * 0xffff_ffff_ffff_ffff)
            by (nonlinear_arith)
            requires
                0 <= per_item <= 0x200_0000_0000,
                0 <= items_count <= 0xffff_ffff_ffff_ffff,
        ;
        assert(per_item * items_count >= per_item) by (nonlinear_arith)
            requires
                0 <= per_item,
                items_count >= 1,
        ;
    }
    let total: i128 = config.before_content_padding as i128 + per_item * (items_count as i128)
        - config.spacing as i128 + config.after_content_padding as i128;
    if total > i64::MAX as i128 {
        i64::MAX
    } else {
        total as i64
    }
}

/// How far the window moves on account of the end of the list.
fn end_adjustment(
    items: &Vec<LazyListMeasuredItem>,
    items_count: usize,
    viewport_end: i64,
    padding: i64,
) -> (adjustment: i64)
    requires
        items_count > 0,
        is_extent(padding as int),
        -0x100_0000_0000 <= viewport_end <= 0x2800_0000_0000,
        forall|j: int|
            0 <= j < items@.len() ==> {
                &&& is_extent((#[trigger] items@[j]).main_axis_size as int)
                &&& -0x400_0000_0000_0000 <= items@[j].offset <= 0x400_0000_0000_0000
            },
    ensures
        adjustment == end_shift(items@, items_count as int, viewport_end as int, padding as int),
        0 <= adjustment <= 0x500_0000_0000_0000,
{
    let n = items.len();
    if n == 0 {
        return 0;
    }
    let last_visible = &items[n - 1];
    let last_item_end: i64 = last_visible.offset + last_visible.main_axis_size;
    if last_visible.index == items_count - 1 && last_item_end < viewport_end {
        let adjustment: i64 = viewport_end - last_item_end;
        let first_offset_after: i64 = items[0].offset + adjustment;
        if first_offset_after <= padding || items[0].index > 0 {
            return adjustment;
        }
    }
    0
}

/// Moves every item by `adjustment`.
fn shift_items(items: &mut Vec<LazyListMeasuredItem>, adjustment: i64)
    requires
        forall|j: int|
            0 <= j < old(items)@.len() ==> i64::MIN <= (#[trigger] old(items)@[j]).offset
                + adjustment <= i64::MAX,
    ensures
        final(items)@ == placed(old(items)@, adjustment as int),
{
    let n = items.len();
    let mut i: usize = 0;
    while i < n
        invariant
            i <= n,
            items.len() == n,
            n == old(items)@.len(),
            forall|j: int|
                0 <= j < n ==> i64::MIN <= (#[trigger] old(items)@[j]).offset + adjustment
                    <= i64::MAX,
            forall|j: int|
                0 <= j < i ==> #[trigger] items@[j] == old(items)@[j].with_offset(
                    (old(items)@[j].offset + adjustment) as i64,
                ),
            forall|j: int| i <= j < n ==> #[trigger] items@[j] == old(items)@[j],
        decreases n - i,
    {
        assert(items@[i as int] == old(items)@[i as int]);
        items[i].offset = items[i].offset + adjustment;
        i += 1;
    }
    assert(items@ =~= placed(old(items)@, adjustment as int));
}

/// Stores the size of every item in the cache of the state.
fn cache_measured_sizes(state: &mut LazyListState, items: &Vec<LazyListMeasuredItem>)
    requires
        old(state)@.wf(),
        forall|j: int| 0 <= j < items@.len() ==> is_extent((#[trigger] items@[j]).main_axis_size as int),
    ensures
        final(state)@ == with_cached_sizes(old(state)@, items@),
        final(state)@.wf(),
{
    let mut i: usize = 0;
    while i < items.len()
        invariant
            i <= items.len(),
            state@.wf(),
            state@ == with_cached_sizes(old(state)@, items@.take(i as int)),
            forall|j: int|
                0 <= j < items@.len() ==> is_extent((#[trigger] items@[j]).main_axis_size as int),
        decreases items.len() - i,
    {
        proof {
            let next = items@.take(i + 1);
            assert(next.drop_last() =~= items@.take(i as int));
            assert(next.last() == items@[i as int]);
        }
        state.cache_item_size(items[i].index, items[i].main_axis_size);
        i += 1;
    }
    assert(items@.take(i as int) =~= items@);
}

/// Storing sizes leaves everything but the cache and the mean as it was.
pub proof fn lemma_cached_sizes_keep_position(
    state: LazyListStateView,
    v: Seq<LazyListMeasuredItem>,
)
    ensures
        with_cached_sizes(state, v) == (LazyListStateView {
            cached_sizes: with_cached_sizes(state, v).cached_sizes,
            cache_order: with_cached_sizes(state, v).cache_order,
            measured_size_total: with_cached_sizes(state, v).measured_size_total,
            measured_item_count: with_cached_sizes(state, v).measured_item_count,
            ..state
        }),
    decreases v.len(),
{
    if v.len() > 0 {
        lemma_cached_sizes_keep_position(state, v.drop_last());
    }
}

/// What observers are told about the placed items.
fn item_infos(items: &Vec<LazyListMeasuredItem>) -> (infos: Vec<LazyListItemInfo>)
    ensures
        infos@ == Seq::new(items@.len(), |j: int| items@[j].item_info()),
{
    let mut infos: Vec<LazyListItemInfo> = Vec::new();
    let mut i: usize = 0;
    while i < items.len()
        invariant
            i <= items.len(),
            infos.len() == i,
            forall|j: int| 0 <= j < i ==> #[trigger] infos@[j] == items@[j].item_info(),
        decreases items.len() - i,
    {
        infos.push(items[i].to_item_info());
        i += 1;
    }
    assert(infos@ =~= Seq::new(items@.len(), |j: int| items@[j].item_info()));
    infos
}

/// Position of the first item that ends after the leading padding.
fn find_first_reaching(items: &Vec<LazyListMeasuredItem>, padding: i64) -> (position: usize)
    requires
        forall|j: int|
            0 <= j < items@.len() ==> {
                &&& is_extent((#[trigger] items@[j]).main_axis_size as int)
                &&& -0x1000_0000_0000_0000 <= items@[j].offset <= 0x1000_0000_0000_0000
            },
    ensures
        position == first_reaching(items@, padding as int, 0),
        position <= items@.len(),
        position < items@.len() ==> items@[position as int].end() > padding,
{
    let mut position: usize = 0;
    while position < items.len() && !(items[position].offset + items[position].main_axis_size
        > padding)
        invariant
            position <= items.len(),
            first_reaching(items@, padding as int, position as int) == first_reaching(
                items@,
                padding as int,
                0,
            ),
            forall|j: int|
                0 <= j < items@.len() ==> {
                    &&& is_extent((#[trigger] items@[j]).main_axis_size as int)
                    &&& -0x1000_0000_0000_0000 <= items@[j].offset <= 0x1000_0000_0000_0000
                },
        decreases items.len() - position,
    {
        position += 1;
    }
    position
}

/// Runs one measurement pass over a list of `items_count` items in a
/// viewport of `viewport_size`, asking `measure_item` for every item of the
/// window.
///
/// A list without items or a viewport without room yields the empty result
/// and leaves the state alone; the callback need not accept any index then.
pub fn measure_lazy_list<F>(
    items_count: usize,
    state: &mut LazyListState,
    viewport_size: i64,
    _cross_axis_size: i64,
    config: &LazyListMeasureConfig,
    measure_item: F,
) -> (result: LazyListMeasureResult) where F: FnMut(usize) -> LazyListMeasuredItem
    requires
        old(state)@.wf(),
        config.is_valid(),
        items_count > 0 && viewport_size > 0 ==> measures_items(measure_item, items_count),
    ensures
        final(state)@.wf(),
        items_count == 0 || viewport_size <= 0 ==> result.is_empty_result() && final(state)@
            == old(state)@,
        items_count > 0 && viewport_size > 0 ==> measure_pass(
            old(state)@,
            items_count,
            viewport_size,
            *config,
            measure_item,
            result,
            final(state)@,
        ),
        items_count > 0 && viewport_size > 0 ==> final(state)@.is_settled(),
        items_count > 0 ==> result.first_visible_item_index < items_count,
        is_extent(result.first_visible_item_scroll_offset as int),
        forall|j: int|
            0 <= j < result.visible_items@.len() ==> (#[trigger] result.visible_items@[j]).index
                < items_count,
{
    if items_count == 0 || viewport_size <= 0 {
        return LazyListMeasureResult::default();
    }
    let ghost pre = state@;
    let state_average = state.average_item_size();
    let effective_viewport_size = effective_viewport(viewport_size, state_average, config.spacing);
    let (first_item_index, first_item_scroll_offset) = resolve_anchor(
        items_count,
        state,
        effective_viewport_size,
        config.spacing,
    );
    let ghost anchor = ScrollAnchor {
        index: first_item_index as int,
        offset: first_item_scroll_offset as int,
    };
    let padding = config.before_content_padding;
    let viewport_end: i64 = effective_viewport_size - config.after_content_padding;

    let (mut visible_items, Ghost(shape)) = measure_window(
        items_count,
        first_item_index,
        first_item_scroll_offset,
        viewport_end,
        config,
        measure_item,
    );
    let ghost w = visible_items@;
    proof {
        lemma_start_shift_is_zero(w, shape, anchor, items_count as int, viewport_end as int, *config);
    }

    if first_item_scroll_offset > 0 && visible_items.len() > 0 {
        if visible_items[0].index == 0 && visible_items[0].offset > padding {
            let adjustment: i64 = visible_items[0].offset - padding;
            shift_items(&mut visible_items, -adjustment);
        }
    }
    assert(visible_items@ == placed(w, start_shift(w, anchor.offset, padding as int)));

    let adjustment = end_adjustment(&visible_items, items_count, viewport_end, padding);
    if adjustment != 0 {
        shift_items(&mut visible_items, adjustment);
    } else {
        assert(visible_items@ =~= placed(visible_items@, 0));
    }
    let ghost v = visible_items@;
    assert(v == edge_clamped(
        w,
        anchor.offset,
        items_count as int,
        viewport_end as int,
        padding as int,
    ));
    assert forall|j: int| 0 <= j < v.len() implies {
        &&& is_extent((#[trigger] v[j]).main_axis_size as int)
        &&& -0x1000_0000_0000_0000 <= v[j].offset <= 0x1000_0000_0000_0000
    } by {
        assert(v[j].main_axis_size == w[j].main_axis_size);
        assert(w[j].offset + adjustment == v[j].offset);
    }

    let total_content_size = estimate_total_content_size(
        items_count,
        visible_items.as_slice(),
        config,
        state_average,
    );

    cache_measured_sizes(state, &visible_items);

    let position = find_first_reaching(&visible_items, padding);
    let n = visible_items.len();
    let (final_first_index, final_scroll_offset): (usize, i64) = if position < n {
        let first = &visible_items[position];
        let offset: i64 = padding - first.offset;
        (first.index, if offset > 0 {
            offset
        } else {
            0
        })
    } else if n > 0 {
        (visible_items[0].index, 0)
    } else {
        (0, 0)
    };
    if position < n {
        let key = visible_items[position].key;
        state.update_scroll_position_with_key(final_first_index, final_scroll_offset, key);
    } else if n > 0 {
        let key = visible_items[0].key;
        state.update_scroll_position_with_key(final_first_index, final_scroll_offset, key);
    } else {
        state.update_scroll_position(final_first_index, final_scroll_offset);
    }
    state.update_layout_info(
        LazyListLayoutInfo {
            visible_items_info: item_infos(&visible_items),
            total_items_count: items_count,
            viewport_size: effective_viewport_size,
            viewport_start_offset: config.before_content_padding,
            viewport_end_offset: config.after_content_padding,
            before_content_padding: config.before_content_padding,
            after_content_padding: config.after_content_padding,
        },
    );

    let can_scroll_backward = final_first_index > 0 || final_scroll_offset > 0;
    let can_scroll_forward = if n > 0 {
        let last = &visible_items[n - 1];
        last.index < items_count - 1 || (last.offset + last.main_axis_size) > viewport_end
    } else {
        false
    };

    let result = LazyListMeasureResult {
        visible_items,
        first_visible_item_index: final_first_index,
        first_visible_item_scroll_offset: final_scroll_offset,
        viewport_size: effective_viewport_size,
        total_content_size,
        can_scroll_forward,
        can_scroll_backward,
    };
    proof {
        assert forall|j: int| 0 <= j < v.len() implies (#[trigger] v[j]).index < items_count by {
            assert(v[j].index == w[j].index);
        }
        assert(result.visible_items@ == v);
        lemma_cached_sizes_keep_position(requests_consumed(pre), v);
        assert(pass_outcome(
            pre,
            items_count,
            effective_viewport_size as int,
            *config,
            anchor,
            w,
            result,
            state@,
        ));
        assert(is_window(
            w,
            shape,
            anchor,
            items_count as int,
            effective_viewport_size - config.after_content_padding,
            *config,
        ));
    }
    result
}

} // verus!
