//! Snapshot of a finished measurement pass for outside observers such as
//! scroll indicators.

use vstd::prelude::*;

verus! {

/// One placed item as observers see it.
#[derive(Clone, Copy, Debug, PartialEq, Eq, Structural)]
pub struct LazyListItemInfo {
    /// Index of the item in the data source.
    pub index: usize,
    /// Slot identifier of the item's key.
    pub key: u64,
    /// Offset of the item from the start of the viewport.
    pub offset: i64,
    /// Size of the item along the scrolling axis.
    pub size: i64,
}

/// What the last measurement pass placed, and where.
#[derive(Debug)]
pub struct LazyListLayoutInfo {
    /// The placed items in list order.
    pub visible_items_info: Vec<LazyListItemInfo>,
    /// Number of items in the list.
    pub total_items_count: usize,
    /// Size of the viewport along the scrolling axis.
    pub viewport_size: i64,
    /// Start offset of the viewport (content padding before).
    pub viewport_start_offset: i64,
    /// End offset of the viewport (content padding after).
    pub viewport_end_offset: i64,
    /// Content padding before the first item.
    pub before_content_padding: i64,
    /// Content padding after the last item.
    pub after_content_padding: i64,
}

/// A layout snapshot as a mathematical value.
pub struct LazyListLayoutInfoView {
    pub visible_items_info: Seq<LazyListItemInfo>,
    pub total_items_count: usize,
    pub viewport_size: i64,
    pub viewport_start_offset: i64,
    pub viewport_end_offset: i64,
    pub before_content_padding: i64,
    pub after_content_padding: i64,
}

impl LazyListLayoutInfoView {
    /// The snapshot of a list that has not been measured.
    pub open spec fn empty() -> Self {
        LazyListLayoutInfoView {
            visible_items_info: Seq::empty(),
            total_items_count: 0,
            viewport_size: 0,
            viewport_start_offset: 0,
            viewport_end_offset: 0,
            before_content_padding: 0,
            after_content_padding: 0,
        }
    }

    /// Whether items follow the last placed one, or the last placed one
    /// reaches beyond the viewport.
    pub open spec fn can_scroll_forward(self) -> bool {
        self.visible_items_info.len() > 0 && {
            let last = self.visible_items_info.last();
            ||| last.index + 1 < self.total_items_count
            ||| last.offset + last.size > self.viewport_size
        }
    }
}

impl View for LazyListLayoutInfo {
    type V = LazyListLayoutInfoView;

    open spec fn view(&self) -> LazyListLayoutInfoView {
        LazyListLayoutInfoView {
            visible_items_info: self.visible_items_info@,
            total_items_count: self.total_items_count,
            viewport_size: self.viewport_size,
            viewport_start_offset: self.viewport_start_offset,
            viewport_end_offset: self.viewport_end_offset,
            before_content_padding: self.before_content_padding,
            after_content_padding: self.after_content_padding,
        }
    }
}

impl Default for LazyListLayoutInfo {
    fn default() -> (info: Self)
        ensures
            info@ == LazyListLayoutInfoView::empty(),
    {
        Self {
            visible_items_info: Vec::new(),
            total_items_count: 0,
            viewport_size: 0,
            viewport_start_offset: 0,
            viewport_end_offset: 0,
            before_content_padding: 0,
            after_content_padding: 0,
        }
    }
}

impl Clone for LazyListLayoutInfo {
    fn clone(&self) -> (copy: Self)
        ensures
            copy@ == self@,
    {
        let mut items: Vec<LazyListItemInfo> = Vec::new();
        let mut i: usize = 0;
        while i < self.visible_items_info.len()
            invariant
                i <= self.visible_items_info.len(),
                items@ == self.visible_items_info@.take(i as int),
            decreases self.visible_items_info.len() - i,
        {
            items.push(self.visible_items_info[i]);
            i += 1;
            assert(items@ =~= self.visible_items_info@.take(i as int));
        }
        assert(items@ =~= self.visible_items_info@);
        Self {
            visible_items_info: items,
            total_items_count: self.total_items_count,
            viewport_size: self.viewport_size,
            viewport_start_offset: self.viewport_start_offset,
            viewport_end_offset: self.viewport_end_offset,
            before_content_padding: self.before_content_padding,
            after_content_padding: self.after_content_padding,
        }
    }
}

} // verus!
