//! What a measurement pass produces: measured items and the pass result.

use crate::layout_info::LazyListItemInfo;
use vstd::prelude::*;

verus! {

/// One item that has been instantiated and measured.
#[derive(Clone, Debug)]
pub struct LazyListMeasuredItem {
    /// Index in the data source.
    pub index: usize,
    /// Slot identifier of the item's key.
    pub key: u64,
    /// Content type used to match reusable slots.
    pub content_type: Option<u64>,
    /// Size along the scrolling axis.
    pub main_axis_size: i64,
    /// Size across the scrolling axis.
    pub cross_axis_size: i64,
    /// Offset from the start of the viewport; assigned by the pass.
    pub offset: i64,
    /// Identifiers of the nodes instantiated for this item.
    pub node_ids: Vec<u64>,
}

impl LazyListMeasuredItem {
    /// A measured item that has not been placed and owns no nodes.
    pub fn new(
        index: usize,
        key: u64,
        content_type: Option<u64>,
        main_axis_size: i64,
        cross_axis_size: i64,
    ) -> (item: Self)
        ensures
            item.index == index,
            item.key == key,
            item.content_type == content_type,
            item.main_axis_size == main_axis_size,
            item.cross_axis_size == cross_axis_size,
            item.offset == 0,
            item.node_ids@ == Seq::<u64>::empty(),
    {
        Self {
            index,
            key,
            content_type,
            main_axis_size,
            cross_axis_size,
            offset: 0,
            node_ids: Vec::new(),
        }
    }

    /// This item placed at `offset`.
    pub open spec fn with_offset(self, offset: i64) -> Self {
        LazyListMeasuredItem { offset, ..self }
    }

    /// Offset at which this item ends.
    pub open spec fn end(self) -> int {
        self.offset + self.main_axis_size
    }

    /// What observers are told about this item.
    pub open spec fn item_info(self) -> LazyListItemInfo {
        LazyListItemInfo {
            index: self.index,
            key: self.key,
            offset: self.offset,
            size: self.main_axis_size,
        }
    }

    /// What observers are told about this item.
    pub fn to_item_info(&self) -> (info: LazyListItemInfo)
        ensures
            info == self.item_info(),
    {
        LazyListItemInfo {
            index: self.index,
            key: self.key,
            offset: self.offset,
            size: self.main_axis_size,
        }
    }
}

/// Result of one measurement pass.
#[derive(Clone, Debug)]
pub struct LazyListMeasureResult {
    /// The items to place, in list order, buffer items included.
    pub visible_items: Vec<LazyListMeasuredItem>,
    /// Index of the first item that reaches into the viewport.
    pub first_visible_item_index: usize,
    /// How far that item is scrolled out at the start.
    pub first_visible_item_scroll_offset: i64,
    /// Size of the viewport that was laid out.
    pub viewport_size: i64,
    /// Estimated size of the whole content.
    pub total_content_size: i64,
    /// Whether content remains after the viewport.
    pub can_scroll_forward: bool,
    /// Whether content remains before the viewport.
    pub can_scroll_backward: bool,
}

impl LazyListMeasureResult {
    /// Whether this is the result of a pass over nothing.
    pub open spec fn is_empty_result(self) -> bool {
        &&& self.visible_items@ == Seq::<LazyListMeasuredItem>::empty()
        &&& self.first_visible_item_index == 0
        &&& self.first_visible_item_scroll_offset == 0
        &&& self.viewport_size == 0
        &&& self.total_content_size == 0
        &&& !self.can_scroll_forward
        &&& !self.can_scroll_backward
    }
}

impl Default for LazyListMeasureResult {
    fn default() -> (result: Self)
        ensures
            result.is_empty_result(),
    {
        Self {
            visible_items: Vec::new(),
            first_visible_item_index: 0,
            first_visible_item_scroll_offset: 0,
            viewport_size: 0,
            total_content_size: 0,
            can_scroll_forward: false,
            can_scroll_backward: false,
        }
    }
}

} // verus!
