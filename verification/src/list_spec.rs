//! How a lazy column or row is laid out, as the widget layer states it.

use crate::window::{get_spacing, LazyListMeasureConfig, LinearArrangement};
use vstd::prelude::*;

verus! {

/// Layout of a vertically scrolling list.
#[derive(Clone, Copy, Debug)]
pub struct LazyColumnSpec {
    /// Arrangement of the items along the column.
    pub vertical_arrangement: LinearArrangement,
    /// Content padding before the first item.
    pub content_padding_top: i64,
    /// Content padding after the last item.
    pub content_padding_bottom: i64,
    /// Number of items measured beyond the viewport on either side.
    pub beyond_bounds_item_count: usize,
}

impl Default for LazyColumnSpec {
    fn default() -> (spec: Self)
        ensures
            spec == LazyColumnSpec::standard(),
    {
        Self {
            vertical_arrangement: LinearArrangement::Start,
            content_padding_top: 0,
            content_padding_bottom: 0,
            beyond_bounds_item_count: 2,
        }
    }
}

impl LazyColumnSpec {
    /// Items packed at the top, no padding, a buffer of two.
    pub open spec fn standard() -> Self {
        LazyColumnSpec {
            vertical_arrangement: LinearArrangement::Start,
            content_padding_top: 0,
            content_padding_bottom: 0,
            beyond_bounds_item_count: 2,
        }
    }

    /// The configuration of a measurement pass over this column.
    pub open spec fn config(self) -> LazyListMeasureConfig {
        LazyListMeasureConfig {
            is_vertical: true,
            reverse_layout: false,
            before_content_padding: self.content_padding_top,
            after_content_padding: self.content_padding_bottom,
            spacing: match self.vertical_arrangement {
                LinearArrangement::SpacedBy(gap) => gap,
                _ => 0,
            },
            beyond_bounds_item_count: self.beyond_bounds_item_count,
            vertical_arrangement: Some(self.vertical_arrangement),
            horizontal_arrangement: None,
        }
    }

    /// Items packed at the top, no padding, a buffer of two.
    pub fn new() -> (spec: Self)
        ensures
            spec == LazyColumnSpec::standard(),
    {
        Self::default()
    }

    /// This layout with another arrangement.
    pub fn vertical_arrangement(self, arrangement: LinearArrangement) -> (spec: Self)
        ensures
            spec == (LazyColumnSpec { vertical_arrangement: arrangement, ..self }),
    {
        Self { vertical_arrangement: arrangement, ..self }
    }

    /// This layout with other paddings.
    pub fn content_padding(self, top: i64, bottom: i64) -> (spec: Self)
        ensures
            spec == (LazyColumnSpec {
                content_padding_top: top,
                content_padding_bottom: bottom,
                ..self
            }),
    {
        Self { content_padding_top: top, content_padding_bottom: bottom, ..self }
    }

    /// This layout with the same padding at the top and at the bottom.
    pub fn content_padding_all(self, padding: i64) -> (spec: Self)
        ensures
            spec == (LazyColumnSpec {
                content_padding_top: padding,
                content_padding_bottom: padding,
                ..self
            }),
    {
        Self { content_padding_top: padding, content_padding_bottom: padding, ..self }
    }

    /// The configuration of a measurement pass over this column.
    pub fn measure_config(&self) -> (config: LazyListMeasureConfig)
        ensures
            config == self.config(),
    {
        LazyListMeasureConfig {
            is_vertical: true,
            reverse_layout: false,
            before_content_padding: self.content_padding_top,
            after_content_padding: self.content_padding_bottom,
            spacing: get_spacing(self.vertical_arrangement),
            beyond_bounds_item_count: self.beyond_bounds_item_count,
            vertical_arrangement: Some(self.vertical_arrangement),
            horizontal_arrangement: None,
        }
    }
}

/// Layout of a horizontally scrolling list.
#[derive(Clone, Copy, Debug)]
pub struct LazyRowSpec {
    /// Arrangement of the items along the row.
    pub horizontal_arrangement: LinearArrangement,
    /// Content padding before the first item.
    pub content_padding_start: i64,
    /// Content padding after the last item.
    pub content_padding_end: i64,
    /// Number of items measured beyond the viewport on either side.
    pub beyond_bounds_item_count: usize,
}

impl Default for LazyRowSpec {
    fn default() -> (spec: Self)
        ensures
            spec == LazyRowSpec::standard(),
    {
        Self {
            horizontal_arrangement: LinearArrangement::Start,
            content_padding_start: 0,
            content_padding_end: 0,
            beyond_bounds_item_count: 2,
        }
    }
}

impl LazyRowSpec {
    /// Items packed at the start, no padding, a buffer of two.
    pub open spec fn standard() -> Self {
        LazyRowSpec {
            horizontal_arrangement: LinearArrangement::Start,
            content_padding_start: 0,
            content_padding_end: 0,
            beyond_bounds_item_count: 2,
        }
    }

    /// The configuration of a measurement pass over this row.
    pub open spec fn config(self) -> LazyListMeasureConfig {
        LazyListMeasureConfig {
            is_vertical: false,
            reverse_layout: false,
            before_content_padding: self.content_padding_start,
            after_content_padding: self.content_padding_end,
            spacing: match self.horizontal_arrangement {
                LinearArrangement::SpacedBy(gap) => gap,
                _ => 0,
            },
            beyond_bounds_item_count: self.beyond_bounds_item_count,
            vertical_arrangement: None,
            horizontal_arrangement: Some(self.horizontal_arrangement),
        }
    }

    /// Items packed at the start, no padding, a buffer of two.
    pub fn new() -> (spec: Self)
        ensures
            spec == LazyRowSpec::standard(),
    {
        Self::default()
    }

    /// This layout with another arrangement.
    pub fn horizontal_arrangement(self, arrangement: LinearArrangement) -> (spec: Self)
        ensures
            spec == (LazyRowSpec { horizontal_arrangement: arrangement, ..self }),
    {
        Self { horizontal_arrangement: arrangement, ..self }
    }

    /// This layout with other paddings.
    pub fn content_padding(self, start: i64, end: i64) -> (spec: Self)
        ensures
            spec == (LazyRowSpec { content_padding_start: start, content_padding_end: end, ..self }),
    {
        Self { content_padding_start: start, content_padding_end: end, ..self }
    }

    /// This layout with the same padding at the start and at the end.
    pub fn content_padding_all(self, padding: i64) -> (spec: Self)
        ensures
            spec == (LazyRowSpec {
                content_padding_start: padding,
                content_padding_end: padding,
                ..self
            }),
    {
        Self { content_padding_start: padding, content_padding_end: padding, ..self }
    }

    /// The configuration of a measurement pass over this row.
    pub fn measure_config(&self) -> (config: LazyListMeasureConfig)
        ensures
            config == self.config(),
    {
        LazyListMeasureConfig {
            is_vertical: false,
            reverse_layout: false,
            before_content_padding: self.content_padding_start,
            after_content_padding: self.content_padding_end,
            spacing: get_spacing(self.horizontal_arrangement),
            beyond_bounds_item_count: self.beyond_bounds_item_count,
            vertical_arrangement: None,
            horizontal_arrangement: Some(self.horizontal_arrangement),
        }
    }
}

} // verus!
