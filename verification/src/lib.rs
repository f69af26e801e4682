//! A virtualised list engine: decides which items of a long list must be
//! instantiated, measured and placed for the current scroll position.
//!
//! The engine keeps a scroll anchor (`state`), resolves it against the
//! waiting scroll requests (`anchor`), measures the window of items around
//! it (`window`, `measure`) and records the pass (`pass`). Items are
//! addressed through intervals (`scope`) and identified by keys (`key`);
//! what left the screen waits in a pool of slots (`slot_reuse`), and what is
//! about to enter it is scheduled for prefetching (`prefetch`). `laws` holds
//! what is proved of every pass.

pub mod anchor;
pub mod extent;
pub mod invalidation;
pub mod item_provider;
pub mod key;
pub mod laws;
pub mod layout_info;
pub mod list_spec;
pub mod measure;
pub mod measured_item;
pub mod nearest_range;
pub mod pass;
pub mod prefetch;
pub mod scope;
pub mod slot_reuse;
pub mod state;
pub mod subcompose;
pub mod text_cache;
pub mod window;

pub use crate::item_provider::LazyLayoutItemProvider;
pub use crate::key::LazyLayoutKey;
pub use crate::layout_info::{LazyListItemInfo, LazyListLayoutInfo};
pub use crate::list_spec::{LazyColumnSpec, LazyRowSpec};
pub use crate::measure::measure_lazy_list;
pub use crate::measured_item::{LazyListMeasureResult, LazyListMeasuredItem};
pub use crate::nearest_range::NearestRangeState;
pub use crate::prefetch::{PrefetchScheduler, PrefetchStrategy};
pub use crate::scope::{
    IntervalFn, LazyListInterval, LazyListIntervalContent, LazyListScope, LazyListScopeExt,
    LazyScopeMarker,
};
pub use crate::slot_reuse::{ReusableSlot, SlotReusePolicy, SlotReusePool, DEFAULT_REUSE_SLOT_COUNT};
pub use crate::state::{LazyLayoutStats, LazyListState, DEFAULT_ITEM_SIZE_ESTIMATE};
pub use crate::window::{LazyListMeasureConfig, LinearArrangement};
