use lazy_list::key::LazyLayoutKey;
use lazy_list::layout_info::{LazyListItemInfo, LazyListLayoutInfo};
use lazy_list::pass::{record_pass, settle_anchor, PrefetchRequest};
use lazy_list::measure::measure_lazy_list;
use lazy_list::measured_item::LazyListMeasuredItem;
use lazy_list::nearest_range::NearestRangeState;
use lazy_list::scope::{LazyListIntervalContent, LazyListScope};
use lazy_list::state::{LazyLayoutStats, LazyListState};
use lazy_list::window::LazyListMeasureConfig;

type KeyFn = Box<dyn Fn(usize) -> u64>;
type ContentFn = Box<dyn Fn(usize)>;
type Content = LazyListIntervalContent<KeyFn, KeyFn, ContentFn>;

fn keyed(keys: Vec<u64>) -> Content {
    let mut content: Content = LazyListIntervalContent::new();
    let count = keys.len();
    content.items(count, Some(Box::new(move |i| keys[i]) as KeyFn), None, Box::new(|_| {}));
    content
}

#[test]
fn test_initial_state() {
    let state = LazyListState::new();
    assert_eq!(state.first_visible_item_index(), 0);
    assert_eq!(state.first_visible_item_scroll_offset(), 0);
}

#[test]
fn lazy_list_state_test_scroll_to_item() {
    let mut state = LazyListState::new();
    state.scroll_to_item(10, 5);

    let pending = state.consume_scroll_to_index();
    assert_eq!(pending, Some((10, 5)));

    // Should be consumed
    assert_eq!(state.consume_scroll_to_index(), None);
}

#[test]
fn test_scroll_delta() {
    let mut state = LazyListState::new();
    state.dispatch_scroll_delta(100);
    state.dispatch_scroll_delta(50);

    let consumed = state.consume_scroll_delta();
    assert_eq!(consumed, 150);

    // Should be consumed
    assert_eq!(state.consume_scroll_delta(), 0);
}

#[test]
fn test_can_scroll() {
    let mut state = LazyListState::new();

    // Empty list can't scroll
    assert!(!state.can_scroll_forward());
    assert!(!state.can_scroll_backward());

    // Update with some items
    state.update_layout_info(LazyListLayoutInfo {
        visible_items_info: vec![
            LazyListItemInfo {
                index: 0,
                key: 0,
                offset: 0,
                size: 50,
            },
            LazyListItemInfo {
                index: 1,
                key: 1,
                offset: 50,
                size: 50,
            },
        ],
        total_items_count: 10,
        viewport_size: 100,
        ..Default::default()
    });

    assert!(state.can_scroll_forward()); // More items after index 1
    assert!(!state.can_scroll_backward()); // At the start
}

#[test]
fn the_anchor_follows_its_key() {
    // keys 10, 20, 30 at indices 0, 1, 2; the anchor rests on key 30
    let mut state = LazyListState::new();
    state.update_scroll_position_with_key(2, 0, LazyLayoutKey::User(30).to_slot_id());

    // key 30 now lives at index 0
    let moved = keyed(vec![30, 10, 20]);
    let index = state.update_scroll_position_if_item_moved(3, |slot_id| {
        moved.get_index_by_slot_id_in_range(slot_id, 0..3)
    });
    assert_eq!(index, 0);
    assert_eq!(state.first_visible_item_index(), 0);
}

#[test]
fn the_anchor_is_held_in_the_list_when_its_key_is_gone() {
    let mut state = LazyListState::new();
    state.update_scroll_position_with_key(7, 3, 30);
    let index = state.update_scroll_position_if_item_moved(5, |_| None);
    assert_eq!(index, 4);
    assert_eq!(state.first_visible_item_scroll_offset(), 3);

    // without a key nothing is looked up
    let mut state = LazyListState::with_initial_position(9, 0);
    let index = state.update_scroll_position_if_item_moved(4, |_| panic!("no key, no lookup"));
    assert_eq!(index, 3);
    let index = state.update_scroll_position_if_item_moved(0, |_| panic!("no key, no lookup"));
    assert_eq!(index, 0);

    // a jump forgets the key
    let mut state = LazyListState::new();
    state.update_scroll_position_with_key(2, 0, 30);
    state.scroll_to_item(1, 0);
    assert_eq!(state.last_known_first_visible_key(), None);
    assert_eq!(state.update_scroll_position_if_item_moved(3, |_| Some(0)), 1);

    // the result of a lookup can be handed in as it is
    let mut state = LazyListState::new();
    state.update_scroll_position_with_key(2, 0, 30);
    assert_eq!(state.relocate_anchor(10, Some(6)), 6);
    assert_eq!(state.relocate_anchor(4, None), 3);
}

#[test]
fn settling_looks_the_key_up_in_the_content() {
    let mut state = LazyListState::new();
    let config = LazyListMeasureConfig::default();
    let mut content = keyed(vec![10, 20, 30, 40, 50, 60]);
    state.scroll_to_item(2, 0);
    measure_lazy_list(6, &mut state, 100, 100, &config, |i| {
        LazyListMeasuredItem::new(i, content.get_key(i).to_slot_id(), None, 50, 10)
    });
    assert_eq!(state.last_known_first_visible_key(), Some(30));

    // two items are inserted before the anchor
    let mut content = keyed(vec![1, 2, 10, 20, 30, 40, 50, 60]);
    settle_anchor(&mut state, &mut content);
    assert_eq!(state.first_visible_item_index(), 4);
    assert_eq!(state.nearest_range(), 0..130);

    // the anchor item is removed
    let mut content = keyed(vec![1, 2]);
    settle_anchor(&mut state, &mut content);
    assert_eq!(state.first_visible_item_index(), 1);

    // an empty list moves nothing
    let mut content = keyed(vec![]);
    settle_anchor(&mut state, &mut content);
    assert_eq!(state.first_visible_item_index(), 1);
}

#[test]
fn the_waiting_delta_is_held_within_bounds() {
    let max = 1i64 << 40;
    let mut state = LazyListState::new();
    assert_eq!(state.dispatch_scroll_delta(i64::MAX), i64::MAX);
    assert_eq!(state.consume_scroll_delta(), max);
    state.dispatch_scroll_delta(-5);
    state.dispatch_scroll_delta(i64::MIN);
    assert_eq!(state.consume_scroll_delta(), -max);
    state.dispatch_scroll_delta(max);
    state.dispatch_scroll_delta(-3);
    assert_eq!(state.consume_scroll_delta(), max - 3);
}

#[test]
fn the_size_cache_forgets_the_least_recent_entry() {
    let mut state = LazyListState::new();
    assert_eq!(state.average_item_size(), 48);
    for index in 0..100usize {
        state.cache_item_size(index, 10);
    }
    assert_eq!(state.average_item_size(), 10);
    assert_eq!(state.get_cached_size(0), Some(10));

    // storing a known index again refreshes it and leaves the mean alone
    state.cache_item_size(0, 30);
    assert_eq!(state.get_cached_size(0), Some(30));
    assert_eq!(state.average_item_size(), 10);

    // a new index pushes out index 1, now the least recent
    state.cache_item_size(100, 111);
    assert_eq!(state.get_cached_size(1), None);
    assert_eq!(state.get_cached_size(0), Some(30));
    assert_eq!(state.get_cached_size(2), Some(10));
    assert_eq!(state.get_cached_size(100), Some(111));
    // mean of 100 tens and 111
    assert_eq!(state.average_item_size(), (1000 + 111) / 101);

    state.cache_item_size(101, 0);
    assert_eq!(state.get_cached_size(2), None);
    assert_eq!(state.get_cached_size(3), Some(10));
}

#[test]
fn the_mean_is_exact_after_each_new_size() {
    let mut state = LazyListState::new();
    state.cache_item_size(5, 100);
    assert_eq!(state.average_item_size(), 100);
    state.cache_item_size(6, 50);
    assert_eq!(state.average_item_size(), 75);
    state.cache_item_size(7, 0);
    assert_eq!(state.average_item_size(), 50);
    state.cache_item_size(8, 1);
    assert_eq!(state.average_item_size(), 37);
}

#[test]
fn stats_note_changes_once() {
    let mut state = LazyListState::new();
    assert_eq!(state.stats(), LazyLayoutStats::default());
    assert!(!state.check_stats_changed());
    state.update_stats(3, 1);
    assert!(state.check_stats_changed());
    assert!(!state.check_stats_changed());
    state.update_stats(3, 1);
    assert!(!state.check_stats_changed());
    state.update_stats(3, 2);
    assert!(state.check_stats_changed());
    state.record_composition(false);
    state.record_composition(true);
    assert_eq!(
        state.stats(),
        LazyLayoutStats { items_in_use: 3, items_in_pool: 2, total_composed: 2, reuse_count: 1 }
    );
    assert!(!state.check_stats_changed());
}

#[test]
fn the_prefetch_queue_follows_the_remembered_direction() {
    let mut state = LazyListState::new();
    state.update_prefetch_queue(5, 10, 100);
    assert_eq!(state.take_prefetch_indices(), vec![11, 12]);
    assert_eq!(state.take_prefetch_indices(), Vec::<usize>::new());

    state.record_scroll_direction(-17);
    state.update_prefetch_queue(5, 10, 100);
    assert_eq!(state.take_prefetch_indices(), vec![4, 3]);

    // no movement keeps the direction
    state.record_scroll_direction(0);
    state.update_prefetch_queue(1, 10, 100);
    assert_eq!(state.take_prefetch_indices(), vec![0]);

    state.record_scroll_direction(2);
    state.update_prefetch_queue(1, 98, 100);
    assert_eq!(state.take_prefetch_indices(), vec![99]);
}

#[test]
fn a_pass_is_recorded() {
    let mut state = LazyListState::new();
    let config = LazyListMeasureConfig { spacing: 3, ..LazyListMeasureConfig::default() };
    state.scroll_to_item(10, 0);
    let result = measure_lazy_list(100, &mut state, 200, 100, &config, |i| {
        LazyListMeasuredItem::new(i, i as u64, None, 47, 10)
    });
    // items 8..=15 at -100, -50, 0, 50, 100, 150, 200, 250
    assert_eq!(result.visible_items.len(), 8);
    let requests = record_pass(&mut state, &result, 100, 200, 3, 4);
    // the items at 0, 50, 100, 150 and the one that ends at -3 ... is outside
    assert_eq!(state.stats().items_in_use, 4);
    assert_eq!(state.stats().items_in_pool, 4);
    assert!(state.check_stats_changed());
    // forward by default: the two items after the window, at the mean size
    assert_eq!(
        requests,
        vec![
            PrefetchRequest { index: 16, estimated_size: 48 + 3 },
            PrefetchRequest { index: 17, estimated_size: 48 + 3 },
        ]
    );
    assert_eq!(state.take_prefetch_indices(), Vec::<usize>::new());

    // after a backward movement the items before the window are asked for
    state.record_scroll_direction(-1);
    let requests = record_pass(&mut state, &result, 100, 200, 3, 4);
    assert_eq!(
        requests,
        vec![
            PrefetchRequest { index: 7, estimated_size: 48 + 3 },
            PrefetchRequest { index: 6, estimated_size: 48 + 3 },
        ]
    );
    assert!(!state.check_stats_changed());
}

#[test]
fn the_lookup_window_slides_in_steps() {
    assert_eq!(NearestRangeState::new(0).range(), 0..130);
    assert_eq!(NearestRangeState::new(29).range(), 0..130);
    assert_eq!(NearestRangeState::new(30).range(), 0..160);
    assert_eq!(NearestRangeState::new(250).range(), 140..370);
    assert_eq!(NearestRangeState::new(usize::MAX).range().end, usize::MAX);
    let mut window = NearestRangeState::new(0);
    window.update(1000);
    assert_eq!(window.range(), 890..1120);

    let mut state = LazyListState::with_initial_position(250, 0);
    assert_eq!(state.nearest_range(), 140..370);
    state.update_scroll_position(1000, 0);
    assert_eq!(state.nearest_range(), 140..370);
    state.update_nearest_range();
    assert_eq!(state.nearest_range(), 890..1120);
}

#[test]
fn scrolling_backward_is_possible_off_the_start() {
    let mut state = LazyListState::new();
    assert!(!state.can_scroll_backward());
    state.update_scroll_position(0, 1);
    assert!(state.can_scroll_backward());
    state.update_scroll_position(1, 0);
    assert!(state.can_scroll_backward());
    // the last item reaching beyond the viewport allows scrolling forward
    state.update_layout_info(LazyListLayoutInfo {
        visible_items_info: vec![LazyListItemInfo { index: 9, key: 9, offset: 60, size: 50 }],
        total_items_count: 10,
        viewport_size: 100,
        ..Default::default()
    });
    assert!(state.can_scroll_forward());
    state.update_layout_info(LazyListLayoutInfo {
        visible_items_info: vec![LazyListItemInfo { index: 9, key: 9, offset: 50, size: 50 }],
        total_items_count: 10,
        viewport_size: 100,
        ..Default::default()
    });
    assert!(!state.can_scroll_forward());
    let copy = state.layout_info().clone();
    assert_eq!(copy.visible_items_info, vec![LazyListItemInfo { index: 9, key: 9, offset: 50, size: 50 }]);
}
