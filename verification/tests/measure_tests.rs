use lazy_list::measure::{estimate_total_content_size, measure_lazy_list};
use lazy_list::measured_item::{LazyListMeasureResult, LazyListMeasuredItem};
use lazy_list::state::LazyListState;
use lazy_list::window::{LazyListMeasureConfig, MAX_VISIBLE_ITEMS};
use std::cell::RefCell;
use std::rc::Rc;

fn create_test_item(index: usize, size: i64) -> LazyListMeasuredItem {
    LazyListMeasuredItem::new(index, index as u64, None, size, 100)
}

fn indices(result: &LazyListMeasureResult) -> Vec<usize> {
    result.visible_items.iter().map(|i| i.index).collect()
}

fn offsets(result: &LazyListMeasureResult) -> Vec<i64> {
    result.visible_items.iter().map(|i| i.offset).collect()
}

#[test]
fn test_measure_empty_list() {
    let mut state = LazyListState::new();
    let config = LazyListMeasureConfig::default();

    let result = measure_lazy_list(0, &mut state, 500, 300, &config, |_| {
        panic!("Should not measure any items");
    });

    assert!(result.visible_items.is_empty());
}

#[test]
fn test_measure_single_item() {
    let mut state = LazyListState::new();
    let config = LazyListMeasureConfig::default();

    let result = measure_lazy_list(1, &mut state, 500, 300, &config, |i| {
        create_test_item(i, 50)
    });

    assert_eq!(result.visible_items.len(), 1);
    assert_eq!(result.visible_items[0].index, 0);
    assert!(!result.can_scroll_forward);
    assert!(!result.can_scroll_backward);
}

#[test]
fn test_measure_fills_viewport() {
    let mut state = LazyListState::new();
    let config = LazyListMeasureConfig::default();

    // 10 items of 50px each, viewport of 200px should show 4+ items
    let result = measure_lazy_list(10, &mut state, 200, 300, &config, |i| {
        create_test_item(i, 50)
    });

    // Should have visible items plus beyond-bounds buffer
    assert!(result.visible_items.len() >= 4);
    assert!(result.can_scroll_forward);
    assert!(!result.can_scroll_backward);
}

#[test]
fn test_measure_with_scroll_offset() {
    let mut state = LazyListState::with_initial_position(3, 25);
    let config = LazyListMeasureConfig::default();

    let result = measure_lazy_list(20, &mut state, 200, 300, &config, |i| {
        create_test_item(i, 50)
    });

    assert_eq!(result.first_visible_item_index, 3);
    assert!(result.can_scroll_forward);
    assert!(result.can_scroll_backward);
}

#[test]
fn lazy_list_measure_test_scroll_to_item() {
    let mut state = LazyListState::new();
    state.scroll_to_item(5, 0);

    let config = LazyListMeasureConfig::default();
    let result = measure_lazy_list(20, &mut state, 200, 300, &config, |i| {
        create_test_item(i, 50)
    });

    assert_eq!(result.first_visible_item_index, 5);
}

#[test]
fn a_viewport_without_room_measures_nothing() {
    for viewport in [0i64, -1, i64::MIN] {
        for count in [0usize, 1, 1000] {
            let mut state = LazyListState::with_initial_position(3, 7);
            state.dispatch_scroll_delta(11);
            let result = measure_lazy_list(
                count,
                &mut state,
                viewport,
                300,
                &LazyListMeasureConfig::default(),
                |_| panic!("the callback must not run"),
            );
            assert!(result.visible_items.is_empty());
            assert_eq!(result.first_visible_item_index, 0);
            assert_eq!(result.first_visible_item_scroll_offset, 0);
            assert_eq!(result.viewport_size, 0);
            assert_eq!(result.total_content_size, 0);
            assert!(!result.can_scroll_forward);
            assert!(!result.can_scroll_backward);
            // the state is left alone
            assert_eq!(state.first_visible_item_index(), 3);
            assert_eq!(state.first_visible_item_scroll_offset(), 7);
            assert_eq!(state.consume_scroll_delta(), 11);
        }
    }
}

#[test]
fn a_fresh_list_of_ten_items_shows_the_first_ones() {
    let mut state = LazyListState::new();
    let config = LazyListMeasureConfig::default();
    let asked = Rc::new(RefCell::new(Vec::new()));
    let log = Rc::clone(&asked);
    let result = measure_lazy_list(10, &mut state, 200, 300, &config, move |i| {
        log.borrow_mut().push(i);
        create_test_item(i, 50)
    });

    assert_eq!(indices(&result), vec![0, 1, 2, 3, 4, 5]);
    assert_eq!(offsets(&result), vec![0, 50, 100, 150, 200, 250]);
    assert_eq!(*asked.borrow(), vec![0, 1, 2, 3, 4, 5]);
    assert_eq!(result.first_visible_item_index, 0);
    assert_eq!(result.first_visible_item_scroll_offset, 0);
    assert_eq!(result.viewport_size, 200);
    assert_eq!(result.total_content_size, 500);
    assert!(result.can_scroll_forward);
    assert!(!result.can_scroll_backward);

    assert_eq!(state.first_visible_item_index(), 0);
    assert_eq!(state.last_known_first_visible_key(), Some(0));
    let info = state.layout_info();
    assert_eq!(info.total_items_count, 10);
    assert_eq!(info.viewport_size, 200);
    assert_eq!(info.visible_items_info.len(), 6);
    assert_eq!(info.visible_items_info[3].index, 3);
    assert_eq!(info.visible_items_info[3].key, 3);
    assert_eq!(info.visible_items_info[3].offset, 150);
    assert_eq!(info.visible_items_info[3].size, 50);
    // the measured sizes are remembered
    assert_eq!(state.get_cached_size(5), Some(50));
    assert_eq!(state.get_cached_size(6), None);
    assert_eq!(state.average_item_size(), 50);
}

#[test]
fn uniform_items_number_between_cover_and_cover_plus_buffers() {
    // viewport 230, size 50: five items cover it
    for (first, expected) in [(0usize, 5 + 3), (10, 5 + 3 + 3), (2, 5 + 3 + 2)] {
        let mut state = LazyListState::with_initial_position(first, 0);
        let config = LazyListMeasureConfig {
            beyond_bounds_item_count: 3,
            ..LazyListMeasureConfig::default()
        };
        let result = measure_lazy_list(100, &mut state, 230, 300, &config, |i| {
            create_test_item(i, 50)
        });
        assert_eq!(result.visible_items.len(), expected);
        assert!(result.visible_items.len() >= 5);
        assert!(result.visible_items.len() <= 5 + 2 * 3);
    }
}

#[test]
fn paddings_and_spacing_enter_offsets_and_total() {
    let mut state = LazyListState::new();
    let config = LazyListMeasureConfig {
        before_content_padding: 5,
        after_content_padding: 7,
        spacing: 10,
        ..LazyListMeasureConfig::default()
    };
    let result = measure_lazy_list(10, &mut state, 200, 300, &config, |i| {
        create_test_item(i, 50)
    });
    assert_eq!(offsets(&result), vec![5, 65, 125, 185, 245, 305]);
    assert_eq!(result.total_content_size, 5 + 60 * 10 - 10 + 7);
    assert_eq!(result.first_visible_item_index, 0);
    assert_eq!(result.first_visible_item_scroll_offset, 0);
    let info = state.layout_info();
    assert_eq!(info.viewport_start_offset, 5);
    assert_eq!(info.viewport_end_offset, 7);
    assert_eq!(info.before_content_padding, 5);
    assert_eq!(info.after_content_padding, 7);
}

#[test]
fn a_negative_delta_scrolls_forward() {
    let mut state = LazyListState::new();
    let config = LazyListMeasureConfig::default();
    state.dispatch_scroll_delta(-120);
    let result = measure_lazy_list(100, &mut state, 200, 300, &config, |i| {
        create_test_item(i, 50)
    });
    assert_eq!(indices(&result), vec![0, 1, 2, 3, 4, 5, 6, 7, 8]);
    assert_eq!(result.visible_items[0].offset, -120);
    assert_eq!(result.visible_items[8].offset, 280);
    assert_eq!(result.first_visible_item_index, 2);
    assert_eq!(result.first_visible_item_scroll_offset, 20);
    assert!(result.can_scroll_backward);
    // the delta has been consumed
    assert_eq!(state.consume_scroll_delta(), 0);

    // scrolling back by 20 puts item 2 at the top
    state.dispatch_scroll_delta(20);
    let result = measure_lazy_list(100, &mut state, 200, 300, &config, |i| {
        create_test_item(i, 50)
    });
    assert_eq!(indices(&result), vec![0, 1, 2, 3, 4, 5, 6, 7]);
    assert_eq!(offsets(&result), vec![-100, -50, 0, 50, 100, 150, 200, 250]);
    assert_eq!(result.first_visible_item_index, 2);
    assert_eq!(result.first_visible_item_scroll_offset, 0);

    // scrolling back by 30 more walks into item 1, whose size is remembered
    state.dispatch_scroll_delta(30);
    let result = measure_lazy_list(100, &mut state, 200, 300, &config, |i| {
        create_test_item(i, 50)
    });
    assert_eq!(result.first_visible_item_index, 1);
    assert_eq!(result.first_visible_item_scroll_offset, 20);
    assert_eq!(result.visible_items[0].index, 0);
    assert_eq!(result.visible_items[0].offset, -70);
}

#[test]
fn scrolling_back_at_the_start_stays_at_the_start() {
    let mut state = LazyListState::new();
    state.dispatch_scroll_delta(500);
    let result = measure_lazy_list(
        100,
        &mut state,
        200,
        300,
        &LazyListMeasureConfig::default(),
        |i| create_test_item(i, 50),
    );
    assert_eq!(result.first_visible_item_index, 0);
    assert_eq!(result.first_visible_item_scroll_offset, 0);
    assert_eq!(result.visible_items[0].offset, 0);
    assert!(!result.can_scroll_backward);
}

#[test]
fn a_long_backward_fling_is_bridged_by_estimate() {
    let mut state = LazyListState::with_initial_position(1000, 0);
    state.dispatch_scroll_delta(5000);
    let asked = Rc::new(RefCell::new(Vec::new()));
    let log = Rc::clone(&asked);
    let result = measure_lazy_list(
        10000,
        &mut state,
        200,
        300,
        &LazyListMeasureConfig::default(),
        move |i| {
            log.borrow_mut().push(i);
            create_test_item(i, 50)
        },
    );
    // 4800 units beyond one viewport are 100 items of the default estimate 48;
    // the remaining 200 units are walked in five steps of 48
    assert_eq!(result.first_visible_item_index, 895);
    assert_eq!(result.first_visible_item_scroll_offset, 40);
    assert!(asked.borrow().len() <= 10);
    assert_eq!(asked.borrow()[0], 895);
}

#[test]
fn a_long_forward_fling_is_bridged_by_estimate() {
    let mut state = LazyListState::new();
    state.dispatch_scroll_delta(-5000);
    let result = measure_lazy_list(
        10000,
        &mut state,
        200,
        300,
        &LazyListMeasureConfig::default(),
        |i| create_test_item(i, 50),
    );
    // 4800 units beyond one viewport are 100 items of 48; 200 units remain
    assert_eq!(result.visible_items[0].index, 98);
    assert_eq!(result.first_visible_item_index, 104);
    assert_eq!(result.first_visible_item_scroll_offset, 0);
    assert!(result.visible_items.len() < 20);
}

#[test]
fn a_forward_fling_stops_at_the_last_item() {
    let mut state = LazyListState::new();
    state.dispatch_scroll_delta(-1_000_000);
    let result = measure_lazy_list(
        50,
        &mut state,
        200,
        300,
        &LazyListMeasureConfig::default(),
        |i| create_test_item(i, 50),
    );
    let last = result.visible_items.last().unwrap();
    assert_eq!(last.index, 49);
    assert!(!result.can_scroll_forward);
    assert!(result.first_visible_item_index <= 49);
}

#[test]
fn an_unbounded_viewport_is_replaced_by_twenty_items() {
    for viewport in [i64::MAX, 100_001] {
        let mut state = LazyListState::new();
        let result = measure_lazy_list(
            1000,
            &mut state,
            viewport,
            300,
            &LazyListMeasureConfig::default(),
            |i| create_test_item(i, 50),
        );
        assert_eq!(result.viewport_size, 48 * 20);
        assert_eq!(result.visible_items.len(), 20 + 2);
    }
    let mut state = LazyListState::new();
    let config = LazyListMeasureConfig { spacing: 2, ..LazyListMeasureConfig::default() };
    state.cache_item_size(0, 100);
    let result = measure_lazy_list(1000, &mut state, i64::MAX, 300, &config, |i| {
        create_test_item(i, 100)
    });
    assert_eq!(result.viewport_size, (100 + 2) * 20);
    // a viewport at the threshold is taken as it is
    let mut state = LazyListState::new();
    let result = measure_lazy_list(1, &mut state, 100_000, 300, &config, |i| {
        create_test_item(i, 100)
    });
    assert_eq!(result.viewport_size, 100_000);
}

#[test]
fn the_visible_run_is_capped() {
    let mut state = LazyListState::new();
    let result = measure_lazy_list(
        5000,
        &mut state,
        100,
        300,
        &LazyListMeasureConfig::default(),
        |i| create_test_item(i, 0),
    );
    assert_eq!(MAX_VISIBLE_ITEMS, 500);
    assert_eq!(result.visible_items.len(), 502);
    assert!(result.can_scroll_forward);
    // no item reaches past the leading padding: the first item is the anchor
    assert_eq!(result.first_visible_item_index, 0);
    assert_eq!(result.first_visible_item_scroll_offset, 0);
    assert_eq!(result.total_content_size, 0);
}

#[test]
fn the_last_item_is_held_at_the_end_of_the_viewport() {
    let mut state = LazyListState::new();
    state.scroll_to_item(19, 0);
    let config = LazyListMeasureConfig::default();
    let result = measure_lazy_list(20, &mut state, 200, 300, &config, |i| {
        create_test_item(i, 50)
    });
    assert_eq!(indices(&result), vec![17, 18, 19]);
    assert_eq!(offsets(&result), vec![50, 100, 150]);
    assert_eq!(result.first_visible_item_index, 17);
    assert_eq!(result.first_visible_item_scroll_offset, 0);
    assert!(!result.can_scroll_forward);
    assert!(result.can_scroll_backward);

    // the following passes settle with the list flush at the end
    let result = measure_lazy_list(20, &mut state, 200, 300, &config, |i| {
        create_test_item(i, 50)
    });
    assert_eq!(result.first_visible_item_index, 16);
    let result = measure_lazy_list(20, &mut state, 200, 300, &config, |i| {
        create_test_item(i, 50)
    });
    assert_eq!(result.first_visible_item_index, 16);
    assert_eq!(indices(&result), vec![14, 15, 16, 17, 18, 19]);
    assert_eq!(offsets(&result), vec![-100, -50, 0, 50, 100, 150]);
}

#[test]
fn a_short_list_stays_at_the_start() {
    let mut state = LazyListState::new();
    let result = measure_lazy_list(
        3,
        &mut state,
        200,
        300,
        &LazyListMeasureConfig::default(),
        |i| create_test_item(i, 50),
    );
    assert_eq!(offsets(&result), vec![0, 50, 100]);
    assert!(!result.can_scroll_forward);
    assert!(!result.can_scroll_backward);
    assert_eq!(result.total_content_size, 150);
}

#[test]
fn a_jump_beyond_the_list_is_held_within_it() {
    let mut state = LazyListState::new();
    state.scroll_to_item(500, 0);
    let result = measure_lazy_list(
        20,
        &mut state,
        40,
        300,
        &LazyListMeasureConfig::default(),
        |i| create_test_item(i, 50),
    );
    assert_eq!(result.first_visible_item_index, 19);
    assert_eq!(result.first_visible_item_scroll_offset, 0);
    assert_eq!(indices(&result), vec![17, 18, 19]);
}

#[test]
fn a_jump_wins_over_the_anchor_and_is_used_once() {
    let mut state = LazyListState::with_initial_position(3, 25);
    state.scroll_to_item(7, 10);
    let config = LazyListMeasureConfig::default();
    let result = measure_lazy_list(100, &mut state, 200, 300, &config, |i| {
        create_test_item(i, 50)
    });
    assert_eq!(result.first_visible_item_index, 7);
    assert_eq!(result.first_visible_item_scroll_offset, 10);
    assert_eq!(state.consume_scroll_to_index(), None);
    assert_eq!(state.first_visible_item_index(), 7);
    assert_eq!(state.first_visible_item_scroll_offset(), 10);
    assert_eq!(state.last_known_first_visible_key(), Some(7));
}

#[test]
fn a_second_pass_repeats_the_first() {
    let mut state = LazyListState::with_initial_position(4, 30);
    let config = LazyListMeasureConfig {
        spacing: 4,
        before_content_padding: 6,
        ..LazyListMeasureConfig::default()
    };
    let sizes = |i: usize| 40 + (i as i64 % 3) * 10;
    let first = measure_lazy_list(100, &mut state, 200, 300, &config, |i| {
        create_test_item(i, sizes(i))
    });
    let second = measure_lazy_list(100, &mut state, 200, 300, &config, |i| {
        create_test_item(i, sizes(i))
    });
    assert_eq!(first.first_visible_item_index, 4);
    assert_eq!(first.first_visible_item_scroll_offset, 30);
    assert_eq!(second.first_visible_item_index, 4);
    assert_eq!(second.first_visible_item_scroll_offset, 30);
    assert_eq!(indices(&first), indices(&second));
    assert_eq!(offsets(&first), offsets(&second));
    assert_eq!(first.can_scroll_forward, second.can_scroll_forward);
    assert_eq!(first.can_scroll_backward, second.can_scroll_backward);
}

#[test]
fn the_estimate_uses_the_mean_of_the_measured_items() {
    let config = LazyListMeasureConfig {
        before_content_padding: 3,
        after_content_padding: 4,
        spacing: 2,
        ..LazyListMeasureConfig::default()
    };
    let items = vec![create_test_item(0, 10), create_test_item(1, 20), create_test_item(2, 31)];
    // mean 61 / 3 = 20
    assert_eq!(estimate_total_content_size(100, &items, &config, 48), 3 + 22 * 100 - 2 + 4);
    // nothing measured: the mean of the state
    assert_eq!(estimate_total_content_size(100, &[], &config, 48), 3 + 50 * 100 - 2 + 4);
    assert_eq!(estimate_total_content_size(0, &items, &config, 48), 0);
    // the estimate is held within i64
    let huge = vec![create_test_item(0, 1 << 40)];
    assert_eq!(estimate_total_content_size(usize::MAX, &huge, &config, 48), i64::MAX);
}

#[test]
fn a_config_is_valid_within_its_bounds() {
    assert!(LazyListMeasureConfig::default().check_valid());
    let config = LazyListMeasureConfig::default();
    assert!(config.is_vertical);
    assert!(!config.reverse_layout);
    assert_eq!(config.beyond_bounds_item_count, 2);
    assert!(!LazyListMeasureConfig { spacing: -1, ..config }.check_valid());
    assert!(!LazyListMeasureConfig { before_content_padding: (1 << 40) + 1, ..config }.check_valid());
    assert!(!LazyListMeasureConfig { after_content_padding: -5, ..config }.check_valid());
    assert!(!LazyListMeasureConfig { beyond_bounds_item_count: 65537, ..config }.check_valid());
    assert!(LazyListMeasureConfig { beyond_bounds_item_count: 65536, spacing: 1 << 40, ..config }
        .check_valid());
}

#[test]
fn a_measured_item_starts_unplaced() {
    let item = LazyListMeasuredItem::new(4, 9, Some(2), 30, 70);
    assert_eq!(item.index, 4);
    assert_eq!(item.key, 9);
    assert_eq!(item.content_type, Some(2));
    assert_eq!(item.main_axis_size, 30);
    assert_eq!(item.cross_axis_size, 70);
    assert_eq!(item.offset, 0);
    assert!(item.node_ids.is_empty());
    let info = item.to_item_info();
    assert_eq!((info.index, info.key, info.offset, info.size), (4, 9, 0, 30));
    let result = LazyListMeasureResult::default();
    assert!(result.visible_items.is_empty());
    assert_eq!(result.total_content_size, 0);
}
