use lazy_list::extent::{add_distances, check_extent, MAX_EXTENT};
use lazy_list::invalidation::{
    peek_focus_invalidation, peek_pointer_invalidation, peek_render_invalidation,
    request_focus_invalidation, request_pointer_invalidation, request_render_invalidation,
    take_focus_invalidation, take_pointer_invalidation, take_render_invalidation,
    InvalidationFlags,
};
use lazy_list::item_provider::LazyLayoutItemProvider;
use lazy_list::list_spec::{LazyColumnSpec, LazyRowSpec};
use lazy_list::scope::{LazyListIntervalContent, LazyListScope};
use lazy_list::subcompose::{
    measured_item_from_children, Size, SubcomposeChild, SubcomposePlaceable,
};
use lazy_list::text_cache::TextCacheKey;
use lazy_list::window::{get_spacing, LinearArrangement};

type KeyFn = Box<dyn Fn(usize) -> u64>;
type ContentFn = Box<dyn Fn(usize)>;
type Content = LazyListIntervalContent<KeyFn, KeyFn, ContentFn>;

#[test]
fn test_lazy_column_spec_default() {
    let spec = LazyColumnSpec::default();
    assert_eq!(spec.vertical_arrangement, LinearArrangement::Start);
}

#[test]
fn test_lazy_column_spec_builder() {
    let spec = LazyColumnSpec::new()
        .vertical_arrangement(LinearArrangement::SpacedBy(8))
        .content_padding(16, 16);

    assert_eq!(spec.vertical_arrangement, LinearArrangement::SpacedBy(8));
    assert_eq!(spec.content_padding_top, 16);
}

#[test]
fn test_lazy_row_spec_default() {
    let spec = LazyRowSpec::default();
    assert_eq!(spec.horizontal_arrangement, LinearArrangement::Start);
}

#[test]
fn test_get_spacing() {
    assert_eq!(get_spacing(LinearArrangement::Start), 0);
    assert_eq!(get_spacing(LinearArrangement::SpacedBy(12)), 12);
}

#[test]
fn test_content_padding_all() {
    let spec = LazyColumnSpec::new().content_padding_all(24);
    assert_eq!(spec.content_padding_top, 24);
    assert_eq!(spec.content_padding_bottom, 24);
}

#[test]
fn a_list_spec_gives_the_pass_its_configuration() {
    let column = LazyColumnSpec::new()
        .vertical_arrangement(LinearArrangement::SpacedBy(8))
        .content_padding(16, 4);
    let config = column.measure_config();
    assert!(config.is_vertical);
    assert!(!config.reverse_layout);
    assert_eq!(config.before_content_padding, 16);
    assert_eq!(config.after_content_padding, 4);
    assert_eq!(config.spacing, 8);
    assert_eq!(config.beyond_bounds_item_count, 2);
    assert_eq!(config.vertical_arrangement, Some(LinearArrangement::SpacedBy(8)));
    assert_eq!(config.horizontal_arrangement, None);

    let row = LazyRowSpec::new()
        .horizontal_arrangement(LinearArrangement::Center)
        .content_padding(1, 2)
        .content_padding_all(9);
    let config = row.measure_config();
    assert!(!config.is_vertical);
    assert_eq!(config.before_content_padding, 9);
    assert_eq!(config.after_content_padding, 9);
    assert_eq!(config.spacing, 0);
    assert_eq!(config.horizontal_arrangement, Some(LinearArrangement::Center));
    assert_eq!(config.vertical_arrangement, None);
    assert_eq!(LazyRowSpec::default().beyond_bounds_item_count, 2);
}

#[test]
fn children_are_measured_once_sized() {
    let mut child = SubcomposeChild::new(7);
    assert_eq!(child.node_id(), 7);
    assert_eq!(child.size(), Size { width: 0, height: 0 });
    assert_eq!(child.width(), 0);
    child.set_size(Size { width: 30, height: 40 });
    assert_eq!(child.size(), Size { width: 30, height: 40 });
    assert_eq!(child.height(), 40);
    let sized = SubcomposeChild::with_size(8, Size { width: 1, height: 2 });
    assert_eq!(sized.node_id(), 8);
    assert_eq!(sized.width(), 1);
    let placeable = SubcomposePlaceable::new(9, Size { width: 5, height: 6 });
    assert_eq!((placeable.node_id(), placeable.width(), placeable.height()), (9, 5, 6));
}

#[test]
fn an_item_is_as_long_as_its_children_together() {
    let children = vec![
        SubcomposePlaceable::new(11, Size { width: 100, height: 20 }),
        SubcomposePlaceable::new(12, Size { width: 140, height: 30 }),
        SubcomposePlaceable::new(13, Size { width: 90, height: -5 }),
    ];
    let (item, child_offsets) = measured_item_from_children(4, 77, Some(3), true, &children);
    assert_eq!(item.index, 4);
    assert_eq!(item.key, 77);
    assert_eq!(item.content_type, Some(3));
    assert_eq!(item.main_axis_size, 50);
    assert_eq!(item.cross_axis_size, 140);
    assert_eq!(item.offset, 0);
    assert_eq!(item.node_ids, vec![11, 12, 13]);
    assert_eq!(child_offsets, vec![0, 20, 50]);

    let (item, child_offsets) = measured_item_from_children(4, 77, None, false, &children);
    assert_eq!(item.main_axis_size, 330);
    assert_eq!(item.cross_axis_size, 30);
    assert_eq!(child_offsets, vec![0, 100, 240]);

    let (item, child_offsets) = measured_item_from_children(0, 0, None, true, &[]);
    assert_eq!((item.main_axis_size, item.cross_axis_size), (0, 0));
    assert!(child_offsets.is_empty());

    let tall = vec![
        SubcomposePlaceable::new(1, Size { width: 0, height: i64::MAX }),
        SubcomposePlaceable::new(2, Size { width: 0, height: i64::MAX }),
    ];
    let (item, child_offsets) = measured_item_from_children(0, 0, None, true, &tall);
    assert_eq!(item.main_axis_size, MAX_EXTENT);
    assert_eq!(child_offsets, vec![0, MAX_EXTENT]);
}

#[test]
fn a_text_key_holds_text_and_scale() {
    let key = TextCacheKey::new("hello", 1250);
    assert_eq!(key.text(), "hello");
    assert_eq!(key.scale_key(), 1250);
    assert_eq!(TextCacheKey::new("", -3).scale_key(), 0);
    assert_eq!(TextCacheKey::new("x", i64::MAX).scale_key(), u32::MAX);
    assert!(key == TextCacheKey::new("hello", 1250));
    assert!(key != TextCacheKey::new("hello", 1251));
    assert!(key.clone() == key);
}

#[test]
fn requests_are_taken_once() {
    let mut flags = InvalidationFlags::new();
    assert_eq!(flags, InvalidationFlags::default());
    assert!(!peek_render_invalidation(&flags));
    request_render_invalidation(&mut flags);
    assert!(peek_render_invalidation(&flags));
    assert!(!peek_pointer_invalidation(&flags));
    assert!(!peek_focus_invalidation(&flags));
    assert!(take_render_invalidation(&mut flags));
    assert!(!take_render_invalidation(&mut flags));

    request_pointer_invalidation(&mut flags);
    request_focus_invalidation(&mut flags);
    assert!(peek_pointer_invalidation(&flags));
    assert!(take_pointer_invalidation(&mut flags));
    assert!(!take_pointer_invalidation(&mut flags));
    assert!(peek_focus_invalidation(&flags));
    assert!(take_focus_invalidation(&mut flags));
    assert!(!peek_focus_invalidation(&flags));
}

#[test]
fn content_provides_slot_identifiers() {
    let mut content: Content = LazyListIntervalContent::new();
    content.items(3, Some(Box::new(|i: usize| 10 * (i as u64 % 2)) as KeyFn), None, Box::new(|_| {}));
    content.item(None, Some(5), Box::new(|_| {}));
    let provider: &dyn Fn(&Content) -> usize = &|c| LazyLayoutItemProvider::item_count(c);
    assert_eq!(provider(&content), 4);
    assert_eq!(LazyLayoutItemProvider::get_key(&content, 1), 10);
    assert_eq!(LazyLayoutItemProvider::get_key(&content, 3), (1u64 << 63) | 3);
    assert_eq!(LazyLayoutItemProvider::get_content_type(&content, 3), Some(5));
    assert_eq!(LazyLayoutItemProvider::get_content_type(&content, 0), None);
    // the smallest index with the key
    assert_eq!(content.get_index(0), Some(0));
    assert_eq!(content.get_index(10), Some(1));
    assert_eq!(content.get_index(11), None);
}

#[test]
fn distances_are_added_within_bounds() {
    assert!(check_extent(0));
    assert!(check_extent(MAX_EXTENT));
    assert!(!check_extent(-1));
    assert!(!check_extent(MAX_EXTENT + 1));
    assert_eq!(add_distances(5, 7), 12);
    assert_eq!(add_distances(MAX_EXTENT, 1), MAX_EXTENT);
    assert_eq!(add_distances(-MAX_EXTENT, i64::MIN), -MAX_EXTENT);
    assert_eq!(add_distances(0, i64::MAX), MAX_EXTENT);
}
