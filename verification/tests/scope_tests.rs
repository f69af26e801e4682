use lazy_list::key::LazyLayoutKey;
use lazy_list::scope::{LazyListIntervalContent, LazyListScope, LazyListScopeExt};
use std::cell::Cell;
use std::rc::Rc;

type KeyFn = Box<dyn Fn(usize) -> u64>;
type ContentFn = Box<dyn Fn(usize)>;
type Content = LazyListIntervalContent<KeyFn, KeyFn, ContentFn>;

fn nothing() -> ContentFn {
    Box::new(|_| {})
}

fn by_index(f: impl Fn(usize) -> u64 + 'static) -> KeyFn {
    Box::new(f)
}

#[test]
fn test_single_item() {
    let mut content: Content = LazyListIntervalContent::new();
    let called = Rc::new(Cell::new(false));
    let called_clone = Rc::clone(&called);

    content.item(
        Some(42),
        None,
        Box::new(move |_| {
            called_clone.set(true);
        }),
    );

    assert_eq!(content.item_count(), 1);
    assert_eq!(content.get_key(0), LazyLayoutKey::User(42));

    content.invoke_content(0);
    assert!(called.get());
}

#[test]
fn test_multiple_items() {
    let mut content: Content = LazyListIntervalContent::new();

    content.items(
        5,
        Some(by_index(|i| (i * 10) as u64)),
        None,
        Box::new(|_i| {}),
    );

    assert_eq!(content.item_count(), 5);
    assert_eq!(content.get_key(0), LazyLayoutKey::User(0));
    assert_eq!(content.get_key(1), LazyLayoutKey::User(10));
    assert_eq!(content.get_key(4), LazyLayoutKey::User(40));
}

#[test]
fn test_mixed_intervals() {
    let mut content: Content = LazyListIntervalContent::new();

    // Header
    content.item(Some(100), None, nothing());

    // Items
    content.items(3, Some(by_index(|i| i as u64)), None, nothing());

    // Footer
    content.item(Some(200), None, nothing());

    assert_eq!(content.item_count(), 5);
    assert_eq!(content.get_key(0), LazyLayoutKey::User(100)); // Header
    assert_eq!(content.get_key(1), LazyLayoutKey::User(0)); // First item
    assert_eq!(content.get_key(2), LazyLayoutKey::User(1)); // Second item
    assert_eq!(content.get_key(3), LazyLayoutKey::User(2)); // Third item
    assert_eq!(content.get_key(4), LazyLayoutKey::User(200)); // Footer
}

#[test]
fn test_with_interval() {
    let mut content: Content = LazyListIntervalContent::new();
    content.items(5, None, None, nothing());

    let result = content.with_interval(3, |local_idx, interval| (local_idx, interval.count));

    assert_eq!(result, Some((3, 5)));
}

#[test]
fn test_user_keys_dont_collide_with_default_keys() {
    let mut content: Content = LazyListIntervalContent::new();

    // Item 0: User key = 0
    content.item(Some(0), None, nothing());
    // Item 1: No key (default Index(1))
    content.item(None, None, nothing());
    // Item 2: User key = 1
    content.item(Some(1), None, nothing());

    // User key 0 should NOT equal default Index(0)
    assert_eq!(content.get_key(0), LazyLayoutKey::User(0));
    assert_eq!(content.get_key(1), LazyLayoutKey::Index(1));
    assert_eq!(content.get_key(2), LazyLayoutKey::User(1));

    // Critically: User(0) != Index(1) and User(1) != Index(1)
    assert_ne!(content.get_key(0), content.get_key(1));
    assert_ne!(content.get_key(2), content.get_key(1));

    // Keys should convert to different slot IDs
    assert_ne!(
        content.get_key(0).to_slot_id(),
        content.get_key(1).to_slot_id()
    );
}

#[test]
fn test_slot_id_collision_prevention() {
    // User(0) and Index(0) should produce different slot IDs
    let user_key = LazyLayoutKey::User(0);
    let index_key = LazyLayoutKey::Index(0);

    assert_ne!(user_key.to_slot_id(), index_key.to_slot_id());

    // Index keys should have high bit set
    assert!(index_key.to_slot_id() & (1u64 << 63) != 0);
    // User keys should NOT have high bit set (assuming normal usage)
    assert!(user_key.to_slot_id() & (1u64 << 63) == 0);
}

#[test]
fn content_types_follow_their_interval() {
    let mut content: Content = LazyListIntervalContent::new();
    content.item(None, Some(7), nothing());
    content.items(3, None, Some(by_index(|i| 100 + i as u64)), nothing());
    content.items(2, None, None, nothing());

    assert_eq!(content.get_content_type(0), Some(7));
    assert_eq!(content.get_content_type(1), Some(100));
    assert_eq!(content.get_content_type(3), Some(102));
    assert_eq!(content.get_content_type(4), None);
    assert_eq!(content.get_content_type(6), None);
}

#[test]
fn index_outside_the_list_matches_nothing() {
    let mut content: Content = LazyListIntervalContent::new();
    content.items(3, Some(by_index(|i| i as u64 + 10)), None, nothing());

    assert_eq!(content.get_key(3), LazyLayoutKey::Index(3));
    assert_eq!(content.get_content_type(3), None);
    assert_eq!(content.with_interval(3, |local, _| local), None);
    content.invoke_content(3);
    assert_eq!(content.get_index_by_key(LazyLayoutKey::User(13)), None);
    assert_eq!(content.get_index_by_key_in_range(LazyLayoutKey::User(12), 5..9), None);
}

#[test]
fn empty_runs_are_not_recorded() {
    let mut content: Content = LazyListIntervalContent::new();
    content.items(0, None, None, nothing());
    assert_eq!(content.item_count(), 0);
    assert_eq!(content.intervals().len(), 0);
    content.items(4, None, None, nothing());
    content.items(0, None, None, nothing());
    assert_eq!(content.intervals().len(), 1);
    assert_eq!(content.intervals()[0].start_index, 0);
    assert_eq!(content.intervals()[0].count, 4);
}

#[test]
fn lookup_by_key_finds_the_last_holder() {
    let mut content: Content = LazyListIntervalContent::new();
    content.items(4, Some(by_index(|i| (i % 2) as u64)), None, nothing());
    content.items(2, None, None, nothing());

    // keys: U0 U1 U0 U1 I4 I5
    assert_eq!(content.get_index_by_key(LazyLayoutKey::User(0)), Some(2));
    assert_eq!(content.get_index_by_key(LazyLayoutKey::User(1)), Some(3));
    assert_eq!(content.get_index_by_key(LazyLayoutKey::Index(4)), Some(4));
    assert_eq!(content.get_index_by_key(LazyLayoutKey::Index(0)), None);
    assert_eq!(
        content.get_index_by_slot_id(LazyLayoutKey::Index(5).to_slot_id()),
        Some(5)
    );
    // the table survives and answers again
    assert_eq!(content.get_index_by_key(LazyLayoutKey::User(0)), Some(2));
    // adding content drops the table
    content.item(Some(0), None, nothing());
    assert_eq!(content.get_index_by_key(LazyLayoutKey::User(0)), Some(6));
}

#[test]
fn lookup_in_range_finds_the_first_holder() {
    let mut content: Content = LazyListIntervalContent::new();
    content.items(6, Some(by_index(|i| (i % 3) as u64)), None, nothing());

    // keys: 0 1 2 0 1 2
    assert_eq!(content.get_index_by_key_in_range(LazyLayoutKey::User(2), 0..6), Some(2));
    assert_eq!(content.get_index_by_key_in_range(LazyLayoutKey::User(2), 3..6), Some(5));
    assert_eq!(content.get_index_by_key_in_range(LazyLayoutKey::User(2), 3..5), None);
    assert_eq!(content.get_index_by_key_in_range(LazyLayoutKey::User(2), 3..100), Some(5));
    assert_eq!(content.get_index_by_slot_id_in_range(1, 2..6), Some(4));
    assert_eq!(content.get_index_by_slot_id_in_range(1, 5..2), None);
}

#[test]
fn long_lists_get_no_lookup_table() {
    let mut content: Content = LazyListIntervalContent::new();
    content.items(10001, Some(by_index(|i| i as u64)), None, nothing());
    assert_eq!(content.get_index_by_key(LazyLayoutKey::User(5)), None);
    assert_eq!(content.get_index_by_key_in_range(LazyLayoutKey::User(5), 0..10), Some(5));

    let mut short: Content = LazyListIntervalContent::new();
    short.items(10000, Some(by_index(|i| i as u64)), None, nothing());
    assert_eq!(short.get_index_by_key(LazyLayoutKey::User(9999)), Some(9999));
}

#[test]
fn slices_declare_one_item_per_element() {
    let data = vec!["Apple", "Banana", "Cherry"];
    let seen = Rc::new(Cell::new(usize::MAX));
    let seen_clone = Rc::clone(&seen);
    let mut content: Content = LazyListIntervalContent::new();
    content.items_slice(&data, Box::new(move |i| seen_clone.set(i)));
    content.items_indexed(&data, nothing());

    assert_eq!(content.item_count(), 6);
    assert_eq!(content.get_key(1), LazyLayoutKey::Index(1));
    content.invoke_content(2);
    assert_eq!(seen.get(), 2);
}

#[test]
fn key_kinds_are_told_apart() {
    assert!(LazyLayoutKey::User(3).is_user_key());
    assert!(!LazyLayoutKey::User(3).is_index_key());
    assert!(LazyLayoutKey::Index(3).is_index_key());
    assert!(!LazyLayoutKey::Index(3).is_user_key());
    assert_eq!(LazyLayoutKey::User(77).to_slot_id(), 77);
    assert_eq!(LazyLayoutKey::Index(5).to_slot_id(), (1u64 << 63) + 5);
}
