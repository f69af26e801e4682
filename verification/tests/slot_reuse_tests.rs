use lazy_list::slot_reuse::{ReusableSlot, SlotReusePolicy, SlotReusePool, DEFAULT_REUSE_SLOT_COUNT};

#[test]
fn test_slot_reuse() {
    let mut pool = SlotReusePool::new();

    // Mark some slots in use
    pool.mark_in_use(1, None, 100);
    pool.mark_in_use(2, None, 101);

    assert_eq!(pool.in_use_count(), 2);
    assert_eq!(pool.available_count(), 0);

    // Release one slot
    let slot = pool.get_in_use(1).unwrap().clone();
    pool.return_slot(slot);

    assert_eq!(pool.in_use_count(), 1);
    assert_eq!(pool.available_count(), 1);

    // Try to get a reusable slot
    let reused = pool.try_get_slot(None);
    assert!(reused.is_some());
    assert_eq!(reused.unwrap().key, 1);
}

#[test]
fn test_content_type_matching() {
    let mut pool = SlotReusePool::new();

    // Create slots with different content types
    pool.mark_in_use(1, Some(100), 1000);
    pool.mark_in_use(2, Some(200), 1001);

    let slot1 = pool.get_in_use(1).unwrap().clone();
    let slot2 = pool.get_in_use(2).unwrap().clone();

    pool.return_slot(slot1);
    pool.return_slot(slot2);

    // Should get matching content type
    let reused = pool.try_get_slot(Some(100));
    assert!(reused.is_some());
    assert_eq!(reused.unwrap().content_type, Some(100));

    // Wrong type returns None
    let wrong_type = pool.try_get_slot(Some(300));
    assert!(wrong_type.is_none());
}

#[test]
fn test_release_non_visible() {
    let mut pool = SlotReusePool::new();

    pool.mark_in_use(1, None, 100);
    pool.mark_in_use(2, None, 101);
    pool.mark_in_use(3, None, 102);

    // Only key 2 is visible
    pool.release_non_visible(&[2]);

    assert_eq!(pool.in_use_count(), 1);
    assert_eq!(pool.available_count(), 2);
    assert!(pool.get_in_use(2).is_some());
}

#[test]
fn test_slot_limit() {
    let policy = SlotReusePolicy::new(2);
    let mut pool = SlotReusePool::with_policy(policy);

    // Create more slots than limit
    for i in 0..5 {
        pool.mark_in_use(i, None, i as usize);
    }

    // Release all
    pool.release_non_visible(&[]);

    // Should only keep 2
    assert_eq!(pool.available_count(), 2);
}

#[test]
fn released_slots_beyond_the_cap_cannot_be_had() {
    let mut pool = SlotReusePool::with_policy(SlotReusePolicy::new(3));
    for i in 0..10u64 {
        pool.mark_in_use(i, None, i as usize);
    }
    pool.release_non_visible(&[]);
    assert_eq!(pool.in_use_count(), 0);
    assert_eq!(pool.available_count(), 3);

    let mut keys = Vec::new();
    while let Some(slot) = pool.try_get_slot(None) {
        assert!(!slot.in_use);
        assert_eq!(slot.node_id, slot.key as usize);
        keys.push(slot.key);
    }
    assert_eq!(keys.len(), 3);
    keys.sort();
    keys.dedup();
    assert_eq!(keys.len(), 3);
    assert_eq!(pool.available_count(), 0);
}

#[test]
fn buckets_are_capped_one_by_one() {
    let mut pool = SlotReusePool::with_policy(SlotReusePolicy::new(2));
    for i in 0..4u64 {
        pool.mark_in_use(i, Some(1), 0);
    }
    for i in 4..7u64 {
        pool.mark_in_use(i, Some(2), 0);
    }
    pool.mark_in_use(7, None, 0);
    pool.release_non_visible(&[7]);
    assert_eq!(pool.in_use_count(), 1);
    assert_eq!(pool.available_count(), 4);
    assert_eq!(pool.try_get_slot(None), None);
    assert_eq!(pool.try_get_slot(Some(1)).unwrap().content_type, Some(1));
    assert_eq!(pool.try_get_slot(Some(2)).unwrap().content_type, Some(2));
}

#[test]
fn untyped_slots_share_the_bucket_of_type_zero() {
    let mut pool = SlotReusePool::new();
    pool.return_slot(ReusableSlot { key: 9, content_type: None, node_id: 1, in_use: true });
    let slot = pool.try_get_slot(Some(0)).unwrap();
    assert_eq!(slot, ReusableSlot { key: 9, content_type: None, node_id: 1, in_use: false });
}

#[test]
fn slots_leave_a_bucket_last_in_first_out() {
    let mut pool = SlotReusePool::new();
    for key in 1..=3u64 {
        pool.return_slot(ReusableSlot { key, content_type: Some(5), node_id: 0, in_use: true });
    }
    assert_eq!(pool.try_get_slot(Some(5)).unwrap().key, 3);
    assert_eq!(pool.try_get_slot(Some(5)).unwrap().key, 2);
    assert_eq!(pool.try_get_slot(Some(5)).unwrap().key, 1);
    assert_eq!(pool.try_get_slot(Some(5)), None);
}

#[test]
fn a_disabled_pool_keeps_nothing() {
    let policy = SlotReusePolicy::disabled();
    assert_eq!(policy.max_slots_per_type, 0);
    assert!(!policy.enabled);
    let mut pool = SlotReusePool::with_policy(policy);
    pool.mark_in_use(1, None, 5);
    let slot = *pool.get_in_use(1).unwrap();
    pool.return_slot(slot);
    assert_eq!(pool.in_use_count(), 1);
    assert_eq!(pool.available_count(), 0);
    assert_eq!(pool.try_get_slot(None), None);
}

#[test]
fn marking_twice_replaces_and_clear_forgets() {
    let mut pool = SlotReusePool::new();
    assert_eq!(SlotReusePolicy::default().max_slots_per_type, DEFAULT_REUSE_SLOT_COUNT);
    pool.mark_in_use(1, None, 5);
    pool.mark_in_use(1, Some(3), 6);
    assert_eq!(pool.in_use_count(), 1);
    assert_eq!(
        pool.get_in_use(1),
        Some(&ReusableSlot { key: 1, content_type: Some(3), node_id: 6, in_use: true })
    );
    assert_eq!(pool.get_in_use(2), None);
    pool.release_non_visible(&[]);
    pool.mark_in_use(4, None, 1);
    pool.clear();
    assert_eq!(pool.in_use_count(), 0);
    assert_eq!(pool.available_count(), 0);
}
