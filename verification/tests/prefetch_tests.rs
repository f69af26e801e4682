use lazy_list::prefetch::{PrefetchScheduler, PrefetchStrategy};

#[test]
fn test_prefetch_forward_scroll() {
    let mut scheduler = PrefetchScheduler::new();
    let strategy = PrefetchStrategy::new(2);

    scheduler.update(5, 10, 100, 1, &strategy);

    assert_eq!(scheduler.next_prefetch(), Some(11));
    assert_eq!(scheduler.next_prefetch(), Some(12));
    assert_eq!(scheduler.next_prefetch(), None);
}

#[test]
fn test_prefetch_backward_scroll() {
    let mut scheduler = PrefetchScheduler::new();
    let strategy = PrefetchStrategy::new(2);

    scheduler.update(5, 10, 100, -1, &strategy);

    assert_eq!(scheduler.next_prefetch(), Some(4));
    assert_eq!(scheduler.next_prefetch(), Some(3));
    assert_eq!(scheduler.next_prefetch(), None);
}

#[test]
fn test_prefetch_at_end() {
    let mut scheduler = PrefetchScheduler::new();
    let strategy = PrefetchStrategy::new(2);

    // At end of list
    scheduler.update(95, 99, 100, 1, &strategy);

    // Should not prefetch beyond list bounds
    assert_eq!(scheduler.next_prefetch(), None);
}

#[test]
fn test_prefetch_disabled() {
    let mut scheduler = PrefetchScheduler::new();
    let strategy = PrefetchStrategy::disabled();

    scheduler.update(5, 10, 100, 1, &strategy);

    assert_eq!(scheduler.next_prefetch(), None);
}

#[test]
fn prefetch_is_clipped_at_either_end() {
    let mut scheduler = PrefetchScheduler::new();
    let strategy = PrefetchStrategy::new(3);

    scheduler.update(1, 97, 100, 0, &strategy);
    let pending: Vec<usize> = scheduler.pending_prefetches().iter().copied().collect();
    assert_eq!(pending, vec![98, 99]);

    scheduler.update(1, 97, 100, -5, &strategy);
    let pending: Vec<usize> = scheduler.pending_prefetches().iter().copied().collect();
    assert_eq!(pending, vec![0]);

    scheduler.update(0, 4, 100, -1, &strategy);
    assert_eq!(scheduler.next_prefetch(), None);

    scheduler.update(0, usize::MAX, usize::MAX, 1, &strategy);
    assert_eq!(scheduler.next_prefetch(), None);
}

#[test]
fn update_replaces_the_queue() {
    let mut scheduler = PrefetchScheduler::new();
    let strategy = PrefetchStrategy::new(2);
    scheduler.update(5, 10, 100, 1, &strategy);
    scheduler.update(20, 30, 100, 1, &strategy);
    assert_eq!(scheduler.next_prefetch(), Some(31));
    assert_eq!(scheduler.next_prefetch(), Some(32));
    assert_eq!(scheduler.next_prefetch(), None);
    scheduler.update(20, 30, 100, 1, &PrefetchStrategy::disabled());
    assert_eq!(scheduler.pending_prefetches().len(), 0);
}

#[test]
fn default_strategy_looks_two_ahead() {
    let strategy = PrefetchStrategy::default();
    assert_eq!(strategy.prefetch_count, 2);
    assert!(strategy.enabled);
    let off = PrefetchStrategy::disabled();
    assert_eq!(off.prefetch_count, 0);
    assert!(!off.enabled);
}

#[test]
fn cleanup_retires_distant_prefetches() {
    let mut scheduler = PrefetchScheduler::new();
    for index in [0usize, 3, 4, 10, 15, 16, 17, 40] {
        scheduler.mark_prefetched(index);
    }
    assert!(scheduler.is_prefetched(40));
    assert!(!scheduler.is_prefetched(5));

    scheduler.cleanup_distant_prefetches(8, 12, 4);

    for kept in [4usize, 10, 15, 16] {
        assert!(scheduler.is_prefetched(kept), "{} should stay", kept);
    }
    for gone in [0usize, 3, 17, 40] {
        assert!(!scheduler.is_prefetched(gone), "{} should go", gone);
    }

    scheduler.cleanup_distant_prefetches(2, usize::MAX - 1, 5);
    assert!(scheduler.is_prefetched(4));
    assert!(scheduler.is_prefetched(16));
}
