//! Prefetch scheduling.
//!
//! After every measurement pass the scheduler is told which items are on
//! screen and in which direction the list moves. It answers with a short
//! queue of indices just outside the window that are worth instantiating
//! while the application is idle.

use std::collections::HashSet;
use std::collections::VecDeque;
use vstd::prelude::*;
use vstd::std_specs::iter::IteratorSpec;

verus! {

/// How far ahead items are prefetched.
#[derive(Clone, Copy, Debug)]
pub struct PrefetchStrategy {
    /// Number of items to prefetch beyond the visible window.
    pub prefetch_count: usize,
    /// Whether prefetching takes place at all.
    pub enabled: bool,
}

impl Default for PrefetchStrategy {
    fn default() -> (s: Self)
        ensures
            s.prefetch_count == 2,
            s.enabled,
    {
        Self { prefetch_count: 2, enabled: true }
    }
}

impl PrefetchStrategy {
    /// An enabled strategy that looks `prefetch_count` items ahead.
    pub fn new(prefetch_count: usize) -> (s: Self)
        ensures
            s.prefetch_count == prefetch_count,
            s.enabled,
    {
        Self { prefetch_count, enabled: true }
    }

    /// A strategy that never prefetches.
    pub fn disabled() -> (s: Self)
        ensures
            s.prefetch_count == 0,
            !s.enabled,
    {
        Self { prefetch_count: 0, enabled: false }
    }
}

/// What a scheduler holds: the queue in the order in which it will be
/// handed out, and the set of indices recorded as already prefetched.
pub struct PrefetchSchedulerView {
    pub queue: Seq<usize>,
    pub prefetched: Set<usize>,
}

/// Number of indices in `(last_visible, total_items)` that a forward
/// prefetch of `count` items reaches.
pub open spec fn forward_prefetch_len(last_visible: usize, total_items: usize, count: usize) -> nat {
    if last_visible + 1 < total_items {
        if count <= total_items - last_visible - 1 {
            count as nat
        } else {
            (total_items - last_visible - 1) as nat
        }
    } else {
        0
    }
}

/// Number of indices in `[0, first_visible)` that a backward prefetch of
/// `count` items reaches.
pub open spec fn backward_prefetch_len(first_visible: usize, count: usize) -> nat {
    if count <= first_visible {
        count as nat
    } else {
        first_visible as nat
    }
}

/// The queue that an update builds: nothing when disabled; otherwise the
/// indices following the window in ascending order when the list moves
/// forward or rests, and the indices preceding it in descending order when it
/// moves backward. Indices outside `[0, total_items)` never appear.
pub open spec fn prefetch_queue_for(
    first_visible: usize,
    last_visible: usize,
    total_items: usize,
    scroll_direction: i64,
    strategy: PrefetchStrategy,
) -> Seq<usize> {
    if !strategy.enabled {
        Seq::empty()
    } else if scroll_direction >= 0 {
        Seq::new(
            forward_prefetch_len(last_visible, total_items, strategy.prefetch_count),
            |i: int| (last_visible + 1 + i) as usize,
        )
    } else {
        Seq::new(
            backward_prefetch_len(first_visible, strategy.prefetch_count),
            |i: int| (first_visible - 1 - i) as usize,
        )
    }
}

/// Lower end of the band of indices kept by a cleanup.
pub open spec fn keep_band_start(first_visible: usize, keep_distance: usize) -> int {
    if first_visible >= keep_distance {
        first_visible - keep_distance
    } else {
        0
    }
}

/// Upper end of the band of indices kept by a cleanup.
pub open spec fn keep_band_end(last_visible: usize, keep_distance: usize) -> int {
    if last_visible + keep_distance <= usize::MAX {
        last_visible + keep_distance
    } else {
        usize::MAX as int
    }
}

/// Whether a cleanup keeps `index`.
pub open spec fn in_keep_band(
    index: usize,
    first_visible: usize,
    last_visible: usize,
    keep_distance: usize,
) -> bool {
    keep_band_start(first_visible, keep_distance) <= index <= keep_band_end(
        last_visible,
        keep_distance,
    )
}

/// Tracks which items should be instantiated ahead of time.
#[derive(Debug)]
pub struct PrefetchScheduler {
    /// Indices to prefetch, most urgent first.
    prefetch_queue: VecDeque<usize>,
    /// Indices that were prefetched and have not been retired.
    prefetched_items: HashSet<usize>,
}

impl View for PrefetchScheduler {
    type V = PrefetchSchedulerView;

    closed spec fn view(&self) -> PrefetchSchedulerView {
        PrefetchSchedulerView { queue: self.prefetch_queue@, prefetched: self.prefetched_items@ }
    }
}

impl Default for PrefetchScheduler {
    fn default() -> (s: Self)
        ensures
            s@.queue == Seq::<usize>::empty(),
            s@.prefetched == Set::<usize>::empty(),
    {
        Self { prefetch_queue: VecDeque::new(), prefetched_items: HashSet::new() }
    }
}

impl PrefetchScheduler {
    /// A scheduler with nothing queued and nothing prefetched.
    pub fn new() -> (s: Self)
        ensures
            s@.queue == Seq::<usize>::empty(),
            s@.prefetched == Set::<usize>::empty(),
    {
        Self { prefetch_queue: VecDeque::new(), prefetched_items: HashSet::new() }
    }

    /// Rebuilds the queue for the window `[first_visible_index,
    /// last_visible_index]` of a list of `total_items` items. A negative
    /// `scroll_direction` means the list moves backward.
    pub fn update(
        &mut self,
        first_visible_index: usize,
        last_visible_index: usize,
        total_items: usize,
        scroll_direction: i64,
        strategy: &PrefetchStrategy,
    )
        ensures
            final(self)@.queue == prefetch_queue_for(
                first_visible_index,
                last_visible_index,
                total_items,
                scroll_direction,
                *strategy,
            ),
            final(self)@.prefetched == old(self)@.prefetched,
    {
        self.prefetch_queue.clear();
        if !strategy.enabled {
            return ;
        }
        let prefetch_count = strategy.prefetch_count;
        if scroll_direction >= 0 {
            let reach: usize = if last_visible_index < total_items && total_items
                - last_visible_index > 1 {
                let room: usize = total_items - last_visible_index - 1;
                if prefetch_count <= room {
                    prefetch_count
                } else {
                    room
                }
            } else {
                0
            };
            let mut i: usize = 0;
            while i < reach
                invariant
                    i <= reach,
                    reach == forward_prefetch_len(last_visible_index, total_items, prefetch_count),
                    self.prefetched_items == old(self).prefetched_items,
                    self.prefetch_queue@ == Seq::new(
                        i as nat,
                        |k: int| (last_visible_index + 1 + k) as usize,
                    ),
                decreases reach - i,
            {
                let index: usize = last_visible_index + 1 + i;
                self.prefetch_queue.push_back(index);
                i += 1;
                assert(self.prefetch_queue@ =~= Seq::new(
                    i as nat,
                    |k: int| (last_visible_index + 1 + k) as usize,
                ));
            }
        } else {
            let reach: usize = if prefetch_count <= first_visible_index {
                prefetch_count
            } else {
                first_visible_index
            };
            let mut i: usize = 0;
            while i < reach
                invariant
                    i <= reach,
                    reach == backward_prefetch_len(first_visible_index, prefetch_count),
                    self.prefetched_items == old(self).prefetched_items,
                    self.prefetch_queue@ == Seq::new(
                        i as nat,
                        |k: int| (first_visible_index - 1 - k) as usize,
                    ),
                decreases reach - i,
            {
                let index: usize = first_visible_index - 1 - i;
                self.prefetch_queue.push_back(index);
                i += 1;
                assert(self.prefetch_queue@ =~= Seq::new(
                    i as nat,
                    |k: int| (first_visible_index - 1 - k) as usize,
                ));
            }
        }
    }

    /// Takes the most urgent index off the queue.
    pub fn next_prefetch(&mut self) -> (next: Option<usize>)
        ensures
            old(self)@.queue.len() == 0 ==> next is None && final(self)@ == old(self)@,
            old(self)@.queue.len() > 0 ==> next == Some(old(self)@.queue[0]) && final(self)@.queue
                == old(self)@.queue.drop_first(),
            final(self)@.prefetched == old(self)@.prefetched,
    {
        let next = self.prefetch_queue.pop_front();
        proof {
            if old(self)@.queue.len() > 0 {
                assert(self.prefetch_queue@ =~= old(self)@.queue.drop_first());
            }
        }
        next
    }

    /// The indices still waiting, most urgent first.
    pub fn pending_prefetches(&self) -> (queue: &VecDeque<usize>)
        ensures
            queue@ == self@.queue,
    {
        &self.prefetch_queue
    }

    /// Records that `index` has been prefetched.
    pub fn mark_prefetched(&mut self, index: usize)
        ensures
            final(self)@.prefetched == old(self)@.prefetched.insert(index),
            final(self)@.queue == old(self)@.queue,
    {
        self.prefetched_items.insert(index);
    }

    /// Whether `index` is recorded as prefetched.
    pub fn is_prefetched(&self, index: usize) -> (b: bool)
        ensures
            b == self@.prefetched.contains(index),
    {
        self.prefetched_items.contains(&index)
    }

    /// Retires every prefetched index that lies more than `keep_distance`
    /// items outside the window `[first_visible_index, last_visible_index]`.
    pub fn cleanup_distant_prefetches(
        &mut self,
        first_visible_index: usize,
        last_visible_index: usize,
        keep_distance: usize,
    )
        ensures
            final(self)@.prefetched == old(self)@.prefetched.filter(
                |index: usize|
                    in_keep_band(index, first_visible_index, last_visible_index, keep_distance),
            ),
            final(self)@.queue == old(self)@.queue,
    {
        let before_visible: usize = if first_visible_index >= keep_distance {
            first_visible_index - keep_distance
        } else {
            0
        };
        let after_visible: usize = if last_visible_index <= usize::MAX - keep_distance {
            last_visible_index + keep_distance
        } else {
            usize::MAX
        };
        let tracked_items = self.prefetched_indices();
        let ghost kept = |index: usize|
            in_keep_band(index, first_visible_index, last_visible_index, keep_distance);
        let mut i: usize = 0;
        while i < tracked_items.len()
            invariant
                i <= tracked_items.len(),
                tracked_items@.no_duplicates(),
                tracked_items@.to_set() == old(self).prefetched_items@,
                self.prefetch_queue == old(self).prefetch_queue,
                before_visible == keep_band_start(first_visible_index, keep_distance),
                after_visible == keep_band_end(last_visible_index, keep_distance),
                kept == |index: usize|
                    in_keep_band(index, first_visible_index, last_visible_index, keep_distance),
                forall|x: usize|
                    self.prefetched_items@.contains(x) <==> old(self).prefetched_items@.contains(x)
                        && (kept(x) || !tracked_items@.take(i as int).contains(x)),
            decreases tracked_items.len() - i,
        {
            let index = tracked_items[i];
            if !(index >= before_visible && index <= after_visible) {
                self.prefetched_items.remove(&index);
            }
            proof {
                let done = tracked_items@.take(i as int);
                let next = tracked_items@.take(i + 1);
                assert(next =~= done.push(index));
                assert(next[i as int] == index);
                assert(tracked_items@.contains(index));
                assert(kept(index) == (index >= before_visible && index <= after_visible));
                assert forall|x: usize|
                    self.prefetched_items@.contains(x) <==> old(self).prefetched_items@.contains(x)
                        && (kept(x) || !next.contains(x)) by {
                    if x != index {
                        if next.contains(x) {
                            let j = choose|j: int| 0 <= j < next.len() && next[j] == x;
                            assert(done[j] == x);
                        }
                        if done.contains(x) {
                            let j = choose|j: int| 0 <= j < done.len() && done[j] == x;
                            assert(next[j] == x);
                        }
                    }
                }
            }
            i += 1;
        }
        proof {
            assert(tracked_items@.take(i as int) =~= tracked_items@);
            assert(self.prefetched_items@ =~= old(self).prefetched_items@.filter(kept));
        }
    }

    /// The prefetched indices, each once, in no particular order.
    fn prefetched_indices(&self) -> (indices: Vec<usize>)
        ensures
            indices@.no_duplicates(),
            indices@.to_set() == self.prefetched_items@,
    {
        let mut indices: Vec<usize> = Vec::new();
        let ghost elements = self.prefetched_items.iter().remaining().unref();
        proof {
            vstd::std_specs::hash::axiom_spec_hash_keys_iter(&self.prefetched_items);
        }
        for index in it: self.prefetched_items.iter()
            invariant
                it.seq().unref() == elements,
                indices@ == elements.take(it.index() as int),
        {
            assert(elements.take(it.index() + 1) =~= elements.take(it.index() as int).push(*index));
            indices.push(*index);
        }
        assert(indices@ =~= elements);
        indices
    }
}

/// Every queued index names an item of the list and lies outside the window.
pub proof fn lemma_prefetch_queue_in_bounds(
    first_visible: usize,
    last_visible: usize,
    total_items: usize,
    scroll_direction: i64,
    strategy: PrefetchStrategy,
)
    requires
        first_visible <= last_visible,
    ensures
        forall|k: int|
            0 <= k < prefetch_queue_for(
                first_visible,
                last_visible,
                total_items,
                scroll_direction,
                strategy,
            ).len() ==> {
                let index = #[trigger] prefetch_queue_for(
                    first_visible,
                    last_visible,
                    total_items,
                    scroll_direction,
                    strategy,
                )[k];
                &&& (scroll_direction >= 0 ==> last_visible < index < total_items)
                &&& (scroll_direction < 0 ==> index < first_visible)
            },
        prefetch_queue_for(
            first_visible,
            last_visible,
            total_items,
            scroll_direction,
            strategy,
        ).len() <= strategy.prefetch_count,
{
}

} // verus!
