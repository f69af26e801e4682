//! The pool of reusable item slots.
//!
//! A slot is the container that was instantiated for an item. While its item
//! is on screen the slot is in use; afterwards it waits in the bucket of its
//! content type until another item of that type takes it over. Every bucket
//! holds a bounded number of slots; what does not fit is given up.

use std::collections::HashMap;
use std::collections::HashSet;
use vstd::prelude::*;
use vstd::std_specs::iter::IteratorSpec;

verus! {

/// Number of slots kept per content type unless the policy says otherwise.
pub const DEFAULT_REUSE_SLOT_COUNT: usize = 7;

/// How many slots are kept for reuse, and whether any are.
#[derive(Clone, Copy, Debug, PartialEq, Eq, Structural)]
pub struct SlotReusePolicy {
    /// Largest number of waiting slots per content type.
    pub max_slots_per_type: usize,
    /// Whether slots are kept at all.
    pub enabled: bool,
}

impl Default for SlotReusePolicy {
    fn default() -> (policy: Self)
        ensures
            policy.max_slots_per_type == DEFAULT_REUSE_SLOT_COUNT,
            policy.enabled,
    {
        Self { max_slots_per_type: DEFAULT_REUSE_SLOT_COUNT, enabled: true }
    }
}

impl SlotReusePolicy {
    /// An enabled policy that keeps `max_slots_per_type` slots per type.
    pub fn new(max_slots_per_type: usize) -> (policy: Self)
        ensures
            policy.max_slots_per_type == max_slots_per_type,
            policy.enabled,
    {
        Self { max_slots_per_type, enabled: true }
    }

    /// A policy that keeps nothing.
    pub fn disabled() -> (policy: Self)
        ensures
            policy.max_slots_per_type == 0,
            !policy.enabled,
    {
        Self { max_slots_per_type: 0, enabled: false }
    }
}

/// A slot that holds, or held, the content of one item.
#[derive(Clone, Copy, Debug, PartialEq, Eq, Structural)]
pub struct ReusableSlot {
    /// Slot identifier of the item's key.
    pub key: u64,
    /// Content type of the item.
    pub content_type: Option<u64>,
    /// Identifier of the instantiated node.
    pub node_id: usize,
    /// Whether an item on screen owns the slot.
    pub in_use: bool,
}

/// The bucket in which slots of a content type wait; slots without a type
/// share the bucket of type zero.
pub open spec fn bucket_of(content_type: Option<u64>) -> u64 {
    match content_type {
        Some(t) => t,
        None => 0,
    }
}

/// A slot that has left its item.
pub open spec fn idle(slot: ReusableSlot) -> ReusableSlot {
    ReusableSlot { in_use: false, ..slot }
}

/// A pool as a mathematical value.
pub struct SlotReusePoolView {
    /// The waiting slots by bucket, in the order in which they arrived.
    pub available: Map<u64, Seq<ReusableSlot>>,
    /// The slots in use by key.
    pub in_use: Map<u64, ReusableSlot>,
    /// The policy the pool was made with.
    pub policy: SlotReusePolicy,
}

impl SlotReusePoolView {
    /// The slots waiting in a bucket; none if the bucket does not exist.
    pub open spec fn bucket(self, bucket: u64) -> Seq<ReusableSlot> {
        if self.available.contains_key(bucket) {
            self.available[bucket]
        } else {
            Seq::empty()
        }
    }

    /// The pool after `slot` has arrived at its bucket: it joins the bucket
    /// as an idle slot if the bucket has room and is given up otherwise. The
    /// bucket exists afterwards either way.
    pub open spec fn with_arrival(self, slot: ReusableSlot) -> Self {
        let b = bucket_of(slot.content_type);
        let waiting = self.bucket(b);
        SlotReusePoolView {
            available: self.available.insert(
                b,
                if waiting.len() < self.policy.max_slots_per_type {
                    waiting.push(idle(slot))
                } else {
                    waiting
                },
            ),
            ..self
        }
    }

    /// The pool after the slot in use under `key` has been released.
    pub open spec fn release_one(self, key: u64) -> Self {
        if self.in_use.contains_key(key) {
            (SlotReusePoolView { in_use: self.in_use.remove(key), ..self }).with_arrival(
                self.in_use[key],
            )
        } else {
            self
        }
    }

    /// The pool after the slots in use under `keys` have been released one
    /// after the other.
    pub open spec fn release_in_order(self, keys: Seq<u64>) -> Self
        decreases keys.len(),
    {
        if keys.len() == 0 {
            self
        } else {
            self.release_in_order(keys.drop_last()).release_one(keys.last())
        }
    }

    /// The keys in use that are not among `visible`.
    pub open spec fn keys_to_release(self, visible: Seq<u64>) -> Set<u64> {
        self.in_use.dom().filter(|key: u64| !visible.contains(key))
    }

    /// Every slot in use is filed under its own key.
    pub open spec fn keys_match(self) -> bool {
        forall|key: u64| #[trigger] self.in_use.contains_key(key) ==> self.in_use[key].key == key
    }
}

/// Number of slots waiting in all buckets of `available` together.
pub open spec fn waiting_total(available: Map<u64, Seq<ReusableSlot>>) -> nat
    decreases available.dom().len(),
    when available.dom().finite()
{
    if available.dom().len() == 0 {
        0
    } else {
        let b = available.dom().choose();
        available[b].len() + waiting_total(available.remove(b))
    }
}

/// The total can be taken bucket by bucket in any order.
pub proof fn lemma_waiting_total_by_bucket(available: Map<u64, Seq<ReusableSlot>>, bucket: u64)
    requires
        available.dom().finite(),
        available.contains_key(bucket),
    ensures
        waiting_total(available) == available[bucket].len() + waiting_total(
            available.remove(bucket),
        ),
    decreases available.dom().len(),
{
    let chosen = available.dom().choose();
    if chosen != bucket {
        let without_chosen = available.remove(chosen);
        let without_bucket = available.remove(bucket);
        lemma_waiting_total_by_bucket(without_chosen, bucket);
        lemma_waiting_total_by_bucket(without_bucket, chosen);
        assert(without_chosen.remove(bucket) =~= without_bucket.remove(chosen));
    }
}

/// Number of the keys in `keys` under which `pool` holds a slot in use
/// that goes to `bucket`.
pub open spec fn arrivals(pool: SlotReusePoolView, keys: Seq<u64>, bucket: u64) -> nat
    decreases keys.len(),
{
    if keys.len() == 0 {
        0
    } else {
        arrivals(pool, keys.drop_last(), bucket) + if pool.in_use.contains_key(keys.last())
            && bucket_of(pool.in_use[keys.last()].content_type) == bucket {
            1nat
        } else {
            0nat
        }
    }
}

/// Number of slots in a bucket that held `waiting` slots after `arriving`
/// more have asked for room.
pub open spec fn capped(waiting: nat, arriving: nat, cap: usize) -> nat {
    if waiting >= cap {
        waiting
    } else if waiting + arriving <= cap {
        waiting + arriving
    } else {
        cap as nat
    }
}

/// Whether `slot` is, idle, one of the slots that `pool` holds in use under
/// `keys` and that go to `bucket`.
pub open spec fn arrived_from(
    pool: SlotReusePoolView,
    keys: Seq<u64>,
    bucket: u64,
    slot: ReusableSlot,
) -> bool {
    exists|k: u64|
        {
            &&& #[trigger] keys.contains(k)
            &&& pool.in_use.contains_key(k)
            &&& bucket_of(pool.in_use[k].content_type) == bucket
            &&& slot == idle(pool.in_use[k])
        }
}

/// What releasing slots one after the other comes to, whatever the order:
/// the released keys are no longer in use; every bucket keeps what it held
/// and takes the arriving slots, idle, until it is full; no other bucket
/// comes into being.
pub proof fn lemma_release_in_order(pool: SlotReusePoolView, keys: Seq<u64>)
    requires
        keys.no_duplicates(),
    ensures
        pool.release_in_order(keys).policy == pool.policy,
        pool.release_in_order(keys).in_use == pool.in_use.remove_keys(keys.to_set()),
        forall|b: u64|
            (#[trigger] pool.release_in_order(keys).bucket(b)).len() == capped(
                pool.bucket(b).len(),
                arrivals(pool, keys, b),
                pool.policy.max_slots_per_type,
            ),
        forall|b: u64|
            (#[trigger] pool.release_in_order(keys).bucket(b)).take(pool.bucket(b).len() as int)
                == pool.bucket(b),
        forall|b: u64, i: int|
            pool.bucket(b).len() <= i < pool.release_in_order(keys).bucket(b).len()
                ==> arrived_from(pool, keys, b, #[trigger] pool.release_in_order(keys).bucket(b)[i]),
        forall|b: u64| #[trigger]
            pool.release_in_order(keys).available.contains_key(b) ==> pool.available.contains_key(
                b,
            ) || arrivals(pool, keys, b) > 0,
        pool.available.dom().finite() ==> pool.release_in_order(keys).available.dom().finite(),
    decreases keys.len(),
{
    let after = pool.release_in_order(keys);
    if keys.len() == 0 {
        assert(keys.to_set() =~= Set::<u64>::empty());
        assert(pool.in_use.remove_keys(keys.to_set()) =~= pool.in_use);
        assert forall|b: u64| (#[trigger] after.bucket(b)).take(pool.bucket(b).len() as int)
            == pool.bucket(b) by {
            assert(pool.bucket(b).take(pool.bucket(b).len() as int) =~= pool.bucket(b));
        }
    } else {
        let prefix = keys.drop_last();
        let k = keys.last();
        let mid = pool.release_in_order(prefix);
        lemma_release_in_order(pool, prefix);
        assert(!prefix.contains(k)) by {
            if prefix.contains(k) {
                let j = choose|j: int| 0 <= j < prefix.len() && prefix[j] == k;
                assert(keys[j] == keys[keys.len() - 1]);
            }
        }
        assert(keys.to_set() =~= prefix.to_set().insert(k)) by {
            assert forall|x: u64| keys.to_set().contains(x) <==> prefix.to_set().insert(
                k,
            ).contains(x) by {
                if keys.contains(x) {
                    let j = choose|j: int| 0 <= j < keys.len() && keys[j] == x;
                    if j < prefix.len() {
                        assert(prefix[j] == x);
                    }
                }
                if prefix.contains(x) {
                    let j = choose|j: int| 0 <= j < prefix.len() && prefix[j] == x;
                    assert(keys[j] == x);
                }
                if x == k {
                    assert(keys[keys.len() - 1] == x);
                }
            }
        }
        assert forall|x: u64| prefix.contains(x) implies keys.contains(x) by {
            let j = choose|j: int| 0 <= j < prefix.len() && prefix[j] == x;
            assert(keys[j] == x);
        }
        assert(keys.contains(k)) by {
            assert(keys[keys.len() - 1] == k);
        }
        if mid.in_use.contains_key(k) {
            let slot = pool.in_use[k];
            assert(mid.in_use[k] == slot);
            let home = bucket_of(slot.content_type);
            let left = SlotReusePoolView { in_use: mid.in_use.remove(k), ..mid };
            assert(after == left.with_arrival(slot));
            assert(after.in_use =~= pool.in_use.remove_keys(keys.to_set()));
            assert forall|b: u64|
                (#[trigger] after.bucket(b)).len() == capped(
                    pool.bucket(b).len(),
                    arrivals(pool, keys, b),
                    pool.policy.max_slots_per_type,
                ) && after.bucket(b).take(pool.bucket(b).len() as int) == pool.bucket(b) by {
                assert(mid.bucket(b).take(pool.bucket(b).len() as int) == pool.bucket(b));
                if b == home {
                    assert(after.bucket(b).take(pool.bucket(b).len() as int) =~= mid.bucket(
                        b,
                    ).take(pool.bucket(b).len() as int));
                } else {
                    assert(after.bucket(b) == mid.bucket(b));
                }
            }
            assert forall|b: u64, i: int|
                pool.bucket(b).len() <= i < after.bucket(b).len() implies arrived_from(
                    pool,
                    keys,
                    b,
                    #[trigger] after.bucket(b)[i],
                ) by {
                if i < mid.bucket(b).len() {
                    assert(after.bucket(b)[i] == mid.bucket(b)[i]);
                    assert(arrived_from(pool, prefix, b, mid.bucket(b)[i]));
                    let k2 = choose|k2: u64|
                        {
                            &&& #[trigger] prefix.contains(k2)
                            &&& pool.in_use.contains_key(k2)
                            &&& bucket_of(pool.in_use[k2].content_type) == b
                            &&& mid.bucket(b)[i] == idle(pool.in_use[k2])
                        };
                    assert(keys.contains(k2));
                } else {
                    assert(b == home);
                    assert(after.bucket(b)[i] == idle(pool.in_use[k]));
                    assert(keys.contains(k));
                }
            }
            assert(after.available.dom() =~= mid.available.dom().insert(home));
        } else {
            assert(after == mid);
            assert(!pool.in_use.contains_key(k));
            assert(pool.in_use.remove_keys(keys.to_set()) =~= pool.in_use.remove_keys(
                prefix.to_set(),
            ));
            assert forall|b: u64, i: int|
                pool.bucket(b).len() <= i < after.bucket(b).len() implies arrived_from(
                    pool,
                    keys,
                    b,
                    #[trigger] after.bucket(b)[i],
                ) by {
                assert(arrived_from(pool, prefix, b, mid.bucket(b)[i]));
                let k2 = choose|k2: u64|
                    {
                        &&& #[trigger] prefix.contains(k2)
                        &&& pool.in_use.contains_key(k2)
                        &&& bucket_of(pool.in_use[k2].content_type) == b
                        &&& mid.bucket(b)[i] == idle(pool.in_use[k2])
                    };
                assert(keys.contains(k2));
            }
        }
    }
}

/// Every key in `keys` that is in use and goes to `bucket` counts as an
/// arrival there.
proof fn lemma_all_arrive(pool: SlotReusePoolView, keys: Seq<u64>, bucket: u64)
    requires
        forall|j: int|
            0 <= j < keys.len() ==> pool.in_use.contains_key(#[trigger] keys[j]) && bucket_of(
                pool.in_use[keys[j]].content_type,
            ) == bucket,
    ensures
        arrivals(pool, keys, bucket) == keys.len(),
        forall|b: u64| b != bucket ==> #[trigger] arrivals(pool, keys, b) == 0,
    decreases keys.len(),
{
    if keys.len() == 0 {
        assert forall|b: u64| b != bucket implies #[trigger] arrivals(pool, keys, b) == 0 by {}
    }
    if keys.len() > 0 {
        let prefix = keys.drop_last();
        assert forall|j: int| 0 <= j < prefix.len() implies pool.in_use.contains_key(
            #[trigger] prefix[j],
        ) && bucket_of(pool.in_use[prefix[j]].content_type) == bucket by {
            assert(prefix[j] == keys[j]);
        }
        lemma_all_arrive(pool, prefix, bucket);
        assert(pool.in_use.contains_key(keys[keys.len() - 1]));
        assert forall|b: u64| b != bucket implies #[trigger] arrivals(pool, keys, b) == 0 by {
            assert(arrivals(pool, prefix, b) == 0);
        }
    }
}

/// Releasing every slot of a pool in which nothing waits and all slots in
/// use go to one bucket leaves nothing in use and, in that bucket, as many
/// idle slots as were in use, but no more than the policy allows; nothing
/// waits anywhere else, so the slots beyond the cap can no longer be had.
pub proof fn lemma_release_all_is_capped(pool: SlotReusePoolView, order: Seq<u64>, bucket: u64)
    requires
        pool.available == Map::<u64, Seq<ReusableSlot>>::empty(),
        pool.in_use.dom().finite(),
        forall|key: u64| #[trigger]
            pool.in_use.contains_key(key) ==> bucket_of(pool.in_use[key].content_type) == bucket,
        order.no_duplicates(),
        order.to_set() == pool.keys_to_release(Seq::<u64>::empty()),
    ensures
        pool.release_in_order(order).in_use == Map::<u64, ReusableSlot>::empty(),
        pool.release_in_order(order).bucket(bucket).len() == if pool.in_use.len()
            <= pool.policy.max_slots_per_type {
            pool.in_use.len()
        } else {
            pool.policy.max_slots_per_type as nat
        },
        forall|b: u64| b != bucket ==> (#[trigger] pool.release_in_order(order).bucket(b)).len() == 0,
        waiting_total(pool.release_in_order(order).available) == pool.release_in_order(
            order,
        ).bucket(bucket).len(),
        forall|i: int|
            0 <= i < pool.release_in_order(order).bucket(bucket).len() ==> !(
            #[trigger] pool.release_in_order(order).bucket(bucket)[i]).in_use,
{
    let after = pool.release_in_order(order);
    let released = pool.keys_to_release(Seq::<u64>::empty());
    assert(released =~= pool.in_use.dom());
    order.unique_seq_to_set();
    assert(order.len() == pool.in_use.len());
    assert forall|j: int| 0 <= j < order.len() implies pool.in_use.contains_key(
        #[trigger] order[j],
    ) && bucket_of(pool.in_use[order[j]].content_type) == bucket by {
        assert(order.to_set().contains(order[j]));
    }
    lemma_all_arrive(pool, order, bucket);
    lemma_release_in_order(pool, order);
    assert(after.in_use =~= Map::<u64, ReusableSlot>::empty());
    assert(pool.bucket(bucket).len() == 0);
    assert forall|b: u64| b != bucket implies (#[trigger] after.bucket(b)).len() == 0 by {
        assert(pool.bucket(b).len() == 0);
    }
    assert forall|i: int| 0 <= i < after.bucket(bucket).len() implies !(#[trigger] after.bucket(
        bucket,
    )[i]).in_use by {
        assert(arrived_from(pool, order, bucket, after.bucket(bucket)[i]));
    }
    assert(pool.available.dom() =~= Set::<u64>::empty());
    if after.available.contains_key(bucket) {
        lemma_waiting_total_by_bucket(after.available, bucket);
        let rest = after.available.remove(bucket);
        assert(rest.dom() =~= Set::<u64>::empty()) by {
            assert forall|b: u64| !rest.dom().contains(b) by {
                if rest.dom().contains(b) {
                    assert(after.available.contains_key(b));
                    assert(arrivals(pool, order, b) == 0);
                }
            }
        }
        assert(waiting_total(rest) == 0);
    } else {
        assert(after.available.dom() =~= Set::<u64>::empty()) by {
            assert forall|b: u64| !after.available.dom().contains(b) by {
                if after.available.contains_key(b) {
                    assert(arrivals(pool, order, b) == 0);
                }
            }
        }
        assert(waiting_total(after.available) == 0);
    }
}

/// Pool of reusable slots, bucketed by content type.
#[derive(Debug)]
pub struct SlotReusePool {
    /// The waiting slots by bucket.
    available_slots: HashMap<u64, Vec<ReusableSlot>>,
    /// The slots in use by key.
    in_use_slots: HashMap<u64, ReusableSlot>,
    /// The reuse policy.
    policy: SlotReusePolicy,
}

impl View for SlotReusePool {
    type V = SlotReusePoolView;

    closed spec fn view(&self) -> SlotReusePoolView {
        SlotReusePoolView {
            available: self.available_slots@.map_values(|slots: Vec<ReusableSlot>| slots@),
            in_use: self.in_use_slots@,
            policy: self.policy,
        }
    }
}

impl Default for SlotReusePool {
    fn default() -> (pool: Self)
        ensures
            pool@.available == Map::<u64, Seq<ReusableSlot>>::empty(),
            pool@.in_use == Map::<u64, ReusableSlot>::empty(),
            pool@.policy == (SlotReusePolicy {
                max_slots_per_type: DEFAULT_REUSE_SLOT_COUNT,
                enabled: true,
            }),
    {
        Self::new()
    }
}

impl SlotReusePool {
    /// An empty pool with the default policy.
    pub fn new() -> (pool: Self)
        ensures
            pool@.available == Map::<u64, Seq<ReusableSlot>>::empty(),
            pool@.in_use == Map::<u64, ReusableSlot>::empty(),
            pool@.policy == (SlotReusePolicy {
                max_slots_per_type: DEFAULT_REUSE_SLOT_COUNT,
                enabled: true,
            }),
    {
        Self::with_policy(SlotReusePolicy::default())
    }

    /// An empty pool with the given policy.
    pub fn with_policy(policy: SlotReusePolicy) -> (pool: Self)
        ensures
            pool@.available == Map::<u64, Seq<ReusableSlot>>::empty(),
            pool@.in_use == Map::<u64, ReusableSlot>::empty(),
            pool@.policy == policy,
    {
        let pool = Self { available_slots: HashMap::new(), in_use_slots: HashMap::new(), policy };
        assert(pool@.available =~= Map::<u64, Seq<ReusableSlot>>::empty());
        pool
    }

    /// Takes the slot that arrived last at the bucket of `content_type`.
    /// Nothing is handed out by a disabled pool or from an empty bucket.
    pub fn try_get_slot(&mut self, content_type: Option<u64>) -> (slot: Option<ReusableSlot>)
        ensures
            final(self)@.in_use == old(self)@.in_use,
            final(self)@.policy == old(self)@.policy,
            !old(self)@.policy.enabled || old(self)@.bucket(bucket_of(content_type)).len() == 0
                ==> slot is None && final(self)@ == old(self)@,
            old(self)@.policy.enabled && old(self)@.bucket(bucket_of(content_type)).len() > 0 ==> {
                &&& slot == Some(old(self)@.bucket(bucket_of(content_type)).last())
                &&& final(self)@.available == old(self)@.available.insert(
                    bucket_of(content_type),
                    old(self)@.bucket(bucket_of(content_type)).drop_last(),
                )
            },
    {
        broadcast use vstd::std_specs::hash::group_hash_axioms;

        if !self.policy.enabled {
            return None;
        }
        let type_key: u64 = match content_type {
            Some(t) => t,
            None => 0,
        };
        match self.available_slots.remove(&type_key) {
            Some(mut slots) => {
                let ghost waiting = slots@;
                let slot = slots.pop();
                self.available_slots.insert(type_key, slots);
                proof {
                    if waiting.len() == 0 {
                        assert(self@.available =~= old(self)@.available);
                    } else {
                        assert(self@.available =~= old(self)@.available.insert(
                            type_key,
                            waiting.drop_last(),
                        ));
                    }
                }
                slot
            },
            None => {
                assert(self@.available =~= old(self)@.available);
                None
            },
        }
    }

    /// Files `slot` in its bucket, creating the bucket if need be.
    fn file_slot(&mut self, slot: ReusableSlot)
        ensures
            final(self)@ == old(self)@.with_arrival(slot),
    {
        broadcast use vstd::std_specs::hash::group_hash_axioms;

        let type_key: u64 = match slot.content_type {
            Some(t) => t,
            None => 0,
        };
        let mut slots: Vec<ReusableSlot> = match self.available_slots.remove(&type_key) {
            Some(slots) => slots,
            None => Vec::new(),
        };
        if slots.len() < self.policy.max_slots_per_type {
            let mut available_slot = slot;
            available_slot.in_use = false;
            slots.push(available_slot);
        }
        self.available_slots.insert(type_key, slots);
        assert(self@.available =~= old(self)@.with_arrival(slot).available);
    }

    /// Gives `slot` back: it leaves the slots in use and joins its bucket if
    /// the bucket has room. A disabled pool takes nothing back.
    pub fn return_slot(&mut self, slot: ReusableSlot)
        ensures
            !old(self)@.policy.enabled ==> final(self)@ == old(self)@,
            old(self)@.policy.enabled ==> final(self)@ == (SlotReusePoolView {
                in_use: old(self)@.in_use.remove(slot.key),
                ..old(self)@
            }).with_arrival(slot),
    {
        broadcast use vstd::std_specs::hash::group_hash_axioms;

        if !self.policy.enabled {
            return ;
        }
        self.in_use_slots.remove(&slot.key);
        assert(self@ == (SlotReusePoolView {
            in_use: old(self)@.in_use.remove(slot.key),
            ..old(self)@
        })) by {
            assert(self@.available =~= old(self)@.available);
        }
        self.file_slot(slot);
    }

    /// Records under `key` a slot in use; a slot recorded there before is
    /// replaced.
    pub fn mark_in_use(&mut self, key: u64, content_type: Option<u64>, node_id: usize)
        ensures
            final(self)@ == (SlotReusePoolView {
                in_use: old(self)@.in_use.insert(
                    key,
                    ReusableSlot { key, content_type, node_id, in_use: true },
                ),
                ..old(self)@
            }),
            old(self)@.keys_match() ==> final(self)@.keys_match(),
    {
        broadcast use vstd::std_specs::hash::group_hash_axioms;

        let slot = ReusableSlot { key, content_type, node_id, in_use: true };
        self.in_use_slots.insert(key, slot);
        assert(self@.available =~= old(self)@.available);
    }

    /// The slot in use under `key`, if any.
    pub fn get_in_use(&self, key: u64) -> (slot: Option<&ReusableSlot>)
        ensures
            slot is Some == self@.in_use.contains_key(key),
            slot is Some ==> *slot->0 == self@.in_use[key],
    {
        broadcast use vstd::std_specs::hash::group_hash_axioms;

        self.in_use_slots.get(&key)
    }

    /// The keys in use, each once, in no particular order.
    fn in_use_keys(&self) -> (keys: Vec<u64>)
        ensures
            keys@.no_duplicates(),
            keys@.to_set() == self@.in_use.dom(),
    {
        let mut keys: Vec<u64> = Vec::new();
        let ghost all = self.in_use_slots.keys().remaining().unref();
        proof {
            vstd::std_specs::hash::axiom_spec_keys_iter(&self.in_use_slots);
        }
        for key in it: self.in_use_slots.keys()
            invariant
                it.seq().unref() == all,
                keys@ == all.take(it.index() as int),
        {
            assert(all.take(it.index() + 1) =~= all.take(it.index() as int).push(*key));
            keys.push(*key);
        }
        assert(keys@ =~= all);
        keys
    }

    /// Releases every slot in use whose key is not among `visible_keys`.
    /// Each released slot leaves the slots in use and joins its bucket if
    /// the bucket has room at that moment; the order in which the slots are
    /// released is not fixed.
    pub fn release_non_visible(&mut self, visible_keys: &[u64])
        ensures
            exists|order: Seq<u64>|
                {
                    &&& order.no_duplicates()
                    &&& order.to_set() == old(self)@.keys_to_release(visible_keys@)
                    &&& final(self)@ == #[trigger] old(self)@.release_in_order(order)
                },
    {
        broadcast use vstd::std_specs::hash::group_hash_axioms;

        let mut visible_set: HashSet<u64> = HashSet::new();
        let mut n: usize = 0;
        while n < visible_keys.len()
            invariant
                n <= visible_keys@.len(),
                forall|key: u64|
                    visible_set@.contains(key) <==> visible_keys@.take(n as int).contains(key),
            decreases visible_keys.len() - n,
        {
            let key = visible_keys[n];
            visible_set.insert(key);
            proof {
                let done = visible_keys@.take(n as int);
                let next = visible_keys@.take(n + 1);
                assert(next =~= done.push(key));
                assert(next[n as int] == key);
                assert forall|k: u64| visible_set@.contains(k) <==> next.contains(k) by {
                    if next.contains(k) && k != key {
                        let j = choose|j: int| 0 <= j < next.len() && next[j] == k;
                        assert(done[j] == k);
                    }
                    if done.contains(k) {
                        let j = choose|j: int| 0 <= j < done.len() && done[j] == k;
                        assert(next[j] == k);
                    }
                }
            }
            n += 1;
        }
        assert(visible_keys@.take(n as int) =~= visible_keys@);

        let candidates = self.in_use_keys();
        let mut to_release: Vec<u64> = Vec::new();
        let mut c: usize = 0;
        while c < candidates.len()
            invariant
                c <= candidates.len(),
                candidates@.no_duplicates(),
                candidates@.to_set() == self@.in_use.dom(),
                forall|key: u64| visible_set@.contains(key) <==> visible_keys@.contains(key),
                to_release@.no_duplicates(),
                forall|key: u64|
                    to_release@.contains(key) <==> candidates@.take(c as int).contains(key)
                        && !visible_keys@.contains(key),
            decreases candidates.len() - c,
        {
            let key = candidates[c];
            let ghost chosen = to_release@;
            if !visible_set.contains(&key) {
                to_release.push(key);
            }
            proof {
                let done = candidates@.take(c as int);
                let next = candidates@.take(c + 1);
                assert(next =~= done.push(key));
                assert(next[c as int] == key);
                assert(!done.contains(key)) by {
                    if done.contains(key) {
                        let j = choose|j: int| 0 <= j < done.len() && done[j] == key;
                        assert(candidates@[j] == candidates@[c as int]);
                    }
                }
                assert(!chosen.contains(key));
                assert forall|k: u64|
                    to_release@.contains(k) <==> next.contains(k) && !visible_keys@.contains(
                        k,
                    ) by {
                    if next.contains(k) && k != key {
                        let j = choose|j: int| 0 <= j < next.len() && next[j] == k;
                        assert(done[j] == k);
                    }
                    if done.contains(k) {
                        let j = choose|j: int| 0 <= j < done.len() && done[j] == k;
                        assert(next[j] == k);
                    }
                    if to_release@.contains(k) {
                        let j = choose|j: int| 0 <= j < to_release@.len() && to_release@[j] == k;
                        if j < chosen.len() {
                            assert(chosen[j] == k);
                            assert(chosen.contains(k));
                        }
                    }
                    if chosen.contains(k) {
                        let j = choose|j: int| 0 <= j < chosen.len() && chosen[j] == k;
                        assert(to_release@[j] == k);
                    }
                    if k == key && !visible_keys@.contains(k) {
                        assert(to_release@[to_release@.len() - 1] == k);
                    }
                }
                assert(to_release@.no_duplicates()) by {
                    assert forall|a: int, b: int|
                        0 <= a < to_release@.len() && 0 <= b < to_release@.len() && a
                            != b implies to_release@[a] != to_release@[b] by {
                        if a < chosen.len() {
                            assert(chosen.contains(to_release@[a]));
                        }
                        if b < chosen.len() {
                            assert(chosen.contains(to_release@[b]));
                        }
                    }
                }
            }
            c += 1;
        }
        proof {
            assert(candidates@.take(c as int) =~= candidates@);
            assert(to_release@.to_set() =~= old(self)@.keys_to_release(visible_keys@)) by {
                assert forall|k: u64|
                    to_release@.to_set().contains(k) <==> old(self)@.keys_to_release(
                        visible_keys@,
                    ).contains(k) by {
                    assert(candidates@.to_set().contains(k) <==> candidates@.contains(k));
                }
            }
        }

        let mut r: usize = 0;
        while r < to_release.len()
            invariant
                r <= to_release.len(),
                self@ == old(self)@.release_in_order(to_release@.take(r as int)),
            decreases to_release.len() - r,
        {
            let key = to_release[r];
            let ghost before = self@;
            proof {
                let next = to_release@.take(r + 1);
                assert(next.drop_last() =~= to_release@.take(r as int));
                assert(next.last() == key);
            }
            match self.in_use_slots.remove(&key) {
                Some(slot) => {
                    assert(self@ == (SlotReusePoolView {
                        in_use: before.in_use.remove(key),
                        ..before
                    })) by {
                        assert(self@.available =~= before.available);
                    }
                    self.file_slot(slot);
                },
                None => {
                    assert(self@ == before) by {
                        assert(self@.available =~= before.available);
                        assert(self@.in_use =~= before.in_use);
                    }
                },
            }
            r += 1;
        }
        assert(to_release@.take(r as int) =~= to_release@);
    }

    /// The buckets, each once, in no particular order.
    fn bucket_keys(&self) -> (keys: Vec<u64>)
        ensures
            keys@.no_duplicates(),
            keys@.to_set() == self@.available.dom(),
    {
        let mut keys: Vec<u64> = Vec::new();
        let ghost all = self.available_slots.keys().remaining().unref();
        proof {
            vstd::std_specs::hash::axiom_spec_keys_iter(&self.available_slots);
        }
        for key in it: self.available_slots.keys()
            invariant
                it.seq().unref() == all,
                keys@ == all.take(it.index() as int),
        {
            assert(all.take(it.index() + 1) =~= all.take(it.index() as int).push(*key));
            keys.push(*key);
        }
        assert(keys@ =~= all);
        assert(self@.available.dom() =~= self.available_slots@.dom());
        keys
    }

    /// Number of waiting slots; the largest count if there are more.
    pub fn available_count(&self) -> (count: usize)
        ensures
            count == if waiting_total(self@.available) <= usize::MAX {
                waiting_total(self@.available)
            } else {
                usize::MAX as nat
            },
    {
        broadcast use vstd::std_specs::hash::group_hash_axioms;

        let keys = self.bucket_keys();
        let ghost available = self@.available;
        let mut count: usize = 0;
        let mut saturated = false;
        let ghost mut counted: nat = 0;
        let ghost mut rest = available;
        let mut i: usize = 0;
        while i < keys.len()
            invariant
                i <= keys.len(),
                available == self@.available,
                keys@.no_duplicates(),
                keys@.to_set() == available.dom(),
                available.dom().finite(),
                rest.dom().finite(),
                rest == available.remove_keys(keys@.take(i as int).to_set()),
                counted + waiting_total(rest) == waiting_total(available),
                saturated ==> counted > usize::MAX,
                !saturated ==> count == counted,
            decreases keys.len() - i,
        {
            let key = keys[i];
            proof {
                assert(keys@.to_set().contains(key));
                assert(!keys@.take(i as int).contains(key)) by {
                    if keys@.take(i as int).contains(key) {
                        let j = choose|j: int|
                            0 <= j < keys@.take(i as int).len() && keys@.take(i as int)[j] == key;
                        assert(keys@[j] == keys@[i as int]);
                    }
                }
                assert(rest.contains_key(key));
                lemma_waiting_total_by_bucket(rest, key);
                let done = keys@.take(i as int);
                let next = keys@.take(i + 1);
                assert(next =~= done.push(key));
                assert forall|k: u64| next.to_set().contains(k) <==> done.to_set().contains(k) || k
                    == key by {
                    if next.contains(k) && k != key {
                        let j = choose|j: int| 0 <= j < next.len() && next[j] == k;
                        assert(done[j] == k);
                    }
                    if done.contains(k) {
                        let j = choose|j: int| 0 <= j < done.len() && done[j] == k;
                        assert(next[j] == k);
                    }
                    if k == key {
                        assert(next[i as int] == k);
                    }
                }
                assert(rest.remove(key) =~= available.remove_keys(next.to_set()));
                assert(rest[key] == available[key]);
            }
            match self.available_slots.get(&key) {
                Some(slots) => {
                    let waiting = slots.len();
                    if !saturated {
                        if waiting <= usize::MAX - count {
                            count = count + waiting;
                        } else {
                            saturated = true;
                        }
                    }
                },
                None => {},
            }
            proof {
                counted = counted + rest[key].len();
                rest = rest.remove(key);
            }
            i += 1;
        }
        proof {
            assert(keys@.take(i as int) =~= keys@);
            assert(rest.dom() =~= Set::<u64>::empty());
            assert(waiting_total(rest) == 0);
        }
        if saturated {
            usize::MAX
        } else {
            count
        }
    }

    /// Number of slots in use.
    pub fn in_use_count(&self) -> (count: usize)
        ensures
            count == self@.in_use.len(),
    {
        self.in_use_slots.len()
    }

    /// Forgets every slot, waiting or in use.
    pub fn clear(&mut self)
        ensures
            final(self)@.available == Map::<u64, Seq<ReusableSlot>>::empty(),
            final(self)@.in_use == Map::<u64, ReusableSlot>::empty(),
            final(self)@.policy == old(self)@.policy,
    {
        self.available_slots.clear();
        self.in_use_slots.clear();
        assert(self@.available =~= Map::<u64, Seq<ReusableSlot>>::empty());
    }
}

} // verus!
