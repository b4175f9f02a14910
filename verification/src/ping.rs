//! Bounded bookkeeping of outstanding pings.
//!
//! A tracker is a fixed ring of slots. Issuing a ping stamps a slot with the
//! send time; acknowledging it yields the round-trip time and threads the slot
//! onto a free list. A ping takes the head of the free list, or else the next
//! slot never used. Only when every slot holds an outstanding ping is one
//! overwritten: the slot after the one taken last, whose generation then
//! advances, so that a late acknowledgement of the overwritten ping no longer
//! matches.

use vstd::prelude::*;

verus! {

/// A point in time in microseconds, read by the embedding program from one
/// monotonic clock.
pub type Timestamp = u64;

/// A span of time in microseconds.
pub type Micros = u64;

/// Names one outstanding ping: the slot it occupies and the generation the
/// slot had when the ping was issued.
#[derive(Clone, Copy, Debug, PartialEq, Eq, Structural)]
pub struct PingID {
    pub id: u8,
    pub gen: u8,
}

/// What a slot of the tracker holds.
#[derive(Clone, Copy, Debug, PartialEq, Eq, Structural)]
pub enum PingSlot {
    /// Never used.
    Empty,
    /// A ping is outstanding; it was sent at the given time.
    Sent(Timestamp),
    /// Acknowledged; the payload is the slot to use after this one.
    Free(u8),
}

/// Mathematical content of a tracker.
pub struct TrackerModel {
    pub slots: Seq<(PingSlot, u8)>,
    pub next_free_slot: u8,
}

/// The generation that follows `generation`; it wraps from 255 to 0.
pub open spec fn next_generation(generation: u8) -> u8 {
    if generation == u8::MAX {
        0u8
    } else {
        (generation + 1) as u8
    }
}

/// The generation reached from `generation` after `overwrites` overwrites.
pub open spec fn generation_after(generation: u8, overwrites: nat) -> u8 {
    ((generation as nat + overwrites) % 256) as u8
}

/// Time elapsed from `earlier` to `later`; zero if `later` is not after `earlier`.
pub open spec fn elapsed_between(earlier: Timestamp, later: Timestamp) -> Micros {
    if later >= earlier {
        (later - earlier) as u64
    } else {
        0u64
    }
}

impl TrackerModel {
    /// Whether `chain` is the free list of the tracker, and `mark` the number
    /// of slots that were ever used.
    ///
    /// The slots never used are those from `mark` on. The free list starts
    /// at `next_free_slot`, runs through the slots of `chain`, each of which
    /// is free and names the one after it, and ends at `end`, which is no
    /// free slot: while slots are left that were never used it is the first
    /// of them, `mark`. Every free slot is on the list, once.
    pub open spec fn threaded(self, capacity: u8, chain: Seq<int>, end: int, mark: int) -> bool {
        &&& 0 <= mark <= capacity
        &&& 0 <= end <= capacity
        &&& mark < capacity ==> end == mark
        &&& self.next_free_slot == if chain.len() > 0 {
            chain[0]
        } else {
            end
        }
        &&& forall|i: int|
            0 <= i < self.slots.len() ==> ((#[trigger] self.slots[i]).0 is Empty <==> i >= mark)
        &&& forall|k: int|
            0 <= k < chain.len() ==> {
                &&& 0 <= #[trigger] chain[k] < capacity
                &&& self.slots[chain[k]].0 matches PingSlot::Free(next)
                &&& next == if k + 1 < chain.len() {
                    chain[k + 1]
                } else {
                    end
                }
            }
        &&& forall|j: int, k: int| 0 <= j < k < chain.len() ==> #[trigger] chain[j] != #[trigger] chain[k]
        &&& forall|i: int|
            0 <= i < self.slots.len() && (#[trigger] self.slots[i]).0 is Free ==> chain.contains(i)
    }

    /// The tracker has one slot per unit of capacity, and its free slots
    /// are threaded onto one list.
    pub open spec fn well_formed(self, capacity: u8) -> bool {
        &&& capacity > 0
        &&& self.slots.len() == capacity
        &&& exists|chain: Seq<int>, end: int, mark: int|
            #[trigger] self.threaded(capacity, chain, end, mark)
    }

    /// The slot that the next issued ping will occupy.
    pub open spec fn target(self, capacity: u8) -> u8 {
        (self.next_free_slot % capacity) as u8
    }

    /// The identifier that issuing a ping returns.
    pub open spec fn issued(self, capacity: u8) -> PingID {
        let target = self.target(capacity);
        let (slot, generation) = self.slots[target as int];
        PingID {
            id: target,
            gen: if slot is Sent {
                next_generation(generation)
            } else {
                generation
            },
        }
    }

    /// The tracker after a ping was issued at time `now`.
    pub open spec fn after_gen(self, capacity: u8, now: Timestamp) -> TrackerModel {
        let target = self.target(capacity);
        let slot = self.slots[target as int].0;
        TrackerModel {
            slots: self.slots.update(
                target as int,
                (PingSlot::Sent(now), self.issued(capacity).gen),
            ),
            next_free_slot: match slot {
                PingSlot::Free(next) => next,
                _ => (target + 1) as u8,
            },
        }
    }

    /// Whether an acknowledgement carrying `id` is accepted.
    pub open spec fn accepts(self, id: PingID) -> bool {
        &&& (id.id as int) < self.slots.len()
        &&& self.slots[id.id as int].0 is Sent
        &&& self.slots[id.id as int].1 == id.gen
    }

    /// The round-trip time reported for an acknowledgement of `id` at `now`.
    pub open spec fn measured(self, id: PingID, now: Timestamp) -> Option<Micros> {
        if self.accepts(id) {
            Some(elapsed_between(self.slots[id.id as int].0->Sent_0, now))
        } else {
            None
        }
    }

    /// The tracker after an acknowledgement carrying `id` was handled.
    pub open spec fn after_record(self, id: PingID) -> TrackerModel {
        if self.accepts(id) {
            TrackerModel {
                slots: self.slots.update(
                    id.id as int,
                    (PingSlot::Free(self.next_free_slot), id.gen),
                ),
                next_free_slot: id.id,
            }
        } else {
            self
        }
    }

    /// Every slot holds an outstanding ping.
    pub open spec fn saturated(self) -> bool {
        forall|i: int| 0 <= i < self.slots.len() ==> (#[trigger] self.slots[i]).0 is Sent
    }

    /// The tracker after pings were issued at each of `times`, in order.
    pub open spec fn after_gens(self, capacity: u8, times: Seq<Timestamp>) -> TrackerModel
        decreases times.len(),
    {
        if times.len() == 0 {
            self
        } else {
            self.after_gens(capacity, times.drop_last()).after_gen(capacity, times.last())
        }
    }

    /// The number of slots that hold an outstanding ping.
    pub open spec fn outstanding(self) -> nat {
        self.slots.filter(|entry: (PingSlot, u8)| entry.0 is Sent).len()
    }
}

/// Tracker of outstanding pings with `MAX_PENDING` slots.
#[derive(Clone, Debug, PartialEq, Eq)]
pub struct PingTracker<const MAX_PENDING: u8> {
    ping_queue: Vec<(PingSlot, u8)>,
    next_free_slot: u8,
}

impl<const MAX_PENDING: u8> View for PingTracker<MAX_PENDING> {
    type V = TrackerModel;

    closed spec fn view(&self) -> TrackerModel {
        TrackerModel { slots: self.ping_queue@, next_free_slot: self.next_free_slot }
    }
}

impl<const MAX_PENDING: u8> PingTracker<MAX_PENDING> {
    pub open spec fn well_formed(&self) -> bool {
        self@.well_formed(MAX_PENDING)
    }

    /// A tracker with every slot unused.
    pub fn new() -> (tracker: Self)
        requires
            MAX_PENDING > 0,
        ensures
            tracker.well_formed(),
            tracker@.next_free_slot == 0,
            tracker@.slots == Seq::new(MAX_PENDING as nat, |i: int| (PingSlot::Empty, 0u8)),
    {
        let mut ping_queue: Vec<(PingSlot, u8)> = Vec::new();
        let mut i: u8 = 0;
        while i < MAX_PENDING
            invariant
                i <= MAX_PENDING,
                ping_queue@ == Seq::new(i as nat, |j: int| (PingSlot::Empty, 0u8)),
            decreases MAX_PENDING - i,
        {
            ping_queue.push((PingSlot::Empty, 0u8));
            i += 1;
            assert(ping_queue@ =~= Seq::new(i as nat, |j: int| (PingSlot::Empty, 0u8)));
        }
        let tracker = PingTracker { ping_queue, next_free_slot: 0 };
        assert(tracker@.threaded(MAX_PENDING, Seq::<int>::empty(), 0, 0));
        tracker
    }

    /// The number of slots; it never changes.
    pub fn capacity(&self) -> (n: usize)
        requires
            self.well_formed(),
        ensures
            n == MAX_PENDING,
            n == self@.slots.len(),
    {
        self.ping_queue.len()
    }

    /// Issues a ping at time `now` and returns its identifier.
    ///
    /// The ping takes the head of the free list, or the next unused slot. With
    /// no slot left it overwrites the slot after the one used last and advances
    /// that slot's generation, which invalidates the ping that was there.
    pub fn gen_unique_id(&mut self, now: Timestamp) -> (id: PingID)
        requires
            old(self).well_formed(),
        ensures
            final(self).well_formed(),
            id == old(self)@.issued(MAX_PENDING),
            final(self)@ == old(self)@.after_gen(MAX_PENDING, now),
            final(self)@.accepts(id),
            !old(self)@.saturated() ==> {
                &&& !old(self)@.accepts(id)
                &&& !(old(self)@.slots[id.id as int].0 is Sent)
                &&& forall|other: PingID|
                    old(self)@.accepts(other) ==> #[trigger] final(self)@.accepts(other)
            },
    {
        proof {
            lemma_gen_keeps_well_formed(self@, MAX_PENDING, now);
            lemma_free_list(self@, MAX_PENDING);
        }
        let target: u8 = self.next_free_slot % MAX_PENDING;
        let index: usize = target as usize;
        let (slot, generation) = self.ping_queue[index];
        let stamped: u8 = match slot {
            PingSlot::Empty => {
                self.next_free_slot = target + 1;
                generation
            },
            PingSlot::Sent(_) => {
                self.next_free_slot = target + 1;
                generation.wrapping_add(1)
            },
            PingSlot::Free(next) => {
                self.next_free_slot = next;
                generation
            },
        };
        self.ping_queue[index] = (PingSlot::Sent(now), stamped);
        assert(self@.slots =~= old(self)@.after_gen(MAX_PENDING, now).slots);
        PingID { id: target, gen: stamped }
    }

    /// Handles an acknowledgement of `id` that arrived at time `now`.
    ///
    /// Returns the round-trip time exactly when the slot holds an outstanding
    /// ping of the same generation; the slot then becomes the head of the free
    /// list. Any other acknowledgement changes nothing.
    pub fn record_unique_id(&mut self, id: PingID, now: Timestamp) -> (duration: Option<Micros>)
        requires
            old(self).well_formed(),
        ensures
            final(self).well_formed(),
            duration == old(self)@.measured(id, now),
            duration.is_some() <==> old(self)@.accepts(id),
            final(self)@ == old(self)@.after_record(id),
    {
        proof {
            lemma_record_keeps_well_formed(self@, MAX_PENDING, id);
        }
        let index: usize = id.id as usize;
        if index >= self.ping_queue.len() {
            return None;
        }
        let (slot, generation) = self.ping_queue[index];
        match slot {
            PingSlot::Sent(sent_time) => {
                if generation == id.gen {
                    let duration: Micros = now.saturating_sub(sent_time);
                    self.ping_queue[index] = (PingSlot::Free(self.next_free_slot), generation);
                    self.next_free_slot = id.id;
                    assert(self@.slots =~= old(self)@.after_record(id).slots);
                    Some(duration)
                } else {
                    None
                }
            },
            _ => None,
        }
    }
}

/// What the free list gives: the next slot to take and the links of the
/// free slots lie within the ring, and the slot that the next ping takes
/// holds an outstanding ping only if every slot does.
pub proof fn lemma_free_list(tracker: TrackerModel, capacity: u8)
    requires
        tracker.well_formed(capacity),
    ensures
        tracker.next_free_slot <= capacity,
        forall|i: int|
            0 <= i < tracker.slots.len() ==> (#[trigger] tracker.slots[i].0 matches PingSlot::Free(next)
                ==> next <= capacity),
        tracker.slots[tracker.target(capacity) as int].0 is Sent ==> tracker.saturated(),
{
    let (chain, end, mark) = choose|chain: Seq<int>, end: int, mark: int| #[trigger]
        tracker.threaded(capacity, chain, end, mark);
    assert forall|i: int| 0 <= i < tracker.slots.len() implies (
    #[trigger] tracker.slots[i].0 matches PingSlot::Free(next) ==> next <= capacity) by {
        if tracker.slots[i].0 is Free {
            let k = choose|k: int| 0 <= k < chain.len() && chain[k] == i;
            assert(0 <= chain[k] < capacity);
            if k + 1 < chain.len() {
                assert(0 <= chain[k + 1] < capacity);
            }
        }
    }
    if chain.len() > 0 {
        assert(0 <= chain[0] < capacity);
        vstd::arithmetic::div_mod::lemma_small_mod(chain[0] as nat, capacity as nat);
    } else if mark < capacity {
        vstd::arithmetic::div_mod::lemma_small_mod(mark as nat, capacity as nat);
    } else {
        assert forall|i: int| 0 <= i < tracker.slots.len() implies (#[trigger] tracker.slots[i]).0
            is Sent by {
            if tracker.slots[i].0 is Free {
                assert(chain.contains(i));
            }
        }
    }
}

/// Issuing a ping keeps the tracker well-formed.
pub proof fn lemma_gen_keeps_well_formed(tracker: TrackerModel, capacity: u8, now: Timestamp)
    requires
        tracker.well_formed(capacity),
    ensures
        tracker.after_gen(capacity, now).well_formed(capacity),
        tracker.target(capacity) < capacity,
{
    let (chain, end, mark) = choose|chain: Seq<int>, end: int, mark: int| #[trigger]
        tracker.threaded(capacity, chain, end, mark);
    lemma_free_list(tracker, capacity);
    let after = tracker.after_gen(capacity, now);
    let target = tracker.target(capacity) as int;
    assert(0 <= target < capacity) by (nonlinear_arith)
        requires
            target == (tracker.next_free_slot as int) % (capacity as int),
            capacity > 0,
    ;
    match tracker.slots[target].0 {
        PingSlot::Free(next) => {
            if chain.len() == 0 {
                if mark < capacity {
                    vstd::arithmetic::div_mod::lemma_small_mod(mark as nat, capacity as nat);
                } else {
                    assert(chain.contains(target));
                }
                assert(false);
            }
            assert(0 <= chain[0] < capacity);
            vstd::arithmetic::div_mod::lemma_small_mod(chain[0] as nat, capacity as nat);
            let rest = chain.subrange(1, chain.len() as int);
            assert forall|k: int| 0 <= k < rest.len() implies {
                &&& 0 <= #[trigger] rest[k] < capacity
                &&& after.slots[rest[k]].0 matches PingSlot::Free(link)
                &&& link == if k + 1 < rest.len() {
                    rest[k + 1]
                } else {
                    end
                }
            } by {
                assert(rest[k] == chain[k + 1]);
                assert(chain[0] != chain[k + 1]);
                if k + 1 < rest.len() {
                    assert(rest[k + 1] == chain[k + 2]);
                }
            }
            assert forall|j: int, k: int| 0 <= j < k < rest.len() implies #[trigger] rest[j]
                != #[trigger] rest[k] by {
                assert(chain[j + 1] != chain[k + 1]);
            }
            assert forall|i: int|
                0 <= i < after.slots.len() && (#[trigger] after.slots[i]).0 is Free implies rest.contains(
                i,
            ) by {
                assert(tracker.slots[i].0 is Free);
                let k = choose|k: int| 0 <= k < chain.len() && chain[k] == i;
                assert(rest[k - 1] == i);
            }
            assert(after.threaded(capacity, rest, end, mark));
        },
        PingSlot::Empty => {
            if chain.len() > 0 {
                assert(0 <= chain[0] < capacity);
                vstd::arithmetic::div_mod::lemma_small_mod(chain[0] as nat, capacity as nat);
                assert(false);
            }
            if mark < capacity {
                vstd::arithmetic::div_mod::lemma_small_mod(mark as nat, capacity as nat);
            }
            assert(target == mark);
            assert(after.threaded(capacity, chain, target + 1, target + 1));
        },
        PingSlot::Sent(_) => {
            assert(tracker.saturated());
            if chain.len() > 0 {
                assert(0 <= chain[0] < capacity);
                assert(tracker.slots[chain[0]].0 is Sent);
                assert(false);
            }
            if mark < capacity {
                assert(tracker.slots[mark].0 is Sent);
                assert(false);
            }
            assert(after.threaded(capacity, chain, target + 1, mark));
        },
    }
}

/// Handling an acknowledgement keeps the tracker well-formed.
pub proof fn lemma_record_keeps_well_formed(tracker: TrackerModel, capacity: u8, id: PingID)
    requires
        tracker.well_formed(capacity),
    ensures
        tracker.after_record(id).well_formed(capacity),
{
    if tracker.accepts(id) {
        let (chain, end, mark) = choose|chain: Seq<int>, end: int, mark: int| #[trigger]
            tracker.threaded(capacity, chain, end, mark);
        let after = tracker.after_record(id);
        let slot = id.id as int;
        let grown = seq![slot] + chain;
        assert forall|k: int| 0 <= k < grown.len() implies {
            &&& 0 <= #[trigger] grown[k] < capacity
            &&& after.slots[grown[k]].0 matches PingSlot::Free(link)
            &&& link == if k + 1 < grown.len() {
                grown[k + 1]
            } else {
                end
            }
        } by {
            if k > 0 {
                assert(grown[k] == chain[k - 1]);
                assert(tracker.slots[chain[k - 1]].0 is Free);
                if k + 1 < grown.len() {
                    assert(grown[k + 1] == chain[k]);
                }
            } else if chain.len() > 0 {
                assert(grown[1] == chain[0]);
            }
        }
        assert forall|j: int, k: int| 0 <= j < k < grown.len() implies #[trigger] grown[j]
            != #[trigger] grown[k] by {
            assert(grown[k] == chain[k - 1]);
            assert(tracker.slots[chain[k - 1]].0 is Free);
            if j > 0 {
                assert(grown[j] == chain[j - 1]);
            }
        }
        assert forall|i: int|
            0 <= i < after.slots.len() && (#[trigger] after.slots[i]).0 is Free implies grown.contains(
            i,
        ) by {
            if i == slot {
                assert(grown[0] == i);
            } else {
                assert(tracker.slots[i].0 is Free);
                let k = choose|k: int| 0 <= k < chain.len() && chain[k] == i;
                assert(grown[k + 1] == i);
            }
        }
        assert forall|i: int| 0 <= i < after.slots.len() implies ((#[trigger] after.slots[i]).0
            is Empty <==> i >= mark) by {
            assert(tracker.slots[i].0 is Empty <==> i >= mark);
        }
        assert(after.threaded(capacity, grown, end, mark));
    }
}

/// No outstanding ping is overwritten while a slot is free: unless every
/// slot holds an outstanding ping, a new ping takes a slot that holds
/// none, and every identifier that was accepted before is accepted after.
pub proof fn lemma_no_overwrite_while_free(
    tracker: TrackerModel,
    capacity: u8,
    now: Timestamp,
    id: PingID,
)
    requires
        tracker.well_formed(capacity),
        !tracker.saturated(),
    ensures
        !(tracker.slots[tracker.target(capacity) as int].0 is Sent),
        !tracker.accepts(tracker.issued(capacity)),
        tracker.issued(capacity).gen == tracker.slots[tracker.target(capacity) as int].1,
        tracker.accepts(id) ==> tracker.after_gen(capacity, now).accepts(id) && id
            != tracker.issued(capacity),
        tracker.accepts(id) ==> tracker.after_gen(capacity, now).measured(id, now)
            == tracker.measured(id, now),
{
    lemma_free_list(tracker, capacity);
    lemma_gen_keeps_well_formed(tracker, capacity, now);
}

/// An acknowledgement of a ping just issued is accepted, whatever the state
/// of the tracker was, and reports the time that passed since it was issued.
pub proof fn lemma_record_after_gen(
    tracker: TrackerModel,
    capacity: u8,
    sent_at: Timestamp,
    acked_at: Timestamp,
)
    requires
        tracker.well_formed(capacity),
    ensures
        ({
            let id = tracker.issued(capacity);
            let pinged = tracker.after_gen(capacity, sent_at);
            &&& pinged.well_formed(capacity)
            &&& pinged.measured(id, acked_at) == Some(elapsed_between(sent_at, acked_at))
            &&& pinged.measured(id, acked_at)->Some_0 >= 0
            &&& pinged.after_record(id).well_formed(capacity)
            &&& pinged.after_record(id).slots.len() == capacity
        }),
{
    lemma_gen_keeps_well_formed(tracker, capacity, sent_at);
    lemma_record_keeps_well_formed(
        tracker.after_gen(capacity, sent_at),
        capacity,
        tracker.issued(capacity),
    );
}

/// A second acknowledgement of the same ping is rejected.
pub proof fn lemma_record_is_once(tracker: TrackerModel, capacity: u8, id: PingID)
    requires
        tracker.well_formed(capacity),
    ensures
        !tracker.after_record(id).accepts(id),
{
}

/// Issuing and acknowledging pings never changes the number of slots.
pub proof fn lemma_slot_count_is_fixed(
    tracker: TrackerModel,
    capacity: u8,
    id: PingID,
    now: Timestamp,
)
    requires
        tracker.well_formed(capacity),
    ensures
        tracker.after_gen(capacity, now).slots.len() == capacity,
        tracker.after_record(id).slots.len() == capacity,
        tracker.outstanding() <= capacity,
{
    tracker.slots.lemma_filter_len(|entry: (PingSlot, u8)| entry.0 is Sent);
}

/// Overwriting an outstanding ping invalidates it: when the slot that the
/// next ping takes still holds an unacknowledged ping, the identifier of that
/// older ping is rejected afterwards.
pub proof fn lemma_overwrite_invalidates(tracker: TrackerModel, capacity: u8, now: Timestamp)
    requires
        tracker.well_formed(capacity),
        tracker.slots[tracker.target(capacity) as int].0 is Sent,
    ensures
        ({
            let target = tracker.target(capacity);
            let stale = PingID { id: target, gen: tracker.slots[target as int].1 };
            &&& tracker.accepts(stale)
            &&& tracker.issued(capacity).gen == generation_after(stale.gen, 1)
            &&& !tracker.after_gen(capacity, now).accepts(stale)
        }),
{
}

/// A slot's generation returns to an earlier value only after 256
/// overwrites: fewer overwrites always leave a stale identifier rejected.
pub proof fn lemma_generation_wraps_once(generation: u8, overwrites: nat)
    ensures
        generation_after(generation, 0) == generation,
        generation_after(generation, overwrites + 1) == next_generation(
            generation_after(generation, overwrites),
        ),
        0 < overwrites < 256 ==> generation_after(generation, overwrites) != generation,
        generation_after(generation, 256) == generation,
{
}

/// How many of `count` pings, issued in a row to a tracker whose slots are
/// all taken and whose next ping goes to slot `start`, overwrite `slot`.
pub open spec fn overwrites_of(start: int, slot: int, capacity: int, count: nat) -> nat
    decreases count,
{
    if count == 0 {
        0
    } else {
        overwrites_of(start, slot, capacity, (count - 1) as nat) + if (start + count - 1) % capacity
            == slot {
            1nat
        } else {
            0nat
        }
    }
}

/// Within one round of `capacity` pings a slot is overwritten at most once:
/// by the ping whose number is the distance from `start` to `slot` around
/// the ring.
pub proof fn lemma_overwrites_within_round(start: int, slot: int, capacity: int, count: nat)
    requires
        0 <= start < capacity,
        0 <= slot < capacity,
        count <= capacity,
    ensures
        overwrites_of(start, slot, capacity, count) == if count > (if slot >= start {
            slot - start
        } else {
            slot - start + capacity
        }) {
            1nat
        } else {
            0nat
        },
    decreases count,
{
    if count > 0 {
        lemma_overwrites_within_round(start, slot, capacity, (count - 1) as nat);
        let position = start + count - 1;
        if position < capacity {
            vstd::arithmetic::div_mod::lemma_small_mod(position as nat, capacity as nat);
        } else {
            vstd::arithmetic::div_mod::lemma_mod_add_multiples_vanish(
                position - capacity,
                capacity,
            );
            vstd::arithmetic::div_mod::lemma_small_mod((position - capacity) as nat, capacity as nat);
        }
    }
}

/// Every round of `capacity` pings overwrites each slot exactly once more.
pub proof fn lemma_overwrites_per_round(start: int, slot: int, capacity: int, count: nat)
    requires
        0 <= start < capacity,
        0 <= slot < capacity,
    ensures
        overwrites_of(start, slot, capacity, count + capacity as nat) == overwrites_of(
            start,
            slot,
            capacity,
            count,
        ) + 1,
    decreases count,
{
    if count == 0 {
        lemma_overwrites_within_round(start, slot, capacity, capacity as nat);
        lemma_overwrites_within_round(start, slot, capacity, 0);
    } else {
        lemma_overwrites_per_round(start, slot, capacity, (count - 1) as nat);
        vstd::arithmetic::div_mod::lemma_mod_add_multiples_vanish(start + count - 1, capacity);
    }
}

/// Under sustained overflow the slots are overwritten in turn, and each
/// overwrite advances the generation of its slot by one. So the identifier
/// of a ping that was outstanding when the overflow began is accepted later
/// only if its slot was overwritten a multiple of 256 times: not at all, or
/// once the generation has wrapped around.
pub proof fn lemma_sustained_overflow(
    tracker: TrackerModel,
    capacity: u8,
    times: Seq<Timestamp>,
    slot: int,
)
    requires
        tracker.well_formed(capacity),
        tracker.saturated(),
        0 <= slot < capacity,
    ensures
        ({
            let after = tracker.after_gens(capacity, times);
            let start = tracker.target(capacity) as int;
            let hits = overwrites_of(start, slot, capacity as int, times.len());
            let stale = PingID { id: slot as u8, gen: tracker.slots[slot].1 };
            &&& after.well_formed(capacity)
            &&& after.saturated()
            &&& after.target(capacity) == (start + times.len()) % (capacity as int)
            &&& after.slots[slot].1 == generation_after(tracker.slots[slot].1, hits)
            &&& after.accepts(stale) <==> hits % 256 == 0
        }),
    decreases times.len(),
{
    if times.len() == 0 {
        let start = tracker.target(capacity) as int;
        assert(0 <= start < capacity) by (nonlinear_arith)
            requires
                start == (tracker.next_free_slot as int) % (capacity as int),
                capacity > 0,
        ;
        vstd::arithmetic::div_mod::lemma_small_mod(start as nat, capacity as nat);
        assert(tracker.slots[slot].0 is Sent);
    } else {
        let earlier = times.drop_last();
        lemma_sustained_overflow(tracker, capacity, earlier, slot);
        let before = tracker.after_gens(capacity, earlier);
        lemma_gen_keeps_well_formed(before, capacity, times.last());
        let start = tracker.target(capacity) as int;
        let count = earlier.len() as int;
        let target = before.target(capacity) as int;
        assert(before.slots[target].0 is Sent);
        assert((target + 1) % (capacity as int) == (start + count + 1) % (capacity as int)) by {
            vstd::arithmetic::div_mod::lemma_add_mod_noop(start + count, 1, capacity as int);
            vstd::arithmetic::div_mod::lemma_add_mod_noop(target, 1, capacity as int);
            vstd::arithmetic::div_mod::lemma_mod_twice(start + count, capacity as int);
        }
        let after = before.after_gen(capacity, times.last());
        assert(after.saturated()) by {
            assert forall|i: int| 0 <= i < after.slots.len() implies (#[trigger] after.slots[i]).0
                is Sent by {
                if i != target {
                    assert(before.slots[i].0 is Sent);
                }
            }
        }
    }
}

} // verus!
