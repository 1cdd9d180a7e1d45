//! The protocol of the multi-producer ring, run by one thread at a time.
//!
//! [`RingModel`] holds what the queue keeps in its atomics: the slots with
//! their sequence counters and the two positions. Its `try_push` and
//! `try_pop` are the steps that [`crate::mpmc_queue::MpmcQueue`] takes when
//! no other thread moves in between, decided by the same
//! [`push_move_of`] and [`pop_move_of`]. The lemmas show that these steps keep the ring
//! well-formed and make it a bounded first-in first-out queue, and the laws
//! at the end state what follows for whole runs.

use vstd::prelude::*;
use crate::ring::{
    ahead, lemma_ahead_distance, lemma_ahead_twice, lemma_ahead_zero, lemma_distance_ahead,
    lemma_slot_of_ahead, lemma_slot_of_lap, lemma_slots_differ, lemma_wrapping_add_is_ahead,
    slot_of, valid_capacity,
};
use crate::sequence::{lemma_lap_difference, pop_move_of, push_move_of, PopMove, PushMove};

verus! {

/// One slot of the ring.
#[derive(Clone, Copy, Debug)]
pub struct SlotModel {
    pub sequence: usize,
    pub value: u64,
}

/// The shared state of the queue.
pub struct RingModel {
    pub slots: Seq<SlotModel>,
    pub enqueue_pos: usize,
    pub dequeue_pos: usize,
}

impl RingModel {
    /// The number of slots.
    pub open spec fn capacity(self) -> usize {
        self.slots.len() as usize
    }

    /// The ring that construction leaves: every slot writable for the
    /// position of its index and holding `default`, both positions zero.
    pub open spec fn fresh(capacity: usize, default: u64) -> RingModel {
        RingModel {
            slots: Seq::new(
                capacity as nat,
                |i: int| SlotModel { sequence: i as usize, value: default },
            ),
            enqueue_pos: 0,
            dequeue_pos: 0,
        }
    }

    /// The slot that lies `k` positions after the read position.
    pub open spec fn slot_ahead(self, k: int) -> SlotModel {
        self.slots[slot_of(ahead(self.dequeue_pos, k), self.capacity())]
    }

    /// The number of values in the ring: the wrapping distance from the
    /// read position to the write position.
    pub open spec fn len(self) -> int {
        self.enqueue_pos.wrapping_sub(self.dequeue_pos) as int
    }

    /// The values in the ring, oldest first.
    pub open spec fn contents(self) -> Seq<u64> {
        Seq::new(self.len() as nat, |k: int| self.slot_ahead(k).value)
    }

    /// The counter that the slot `k` positions after the read position
    /// carries: readable while a value is in it, writable otherwise.
    pub open spec fn sequence_ahead(self, k: int) -> usize {
        if k < self.len() {
            ahead(self.dequeue_pos, k + 1)
        } else {
            ahead(self.dequeue_pos, k)
        }
    }

    /// The state of a ring that no thread is in the middle of changing: it
    /// holds at most as many values as it has slots, and every slot carries
    /// the counter that its place after the read position asks for.
    pub open spec fn wf(self) -> bool {
        &&& self.slots.len() <= usize::MAX
        &&& valid_capacity(self.capacity())
        &&& self.len() <= self.capacity()
        &&& forall|k: int|
            0 <= k < self.capacity() ==> (#[trigger] self.slot_ahead(k)).sequence
                == self.sequence_ahead(k)
    }

    /// A `try_push` that no other thread interferes with.
    pub open spec fn try_push(self, data: u64) -> (RingModel, bool) {
        let pos = self.enqueue_pos;
        let index = slot_of(pos, self.capacity());
        match push_move_of(self.slots[index].sequence, pos) {
            PushMove::Claim { next } => (
                RingModel {
                    slots: self.slots.update(index, SlotModel { sequence: next, value: data }),
                    enqueue_pos: next,
                    dequeue_pos: self.dequeue_pos,
                },
                true,
            ),
            _ => (self, false),
        }
    }

    /// The mask of the ring: its capacity less one.
    pub open spec fn mask(self) -> usize {
        (self.slots.len() - 1) as usize
    }

    /// A `try_pop` that no other thread interferes with.
    pub open spec fn try_pop(self) -> (RingModel, Option<u64>) {
        let pos = self.dequeue_pos;
        let index = slot_of(pos, self.capacity());
        match pop_move_of(self.slots[index].sequence, pos, self.mask()) {
            PopMove::Claim { next, recycle } => (
                RingModel {
                    slots: self.slots.update(
                        index,
                        SlotModel { sequence: recycle, value: self.slots[index].value },
                    ),
                    enqueue_pos: self.enqueue_pos,
                    dequeue_pos: next,
                },
                Some(self.slots[index].value),
            ),
            _ => (self, None),
        }
    }

    /// The ring after pushing `values` one after the other.
    pub open spec fn push_all(self, values: Seq<u64>) -> RingModel
        decreases values.len(),
    {
        if values.len() == 0 {
            self
        } else {
            self.push_all(values.drop_last()).try_push(values.last()).0
        }
    }

    /// Whether every push of [`RingModel::push_all`] succeeded.
    pub open spec fn all_pushed(self, values: Seq<u64>) -> bool
        decreases values.len(),
    {
        values.len() == 0 || (self.all_pushed(values.drop_last()) && self.push_all(
            values.drop_last(),
        ).try_push(values.last()).1)
    }

    /// The ring after `n` pops one after the other.
    pub open spec fn pop_many(self, n: nat) -> RingModel
        decreases n,
    {
        if n == 0 {
            self
        } else {
            self.pop_many((n - 1) as nat).try_pop().0
        }
    }

    /// What the `n` pops of [`RingModel::pop_many`] returned, in order.
    pub open spec fn popped(self, n: nat) -> Seq<Option<u64>>
        decreases n,
    {
        if n == 0 {
            Seq::empty()
        } else {
            self.popped((n - 1) as nat).push(self.pop_many((n - 1) as nat).try_pop().1)
        }
    }
}

/// A fresh ring is well-formed and empty.
pub proof fn lemma_fresh(capacity: usize, default: u64)
    requires
        valid_capacity(capacity),
    ensures
        RingModel::fresh(capacity, default).wf(),
        RingModel::fresh(capacity, default).capacity() == capacity,
        RingModel::fresh(capacity, default).contents() == Seq::<u64>::empty(),
{
    let ring = RingModel::fresh(capacity, default);
    assert(ring.len() == 0);
    assert forall|k: int| 0 <= k < ring.capacity() implies (#[trigger] ring.slot_ahead(k)).sequence
        == ring.sequence_ahead(k) by {
        vstd::arithmetic::div_mod::lemma_small_mod(k as nat, (usize::MAX + 1) as nat);
        vstd::arithmetic::div_mod::lemma_small_mod(k as nat, capacity as nat);
    }
    assert(ring.contents() =~= Seq::<u64>::empty());
}

/// A push into a ring with room appends the value; a push into a full ring
/// changes nothing.
pub proof fn lemma_try_push(ring: RingModel, data: u64)
    requires
        ring.wf(),
    ensures
        ring.try_push(data).0.wf(),
        ring.try_push(data).0.capacity() == ring.capacity(),
        ring.try_push(data).1 == (ring.len() < ring.capacity()),
        ring.try_push(data).1 ==> ring.try_push(data).0.contents() == ring.contents().push(data),
        !ring.try_push(data).1 ==> ring.try_push(data).0 == ring,
{
    let n = ring.capacity();
    let deq = ring.dequeue_pos;
    let enq = ring.enqueue_pos;
    let len = ring.len();
    let after = ring.try_push(data).0;
    lemma_distance_ahead(deq, enq);
    assert(enq == ahead(deq, len));
    if len < n {
        assert(ring.slot_ahead(len).sequence == ring.sequence_ahead(len));
        lemma_lap_difference(deq, len, len);
        lemma_slot_of_ahead(deq, len, n);
        lemma_wrapping_add_is_ahead(enq, 1);
        lemma_ahead_twice(deq, len, 1);
        lemma_ahead_distance(deq, len + 1);
        assert(after.len() == len + 1);
        assert forall|k: int| 0 <= k < after.capacity() implies (#[trigger] after.slot_ahead(
            k,
        )).sequence == after.sequence_ahead(k) by {
            lemma_slot_of_ahead(deq, k, n);
            if k != len {
                lemma_slots_differ(deq, k, len, n);
                assert(after.slot_ahead(k) == ring.slot_ahead(k));
            }
        }
        assert forall|k: int| 0 <= k < len + 1 implies (#[trigger] after.slot_ahead(k)).value
            == ring.contents().push(data)[k] by {
            lemma_slot_of_ahead(deq, k, n);
            if k != len {
                lemma_slots_differ(deq, k, len, n);
                assert(after.slot_ahead(k) == ring.slot_ahead(k));
            }
        }
        assert(after.contents() =~= ring.contents().push(data));
    } else {
        assert(ring.slot_ahead(0).sequence == ring.sequence_ahead(0));
        lemma_ahead_zero(deq);
        lemma_slot_of_lap(deq, n);
        lemma_lap_difference(deq, 1, n as int);
    }
}

/// A pop from a ring that holds values takes the oldest one out; a pop from
/// an empty ring changes nothing.
pub proof fn lemma_try_pop(ring: RingModel)
    requires
        ring.wf(),
    ensures
        ring.try_pop().0.wf(),
        ring.try_pop().0.capacity() == ring.capacity(),
        ring.try_pop().1 == (if ring.len() > 0 {
            Some(ring.contents()[0])
        } else {
            None
        }),
        ring.len() > 0 ==> ring.try_pop().0.contents() == ring.contents().drop_first(),
        ring.len() == 0 ==> ring.try_pop().0 == ring,
{
    let n = ring.capacity();
    let deq = ring.dequeue_pos;
    let enq = ring.enqueue_pos;
    let len = ring.len();
    let after = ring.try_pop().0;
    lemma_distance_ahead(deq, enq);
    lemma_ahead_zero(deq);
    lemma_wrapping_add_is_ahead(deq, 1);
    assert(ring.slot_ahead(0).sequence == ring.sequence_ahead(0));
    if len > 0 {
        let next = ahead(deq, 1);
        lemma_lap_difference(deq, 1, 1);
        lemma_wrapping_add_is_ahead(deq, n);
        lemma_ahead_twice(deq, 1, len - 1);
        lemma_ahead_distance(next, len - 1);
        assert(after.len() == len - 1);
        assert forall|k: int| 0 <= k < after.capacity() implies (#[trigger] after.slot_ahead(
            k,
        )).sequence == after.sequence_ahead(k) by {
            lemma_ahead_twice(deq, 1, k);
            lemma_ahead_twice(deq, 1, k + 1);
            if k + 1 < n {
                lemma_slots_differ(deq, k + 1, 0, n);
                assert(after.slot_ahead(k) == ring.slot_ahead(k + 1));
                assert(ring.slot_ahead(k + 1).sequence == ring.sequence_ahead(k + 1));
            } else {
                lemma_slot_of_lap(deq, n);
            }
        }
        assert forall|k: int| 0 <= k < len - 1 implies (#[trigger] after.slot_ahead(k)).value
            == ring.contents().drop_first()[k] by {
            lemma_ahead_twice(deq, 1, k);
            lemma_slots_differ(deq, k + 1, 0, n);
            assert(after.slot_ahead(k) == ring.slot_ahead(k + 1));
        }
        assert(after.contents() =~= ring.contents().drop_first());
    } else {
        lemma_lap_difference(deq, 0, 1);
    }
}

/// Pushing values into a ring that has room for all of them succeeds every
/// time and appends them in order.
pub proof fn lemma_push_all(ring: RingModel, values: Seq<u64>)
    requires
        ring.wf(),
        ring.len() + values.len() <= ring.capacity(),
    ensures
        ring.all_pushed(values),
        ring.push_all(values).wf(),
        ring.push_all(values).capacity() == ring.capacity(),
        ring.push_all(values).contents() == ring.contents() + values,
    decreases values.len(),
{
    if values.len() == 0 {
        assert(ring.contents() + values =~= ring.contents());
    } else {
        let before = ring.push_all(values.drop_last());
        lemma_push_all(ring, values.drop_last());
        lemma_try_push(before, values.last());
        assert((ring.contents() + values.drop_last()).push(values.last()) =~= ring.contents()
            + values);
    }
}

/// Popping no more values than the ring holds succeeds every time and
/// returns them oldest first.
pub proof fn lemma_pop_many(ring: RingModel, n: nat)
    requires
        ring.wf(),
        n <= ring.len(),
    ensures
        ring.pop_many(n).wf(),
        ring.pop_many(n).capacity() == ring.capacity(),
        ring.pop_many(n).contents() == ring.contents().skip(n as int),
        ring.popped(n).len() == n,
        forall|i: int| 0 <= i < n ==> ring.popped(n)[i] == Some(ring.contents()[i]),
    decreases n,
{
    if n == 0 {
        assert(ring.contents().skip(0) =~= ring.contents());
    } else {
        let before = ring.pop_many((n - 1) as nat);
        lemma_pop_many(ring, (n - 1) as nat);
        lemma_try_pop(before);
        assert(before.contents().drop_first() =~= ring.contents().skip(n as int));
    }
}

/// First in, first out: for every valid capacity, the values that one
/// thread pushes into a new queue, as many as fit, all go in, and as many
/// pops return exactly these values in the order in which they were pushed
/// and leave the queue empty.
pub proof fn law_push_then_pop_in_order(capacity: usize, default: u64, values: Seq<u64>)
    requires
        valid_capacity(capacity),
        values.len() <= capacity,
    ensures
        RingModel::fresh(capacity, default).all_pushed(values),
        RingModel::fresh(capacity, default).push_all(values).popped(values.len()).len()
            == values.len(),
        forall|i: int|
            0 <= i < values.len() ==> RingModel::fresh(capacity, default).push_all(values).popped(
                values.len(),
            )[i] == Some(values[i]),
        RingModel::fresh(capacity, default).push_all(values).pop_many(values.len()).contents()
            == Seq::<u64>::empty(),
{
    let ring = RingModel::fresh(capacity, default);
    lemma_fresh(capacity, default);
    lemma_push_all(ring, values);
    let full = ring.push_all(values);
    assert(full.contents() =~= values);
    lemma_pop_many(full, values.len());
    assert(full.contents().skip(values.len() as int) =~= Seq::<u64>::empty());
}

/// Capacity: a new queue of `capacity` slots takes exactly `capacity`
/// pushes in a row. The next push fails and leaves the queue as it is;
/// after one pop, which returns the first value pushed, one more push
/// succeeds.
pub proof fn law_capacity_is_exact(
    capacity: usize,
    default: u64,
    values: Seq<u64>,
    refused: u64,
    late: u64,
)
    requires
        valid_capacity(capacity),
        values.len() == capacity,
    ensures
        RingModel::fresh(capacity, default).all_pushed(values),
        !RingModel::fresh(capacity, default).push_all(values).try_push(refused).1,
        RingModel::fresh(capacity, default).push_all(values).try_push(refused).0
            == RingModel::fresh(capacity, default).push_all(values),
        RingModel::fresh(capacity, default).push_all(values).try_pop().1 == Some(values[0]),
        RingModel::fresh(capacity, default).push_all(values).try_pop().0.try_push(late).1,
{
    let ring = RingModel::fresh(capacity, default);
    lemma_fresh(capacity, default);
    lemma_push_all(ring, values);
    let full = ring.push_all(values);
    assert(full.contents() =~= values);
    assert(full.len() == capacity);
    lemma_try_push(full, refused);
    lemma_try_pop(full);
    lemma_try_push(full.try_pop().0, late);
}

} // verus!
