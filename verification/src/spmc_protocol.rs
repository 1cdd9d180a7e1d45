//! The protocol of the single-producer ring, run by one thread at a time.
//!
//! [`FlagRing`] holds what the queue keeps in its atomics: the slots with
//! their validity flags, `head` and `tail`. Its `try_push` and `try_pop`
//! are the steps that [`crate::spmc_queue::SpmcQueue`] takes when no other
//! thread moves in between, and its `snapshot` is the walk from `head` to
//! `tail` that `serialize` makes. The lemmas show that the steps keep the
//! ring well-formed and make it a bounded first-in first-out queue, and the
//! laws at the end state what follows for whole runs.

use vstd::prelude::*;
use crate::ring::{
    ahead, lemma_ahead_distance, lemma_ahead_twice, lemma_ahead_zero, lemma_distance_ahead,
    lemma_slot_of_ahead, lemma_slot_of_lap, lemma_slots_differ, lemma_wrapping_add_is_ahead,
    slot_of, valid_capacity,
};
use crate::flag::{flag_pop_move_of, flag_push_move_of, FlagMove};
use crate::spmc_queue::window_of;

verus! {

/// One slot of the ring.
#[derive(Clone, Copy, Debug)]
pub struct FlaggedSlot {
    pub value: u64,
    pub valid: bool,
}

/// The shared state of the queue.
pub struct FlagRing {
    pub slots: Seq<FlaggedSlot>,
    pub head: usize,
    pub tail: usize,
}

impl FlagRing {
    /// The number of slots.
    pub open spec fn capacity(self) -> usize {
        self.slots.len() as usize
    }

    /// The ring that `init` leaves: every slot holding `default` and not
    /// valid, `head` and `tail` zero.
    pub open spec fn fresh(capacity: usize, default: u64) -> FlagRing {
        FlagRing {
            slots: Seq::new(capacity as nat, |i: int| FlaggedSlot { value: default, valid: false }),
            head: 0,
            tail: 0,
        }
    }

    /// The slot that lies `k` positions after `head`.
    pub open spec fn slot_ahead(self, k: int) -> FlaggedSlot {
        self.slots[slot_of(ahead(self.head, k), self.capacity())]
    }

    /// The number of values in the ring: the wrapping distance from `head`
    /// to `tail`.
    pub open spec fn len(self) -> int {
        self.tail.wrapping_sub(self.head) as int
    }

    /// The values in the ring, oldest first.
    pub open spec fn contents(self) -> Seq<u64> {
        Seq::new(self.len() as nat, |k: int| self.slot_ahead(k).value)
    }

    /// What a walk from `head` to `tail` collects.
    pub open spec fn snapshot(self) -> Seq<u64> {
        Seq::new(
            window_of(self.head, self.tail, self.capacity()) as nat,
            |k: int| self.slot_ahead(k).value,
        )
    }

    /// The state of a ring that no thread is in the middle of changing: it
    /// holds at most as many values as it has slots, and the slots from
    /// `head` up to `tail` are the valid ones.
    pub open spec fn wf(self) -> bool {
        &&& self.slots.len() <= usize::MAX
        &&& valid_capacity(self.capacity())
        &&& self.len() <= self.capacity()
        &&& forall|k: int|
            0 <= k < self.capacity() ==> (#[trigger] self.slot_ahead(k)).valid == (k < self.len())
    }

    /// The mask of the ring: its capacity less one.
    pub open spec fn mask(self) -> usize {
        (self.slots.len() - 1) as usize
    }

    /// A `try_push` that no other thread interferes with.
    pub open spec fn try_push(self, item: u64) -> (FlagRing, bool) {
        let seen = self.slots[slot_of(self.tail, self.capacity())].valid;
        match flag_push_move_of(self.tail, seen, self.mask()) {
            FlagMove::Proceed { index } => (
                FlagRing {
                    slots: self.slots.update(
                        index as int,
                        FlaggedSlot { value: item, valid: true },
                    ),
                    head: self.head,
                    tail: self.tail.wrapping_add(1),
                },
                true,
            ),
            FlagMove::GiveBack => (self, false),
        }
    }

    /// A `try_pop` that no other thread interferes with.
    pub open spec fn try_pop(self) -> (FlagRing, Option<u64>) {
        let seen = self.slots[slot_of(self.head, self.capacity())].valid;
        match flag_pop_move_of(self.head, seen, self.mask()) {
            FlagMove::Proceed { index } => (
                FlagRing {
                    slots: self.slots.update(
                        index as int,
                        FlaggedSlot { value: self.slots[index as int].value, valid: false },
                    ),
                    head: self.head.wrapping_add(1),
                    tail: self.tail,
                },
                Some(self.slots[index as int].value),
            ),
            FlagMove::GiveBack => (self, None),
        }
    }

    /// The ring after pushing `values` one after the other.
    pub open spec fn push_all(self, values: Seq<u64>) -> FlagRing
        decreases values.len(),
    {
        if values.len() == 0 {
            self
        } else {
            self.push_all(values.drop_last()).try_push(values.last()).0
        }
    }

    /// Whether every push of [`FlagRing::push_all`] succeeded.
    pub open spec fn all_pushed(self, values: Seq<u64>) -> bool
        decreases values.len(),
    {
        values.len() == 0 || (self.all_pushed(values.drop_last()) && self.push_all(
            values.drop_last(),
        ).try_push(values.last()).1)
    }

    /// The ring after `n` pops one after the other.
    pub open spec fn pop_many(self, n: nat) -> FlagRing
        decreases n,
    {
        if n == 0 {
            self
        } else {
            self.pop_many((n - 1) as nat).try_pop().0
        }
    }

    /// What the `n` pops of [`FlagRing::pop_many`] returned, in order.
    pub open spec fn popped(self, n: nat) -> Seq<Option<u64>>
        decreases n,
    {
        if n == 0 {
            Seq::empty()
        } else {
            self.popped((n - 1) as nat).push(self.pop_many((n - 1) as nat).try_pop().1)
        }
    }
}

/// A fresh ring is well-formed and empty.
pub proof fn lemma_fresh(capacity: usize, default: u64)
    requires
        valid_capacity(capacity),
    ensures
        FlagRing::fresh(capacity, default).wf(),
        FlagRing::fresh(capacity, default).capacity() == capacity,
        FlagRing::fresh(capacity, default).contents() == Seq::<u64>::empty(),
{
    let ring = FlagRing::fresh(capacity, default);
    assert(ring.len() == 0);
    assert forall|k: int| 0 <= k < ring.capacity() implies (#[trigger] ring.slot_ahead(k)).valid
        == (k < ring.len()) by {
        lemma_slot_of_ahead(0, k, capacity);
    }
    assert(ring.contents() =~= Seq::<u64>::empty());
}

/// A push into a ring with room appends the value; a push into a full ring
/// changes nothing.
pub proof fn lemma_try_push(ring: FlagRing, item: u64)
    requires
        ring.wf(),
    ensures
        ring.try_push(item).0.wf(),
        ring.try_push(item).0.capacity() == ring.capacity(),
        ring.try_push(item).1 == (ring.len() < ring.capacity()),
        ring.try_push(item).1 ==> ring.try_push(item).0.contents() == ring.contents().push(item),
        !ring.try_push(item).1 ==> ring.try_push(item).0 == ring,
{
    let n = ring.capacity();
    let head = ring.head;
    let len = ring.len();
    let after = ring.try_push(item).0;
    lemma_distance_ahead(head, ring.tail);
    assert(ring.tail == ahead(head, len));
    if len < n {
        assert(ring.slot_ahead(len).valid == (len < len));
        lemma_slot_of_ahead(head, len, n);
        lemma_wrapping_add_is_ahead(ring.tail, 1);
        lemma_ahead_twice(head, len, 1);
        lemma_ahead_distance(head, len + 1);
        assert(after.len() == len + 1);
        assert forall|k: int| 0 <= k < after.capacity() implies (#[trigger] after.slot_ahead(
            k,
        )).valid == (k < after.len()) by {
            lemma_slot_of_ahead(head, k, n);
            if k != len {
                lemma_slots_differ(head, k, len, n);
                assert(after.slot_ahead(k) == ring.slot_ahead(k));
            }
        }
        assert forall|k: int| 0 <= k < len + 1 implies (#[trigger] after.slot_ahead(k)).value
            == ring.contents().push(item)[k] by {
            lemma_slot_of_ahead(head, k, n);
            if k != len {
                lemma_slots_differ(head, k, len, n);
                assert(after.slot_ahead(k) == ring.slot_ahead(k));
            }
        }
        assert(after.contents() =~= ring.contents().push(item));
    } else {
        assert(ring.slot_ahead(0).valid == (0 < len));
        lemma_ahead_zero(head);
        lemma_slot_of_lap(head, n);
    }
}

/// A pop from a ring that holds values takes the oldest one out; a pop from
/// an empty ring changes nothing.
pub proof fn lemma_try_pop(ring: FlagRing)
    requires
        ring.wf(),
    ensures
        ring.try_pop().0.wf(),
        ring.try_pop().0.capacity() == ring.capacity(),
        ring.try_pop().1 == (if ring.len() > 0 {
            Some(ring.contents()[0])
        } else {
            None
        }),
        ring.len() > 0 ==> ring.try_pop().0.contents() == ring.contents().drop_first(),
        ring.len() == 0 ==> ring.try_pop().0 == ring,
{
    let n = ring.capacity();
    let head = ring.head;
    let len = ring.len();
    let after = ring.try_pop().0;
    lemma_distance_ahead(head, ring.tail);
    lemma_ahead_zero(head);
    lemma_wrapping_add_is_ahead(head, 1);
    assert(ring.slot_ahead(0).valid == (0 < len));
    if len > 0 {
        let next = ahead(head, 1);
        lemma_ahead_twice(head, 1, len - 1);
        lemma_ahead_distance(next, len - 1);
        assert(after.len() == len - 1);
        assert forall|k: int| 0 <= k < after.capacity() implies (#[trigger] after.slot_ahead(
            k,
        )).valid == (k < after.len()) by {
            lemma_ahead_twice(head, 1, k);
            if k + 1 < n {
                lemma_slots_differ(head, k + 1, 0, n);
                assert(after.slot_ahead(k) == ring.slot_ahead(k + 1));
                assert(ring.slot_ahead(k + 1).valid == (k + 1 < len));
            } else {
                lemma_slot_of_lap(head, n);
            }
        }
        assert forall|k: int| 0 <= k < len - 1 implies (#[trigger] after.slot_ahead(k)).value
            == ring.contents().drop_first()[k] by {
            lemma_ahead_twice(head, 1, k);
            lemma_slots_differ(head, k + 1, 0, n);
            assert(after.slot_ahead(k) == ring.slot_ahead(k + 1));
        }
        assert(after.contents() =~= ring.contents().drop_first());
    }
}

/// Pushing values into a ring that has room for all of them succeeds every
/// time and appends them in order.
pub proof fn lemma_push_all(ring: FlagRing, values: Seq<u64>)
    requires
        ring.wf(),
        ring.len() + values.len() <= ring.capacity(),
    ensures
        ring.all_pushed(values),
        ring.push_all(values).wf(),
        ring.push_all(values).capacity() == ring.capacity(),
        ring.push_all(values).contents() == ring.contents() + values,
    decreases values.len(),
{
    if values.len() == 0 {
        assert(ring.contents() + values =~= ring.contents());
    } else {
        let before = ring.push_all(values.drop_last());
        lemma_push_all(ring, values.drop_last());
        lemma_try_push(before, values.last());
        assert((ring.contents() + values.drop_last()).push(values.last()) =~= ring.contents()
            + values);
    }
}

/// Popping no more values than the ring holds succeeds every time and
/// returns them oldest first.
pub proof fn lemma_pop_many(ring: FlagRing, n: nat)
    requires
        ring.wf(),
        n <= ring.len(),
    ensures
        ring.pop_many(n).wf(),
        ring.pop_many(n).capacity() == ring.capacity(),
        ring.pop_many(n).contents() == ring.contents().skip(n as int),
        ring.popped(n).len() == n,
        forall|i: int| 0 <= i < n ==> ring.popped(n)[i] == Some(ring.contents()[i]),
    decreases n,
{
    if n == 0 {
        assert(ring.contents().skip(0) =~= ring.contents());
    } else {
        let before = ring.pop_many((n - 1) as nat);
        lemma_pop_many(ring, (n - 1) as nat);
        lemma_try_pop(before);
        assert(before.contents().drop_first() =~= ring.contents().skip(n as int));
    }
}

/// The walk from `head` to `tail` of a ring that no thread is changing
/// collects the values in the ring, oldest first.
pub proof fn lemma_snapshot(ring: FlagRing)
    requires
        ring.wf(),
    ensures
        ring.snapshot() == ring.contents(),
{
    assert(ring.snapshot() =~= ring.contents());
}

/// First in, first out: for every valid capacity, the values that the
/// producer pushes into a new queue, as many as fit, all go in, and as many
/// pops return exactly these values in the order in which they were pushed
/// and leave the queue empty.
pub proof fn law_push_then_pop_in_order(capacity: usize, default: u64, values: Seq<u64>)
    requires
        valid_capacity(capacity),
        values.len() <= capacity,
    ensures
        FlagRing::fresh(capacity, default).all_pushed(values),
        FlagRing::fresh(capacity, default).push_all(values).popped(values.len()).len()
            == values.len(),
        forall|i: int|
            0 <= i < values.len() ==> FlagRing::fresh(capacity, default).push_all(values).popped(
                values.len(),
            )[i] == Some(values[i]),
        FlagRing::fresh(capacity, default).push_all(values).pop_many(values.len()).contents()
            == Seq::<u64>::empty(),
{
    let ring = FlagRing::fresh(capacity, default);
    lemma_fresh(capacity, default);
    lemma_push_all(ring, values);
    let full = ring.push_all(values);
    assert(full.contents() =~= values);
    lemma_pop_many(full, values.len());
    assert(full.contents().skip(values.len() as int) =~= Seq::<u64>::empty());
}

/// Capacity: a new queue of `capacity` slots takes exactly `capacity`
/// pushes in a row. The next push fails and leaves the queue as it is;
/// after one pop, which returns the first value pushed, one more push
/// succeeds.
pub proof fn law_capacity_is_exact(
    capacity: usize,
    default: u64,
    values: Seq<u64>,
    refused: u64,
    late: u64,
)
    requires
        valid_capacity(capacity),
        values.len() == capacity,
    ensures
        FlagRing::fresh(capacity, default).all_pushed(values),
        !FlagRing::fresh(capacity, default).push_all(values).try_push(refused).1,
        FlagRing::fresh(capacity, default).push_all(values).try_push(refused).0
            == FlagRing::fresh(capacity, default).push_all(values),
        FlagRing::fresh(capacity, default).push_all(values).try_pop().1 == Some(values[0]),
        FlagRing::fresh(capacity, default).push_all(values).try_pop().0.try_push(late).1,
{
    let ring = FlagRing::fresh(capacity, default);
    lemma_fresh(capacity, default);
    lemma_push_all(ring, values);
    let full = ring.push_all(values);
    assert(full.contents() =~= values);
    assert(full.len() == capacity);
    lemma_try_push(full, refused);
    lemma_try_pop(full);
    lemma_try_push(full.try_pop().0, late);
}

/// Round trip: a walk from `head` to `tail`, made while nothing changes the
/// queue, returns the values in the queue in the order in which they were
/// pushed. After the producer has pushed `values` into a new queue, as many
/// as fit, the walk returns `values`; after `n` of them have been popped,
/// it returns the rest.
pub proof fn law_snapshot_is_push_order(capacity: usize, default: u64, values: Seq<u64>)
    requires
        valid_capacity(capacity),
        values.len() <= capacity,
    ensures
        FlagRing::fresh(capacity, default).push_all(values).snapshot() == values,
        forall|n: nat|
            n <= values.len() ==> #[trigger] FlagRing::fresh(capacity, default).push_all(
                values,
            ).pop_many(n).snapshot() == values.skip(n as int),
{
    let ring = FlagRing::fresh(capacity, default);
    lemma_fresh(capacity, default);
    lemma_push_all(ring, values);
    let full = ring.push_all(values);
    assert(full.contents() =~= values);
    lemma_snapshot(full);
    assert forall|n: nat| n <= values.len() implies #[trigger] full.pop_many(n).snapshot()
        == values.skip(n as int) by {
        lemma_pop_many(full, n);
        lemma_snapshot(full.pop_many(n));
    }
}

} // verus!
