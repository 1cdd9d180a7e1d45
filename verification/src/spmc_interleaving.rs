//! The protocol of the single-producer ring, for any order in which the
//! threads take their steps.
//!
//! [`Floor`] holds what the queue keeps in its atomics, where the producer
//! and every consumer stand in their `try_push` or `try_pop`, and, for the
//! proof only, what was pushed and what was popped. A step is one atomic
//! operation of one thread, as `SpmcQueue::enqueue` and `SpmcQueue::dequeue`
//! make them:
//!
//! | step            | in the queue                                           |
//! |-----------------|--------------------------------------------------------|
//! | `ReservePush`   | the producer adds one to `tail`                        |
//! | `CheckPush`     | the producer reads the flag of the reserved slot       |
//! | `RollbackPush`  | the producer takes one from `tail` again               |
//! | `Write`         | the producer stores the value into the slot            |
//! | `Validate`      | the producer sets the flag of the slot                 |
//! | `ReservePop`    | a consumer adds one to `head`                          |
//! | `CheckPop`      | the consumer reads the flag of the reserved slot       |
//! | `RollbackPop`   | the consumer takes one from `head` again               |
//! | `Take`          | the consumer loads the value from the slot             |
//! | `Clear`         | the consumer clears the flag of the slot               |
//!
//! With one consumer the ring is a first-in first-out queue in every
//! interleaving ([`law_one_consumer_pops_in_push_order`]). With two it is
//! not: a consumer that gives its reservation back after another consumer
//! has gone past it leaves a value behind `head`, after which neither a pop
//! nor, once the ring has filled up, a push succeeds
//! ([`law_two_consumers_strand_a_value`]).
//!
//! Positions are counted here as natural numbers, as in
//! [`crate::mpmc_interleaving`].

use vstd::prelude::*;
use vstd::arithmetic::div_mod::lemma_mod_bound;
use crate::mpmc_interleaving::{lemma_lap_same_slot, lemma_same_slot_same_position};

verus! {

/// One slot of the ring.
pub struct Flagged {
    pub value: u64,
    pub valid: bool,
}

/// Where the producer stands in a `try_push`.
pub enum Pusher {
    /// Not in a call.
    Idle,
    /// Has reserved position `pos` for `value`.
    Reserved { value: u64, pos: nat },
    /// Has found the slot of `pos` taken.
    Refused { value: u64, pos: nat },
    /// Has found the slot of `pos` free.
    Free { value: u64, pos: nat },
    /// Has stored the value into the slot of `pos`.
    Written { value: u64, pos: nat },
}

/// Where a consumer stands in a `try_pop`.
pub enum Popper {
    /// Not in a call.
    Idle,
    /// Has reserved position `pos`.
    Reserved { pos: nat },
    /// Has found the slot of `pos` without a value.
    Empty { pos: nat },
    /// Has found a value in the slot of `pos`.
    Found { pos: nat },
    /// Has loaded `data` from the slot of `pos`.
    Holding { pos: nat, data: u64 },
}

/// One atomic step of one thread. The number is the consumer's.
pub enum Move {
    ReservePush(u64),
    CheckPush,
    RollbackPush,
    Write,
    Validate,
    ReservePop(nat),
    CheckPop(nat),
    RollbackPop(nat),
    Take(nat),
    Clear(nat),
}

/// The queue and the threads around it.
pub struct Floor {
    /// The slots of the ring.
    pub slots: Seq<Flagged>,
    /// The next position to read.
    pub head: nat,
    /// The next position to write.
    pub tail: nat,
    /// Where the producer stands.
    pub producer: Pusher,
    /// Where the consumers stand; a consumer that is not in the map is
    /// idle.
    pub consumers: Map<nat, Popper>,
    /// The values pushed so far, in the order in which their pushes
    /// completed.
    pub pushed: Seq<u64>,
    /// The values popped so far, in the order in which their pops
    /// completed.
    pub popped: Seq<u64>,
}

impl Floor {
    /// The number of slots.
    pub open spec fn capacity(self) -> nat {
        self.slots.len()
    }

    /// The slot of position `pos`.
    pub open spec fn slot(self, pos: nat) -> int {
        (pos as int) % (self.slots.len() as int)
    }

    /// Where consumer `t` stands.
    pub open spec fn consumer(self, t: nat) -> Popper {
        if self.consumers.dom().contains(t) {
            self.consumers[t]
        } else {
            Popper::Idle
        }
    }

    /// The queue as `init` leaves it, with every thread idle.
    pub open spec fn initial(capacity: nat, default: u64) -> Floor {
        Floor {
            slots: Seq::new(capacity, |i: int| Flagged { value: default, valid: false }),
            head: 0,
            tail: 0,
            producer: Pusher::Idle,
            consumers: Map::empty(),
            pushed: Seq::empty(),
            popped: Seq::empty(),
        }
    }

    /// Whether a thread can take `step` in this state.
    pub open spec fn enabled(self, step: Move) -> bool {
        match step {
            Move::ReservePush(value) => self.producer is Idle,
            Move::CheckPush => self.producer is Reserved,
            Move::RollbackPush => self.producer is Refused,
            Move::Write => self.producer is Free,
            Move::Validate => self.producer is Written,
            Move::ReservePop(t) => self.consumer(t) is Idle,
            Move::CheckPop(t) => self.consumer(t) is Reserved,
            Move::RollbackPop(t) => self.consumer(t) is Empty,
            Move::Take(t) => self.consumer(t) is Found,
            Move::Clear(t) => self.consumer(t) is Holding,
        }
    }

    /// The state with consumer `t` moved to `to`.
    pub open spec fn with_consumer(self, t: nat, to: Popper) -> Floor {
        Floor { consumers: self.consumers.insert(t, to), ..self }
    }

    /// The state after `step`.
    pub open spec fn next(self, step: Move) -> Floor {
        match step {
            Move::ReservePush(value) => Floor {
                tail: self.tail + 1,
                producer: Pusher::Reserved { value, pos: self.tail },
                ..self
            },
            Move::CheckPush => match self.producer {
                Pusher::Reserved { value, pos } => if self.slots[self.slot(pos)].valid {
                    Floor { producer: Pusher::Refused { value, pos }, ..self }
                } else {
                    Floor { producer: Pusher::Free { value, pos }, ..self }
                },
                _ => self,
            },
            Move::RollbackPush => Floor {
                tail: (self.tail - 1) as nat,
                producer: Pusher::Idle,
                ..self
            },
            Move::Write => match self.producer {
                Pusher::Free { value, pos } => Floor {
                    slots: self.slots.update(
                        self.slot(pos),
                        Flagged { value, valid: self.slots[self.slot(pos)].valid },
                    ),
                    producer: Pusher::Written { value, pos },
                    ..self
                },
                _ => self,
            },
            Move::Validate => match self.producer {
                Pusher::Written { value, pos } => Floor {
                    slots: self.slots.update(
                        self.slot(pos),
                        Flagged { value: self.slots[self.slot(pos)].value, valid: true },
                    ),
                    producer: Pusher::Idle,
                    pushed: self.pushed.push(value),
                    ..self
                },
                _ => self,
            },
            Move::ReservePop(t) => Floor {
                head: self.head + 1,
                ..self.with_consumer(t, Popper::Reserved { pos: self.head })
            },
            Move::CheckPop(t) => match self.consumer(t) {
                Popper::Reserved { pos } => if self.slots[self.slot(pos)].valid {
                    self.with_consumer(t, Popper::Found { pos })
                } else {
                    self.with_consumer(t, Popper::Empty { pos })
                },
                _ => self,
            },
            Move::RollbackPop(t) => Floor {
                head: (self.head - 1) as nat,
                ..self.with_consumer(t, Popper::Idle)
            },
            Move::Take(t) => match self.consumer(t) {
                Popper::Found { pos } => self.with_consumer(
                    t,
                    Popper::Holding { pos, data: self.slots[self.slot(pos)].value },
                ),
                _ => self,
            },
            Move::Clear(t) => match self.consumer(t) {
                Popper::Holding { pos, data } => Floor {
                    slots: self.slots.update(
                        self.slot(pos),
                        Flagged { value: self.slots[self.slot(pos)].value, valid: false },
                    ),
                    popped: self.popped.push(data),
                    ..self.with_consumer(t, Popper::Idle)
                },
                _ => self,
            },
        }
    }

    /// Whether the steps can be taken one after the other from this state.
    pub open spec fn feasible(self, steps: Seq<Move>) -> bool
        decreases steps.len(),
    {
        steps.len() == 0 || (self.feasible(steps.drop_last()) && self.run(
            steps.drop_last(),
        ).enabled(steps.last()))
    }

    /// The state after the steps.
    pub open spec fn run(self, steps: Seq<Move>) -> Floor
        decreases steps.len(),
    {
        if steps.len() == 0 {
            self
        } else {
            self.run(steps.drop_last()).next(steps.last())
        }
    }

    /// Whether `step` is the producer's or consumer `c`'s.
    pub open spec fn is_move_of(step: Move, c: nat) -> bool {
        match step {
            Move::ReservePop(t) => t == c,
            Move::CheckPop(t) => t == c,
            Move::RollbackPop(t) => t == c,
            Move::Take(t) => t == c,
            Move::Clear(t) => t == c,
            _ => true,
        }
    }

    /// The position up to which values are in the ring: the one the
    /// producer is at work on, or `tail` when it is idle.
    pub open spec fn write_front(self) -> nat {
        match self.producer {
            Pusher::Idle => self.tail,
            Pusher::Reserved { pos, .. } => pos,
            Pusher::Refused { pos, .. } => pos,
            Pusher::Free { pos, .. } => pos,
            Pusher::Written { pos, .. } => pos,
        }
    }

    /// The position from which values are in the ring, for consumer `c`
    /// working alone: the one it is at work on, or `head` when it is idle.
    pub open spec fn read_front(self, c: nat) -> nat {
        match self.consumer(c) {
            Popper::Idle => self.head,
            Popper::Reserved { pos } => pos,
            Popper::Empty { pos } => pos,
            Popper::Found { pos } => pos,
            Popper::Holding { pos, .. } => pos,
        }
    }

    /// The slot that lies `k` positions after the read front of consumer
    /// `c`.
    pub open spec fn cell_ahead(self, c: nat, k: int) -> Flagged {
        self.slots[self.slot((self.read_front(c) + k) as nat)]
    }

    /// What holds in every state that the queue can reach when `c` is the
    /// only consumer: the slots from the read front up to the write front
    /// are the valid ones and hold the values pushed for them, and what was
    /// popped is what was pushed for the positions below the read front.
    pub open spec fn inv(self, c: nat) -> bool {
        let low = self.read_front(c);
        let high = self.write_front();
        &&& self.capacity() >= 2
        &&& forall|t: nat| t != c ==> #[trigger] self.consumer(t) is Idle
        &&& self.tail == (if self.producer is Idle {
            high
        } else {
            high + 1
        })
        &&& self.head == (if self.consumer(c) is Idle {
            low
        } else {
            low + 1
        })
        &&& low <= high <= low + self.capacity()
        &&& self.pushed.len() == high
        &&& self.popped == self.pushed.take(low as int)
        &&& forall|k: int|
            0 <= k < self.capacity() ==> (#[trigger] self.cell_ahead(c, k)).valid == (low + k
                < high)
        &&& forall|k: int|
            0 <= k < high - low ==> (#[trigger] self.cell_ahead(c, k)).value == self.pushed[low
                + k]
        &&& (self.producer is Free || self.producer is Written) ==> high < low + self.capacity()
        &&& self.producer matches Pusher::Written { value, pos } ==> self.slots[self.slot(
            pos,
        )].value == value
        &&& (self.consumer(c) is Found || self.consumer(c) is Holding) ==> low < high
        &&& self.consumer(c) matches Popper::Holding { pos, data } ==> data == self.pushed[pos as int]
    }
}

/// The first state satisfies the invariant.
pub proof fn lemma_initial_inv(capacity: nat, default: u64, c: nat)
    requires
        capacity >= 2,
    ensures
        Floor::initial(capacity, default).inv(c),
{
    let w = Floor::initial(capacity, default);
    assert(w.popped =~= w.pushed.take(0));
    assert forall|k: int| 0 <= k < w.capacity() implies (#[trigger] w.cell_ahead(c, k)).valid == (
    w.read_front(c) + k < w.write_front()) by {
        lemma_mod_bound(k, capacity as int);
    }
}

/// Every step of the producer or of the one consumer keeps the invariant.
pub proof fn lemma_step_keeps_inv(w: Floor, c: nat, step: Move)
    requires
        w.inv(c),
        w.enabled(step),
        Floor::is_move_of(step, c),
    ensures
        w.next(step).inv(c),
{
    let after = w.next(step);
    let n = w.capacity() as int;
    let low = w.read_front(c);
    let high = w.write_front();
    assert(forall|t: nat| t != c ==> #[trigger] after.consumer(t) == w.consumer(t));
    match step {
        Move::ReservePush(value) => {
            assert forall|k: int| 0 <= k < n implies (#[trigger] after.cell_ahead(c, k)).valid == (
            low + k < high) by {
                assert(w.cell_ahead(c, k).valid == (low + k < high));
            }
            assert forall|k: int| 0 <= k < high - low implies (#[trigger] after.cell_ahead(
                c,
                k,
            )).value == after.pushed[low + k] by {
                assert(w.cell_ahead(c, k).value == w.pushed[low + k]);
            }
        },
        Move::CheckPush => {
            assert(w.cell_ahead(c, 0).valid == (low + 0 < high));
            if high == low + n {
                lemma_lap_same_slot(low as int, n);
            }
            assert forall|k: int| 0 <= k < n implies (#[trigger] after.cell_ahead(c, k)).valid == (
            low + k < high) by {
                assert(w.cell_ahead(c, k).valid == (low + k < high));
            }
            assert forall|k: int| 0 <= k < high - low implies (#[trigger] after.cell_ahead(
                c,
                k,
            )).value == after.pushed[low + k] by {
                assert(w.cell_ahead(c, k).value == w.pushed[low + k]);
            }
        },
        Move::RollbackPush => {
            assert forall|k: int| 0 <= k < n implies (#[trigger] after.cell_ahead(c, k)).valid == (
            low + k < high) by {
                assert(w.cell_ahead(c, k).valid == (low + k < high));
            }
            assert forall|k: int| 0 <= k < high - low implies (#[trigger] after.cell_ahead(
                c,
                k,
            )).value == after.pushed[low + k] by {
                assert(w.cell_ahead(c, k).value == w.pushed[low + k]);
            }
        },
        Move::Write => {
            lemma_mod_bound(high as int, n);
            assert forall|k: int| 0 <= k < n implies (#[trigger] after.cell_ahead(c, k)).valid == (
            low + k < high) by {
                assert(w.cell_ahead(c, k).valid == (low + k < high));
                lemma_mod_bound(low + k, n);
            }
            assert forall|k: int| 0 <= k < high - low implies (#[trigger] after.cell_ahead(
                c,
                k,
            )).value == after.pushed[low + k] by {
                assert(w.cell_ahead(c, k).value == w.pushed[low + k]);
                lemma_mod_bound(low + k, n);
                if w.slot((low + k) as nat) == w.slot(high) {
                    lemma_same_slot_same_position(low + k, high as int, n);
                }
            }
        },
        Move::Validate => {
            lemma_mod_bound(high as int, n);
            assert(after.popped =~= after.pushed.take(low as int));
            assert forall|k: int| 0 <= k < n implies (#[trigger] after.cell_ahead(c, k)).valid == (
            low + k < high + 1) by {
                assert(w.cell_ahead(c, k).valid == (low + k < high));
                lemma_mod_bound(low + k, n);
                if w.slot((low + k) as nat) == w.slot(high) {
                    lemma_same_slot_same_position(low + k, high as int, n);
                }
            }
            assert forall|k: int| 0 <= k < high + 1 - low implies (#[trigger] after.cell_ahead(
                c,
                k,
            )).value == after.pushed[low + k] by {
                lemma_mod_bound(low + k, n);
                if low + k < high {
                    assert(w.cell_ahead(c, k).value == w.pushed[low + k]);
                    if w.slot((low + k) as nat) == w.slot(high) {
                        lemma_same_slot_same_position(low + k, high as int, n);
                    }
                }
            }
        },
        Move::ReservePop(t) => {
            assert forall|k: int| 0 <= k < n implies (#[trigger] after.cell_ahead(c, k)).valid == (
            low + k < high) by {
                assert(w.cell_ahead(c, k).valid == (low + k < high));
            }
            assert forall|k: int| 0 <= k < high - low implies (#[trigger] after.cell_ahead(
                c,
                k,
            )).value == after.pushed[low + k] by {
                assert(w.cell_ahead(c, k).value == w.pushed[low + k]);
            }
        },
        Move::CheckPop(t) => {
            assert(w.cell_ahead(c, 0).valid == (low + 0 < high));
            assert forall|k: int| 0 <= k < n implies (#[trigger] after.cell_ahead(c, k)).valid == (
            low + k < high) by {
                assert(w.cell_ahead(c, k).valid == (low + k < high));
            }
            assert forall|k: int| 0 <= k < high - low implies (#[trigger] after.cell_ahead(
                c,
                k,
            )).value == after.pushed[low + k] by {
                assert(w.cell_ahead(c, k).value == w.pushed[low + k]);
            }
        },
        Move::RollbackPop(t) => {
            assert forall|k: int| 0 <= k < n implies (#[trigger] after.cell_ahead(c, k)).valid == (
            low + k < high) by {
                assert(w.cell_ahead(c, k).valid == (low + k < high));
            }
            assert forall|k: int| 0 <= k < high - low implies (#[trigger] after.cell_ahead(
                c,
                k,
            )).value == after.pushed[low + k] by {
                assert(w.cell_ahead(c, k).value == w.pushed[low + k]);
            }
        },
        Move::Take(t) => {
            assert(w.cell_ahead(c, 0).value == w.pushed[low as int]);
            assert forall|k: int| 0 <= k < n implies (#[trigger] after.cell_ahead(c, k)).valid == (
            low + k < high) by {
                assert(w.cell_ahead(c, k).valid == (low + k < high));
            }
            assert forall|k: int| 0 <= k < high - low implies (#[trigger] after.cell_ahead(
                c,
                k,
            )).value == after.pushed[low + k] by {
                assert(w.cell_ahead(c, k).value == w.pushed[low + k]);
            }
        },
        Move::Clear(t) => {
            lemma_mod_bound(low as int, n);
            assert(after.popped =~= after.pushed.take(low as int + 1));
            assert forall|k: int| 0 <= k < n implies (#[trigger] after.cell_ahead(c, k)).valid == (
            low + 1 + k < high) by {
                lemma_mod_bound(low + 1 + k, n);
                if k + 1 < n {
                    assert(w.cell_ahead(c, k + 1).valid == (low + (k + 1) < high));
                    if w.slot((low + 1 + k) as nat) == w.slot(low) {
                        lemma_same_slot_same_position(low + 1 + k, low as int, n);
                    }
                } else {
                    lemma_lap_same_slot(low as int, n);
                }
            }
            assert forall|k: int| 0 <= k < high - (low + 1) implies (#[trigger] after.cell_ahead(
                c,
                k,
            )).value == after.pushed[low + 1 + k] by {
                lemma_mod_bound(low + 1 + k, n);
                assert(w.cell_ahead(c, k + 1).value == w.pushed[low + (k + 1)]);
                if w.slot((low + 1 + k) as nat) == w.slot(low) {
                    lemma_same_slot_same_position(low + 1 + k, low as int, n);
                }
            }
        },
    }
}

impl Floor {
    /// Whether all the steps are the producer's or consumer `c`'s.
    pub open spec fn only_consumer(steps: Seq<Move>, c: nat) -> bool {
        forall|i: int| 0 <= i < steps.len() ==> Floor::is_move_of(#[trigger] steps[i], c)
    }

    /// No thread is in a call.
    pub open spec fn at_rest(self) -> bool {
        &&& self.producer is Idle
        &&& forall|t: nat| #[trigger] self.consumer(t) is Idle
    }
}

/// Every run of the producer and one consumer from the first state ends in
/// a state that satisfies the invariant.
pub proof fn lemma_run_keeps_inv(capacity: nat, default: u64, c: nat, steps: Seq<Move>)
    requires
        capacity >= 2,
        Floor::initial(capacity, default).feasible(steps),
        Floor::only_consumer(steps, c),
    ensures
        Floor::initial(capacity, default).run(steps).inv(c),
        Floor::initial(capacity, default).run(steps).capacity() == capacity,
    decreases steps.len(),
{
    let first = Floor::initial(capacity, default);
    if steps.len() == 0 {
        lemma_initial_inv(capacity, default, c);
    } else {
        let before = steps.drop_last();
        assert forall|i: int| 0 <= i < before.len() implies Floor::is_move_of(
            #[trigger] before[i],
            c,
        ) by {
            assert(before[i] == steps[i]);
        }
        lemma_run_keeps_inv(capacity, default, c, before);
        assert(Floor::is_move_of(steps[steps.len() - 1], c));
        lemma_step_keeps_inv(first.run(before), c, steps.last());
    }
}

/// One consumer: in whatever order the producer and a single consumer take
/// their steps, the values popped so far are the first of the values
/// pushed, in the order in which they were pushed; the value the consumer
/// has loaded is the next one; and the ring never holds more values than it
/// has slots. Once both threads are out of their calls, `head` is the
/// number of values popped, `tail` the number pushed, and the values in
/// between lie in their slots, marked valid.
pub proof fn law_one_consumer_pops_in_push_order(
    capacity: nat,
    default: u64,
    c: nat,
    steps: Seq<Move>,
    pos: nat,
)
    requires
        capacity >= 2,
        Floor::initial(capacity, default).feasible(steps),
        Floor::only_consumer(steps, c),
    ensures
        ({
            let w = Floor::initial(capacity, default).run(steps);
            &&& w.popped.len() <= w.pushed.len()
            &&& w.popped == w.pushed.take(w.popped.len() as int)
            &&& w.pushed.len() <= w.popped.len() + capacity
            &&& w.consumer(c) matches Popper::Holding { data, .. } ==> w.popped.len()
                < w.pushed.len() && data == w.pushed[w.popped.len() as int]
            &&& w.at_rest() ==> {
                &&& w.head == w.popped.len()
                &&& w.tail == w.pushed.len()
                &&& w.head <= pos < w.tail ==> w.slots[w.slot(pos)] == (Flagged {
                    value: w.pushed[pos as int],
                    valid: true,
                })
                &&& w.tail <= pos < w.head + capacity ==> !w.slots[w.slot(pos)].valid
            }
        }),
{
    lemma_run_keeps_inv(capacity, default, c, steps);
    let w = Floor::initial(capacity, default).run(steps);
    let low = w.read_front(c);
    assert(w.popped.len() == low);
    if w.at_rest() {
        assert(w.consumer(c) is Idle);
        if w.head <= pos < w.head + capacity {
            let k = pos - w.head;
            assert(w.cell_ahead(c, k).valid == (low + k < w.write_front()));
            if pos < w.tail {
                assert(w.cell_ahead(c, k).value == w.pushed[low + k]);
            }
        }
    }
}

/// A run that is extended by one step.
proof fn lemma_run_one_more(first: Floor, steps: Seq<Move>, step: Move)
    requires
        first.feasible(steps),
        first.run(steps).enabled(step),
    ensures
        first.feasible(steps.push(step)),
        first.run(steps.push(step)) == first.run(steps).next(step),
{
    assert(steps.push(step).drop_last() =~= steps);
}

impl Floor {
    /// A ring of two slots with the consumers 0 and 1 standing at `a` and
    /// `b` and every other consumer idle.
    pub open spec fn shows(
        self,
        slots: Seq<Flagged>,
        head: nat,
        tail: nat,
        producer: Pusher,
        a: Popper,
        b: Popper,
        pushed: Seq<u64>,
        popped: Seq<u64>,
    ) -> bool {
        &&& self.slots == slots
        &&& slots.len() == 2
        &&& self.head == head
        &&& self.tail == tail
        &&& self.producer == producer
        &&& self.consumer(0) == a
        &&& self.consumer(1) == b
        &&& forall|t: nat| t > 1 ==> #[trigger] self.consumer(t) is Idle
        &&& self.pushed == pushed
        &&& self.popped == popped
    }
}

/// A completed push into a free slot of a ring of two slots, consumers
/// standing by.
proof fn lemma_push_runs(
    first: Floor,
    steps: Seq<Move>,
    slots: Seq<Flagged>,
    head: nat,
    a: Popper,
    b: Popper,
    pushed: Seq<u64>,
    popped: Seq<u64>,
    value: u64,
) -> (longer: Seq<Move>)
    requires
        first.feasible(steps),
        first.run(steps).shows(slots, head, pushed.len(), Pusher::Idle, a, b, pushed, popped),
        !slots[(pushed.len() % 2) as int].valid,
    ensures
        first.feasible(longer),
        first.run(longer).shows(
            slots.update(
                (pushed.len() % 2) as int,
                Flagged { value, valid: true },
            ),
            head,
            pushed.len() + 1,
            Pusher::Idle,
            a,
            b,
            pushed.push(value),
            popped,
        ),
{
    let pos = pushed.len();
    let w0 = first.run(steps);
    let home = (pushed.len() % 2) as int;
    let m1 = Move::ReservePush(value);
    lemma_run_one_more(first, steps, m1);
    let r1 = steps.push(m1);
    let w1 = first.run(r1);
    assert(w1.producer == Pusher::Reserved { value, pos });
    assert(w1.consumers == w0.consumers);
    let m2 = Move::CheckPush;
    lemma_run_one_more(first, r1, m2);
    let r2 = r1.push(m2);
    let w2 = first.run(r2);
    assert(w2.slot(pos) == home);
    assert(w2.producer == Pusher::Free { value, pos });
    assert(w2.consumers == w0.consumers);
    let m3 = Move::Write;
    lemma_run_one_more(first, r2, m3);
    let r3 = r2.push(m3);
    let w3 = first.run(r3);
    assert(w3.producer == Pusher::Written { value, pos });
    assert(w3.consumers == w0.consumers);
    assert(w3.slots.len() == 2);
    let m4 = Move::Validate;
    lemma_run_one_more(first, r3, m4);
    let r4 = r3.push(m4);
    let w4 = first.run(r4);
    assert(w4.consumers == w0.consumers);
    assert(w4.slots =~= slots.update(home, Flagged { value, valid: true }));
    assert(w4.consumer(0) == a);
    assert(w4.consumer(1) == b);
    assert forall|t: nat| t > 1 implies #[trigger] w4.consumer(t) is Idle by {
        assert(w0.consumer(t) is Idle);
    }
    r4
}

/// Consumer 0 reserves a slot and finds it empty, the producer idle and
/// consumer 1 standing by.
proof fn lemma_pop_finds_nothing(
    first: Floor,
    steps: Seq<Move>,
    slots: Seq<Flagged>,
    head: nat,
    tail: nat,
    b: Popper,
    pushed: Seq<u64>,
    popped: Seq<u64>,
) -> (longer: Seq<Move>)
    requires
        first.feasible(steps),
        first.run(steps).shows(slots, head, tail, Pusher::Idle, Popper::Idle, b, pushed, popped),
        !slots[(head % 2) as int].valid,
    ensures
        first.feasible(longer),
        first.run(longer).shows(
            slots,
            head + 1,
            tail,
            Pusher::Idle,
            Popper::Empty { pos: head },
            b,
            pushed,
            popped,
        ),
{
    let m1 = Move::ReservePop(0);
    lemma_run_one_more(first, steps, m1);
    let r1 = steps.push(m1);
    let w1 = first.run(r1);
    assert(w1.consumer(0) == Popper::Reserved { pos: head });
    assert(w1.consumer(1) == b);
    assert forall|t: nat| t > 1 implies #[trigger] w1.consumer(t) is Idle by {
        assert(first.run(steps).consumer(t) is Idle);
    }
    let m2 = Move::CheckPop(0);
    lemma_run_one_more(first, r1, m2);
    let r2 = r1.push(m2);
    let w2 = first.run(r2);
    assert(w2.consumer(0) == Popper::Empty { pos: head });
    assert(w2.consumer(1) == b);
    assert forall|t: nat| t > 1 implies #[trigger] w2.consumer(t) is Idle by {
        assert(w1.consumer(t) is Idle);
    }
    r2
}

/// Consumer 1 pops the value in the slot at `head`, the producer idle and
/// consumer 0 standing by.
proof fn lemma_pop_runs(
    first: Floor,
    steps: Seq<Move>,
    slots: Seq<Flagged>,
    head: nat,
    tail: nat,
    a: Popper,
    pushed: Seq<u64>,
    popped: Seq<u64>,
) -> (longer: Seq<Move>)
    requires
        first.feasible(steps),
        first.run(steps).shows(slots, head, tail, Pusher::Idle, a, Popper::Idle, pushed, popped),
        slots[(head % 2) as int].valid,
    ensures
        first.feasible(longer),
        first.run(longer).shows(
            slots.update(
                (head % 2) as int,
                Flagged { value: slots[(head % 2) as int].value, valid: false },
            ),
            head + 1,
            tail,
            Pusher::Idle,
            a,
            Popper::Idle,
            pushed,
            popped.push(slots[(head % 2) as int].value),
        ),
{
    let w0 = first.run(steps);
    let m1 = Move::ReservePop(1);
    lemma_run_one_more(first, steps, m1);
    let r1 = steps.push(m1);
    let w1 = first.run(r1);
    assert(w1.consumer(1) == Popper::Reserved { pos: head });
    assert(w1.consumer(0) == a);
    assert forall|t: nat| t > 1 implies #[trigger] w1.consumer(t) is Idle by {
        assert(w0.consumer(t) is Idle);
    }
    let m2 = Move::CheckPop(1);
    lemma_run_one_more(first, r1, m2);
    let r2 = r1.push(m2);
    let w2 = first.run(r2);
    assert(w2.consumer(1) == Popper::Found { pos: head });
    assert(w2.consumer(0) == a);
    assert forall|t: nat| t > 1 implies #[trigger] w2.consumer(t) is Idle by {
        assert(w1.consumer(t) is Idle);
    }
    let m3 = Move::Take(1);
    lemma_run_one_more(first, r2, m3);
    let r3 = r2.push(m3);
    let w3 = first.run(r3);
    assert(w3.consumer(1) == Popper::Holding { pos: head, data: slots[(head % 2) as int].value });
    assert(w3.consumer(0) == a);
    assert forall|t: nat| t > 1 implies #[trigger] w3.consumer(t) is Idle by {
        assert(w2.consumer(t) is Idle);
    }
    let m4 = Move::Clear(1);
    lemma_run_one_more(first, r3, m4);
    let r4 = r3.push(m4);
    let w4 = first.run(r4);
    assert(w4.consumer(1) is Idle);
    assert(w4.consumer(0) == a);
    assert forall|t: nat| t > 1 implies #[trigger] w4.consumer(t) is Idle by {
        assert(w3.consumer(t) is Idle);
    }
    assert(w4.slots =~= slots.update(
        (head % 2) as int,
        Flagged { value: slots[(head % 2) as int].value, valid: false },
    ));
    r4
}

/// Two consumers: a consumer that gives its reservation back after another
/// consumer has gone past it strands a value. The run returned here, of the
/// producer and the consumers 0 and 1 on a ring of two slots, ends with
/// every thread out of its call, the second value popped and the first
/// still in its slot behind `head`. From there a pop that runs alone finds
/// its slot empty, and a push that runs alone finds its slot taken.
pub proof fn law_two_consumers_strand_a_value(default: u64, first: u64, second: u64, third: u64) -> (steps:
    Seq<Move>)
    ensures
        Floor::initial(2, default).feasible(steps),
        Floor::initial(2, default).run(steps).at_rest(),
        Floor::initial(2, default).run(steps).pushed == seq![first, second],
        Floor::initial(2, default).run(steps).popped == seq![second],
        Floor::initial(2, default).run(steps).head == 1,
        Floor::initial(2, default).run(steps).tail == 2,
        Floor::initial(2, default).run(steps).slots[0] == (Flagged { value: first, valid: true }),
        Floor::initial(2, default).run(steps).next(Move::ReservePop(0)).next(
            Move::CheckPop(0),
        ).consumer(0) is Empty,
        Floor::initial(2, default).run(steps).next(Move::ReservePush(third)).next(
            Move::CheckPush,
        ).producer is Refused,
{
    let w0 = Floor::initial(2, default);
    let blank = Flagged { value: default, valid: false };
    let r0 = Seq::<Move>::empty();
    assert(w0.slots =~= seq![blank, blank]);
    assert(w0.shows(
        seq![blank, blank],
        0,
        0,
        Pusher::Idle,
        Popper::Idle,
        Popper::Idle,
        Seq::empty(),
        Seq::empty(),
    ));
    let r2 = lemma_pop_finds_nothing(
        w0,
        r0,
        seq![blank, blank],
        0,
        0,
        Popper::Idle,
        Seq::empty(),
        Seq::empty(),
    );
    let waiting = Popper::Empty { pos: 0 };
    assert(w0.run(r2).shows(
        seq![blank, blank],
        1,
        0,
        Pusher::Idle,
        waiting,
        Popper::Idle,
        Seq::empty(),
        Seq::empty(),
    ));
    let r6 = lemma_push_runs(
        w0,
        r2,
        seq![blank, blank],
        1,
        waiting,
        Popper::Idle,
        Seq::empty(),
        Seq::empty(),
        first,
    );
    let one = Flagged { value: first, valid: true };
    assert(seq![blank, blank].update(0, one) =~= seq![one, blank]);
    assert(Seq::<u64>::empty().push(first) =~= seq![first]);
    let r10 = lemma_push_runs(
        w0,
        r6,
        seq![one, blank],
        1,
        waiting,
        Popper::Idle,
        seq![first],
        Seq::empty(),
        second,
    );
    let two = Flagged { value: second, valid: true };
    assert(seq![one, blank].update(1, two) =~= seq![one, two]);
    assert(seq![first].push(second) =~= seq![first, second]);
    let r14 = lemma_pop_runs(
        w0,
        r10,
        seq![one, two],
        1,
        2,
        waiting,
        seq![first, second],
        Seq::empty(),
    );
    let gone = Flagged { value: second, valid: false };
    assert(seq![one, two].update(1, gone) =~= seq![one, gone]);
    assert(Seq::<u64>::empty().push(second) =~= seq![second]);
    let w14 = w0.run(r14);
    assert(w14.shows(
        seq![one, gone],
        2,
        2,
        Pusher::Idle,
        waiting,
        Popper::Idle,
        seq![first, second],
        seq![second],
    ));
    let m15 = Move::RollbackPop(0);
    lemma_run_one_more(w0, r14, m15);
    let r15 = r14.push(m15);
    let w15 = w0.run(r15);
    assert(w15.consumer(0) is Idle);
    assert(w15.consumer(1) is Idle);
    assert forall|t: nat| #[trigger] w15.consumer(t) is Idle by {
        if t > 1 {
            assert(w14.consumer(t) is Idle);
        }
    }
    assert(w15.slots == seq![one, gone]);
    let a1 = w15.next(Move::ReservePop(0));
    assert(a1.consumer(0) == Popper::Reserved { pos: 1 });
    assert(a1.slot(1) == 1);
    let b1 = w15.next(Move::ReservePush(third));
    assert(b1.producer == Pusher::Reserved { value: third, pos: 2 });
    assert(b1.slots.len() == 2);
    assert(b1.slot(2) == 0);
    r15
}

} // verus!
