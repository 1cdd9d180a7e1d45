//! The protocol of the multi-producer ring, for any number of threads and
//! any order in which they take their steps.
//!
//! [`World`] holds what the queue keeps in its atomics, where every thread
//! stands in its `try_push` or `try_pop`, and, for the proof only, the
//! history: which value was claimed for which position, which thread is at
//! work on which position, and what was handed out. A step is one atomic
//! operation of one thread, as `MpmcQueue::enqueue` and `MpmcQueue::dequeue`
//! make them:
//!
//! | step          | in the queue                                              |
//! |---------------|-----------------------------------------------------------|
//! | `Begin`       | a call starts                                             |
//! | `Load`        | the position counter is read                              |
//! | `Inspect`     | the sequence counter of the position's slot is read       |
//! | `WinCas`      | the compare-and-swap moves the position counter on        |
//! | `LoseCas`     | the compare-and-swap fails                                |
//! | `Write`       | the producer stores the value into the slot               |
//! | `Publish`     | the producer stores `pos + 1` into the sequence counter   |
//! | `Take`        | the consumer loads the value from the slot                |
//! | `Recycle`     | the consumer stores `pos + capacity` into the counter     |
//! | `GiveUp`      | a call that has claimed nothing returns empty-handed      |
//!
//! Positions are counted here as natural numbers. The counters of the queue
//! are `usize` values that wrap around; [`lemma_counters_agree`] shows that
//! wrapping changes neither the slot of a position nor the outcome of a
//! comparison between a sequence counter and a position that lie less than
//! half the range of `usize` apart.

use vstd::prelude::*;
use vstd::arithmetic::div_mod::{
    lemma_fundamental_div_mod, lemma_mod_bound, lemma_mod_multiples_vanish,
};
use crate::ring::{ahead, lemma_slot_of_ahead, slot_of, valid_capacity};
use crate::sequence::{lemma_lap_difference, push_move_of, slot_state_of, SlotState};

verus! {

/// One slot of the ring.
pub struct Cell {
    pub sequence: nat,
    pub value: u64,
}

/// Where a thread stands in a `try_push`.
pub enum Producer {
    /// Not in a call.
    Idle,
    /// In a call with `value`, about to read the write position.
    Starting { value: u64 },
    /// Has read the write position `pos`.
    Loaded { value: u64, pos: nat },
    /// Has found the slot of `pos` writable for `pos`.
    Ready { value: u64, pos: nat },
    /// Has claimed `pos`.
    Claimed { value: u64, pos: nat },
    /// Has stored the value into the slot of `pos`.
    Written { value: u64, pos: nat },
}

/// Where a thread stands in a `try_pop`.
pub enum Consumer {
    /// Not in a call.
    Idle,
    /// In a call, about to read the read position.
    Starting,
    /// Has read the read position `pos`.
    Loaded { pos: nat },
    /// Has found the slot of `pos` readable for `pos`.
    Ready { pos: nat },
    /// Has claimed `pos`.
    Claimed { pos: nat },
    /// Has loaded `data` from the slot of `pos`.
    Holding { pos: nat, data: u64 },
}

/// One atomic step of one thread. The number is the thread's.
pub enum Step {
    BeginPush(nat, u64),
    LoadPush(nat),
    InspectPush(nat),
    WinCasPush(nat),
    LoseCasPush(nat),
    Write(nat),
    Publish(nat),
    GiveUpPush(nat),
    BeginPop(nat),
    LoadPop(nat),
    InspectPop(nat),
    WinCasPop(nat),
    LoseCasPop(nat),
    Take(nat),
    Recycle(nat),
    GiveUpPop(nat),
}

/// The queue and the threads around it.
pub struct World {
    /// The slots of the ring.
    pub slots: Seq<Cell>,
    /// The next position to write.
    pub enqueue_pos: nat,
    /// The next position to read.
    pub dequeue_pos: nat,
    /// Where the threads stand as producers; a thread that is not in the
    /// map is idle.
    pub producers: Map<nat, Producer>,
    /// Where the threads stand as consumers; a thread that is not in the
    /// map is idle.
    pub consumers: Map<nat, Consumer>,
    /// The value claimed for each position so far, by position.
    pub log: Seq<u64>,
    /// The thread that has claimed a position for writing and not
    /// published it yet.
    pub writer: Map<nat, nat>,
    /// The thread that has claimed a position for reading and not recycled
    /// it yet.
    pub holder: Map<nat, nat>,
    /// The value that a `try_pop` returned for a position.
    pub delivered: Map<nat, u64>,
}

impl World {
    /// The number of slots.
    pub open spec fn capacity(self) -> nat {
        self.slots.len()
    }

    /// The slot of position `pos`.
    pub open spec fn slot(self, pos: nat) -> int {
        (pos as int) % (self.slots.len() as int)
    }

    /// Where thread `t` stands as a producer.
    pub open spec fn producer(self, t: nat) -> Producer {
        if self.producers.dom().contains(t) {
            self.producers[t]
        } else {
            Producer::Idle
        }
    }

    /// Where thread `t` stands as a consumer.
    pub open spec fn consumer(self, t: nat) -> Consumer {
        if self.consumers.dom().contains(t) {
            self.consumers[t]
        } else {
            Consumer::Idle
        }
    }

    /// The queue as construction leaves it, with every thread idle.
    pub open spec fn initial(capacity: nat, default: u64) -> World {
        World {
            slots: Seq::new(capacity, |i: int| Cell { sequence: i as nat, value: default }),
            enqueue_pos: 0,
            dequeue_pos: 0,
            producers: Map::empty(),
            consumers: Map::empty(),
            log: Seq::empty(),
            writer: Map::empty(),
            holder: Map::empty(),
            delivered: Map::empty(),
        }
    }

    /// Whether a thread can take `step` in this state.
    pub open spec fn enabled(self, step: Step) -> bool {
        match step {
            Step::BeginPush(t, value) => self.producer(t) is Idle,
            Step::LoadPush(t) => self.producer(t) is Starting,
            Step::InspectPush(t) => self.producer(t) is Loaded,
            Step::WinCasPush(t) => self.producer(t) matches Producer::Ready { pos, .. }
                && pos == self.enqueue_pos,
            Step::LoseCasPush(t) => self.producer(t) is Ready,
            Step::Write(t) => self.producer(t) is Claimed,
            Step::Publish(t) => self.producer(t) is Written,
            Step::GiveUpPush(t) => self.producer(t) is Starting || self.producer(t) is Loaded
                || self.producer(t) is Ready,
            Step::BeginPop(t) => self.consumer(t) is Idle,
            Step::LoadPop(t) => self.consumer(t) is Starting,
            Step::InspectPop(t) => self.consumer(t) is Loaded,
            Step::WinCasPop(t) => self.consumer(t) matches Consumer::Ready { pos }
                && pos == self.dequeue_pos,
            Step::LoseCasPop(t) => self.consumer(t) is Ready,
            Step::Take(t) => self.consumer(t) is Claimed,
            Step::Recycle(t) => self.consumer(t) is Holding,
            Step::GiveUpPop(t) => self.consumer(t) is Starting || self.consumer(t) is Loaded
                || self.consumer(t) is Ready,
        }
    }

    /// The state with producer `t` moved to `to`.
    pub open spec fn with_producer(self, t: nat, to: Producer) -> World {
        World { producers: self.producers.insert(t, to), ..self }
    }

    /// The state with consumer `t` moved to `to`.
    pub open spec fn with_consumer(self, t: nat, to: Consumer) -> World {
        World { consumers: self.consumers.insert(t, to), ..self }
    }

    /// The state after `step`.
    pub open spec fn next(self, step: Step) -> World {
        match step {
            Step::BeginPush(t, value) => self.with_producer(t, Producer::Starting { value }),
            Step::LoadPush(t) => match self.producer(t) {
                Producer::Starting { value } => self.with_producer(
                    t,
                    Producer::Loaded { value, pos: self.enqueue_pos },
                ),
                _ => self,
            },
            Step::InspectPush(t) => match self.producer(t) {
                Producer::Loaded { value, pos } => {
                    let sequence = self.slots[self.slot(pos)].sequence;
                    if sequence == pos {
                        self.with_producer(t, Producer::Ready { value, pos })
                    } else if sequence < pos {
                        self.with_producer(t, Producer::Idle)
                    } else {
                        self.with_producer(t, Producer::Starting { value })
                    }
                },
                _ => self,
            },
            Step::WinCasPush(t) => match self.producer(t) {
                Producer::Ready { value, pos } => World {
                    enqueue_pos: pos + 1,
                    log: self.log.push(value),
                    writer: self.writer.insert(pos, t),
                    ..self.with_producer(t, Producer::Claimed { value, pos })
                },
                _ => self,
            },
            Step::LoseCasPush(t) => match self.producer(t) {
                Producer::Ready { value, pos } => self.with_producer(
                    t,
                    Producer::Loaded { value, pos },
                ),
                _ => self,
            },
            Step::Write(t) => match self.producer(t) {
                Producer::Claimed { value, pos } => World {
                    slots: self.slots.update(
                        self.slot(pos),
                        Cell { sequence: self.slots[self.slot(pos)].sequence, value },
                    ),
                    ..self.with_producer(t, Producer::Written { value, pos })
                },
                _ => self,
            },
            Step::Publish(t) => match self.producer(t) {
                Producer::Written { value, pos } => World {
                    slots: self.slots.update(
                        self.slot(pos),
                        Cell { sequence: pos + 1, value: self.slots[self.slot(pos)].value },
                    ),
                    writer: self.writer.remove(pos),
                    ..self.with_producer(t, Producer::Idle)
                },
                _ => self,
            },
            Step::GiveUpPush(t) => self.with_producer(t, Producer::Idle),
            Step::BeginPop(t) => self.with_consumer(t, Consumer::Starting),
            Step::LoadPop(t) => self.with_consumer(t, Consumer::Loaded { pos: self.dequeue_pos }),
            Step::InspectPop(t) => match self.consumer(t) {
                Consumer::Loaded { pos } => {
                    let sequence = self.slots[self.slot(pos)].sequence;
                    if sequence == pos + 1 {
                        self.with_consumer(t, Consumer::Ready { pos })
                    } else if sequence < pos + 1 {
                        self.with_consumer(t, Consumer::Idle)
                    } else {
                        self.with_consumer(t, Consumer::Starting)
                    }
                },
                _ => self,
            },
            Step::WinCasPop(t) => match self.consumer(t) {
                Consumer::Ready { pos } => World {
                    dequeue_pos: pos + 1,
                    holder: self.holder.insert(pos, t),
                    ..self.with_consumer(t, Consumer::Claimed { pos })
                },
                _ => self,
            },
            Step::LoseCasPop(t) => match self.consumer(t) {
                Consumer::Ready { pos } => self.with_consumer(t, Consumer::Loaded { pos }),
                _ => self,
            },
            Step::Take(t) => match self.consumer(t) {
                Consumer::Claimed { pos } => self.with_consumer(
                    t,
                    Consumer::Holding { pos, data: self.slots[self.slot(pos)].value },
                ),
                _ => self,
            },
            Step::Recycle(t) => match self.consumer(t) {
                Consumer::Holding { pos, data } => World {
                    slots: self.slots.update(
                        self.slot(pos),
                        Cell {
                            sequence: pos + self.capacity(),
                            value: self.slots[self.slot(pos)].value,
                        },
                    ),
                    holder: self.holder.remove(pos),
                    delivered: self.delivered.insert(pos, data),
                    ..self.with_consumer(t, Consumer::Idle)
                },
                _ => self,
            },
            Step::GiveUpPop(t) => self.with_consumer(t, Consumer::Idle),
        }
    }

    /// Whether the steps can be taken one after the other from this state.
    pub open spec fn feasible(self, steps: Seq<Step>) -> bool
        decreases steps.len(),
    {
        steps.len() == 0 || (self.feasible(steps.drop_last()) && self.run(
            steps.drop_last(),
        ).enabled(steps.last()))
    }

    /// The state after the steps.
    pub open spec fn run(self, steps: Seq<Step>) -> World
        decreases steps.len(),
    {
        if steps.len() == 0 {
            self
        } else {
            self.run(steps.drop_last()).next(steps.last())
        }
    }

    /// The counters: the log has an entry for every claimed position, and
    /// the ring holds between none and `capacity` positions.
    pub open spec fn counters_inv(self) -> bool {
        &&& self.capacity() >= 2
        &&& self.log.len() == self.enqueue_pos
        &&& self.dequeue_pos <= self.enqueue_pos <= self.dequeue_pos + self.capacity()
    }

    /// What the sequence counter of slot `i` says. Either the slot is
    /// writable for the position `q` that the counter shows: then `q` is one
    /// of the `capacity` positions from the read position on, and if it is
    /// claimed already, its writer is at work. Or the slot is readable for
    /// the position `q` below the counter: then it holds the value claimed
    /// for `q`, the write position is at most one lap ahead of `q`, and if
    /// `q` is claimed by a consumer already, its holder is at work.
    pub open spec fn slot_inv(self, i: int) -> bool {
        let sequence = self.slots[i].sequence;
        let n = self.capacity() as int;
        if (sequence as int) % n == i {
            &&& self.dequeue_pos <= sequence < self.dequeue_pos + n
            &&& sequence < self.enqueue_pos ==> self.writer.dom().contains(sequence)
        } else {
            &&& sequence >= 1
            &&& (sequence - 1) % n == i
            &&& sequence - 1 < self.enqueue_pos <= sequence - 1 + n
            &&& self.slots[i].value == self.log[sequence - 1]
            &&& sequence - 1 < self.dequeue_pos ==> self.holder.dom().contains(
                (sequence - 1) as nat,
            )
        }
    }

    /// What holds of producer `t` where it stands.
    pub open spec fn producer_inv(self, t: nat) -> bool {
        match self.producer(t) {
            Producer::Idle => true,
            Producer::Starting { value } => true,
            Producer::Loaded { value, pos } => pos <= self.enqueue_pos,
            Producer::Ready { value, pos } => {
                &&& pos <= self.enqueue_pos
                &&& pos == self.enqueue_pos ==> self.slots[self.slot(pos)].sequence == pos
            },
            Producer::Claimed { value, pos } => {
                &&& pos < self.enqueue_pos
                &&& self.log[pos as int] == value
                &&& self.slots[self.slot(pos)].sequence == pos
                &&& self.writer.dom().contains(pos)
                &&& self.writer[pos] == t
            },
            Producer::Written { value, pos } => {
                &&& pos < self.enqueue_pos
                &&& self.log[pos as int] == value
                &&& self.slots[self.slot(pos)].sequence == pos
                &&& self.slots[self.slot(pos)].value == value
                &&& self.writer.dom().contains(pos)
                &&& self.writer[pos] == t
            },
        }
    }

    /// What holds of consumer `t` where it stands.
    pub open spec fn consumer_inv(self, t: nat) -> bool {
        match self.consumer(t) {
            Consumer::Idle => true,
            Consumer::Starting => true,
            Consumer::Loaded { pos } => pos <= self.dequeue_pos,
            Consumer::Ready { pos } => {
                &&& pos <= self.dequeue_pos
                &&& pos == self.dequeue_pos ==> self.slots[self.slot(pos)].sequence == pos + 1
            },
            Consumer::Claimed { pos } => {
                &&& pos < self.dequeue_pos
                &&& self.slots[self.slot(pos)].sequence == pos + 1
                &&& self.holder.dom().contains(pos)
                &&& self.holder[pos] == t
            },
            Consumer::Holding { pos, data } => {
                &&& pos < self.dequeue_pos
                &&& self.slots[self.slot(pos)].sequence == pos + 1
                &&& self.holder.dom().contains(pos)
                &&& self.holder[pos] == t
                &&& data == self.log[pos as int]
            },
        }
    }

    /// The thread recorded as the writer of position `pos` is at work on
    /// it.
    pub open spec fn writer_inv(self, pos: nat) -> bool {
        self.writer.dom().contains(pos) ==> (self.producer(self.writer[pos]) matches Producer::Claimed {
            pos: at,
            ..
        } && at == pos) || (self.producer(self.writer[pos]) matches Producer::Written {
            pos: at,
            ..
        } && at == pos)
    }

    /// The thread recorded as the holder of position `pos` is at work on
    /// it, and the position has not been handed out.
    pub open spec fn holder_inv(self, pos: nat) -> bool {
        self.holder.dom().contains(pos) ==> {
            &&& !self.delivered.dom().contains(pos)
            &&& (self.consumer(self.holder[pos]) matches Consumer::Claimed { pos: at } && at
                == pos) || (self.consumer(self.holder[pos]) matches Consumer::Holding {
                pos: at,
                ..
            } && at == pos)
        }
    }

    /// Every position below the read position was handed out or is held,
    /// and nothing else was handed out; what was handed out for a position
    /// is the value that was claimed for it.
    pub open spec fn delivery_inv(self, pos: nat) -> bool {
        &&& pos < self.dequeue_pos ==> self.delivered.dom().contains(pos)
            || self.holder.dom().contains(pos)
        &&& self.delivered.dom().contains(pos) ==> pos < self.dequeue_pos && self.delivered[pos]
            == self.log[pos as int]
    }

    /// What holds in every state that the queue can reach.
    pub open spec fn inv(self) -> bool {
        &&& self.counters_inv()
        &&& forall|i: int| 0 <= i < self.capacity() ==> #[trigger] self.slot_inv(i)
        &&& forall|t: nat| #[trigger] self.producer_inv(t)
        &&& forall|t: nat| #[trigger] self.consumer_inv(t)
        &&& forall|pos: nat| #[trigger] self.writer_inv(pos)
        &&& forall|pos: nat| #[trigger] self.holder_inv(pos)
        &&& forall|pos: nat| #[trigger] self.delivery_inv(pos)
    }
}

/// A position and its successor fall on different slots.
pub proof fn lemma_neighbours_differ(pos: int, n: int)
    requires
        0 <= pos,
        2 <= n,
    ensures
        (pos + 1) % n != pos % n,
        0 <= pos % n < n,
{
    lemma_mod_bound(pos, n);
    lemma_mod_bound(pos + 1, n);
    lemma_fundamental_div_mod(pos, n);
    lemma_fundamental_div_mod(pos + 1, n);
    let a = pos / n;
    let b = (pos + 1) / n;
    if (pos + 1) % n == pos % n {
        assert(n * b - n * a == 1);
        assert(n * b - n * a == n * (b - a)) by (nonlinear_arith);
        assert(n * (b - a) != 1) by (nonlinear_arith)
            requires
                n >= 2,
        ;
    }
}

/// A position one lap ahead falls on the same slot.
pub proof fn lemma_lap_same_slot(pos: int, n: int)
    requires
        0 <= pos,
        2 <= n,
    ensures
        (pos + n) % n == pos % n,
{
    lemma_mod_multiples_vanish(1, pos, n);
}

/// Two positions less than a lap apart that fall on the same slot are the
/// same position.
pub proof fn lemma_same_slot_same_position(p: int, q: int, n: int)
    requires
        0 <= p,
        0 <= q,
        2 <= n,
        p % n == q % n,
        -n < p - q < n,
    ensures
        p == q,
{
    lemma_fundamental_div_mod(p, n);
    lemma_fundamental_div_mod(q, n);
    let a = p / n;
    let b = q / n;
    assert(p - q == n * a - n * b);
    assert(n * a - n * b == n * (a - b)) by (nonlinear_arith);
    if a != b {
        assert(n * (a - b) >= n || n * (a - b) <= -n) by (nonlinear_arith)
            requires
                a != b,
                n > 0,
        ;
    }
}

/// The first state satisfies the invariant.
pub proof fn lemma_initial_inv(capacity: nat, default: u64)
    requires
        capacity >= 2,
    ensures
        World::initial(capacity, default).inv(),
{
    let w = World::initial(capacity, default);
    assert forall|i: int| 0 <= i < w.capacity() implies #[trigger] w.slot_inv(i) by {
        vstd::arithmetic::div_mod::lemma_small_mod(i as nat, capacity);
    }
}

/// A step in which a producer only looks or gives up keeps the invariant.
proof fn lemma_producer_moves(w: World, t: nat, to: Producer)
    requires
        w.inv(),
        !(w.producer(t) is Claimed),
        !(w.producer(t) is Written),
        match to {
            Producer::Idle => true,
            Producer::Starting { value } => true,
            Producer::Loaded { value, pos } => pos <= w.enqueue_pos,
            Producer::Ready { value, pos } => pos <= w.enqueue_pos && w.slots[w.slot(
                pos,
            )].sequence == pos,
            _ => false,
        },
    ensures
        w.with_producer(t, to).inv(),
{
    let after = w.with_producer(t, to);
    assert forall|i: int| 0 <= i < after.capacity() implies #[trigger] after.slot_inv(i) by {
        assert(w.slot_inv(i));
    }
    assert forall|u: nat| #[trigger] after.producer_inv(u) by {
        assert(w.producer_inv(u));
    }
    assert forall|u: nat| #[trigger] after.consumer_inv(u) by {
        assert(w.consumer_inv(u));
    }
    assert forall|pos: nat| #[trigger] after.writer_inv(pos) by {
        assert(w.writer_inv(pos));
    }
    assert forall|pos: nat| #[trigger] after.holder_inv(pos) by {
        assert(w.holder_inv(pos));
    }
    assert forall|pos: nat| #[trigger] after.delivery_inv(pos) by {
        assert(w.delivery_inv(pos));
    }
}

/// A step in which a consumer only looks or gives up keeps the invariant.
proof fn lemma_consumer_moves(w: World, t: nat, to: Consumer)
    requires
        w.inv(),
        !(w.consumer(t) is Claimed),
        !(w.consumer(t) is Holding),
        match to {
            Consumer::Idle => true,
            Consumer::Starting => true,
            Consumer::Loaded { pos } => pos <= w.dequeue_pos,
            Consumer::Ready { pos } => pos <= w.dequeue_pos && w.slots[w.slot(pos)].sequence
                == pos + 1,
            _ => false,
        },
    ensures
        w.with_consumer(t, to).inv(),
{
    let after = w.with_consumer(t, to);
    assert forall|i: int| 0 <= i < after.capacity() implies #[trigger] after.slot_inv(i) by {
        assert(w.slot_inv(i));
    }
    assert forall|u: nat| #[trigger] after.producer_inv(u) by {
        assert(w.producer_inv(u));
    }
    assert forall|u: nat| #[trigger] after.consumer_inv(u) by {
        assert(w.consumer_inv(u));
    }
    assert forall|pos: nat| #[trigger] after.writer_inv(pos) by {
        assert(w.writer_inv(pos));
    }
    assert forall|pos: nat| #[trigger] after.holder_inv(pos) by {
        assert(w.holder_inv(pos));
    }
    assert forall|pos: nat| #[trigger] after.delivery_inv(pos) by {
        assert(w.delivery_inv(pos));
    }
}

/// Winning the compare-and-swap on the write position keeps the
/// invariant.
proof fn lemma_win_cas_push(w: World, t: nat)
    requires
        w.inv(),
        w.enabled(Step::WinCasPush(t)),
    ensures
        w.next(Step::WinCasPush(t)).inv(),
{
    let after = w.next(Step::WinCasPush(t));
    let n = w.capacity() as int;
    let pos = w.enqueue_pos;
    let home = w.slot(pos);
    assert(w.producer_inv(t));
    lemma_mod_bound(pos as int, n);
    assert(w.slot_inv(home));
    assert forall|i: int| 0 <= i < after.capacity() implies #[trigger] after.slot_inv(i) by {
        assert(w.slot_inv(i));
        let sequence = w.slots[i].sequence;
        if (sequence as int) % n != i {
            lemma_lap_same_slot(sequence - 1, n);
        }
    }
    assert forall|u: nat| #[trigger] after.producer_inv(u) by {
        assert(w.producer_inv(u));
        assert(w.writer_inv(pos));
    }
    assert forall|u: nat| #[trigger] after.consumer_inv(u) by {
        assert(w.consumer_inv(u));
    }
    assert forall|p: nat| #[trigger] after.writer_inv(p) by {
        assert(w.writer_inv(p));
    }
    assert forall|p: nat| #[trigger] after.holder_inv(p) by {
        assert(w.holder_inv(p));
    }
    assert forall|p: nat| #[trigger] after.delivery_inv(p) by {
        assert(w.delivery_inv(p));
    }
}

/// Storing the value into a claimed slot keeps the invariant.
proof fn lemma_write(w: World, t: nat)
    requires
        w.inv(),
        w.enabled(Step::Write(t)),
    ensures
        w.next(Step::Write(t)).inv(),
{
    let after = w.next(Step::Write(t));
    let n = w.capacity() as int;
    let pos = w.producer(t)->Claimed_pos;
    let home = w.slot(pos);
    assert(w.producer_inv(t));
    lemma_mod_bound(pos as int, n);
    assert forall|i: int| 0 <= i < after.capacity() implies #[trigger] after.slot_inv(i) by {
        assert(w.slot_inv(i));
    }
    assert forall|u: nat| #[trigger] after.producer_inv(u) by {
        assert(w.producer_inv(u));
    }
    assert forall|u: nat| #[trigger] after.consumer_inv(u) by {
        assert(w.consumer_inv(u));
    }
    assert forall|p: nat| #[trigger] after.writer_inv(p) by {
        assert(w.writer_inv(p));
    }
    assert forall|p: nat| #[trigger] after.holder_inv(p) by {
        assert(w.holder_inv(p));
    }
    assert forall|p: nat| #[trigger] after.delivery_inv(p) by {
        assert(w.delivery_inv(p));
    }
}

/// Publishing a written slot keeps the invariant.
proof fn lemma_publish(w: World, t: nat)
    requires
        w.inv(),
        w.enabled(Step::Publish(t)),
    ensures
        w.next(Step::Publish(t)).inv(),
{
    let after = w.next(Step::Publish(t));
    let n = w.capacity() as int;
    let pos = w.producer(t)->Written_pos;
    let home = w.slot(pos);
    assert(w.producer_inv(t));
    lemma_neighbours_differ(pos as int, n);
    assert(w.slot_inv(home));
    assert forall|i: int| 0 <= i < after.capacity() implies #[trigger] after.slot_inv(i) by {
        assert(w.slot_inv(i));
    }
    assert forall|u: nat| #[trigger] after.producer_inv(u) by {
        assert(w.producer_inv(u));
    }
    assert forall|u: nat| #[trigger] after.consumer_inv(u) by {
        assert(w.consumer_inv(u));
        match w.consumer(u) {
            Consumer::Ready { pos: at } => {
                lemma_neighbours_differ(at as int, n);
            },
            Consumer::Claimed { pos: at } => {
                lemma_neighbours_differ(at as int, n);
            },
            Consumer::Holding { pos: at, .. } => {
                lemma_neighbours_differ(at as int, n);
            },
            _ => {},
        }
    }
    assert forall|p: nat| #[trigger] after.writer_inv(p) by {
        assert(w.writer_inv(p));
    }
    assert forall|p: nat| #[trigger] after.holder_inv(p) by {
        assert(w.holder_inv(p));
    }
    assert forall|p: nat| #[trigger] after.delivery_inv(p) by {
        assert(w.delivery_inv(p));
    }
}

/// Winning the compare-and-swap on the read position keeps the invariant.
proof fn lemma_win_cas_pop(w: World, t: nat)
    requires
        w.inv(),
        w.enabled(Step::WinCasPop(t)),
    ensures
        w.next(Step::WinCasPop(t)).inv(),
{
    let after = w.next(Step::WinCasPop(t));
    let n = w.capacity() as int;
    let pos = w.dequeue_pos;
    let home = w.slot(pos);
    assert(w.consumer_inv(t));
    lemma_neighbours_differ(pos as int, n);
    assert(w.slot_inv(home));
    assert(w.delivery_inv(pos));
    assert forall|i: int| 0 <= i < after.capacity() implies #[trigger] after.slot_inv(i) by {
        assert(w.slot_inv(i));
    }
    assert forall|u: nat| #[trigger] after.producer_inv(u) by {
        assert(w.producer_inv(u));
    }
    assert forall|u: nat| #[trigger] after.consumer_inv(u) by {
        assert(w.consumer_inv(u));
        assert(w.holder_inv(pos));
    }
    assert forall|p: nat| #[trigger] after.writer_inv(p) by {
        assert(w.writer_inv(p));
    }
    assert forall|p: nat| #[trigger] after.holder_inv(p) by {
        assert(w.holder_inv(p));
    }
    assert forall|p: nat| #[trigger] after.delivery_inv(p) by {
        assert(w.delivery_inv(p));
    }
}

/// Loading the value from a claimed slot keeps the invariant.
proof fn lemma_take(w: World, t: nat)
    requires
        w.inv(),
        w.enabled(Step::Take(t)),
    ensures
        w.next(Step::Take(t)).inv(),
{
    let after = w.next(Step::Take(t));
    let n = w.capacity() as int;
    let pos = w.consumer(t)->Claimed_pos;
    let home = w.slot(pos);
    assert(w.consumer_inv(t));
    lemma_neighbours_differ(pos as int, n);
    assert(w.slot_inv(home));
    assert forall|i: int| 0 <= i < after.capacity() implies #[trigger] after.slot_inv(i) by {
        assert(w.slot_inv(i));
    }
    assert forall|u: nat| #[trigger] after.producer_inv(u) by {
        assert(w.producer_inv(u));
    }
    assert forall|u: nat| #[trigger] after.consumer_inv(u) by {
        assert(w.consumer_inv(u));
    }
    assert forall|p: nat| #[trigger] after.writer_inv(p) by {
        assert(w.writer_inv(p));
    }
    assert forall|p: nat| #[trigger] after.holder_inv(p) by {
        assert(w.holder_inv(p));
    }
    assert forall|p: nat| #[trigger] after.delivery_inv(p) by {
        assert(w.delivery_inv(p));
    }
}

/// Recycling a slot keeps the invariant.
proof fn lemma_recycle(w: World, t: nat)
    requires
        w.inv(),
        w.enabled(Step::Recycle(t)),
    ensures
        w.next(Step::Recycle(t)).inv(),
{
    let after = w.next(Step::Recycle(t));
    let n = w.capacity() as int;
    let pos = w.consumer(t)->Holding_pos;
    let home = w.slot(pos);
    assert(w.consumer_inv(t));
    lemma_neighbours_differ(pos as int, n);
    lemma_lap_same_slot(pos as int, n);
    assert(w.slot_inv(home));
    assert forall|i: int| 0 <= i < after.capacity() implies #[trigger] after.slot_inv(i) by {
        assert(w.slot_inv(i));
    }
    assert forall|u: nat| #[trigger] after.producer_inv(u) by {
        assert(w.producer_inv(u));
    }
    assert forall|u: nat| #[trigger] after.consumer_inv(u) by {
        assert(w.consumer_inv(u));
    }
    assert forall|p: nat| #[trigger] after.writer_inv(p) by {
        assert(w.writer_inv(p));
    }
    assert forall|p: nat| #[trigger] after.holder_inv(p) by {
        assert(w.holder_inv(p));
    }
    assert forall|p: nat| #[trigger] after.delivery_inv(p) by {
        assert(w.delivery_inv(p));
    }
}

/// Every step keeps the invariant.
pub proof fn lemma_step_keeps_inv(w: World, step: Step)
    requires
        w.inv(),
        w.enabled(step),
    ensures
        w.next(step).inv(),
{
    match step {
        Step::BeginPush(t, value) => {
            lemma_producer_moves(w, t, Producer::Starting { value });
        },
        Step::LoadPush(t) => {
            let value = w.producer(t)->Starting_value;
            lemma_producer_moves(w, t, Producer::Loaded { value, pos: w.enqueue_pos });
        },
        Step::InspectPush(t) => {
            assert(w.producer_inv(t));
            lemma_producer_moves(w, t, w.next(step).producer(t));
            assert(w.next(step) == w.with_producer(t, w.next(step).producer(t)));
        },
        Step::WinCasPush(t) => {
            lemma_win_cas_push(w, t);
        },
        Step::LoseCasPush(t) => {
            assert(w.producer_inv(t));
            lemma_producer_moves(w, t, w.next(step).producer(t));
            assert(w.next(step) == w.with_producer(t, w.next(step).producer(t)));
        },
        Step::Write(t) => {
            lemma_write(w, t);
        },
        Step::Publish(t) => {
            lemma_publish(w, t);
        },
        Step::GiveUpPush(t) => {
            lemma_producer_moves(w, t, Producer::Idle);
        },
        Step::BeginPop(t) => {
            lemma_consumer_moves(w, t, Consumer::Starting);
        },
        Step::LoadPop(t) => {
            lemma_consumer_moves(w, t, Consumer::Loaded { pos: w.dequeue_pos });
        },
        Step::InspectPop(t) => {
            assert(w.consumer_inv(t));
            lemma_consumer_moves(w, t, w.next(step).consumer(t));
            assert(w.next(step) == w.with_consumer(t, w.next(step).consumer(t)));
        },
        Step::WinCasPop(t) => {
            lemma_win_cas_pop(w, t);
        },
        Step::LoseCasPop(t) => {
            assert(w.consumer_inv(t));
            lemma_consumer_moves(w, t, w.next(step).consumer(t));
            assert(w.next(step) == w.with_consumer(t, w.next(step).consumer(t)));
        },
        Step::Take(t) => {
            lemma_take(w, t);
        },
        Step::Recycle(t) => {
            lemma_recycle(w, t);
        },
        Step::GiveUpPop(t) => {
            lemma_consumer_moves(w, t, Consumer::Idle);
        },
    }
}

/// Every run from the first state ends in a state that satisfies the
/// invariant.
pub proof fn lemma_run_keeps_inv(capacity: nat, default: u64, steps: Seq<Step>)
    requires
        capacity >= 2,
        World::initial(capacity, default).feasible(steps),
    ensures
        World::initial(capacity, default).run(steps).inv(),
        World::initial(capacity, default).run(steps).capacity() == capacity,
    decreases steps.len(),
{
    let first = World::initial(capacity, default);
    if steps.len() == 0 {
        lemma_initial_inv(capacity, default);
    } else {
        lemma_run_keeps_inv(capacity, default, steps.drop_last());
        lemma_step_keeps_inv(first.run(steps.drop_last()), steps.last());
    }
}

impl World {
    /// No thread is between claiming a position and letting go of it.
    pub open spec fn at_rest(self) -> bool {
        &&& forall|t: nat|
            !(#[trigger] self.producer(t) is Claimed) && !(self.producer(t) is Written)
        &&& forall|t: nat|
            !(#[trigger] self.consumer(t) is Claimed) && !(self.consumer(t) is Holding)
    }
}

/// Bounded: in whatever order the threads take their steps, the read
/// position never passes the write position, and the write position is
/// never more than `capacity` positions ahead, so the ring never holds more
/// values than it has slots.
pub proof fn law_ring_is_bounded(capacity: nat, default: u64, steps: Seq<Step>)
    requires
        capacity >= 2,
        World::initial(capacity, default).feasible(steps),
    ensures
        World::initial(capacity, default).run(steps).dequeue_pos <= World::initial(
            capacity,
            default,
        ).run(steps).enqueue_pos,
        World::initial(capacity, default).run(steps).enqueue_pos <= World::initial(
            capacity,
            default,
        ).run(steps).dequeue_pos + capacity,
{
    lemma_run_keeps_inv(capacity, default, steps);
}

/// Delivered once: in whatever order the threads take their steps, the
/// value that a consumer has loaded for a position, and the value that a
/// `try_pop` returned for it, is the value that the producer of that
/// position pushed; two consumers are never at work on the same position,
/// and a position that was handed out is not handed out again.
pub proof fn law_each_value_is_delivered_once(
    capacity: nat,
    default: u64,
    steps: Seq<Step>,
    pos: nat,
    t: nat,
    u: nat,
)
    requires
        capacity >= 2,
        World::initial(capacity, default).feasible(steps),
    ensures
        ({
            let w = World::initial(capacity, default).run(steps);
            &&& w.delivered.dom().contains(pos) ==> pos < w.log.len() && w.delivered[pos]
                == w.log[pos as int]
            &&& w.consumer(t) matches Consumer::Holding { pos: at, data } ==> at < w.log.len()
                && data == w.log[at as int]
            &&& (w.consumer(t) matches Consumer::Claimed { pos: at } && at == pos) || (w.consumer(
                t,
            ) matches Consumer::Holding { pos: at, .. } && at == pos) ==> {
                &&& !w.delivered.dom().contains(pos)
                &&& (w.consumer(u) matches Consumer::Claimed { pos: at } && at == pos) || (
                w.consumer(u) matches Consumer::Holding { pos: at, .. } && at == pos) ==> u == t
            }
        }),
{
    lemma_run_keeps_inv(capacity, default, steps);
    let w = World::initial(capacity, default).run(steps);
    assert(w.delivery_inv(pos));
    assert(w.consumer_inv(t));
    assert(w.consumer_inv(u));
    assert(w.holder_inv(pos));
}

/// Written once: in whatever order the threads take their steps, two
/// producers are never at work on the same position, and the value that a
/// producer is writing is the value logged for its position.
pub proof fn law_each_position_has_one_writer(
    capacity: nat,
    default: u64,
    steps: Seq<Step>,
    pos: nat,
    t: nat,
    u: nat,
)
    requires
        capacity >= 2,
        World::initial(capacity, default).feasible(steps),
    ensures
        ({
            let w = World::initial(capacity, default).run(steps);
            &&& w.producer(t) matches Producer::Claimed { value, pos: at } ==> at < w.log.len()
                && w.log[at as int] == value
            &&& w.producer(t) matches Producer::Written { value, pos: at } ==> at < w.log.len()
                && w.log[at as int] == value
            &&& ((w.producer(t) matches Producer::Claimed { pos: at, .. } && at == pos) || (
            w.producer(t) matches Producer::Written { pos: at, .. } && at == pos)) && ((w.producer(
                u,
            ) matches Producer::Claimed { pos: at, .. } && at == pos) || (w.producer(
                u,
            ) matches Producer::Written { pos: at, .. } && at == pos)) ==> u == t
        }),
{
    lemma_run_keeps_inv(capacity, default, steps);
    let w = World::initial(capacity, default).run(steps);
    assert(w.producer_inv(t));
    assert(w.producer_inv(u));
}

/// Nothing lost: in whatever order the threads have taken their steps,
/// once no thread is between claiming a position and letting go of it,
/// every position below the read position has been handed out, and the
/// positions from the read position up to the write position lie in their
/// slots, readable, with the values that were pushed for them.
pub proof fn law_nothing_is_lost(capacity: nat, default: u64, steps: Seq<Step>, pos: nat)
    requires
        capacity >= 2,
        World::initial(capacity, default).feasible(steps),
        World::initial(capacity, default).run(steps).at_rest(),
    ensures
        ({
            let w = World::initial(capacity, default).run(steps);
            &&& pos < w.dequeue_pos ==> w.delivered.dom().contains(pos) && w.delivered[pos]
                == w.log[pos as int]
            &&& w.dequeue_pos <= pos < w.enqueue_pos ==> w.slots[w.slot(pos)] == (Cell {
                sequence: pos + 1,
                value: w.log[pos as int],
            })
            &&& w.enqueue_pos <= pos < w.dequeue_pos + capacity ==> w.slots[w.slot(
                pos,
            )].sequence == pos
        }),
{
    lemma_run_keeps_inv(capacity, default, steps);
    let w = World::initial(capacity, default).run(steps);
    let n = capacity as int;
    assert(w.delivery_inv(pos));
    assert(w.holder_inv(pos));
    if pos < w.dequeue_pos && w.holder.dom().contains(pos) {
        assert(w.consumer(w.holder[pos]) is Claimed || w.consumer(w.holder[pos]) is Holding);
    }
    if w.dequeue_pos <= pos < w.dequeue_pos + capacity {
        let home = w.slot(pos);
        lemma_mod_bound(pos as int, n);
        assert(w.slot_inv(home));
        let sequence = w.slots[home].sequence;
        if (sequence as int) % n == home {
            lemma_same_slot_same_position(sequence as int, pos as int, n);
            if sequence < w.enqueue_pos {
                assert(w.writer_inv(sequence));
                assert(w.producer(w.writer[sequence]) is Claimed || w.producer(
                    w.writer[sequence],
                ) is Written);
            }
        } else {
            let q = (sequence - 1) as nat;
            if q < w.dequeue_pos {
                assert(w.holder_inv(q));
                assert(w.consumer(w.holder[q]) is Claimed || w.consumer(w.holder[q]) is Holding);
            }
            lemma_same_slot_same_position(q as int, pos as int, n);
        }
    }
}

/// The wrapping counters of the queue agree with the natural numbers of
/// this model: a position falls on the same slot after wrapping, and a
/// sequence counter that lies less than half the range of `usize` from the
/// expected one compares with it, by [`slot_state_of`], as the two natural
/// numbers compare, so that [`push_move_of`] claims, finds the ring full or
/// reloads where a step of this model does.
pub proof fn lemma_counters_agree(capacity: usize, sequence: nat, expected: nat)
    requires
        valid_capacity(capacity),
        isize::MIN <= sequence - expected <= isize::MAX,
    ensures
        slot_of(ahead(0, expected as int), capacity) == (expected as int) % (capacity as int),
        slot_state_of(ahead(0, sequence as int), ahead(0, expected as int)) == (if sequence
            == expected {
            SlotState::Ready
        } else if sequence < expected {
            SlotState::Behind
        } else {
            SlotState::Ahead
        }),
        push_move_of(ahead(0, sequence as int), ahead(0, expected as int)) is Claim <==> sequence
            == expected,
        push_move_of(ahead(0, sequence as int), ahead(0, expected as int)) is Full <==> sequence
            < expected,
{
    lemma_slot_of_ahead(0, expected as int, capacity);
    vstd::arithmetic::div_mod::lemma_small_mod(0, capacity as nat);
    lemma_lap_difference(0, sequence as int, expected as int);
}

} // verus!
