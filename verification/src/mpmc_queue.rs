//! The bounded lock-free queue for many producers and many consumers.
//!
//! Producers and consumers claim logical positions with a compare-and-swap
//! on `enqueue_pos` and `dequeue_pos`; the sequence counter of each slot
//! (see [`crate::sequence`]) tells them whether the slot of their position
//! is theirs yet. Consumers work inside the quiescence barrier, so that a
//! pauser can walk the slots while none of them is in its critical section.
//!
//! What the functions here return depends on what the other threads do, so
//! their own contracts say little. The loops in which they claim a position
//! are [`claim_push`] and [`claim_pop`] of [`crate::mpmc_cells`], which the
//! queue runs on its atomics and [`crate::mpmc_cells::LocalRing`] runs on
//! plain memory. For memory that a thread has to itself those loops are
//! proved to take exactly the steps of the model in
//! [`crate::mpmc_protocol`], which is proved there to be a bounded first-in
//! first-out queue. For any number of threads in any order of their atomic
//! steps, the protocol is proved in [`crate::mpmc_interleaving`] to hand
//! every value out once, to hold no more values than it has slots, and to
//! lose none.

use vstd::prelude::*;
use std::sync::atomic::AtomicU64;
use std::sync::atomic::AtomicUsize;
use std::sync::atomic::Ordering;
use std::time::Duration;
use crate::gc_guard::GcGuard;
use crate::mpmc_cells::{claim_pop, claim_push, SequenceCells};
use crate::mpmc_protocol::RingModel;
use crate::ring::{is_valid_capacity, valid_capacity, valid_mask};
use crate::sem::{NotifyOnExit, Semaphore};

verus! {

/// The size of an [`MpmcQueue`] in bytes.
pub const MPMC_QUEUE_OBJECT_SIZE: usize = 128;

/// How long a consumer sleeps on the read semaphore before it looks at the
/// queue and the barrier again, in milliseconds.
pub const POP_RECHECK_MILLIS: u64 = 100;

/// One cell of the ring: a value and the sequence counter that guards it.
#[derive(Debug)]
struct QueueElement {
    sequence: AtomicUsize,
    data: AtomicU64,
}

impl QueueElement {
    fn new(sequence: usize, value: u64) -> (cell: Self) {
        QueueElement { sequence: AtomicUsize::new(sequence), data: AtomicU64::new(value) }
    }

    /// Reads the counter; what was written to the cell before the counter
    /// was published is visible afterwards.
    fn sequence(&self) -> usize {
        self.sequence.load(Ordering::Acquire)
    }

    /// Publishes the counter together with what was written to the cell
    /// before.
    fn publish(&self, sequence: usize) {
        self.sequence.store(sequence, Ordering::Release);
    }

    fn get(&self) -> u64 {
        self.data.load(Ordering::Relaxed)
    }

    fn set(&self, value: u64) {
        self.data.store(value, Ordering::Relaxed);
    }
}

/// The bounded lock-free queue for many producers and many consumers.
#[derive(Debug)]
pub struct MpmcQueue {
    buffer: Vec<QueueElement>,
    buffer_mask: usize,
    enqueue_pos: AtomicUsize,
    dequeue_pos: AtomicUsize,
    gc_guard: GcGuard,
    read_sem: Semaphore,
    write_sem: Semaphore,
}

/// The cells of a queue as a thread sees them that shares the queue with
/// others: atomics, of which it knows only what it has just read.
struct SharedCells<'a> {
    queue: &'a MpmcQueue,
}

impl<'a> SequenceCells for SharedCells<'a> {
    open spec fn alone(&self) -> bool {
        false
    }

    closed spec fn ring(&self) -> RingModel {
        RingModel { slots: Seq::empty(), enqueue_pos: 0, dequeue_pos: 0 }
    }

    closed spec fn mask(&self) -> usize {
        self.queue.buffer_mask
    }

    closed spec fn inv(&self) -> bool {
        self.queue.wf()
    }

    proof fn lemma_inv(&self) {
    }

    fn read_mask(&self) -> (mask: usize) {
        self.queue.buffer_mask
    }

    fn load_enqueue_pos(&self) -> (pos: usize) {
        self.queue.enqueue_pos.load(Ordering::Relaxed)
    }

    fn load_dequeue_pos(&self) -> (pos: usize) {
        self.queue.dequeue_pos.load(Ordering::Relaxed)
    }

    fn load_sequence(&self, index: usize) -> (sequence: usize) {
        self.queue.buffer[index].sequence()
    }

    fn load_value(&self, index: usize) -> (value: u64) {
        self.queue.buffer[index].get()
    }

    fn claim_enqueue_pos(&mut self, pos: usize, next: usize) -> (won: bool) {
        self.queue.enqueue_pos.compare_exchange_weak(
            pos,
            next,
            Ordering::Relaxed,
            Ordering::Relaxed,
        ).is_ok()
    }

    fn claim_dequeue_pos(&mut self, pos: usize, next: usize) -> (won: bool) {
        self.queue.dequeue_pos.compare_exchange_weak(
            pos,
            next,
            Ordering::Relaxed,
            Ordering::Relaxed,
        ).is_ok()
    }

    fn store_value(&mut self, index: usize, value: u64) {
        self.queue.buffer[index].set(value);
    }

    fn publish(&mut self, index: usize, sequence: usize) {
        self.queue.buffer[index].publish(sequence);
    }
}

impl MpmcQueue {
    /// The queue has its ring: a valid number of slots and the mask that
    /// goes with it.
    pub closed spec fn wf(&self) -> bool {
        &&& valid_mask(self.buffer_mask)
        &&& self.buffer@.len() == self.buffer_mask + 1
    }

    /// The number of slots.
    pub closed spec fn capacity(&self) -> nat {
        self.buffer@.len()
    }

    /// Tells whether the queue has its ring.
    pub fn is_initialized(&self) -> (yes: bool)
        ensures
            yes == self.wf(),
    {
        let slots: usize = self.buffer.len();
        is_valid_capacity(slots) && self.buffer_mask == slots - 1
    }

    /// A queue without a ring, to be given one by [`MpmcQueue::init`].
    pub fn allocate() -> (queue: Self)
        ensures
            !queue.wf(),
    {
        MpmcQueue {
            buffer: Vec::new(),
            buffer_mask: 0,
            enqueue_pos: AtomicUsize::new(0),
            dequeue_pos: AtomicUsize::new(0),
            gc_guard: GcGuard::allocate(),
            read_sem: Semaphore::allocate(),
            write_sem: Semaphore::allocate(),
        }
    }

    /// Gives the queue an empty ring of `buffer_size` slots, each holding
    /// `default`: slot `i` is writable for position `i`, both positions are
    /// zero, the write semaphore has `buffer_size` permits and the read
    /// semaphore none.
    pub fn init(&mut self, buffer_size: usize, default: u64)
        requires
            valid_capacity(buffer_size),
        ensures
            final(self).wf(),
            final(self).capacity() == buffer_size,
    {
        let mut buffer: Vec<QueueElement> = Vec::with_capacity(buffer_size);
        let mut i: usize = 0;
        while i < buffer_size
            invariant
                i <= buffer_size,
                buffer@.len() == i,
            decreases buffer_size - i,
        {
            buffer.push(QueueElement::new(i, default));
            i = i + 1;
        }
        self.buffer_mask = buffer_size - 1;
        self.buffer = buffer;
        self.enqueue_pos = AtomicUsize::new(0);
        self.dequeue_pos = AtomicUsize::new(0);
        self.gc_guard.init();
        self.read_sem.init(0);
        self.write_sem.init(buffer_size as u32);
    }

    /// An empty queue of `buffer_size` slots, each holding `default`.
    pub fn new(buffer_size: usize, default: u64) -> (queue: Self)
        requires
            valid_capacity(buffer_size),
        ensures
            queue.wf(),
            queue.capacity() == buffer_size,
    {
        let mut queue = Self::allocate();
        queue.init(buffer_size, default);
        queue
    }

    /// Claims the next position for writing and puts `data` into its slot:
    /// [`claim_push`] on the cells that the threads share.
    fn enqueue(&self, data: u64) -> (pushed: bool)
        requires
            self.wf(),
    {
        let mut cells = SharedCells { queue: self };
        claim_push(&mut cells, data)
    }

    /// Claims the next position for reading and takes the value out of its
    /// slot: [`claim_pop`] on the cells that the threads share.
    fn dequeue(&self) -> (popped: Option<u64>)
        requires
            self.wf(),
    {
        let mut cells = SharedCells { queue: self };
        claim_pop(&mut cells)
    }

    /// Puts `data` into the queue unless the ring is full, without blocking.
    /// Returns whether it did; on success the read semaphore is posted.
    pub fn try_push(&self, data: u64) -> (pushed: bool)
        requires
            self.wf(),
    {
        let mut cells = SharedCells { queue: self };
        let pushed: bool = claim_push(&mut cells, data);
        if pushed {
            self.read_sem.post();
        }
        pushed
    }

    /// Takes the oldest value out of the queue, without blocking. Returns
    /// `None` when the ring is empty or a pauser holds the barrier; on
    /// success the write semaphore is posted.
    pub fn try_pop(&self) -> (popped: Option<u64>)
        requires
            self.wf(),
    {
        let entered: Option<Option<u64>> = self.gc_guard.try_acquire_as_consumer(
            || -> (popped: Option<u64>)
                {
                    let mut cells = SharedCells { queue: self };
                    claim_pop(&mut cells)
                },
        );
        match entered {
            Some(Some(data)) => {
                self.write_sem.post();
                Some(data)
            },
            _ => None,
        }
    }

    /// One attempt of a parked consumer: takes a value out of the queue and
    /// leaves it in `mailbox`. Returns whether it did.
    fn pop_into(&self, mailbox: &AtomicU64) -> (popped: bool)
        requires
            self.wf(),
    {
        let entered: Option<Option<u64>> = self.gc_guard.try_acquire_as_consumer(
            || -> (popped: Option<u64>) { self.dequeue() },
        );
        match entered {
            Some(Some(data)) => {
                mailbox.store(data, Ordering::Relaxed);
                true
            },
            _ => false,
        }
    }

    /// Puts `data` into the queue, blocking on the write semaphore while
    /// the ring is full.
    pub fn push(&self, data: u64)
        requires
            self.wf(),
    {
        if !self.enqueue(data) {
            self.write_sem.wait_until(|| -> (pushed: bool) { self.enqueue(data) });
        }
        self.read_sem.post();
    }

    /// Takes the oldest value out of the queue, blocking on the read
    /// semaphore while the ring is empty and at the barrier while a pauser
    /// holds it. A sleeping consumer tries again whenever the read semaphore
    /// is posted, when a pause ends, and every [`POP_RECHECK_MILLIS`]
    /// milliseconds.
    pub fn pop(&self) -> (data: u64)
        requires
            self.wf(),
    {
        let first: Option<u64> = self.gc_guard.acquire_as_consumer(
            || -> (popped: Option<u64>)
                {
                    let mut cells = SharedCells { queue: self };
                    claim_pop(&mut cells)
                },
        );
        let data: u64 = match first {
            Some(data) => data,
            None => {
                let mailbox = AtomicU64::new(0);
                self.pop_parked(&mailbox);
                mailbox.load(Ordering::Relaxed)
            },
        };
        self.write_sem.post();
        data
    }

    /// Sleeps on the read semaphore until a value was taken out of the queue
    /// and left in `mailbox`.
    fn pop_parked(&self, mailbox: &AtomicU64)
        requires
            self.wf(),
    {
        let mut rounds: usize = 0;
        while rounds < usize::MAX
            invariant
                self.wf(),
            decreases usize::MAX - rounds,
        {
            let popped: bool = self.read_sem.wait_until_for(
                || -> (popped: bool) { self.pop_into(mailbox) },
                Duration::from_millis(POP_RECHECK_MILLIS),
            );
            if popped {
                return;
            }
            rounds = rounds + 1;
        }
        self.read_sem.wait_until(|| -> (popped: bool) { self.pop_into(mailbox) });
    }

    /// Runs `f` as the pauser of the queue's barrier: while `f` runs, no
    /// consumer that registered before the pause is inside its critical
    /// section. Returns what `f` returned, and on every way out wakes the
    /// consumers that went to sleep during the pause. Producers are not held up. A callback that
    /// calls [`MpmcQueue::pop`] waits for its own pause to end.
    pub fn acquire_as_gc<F: FnOnce() -> T, T>(&self, f: F) -> (out: T)
        requires
            f.requires(()),
        ensures
            f.ensures((), out),
    {
        let _wake = NotifyOnExit { sem: &self.read_sem };
        self.gc_guard.acquire_as_gc(f)
    }

    /// Calls `f` once for every slot, in slot order, with the value the
    /// slot holds at that moment. The sequence counters are left alone.
    pub fn foreach<F: Fn(u64)>(&self, f: F)
        requires
            forall|value: u64| f.requires((value,)),
    {
        let mut i: usize = 0;
        while i < self.buffer.len()
            invariant
                forall|value: u64| f.requires((value,)),
            decreases self.buffer.len() - i,
        {
            let value: u64 = self.buffer[i].get();
            f(value);
            i = i + 1;
        }
    }

    /// Pauses the consumers and calls `mark` once for every slot.
    pub fn mark<F: Fn(u64)>(&self, mark: F)
        requires
            forall|value: u64| mark.requires((value,)),
    {
        self.acquire_as_gc(|| { self.foreach(mark) })
    }
}

} // verus!
