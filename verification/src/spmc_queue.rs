//! The bounded lock-free queue for one producer and many consumers.
//!
//! The producer reserves a slot by adding one to `tail`, the consumers by
//! adding one to `head`; a flag on each slot tells them whether the slot
//! holds a value, and whoever finds the slot in the wrong state gives its
//! reservation back. Consumers work inside the quiescence barrier that the
//! queue carries, so that a pauser can walk the values from `head` to `tail`
//! while none of them is in its critical section.
//!
//! What the functions here return depends on what the other threads do, so
//! their own contracts say little. The steps in which they reserve a slot
//! are [`reserve_push`] and [`reserve_pop`] of [`crate::spmc_cells`], and
//! the walk from `head` to `tail` is [`walk_cells`]; the queue runs them on
//! its atomics and [`crate::spmc_cells::LocalFlagRing`] runs them on plain
//! memory. For memory that a thread has to itself they are proved to do
//! exactly what the model in [`crate::spmc_protocol`] says, which is proved
//! there to be a bounded first-in first-out queue. For the producer and one
//! consumer in any order of their atomic steps, the protocol is proved in
//! [`crate::spmc_interleaving`] to pop the values in the order in which
//! they were pushed.
//!
//! With two consumers in `try_pop` at once the protocol is not safe: the
//! one that gives its reservation back after the other has popped the slot
//! behind it leaves a value stranded behind `head`, and the queue stuck
//! once it has filled up. The same module proves that run too.

use vstd::prelude::*;
use std::sync::atomic::AtomicBool;
use std::sync::atomic::AtomicU64;
use std::sync::atomic::AtomicUsize;
use std::sync::atomic::Ordering;
use crate::gc_guard::GcGuard;
use crate::ring::{is_valid_capacity, slot_index, valid_capacity, valid_mask};
use crate::spmc_cells::{count_cells, reserve_pop, reserve_push, walk_cells, FlagCells};
use crate::spmc_protocol::FlagRing;
use crate::sem::{NotifyOnExit, Semaphore};

verus! {

/// How many values a walk from `head` to `tail` visits in a ring of
/// `capacity` slots: the wrapping distance between the two, and never more
/// than there are slots.
pub open spec fn window_of(head: usize, tail: usize, capacity: usize) -> usize {
    if tail.wrapping_sub(head) <= capacity {
        tail.wrapping_sub(head)
    } else {
        capacity
    }
}

/// Computes [`window_of`].
pub fn window(head: usize, tail: usize, capacity: usize) -> (count: usize)
    ensures
        count == window_of(head, tail, capacity),
{
    let distance: usize = tail.wrapping_sub(head);
    if distance <= capacity {
        distance
    } else {
        capacity
    }
}

/// One cell of the ring: a value and the flag that tells whether the value
/// is waiting to be taken out.
#[derive(Debug)]
struct Slot {
    inner: AtomicU64,
    valid: AtomicBool,
}

impl Slot {
    fn new(value: u64) -> (slot: Self) {
        Slot { inner: AtomicU64::new(value), valid: AtomicBool::new(false) }
    }

    fn get(&self) -> u64 {
        self.inner.load(Ordering::Relaxed)
    }

    fn set(&self, value: u64) {
        self.inner.store(value, Ordering::Relaxed);
    }

    fn is_valid(&self) -> bool {
        self.valid.load(Ordering::SeqCst)
    }

    fn set_valid(&self, valid: bool) {
        self.valid.store(valid, Ordering::SeqCst);
    }
}

/// The bounded lock-free queue for one producer and many consumers.
#[derive(Debug)]
pub struct SpmcQueue {
    ring: Vec<Slot>,
    head: AtomicUsize,
    tail: AtomicUsize,
    capacity: usize,
    write_sem: Semaphore,
    read_sem: Semaphore,
    gc_guard: GcGuard,
}

/// The cells of a queue as a thread sees them that shares the queue with
/// others: atomics, of which it knows only what it has just read.
struct SharedFlags<'a> {
    queue: &'a SpmcQueue,
}

impl<'a> FlagCells for SharedFlags<'a> {
    open spec fn alone(&self) -> bool {
        false
    }

    closed spec fn ring(&self) -> FlagRing {
        FlagRing { slots: Seq::empty(), head: 0, tail: 0 }
    }

    closed spec fn mask(&self) -> usize {
        (self.queue.capacity - 1) as usize
    }

    closed spec fn inv(&self) -> bool {
        self.queue.wf()
    }

    proof fn lemma_inv(&self) {
    }

    fn read_mask(&self) -> (mask: usize) {
        self.queue.capacity - 1
    }

    fn load_head(&self) -> (head: usize) {
        self.queue.head.load(Ordering::SeqCst)
    }

    fn load_tail(&self) -> (tail: usize) {
        self.queue.tail.load(Ordering::SeqCst)
    }

    fn load_valid(&self, index: usize) -> (valid: bool) {
        self.queue.ring[index].is_valid()
    }

    fn load_value(&self, index: usize) -> (value: u64) {
        self.queue.ring[index].get()
    }

    fn reserve_tail(&mut self) -> (reserved: usize) {
        self.queue.tail.fetch_add(1, Ordering::SeqCst)
    }

    fn give_back_tail(&mut self) {
        self.queue.tail.fetch_sub(1, Ordering::SeqCst);
    }

    fn reserve_head(&mut self) -> (reserved: usize) {
        self.queue.head.fetch_add(1, Ordering::SeqCst)
    }

    fn give_back_head(&mut self) {
        self.queue.head.fetch_sub(1, Ordering::SeqCst);
    }

    fn store_value(&mut self, index: usize, value: u64) {
        self.queue.ring[index].set(value);
    }

    fn set_valid(&mut self, index: usize, valid: bool) {
        self.queue.ring[index].set_valid(valid);
    }
}

impl SpmcQueue {
    /// The queue has its ring: a valid number of slots.
    pub closed spec fn wf(&self) -> bool {
        &&& valid_capacity(self.capacity)
        &&& self.ring@.len() == self.capacity
    }

    /// The number of slots.
    pub closed spec fn slots(&self) -> nat {
        self.ring@.len()
    }

    /// Tells whether the queue has its ring.
    pub fn is_initialized(&self) -> (yes: bool)
        ensures
            yes == self.wf(),
    {
        is_valid_capacity(self.capacity) && self.ring.len() == self.capacity
    }

    /// A queue without a ring, to be given one by [`SpmcQueue::init`].
    pub fn allocate() -> (queue: Self)
        ensures
            !queue.wf(),
    {
        SpmcQueue {
            ring: Vec::new(),
            head: AtomicUsize::new(0),
            tail: AtomicUsize::new(0),
            capacity: 0,
            write_sem: Semaphore::allocate(),
            read_sem: Semaphore::allocate(),
            gc_guard: GcGuard::allocate(),
        }
    }

    /// Gives the queue an empty ring of `capacity` slots, each holding
    /// `default`: `head` and `tail` are zero, no slot is marked valid, the
    /// write semaphore has `capacity` permits and the read semaphore none.
    pub fn init(&mut self, capacity: usize, default: u64)
        requires
            valid_capacity(capacity),
        ensures
            final(self).wf(),
            final(self).slots() == capacity,
    {
        self.capacity = capacity;
        self.ring = Vec::new();
        self.head = AtomicUsize::new(0);
        self.tail = AtomicUsize::new(0);
        self.gc_guard.init();
        self.write_sem.init(capacity as u32);
        self.read_sem.init(0);
        let mut i: usize = 0;
        while i < capacity
            invariant
                i <= capacity,
                self.ring@.len() == i,
                self.capacity == capacity,
            decreases capacity - i,
        {
            self.ring.push(Slot::new(default));
            i = i + 1;
        }
    }

    /// The number of slots.
    pub fn size(&self) -> (size: usize)
        requires
            self.wf(),
        ensures
            size == self.slots(),
            valid_capacity(size),
    {
        self.capacity
    }

    /// The mask that turns a position into a slot index.
    pub fn mask(&self) -> (mask: usize)
        requires
            self.wf(),
        ensures
            mask == self.slots() - 1,
            valid_mask(mask),
    {
        self.capacity - 1
    }

    /// Reserves the slot at `tail` and puts `item` into it:
    /// [`reserve_push`] on the cells that the threads share.
    fn enqueue(&self, item: u64) -> (pushed: bool)
        requires
            self.wf(),
    {
        let mut cells = SharedFlags { queue: self };
        reserve_push(&mut cells, item)
    }

    /// Reserves the slot at `head` and takes its value out:
    /// [`reserve_pop`] on the cells that the threads share.
    fn dequeue(&self) -> (popped: Option<u64>)
        requires
            self.wf(),
    {
        let mut cells = SharedFlags { queue: self };
        reserve_pop(&mut cells)
    }

    /// Puts `item` into the queue unless the ring is full, without
    /// blocking. Returns whether it did; on success the read semaphore is
    /// posted. Only the one producer may call it.
    pub fn try_push(&self, item: u64) -> (pushed: bool)
        requires
            self.wf(),
    {
        let mut cells = SharedFlags { queue: self };
        let pushed: bool = reserve_push(&mut cells, item);
        if pushed {
            self.read_sem.post();
        }
        pushed
    }

    /// Puts `item` into the queue, blocking on the write semaphore while
    /// the ring is full. Only the one producer may call it.
    pub fn push(&self, item: u64)
        requires
            self.wf(),
    {
        if !self.enqueue(item) {
            self.write_sem.wait_until(|| -> (pushed: bool) { self.enqueue(item) });
        }
        self.read_sem.post();
    }

    /// Takes the oldest value out of the queue, without blocking. Returns
    /// `None` when the ring is empty or a pauser holds the barrier; on
    /// success the write semaphore is posted.
    pub fn try_pop(&self) -> (popped: Option<u64>)
        requires
            self.wf(),
    {
        let entered: Option<Option<u64>> = self.gc_guard.try_acquire_as_consumer(
            || -> (popped: Option<u64>)
                {
                    let mut cells = SharedFlags { queue: self };
                    reserve_pop(&mut cells)
                },
        );
        match entered {
            Some(Some(item)) => {
                self.write_sem.post();
                Some(item)
            },
            _ => None,
        }
    }

    /// One attempt of a parked consumer: takes a value out of the queue and
    /// leaves it in `mailbox`. Returns whether it did.
    fn pop_into(&self, mailbox: &AtomicU64) -> (popped: bool)
        requires
            self.wf(),
    {
        let entered: Option<Option<u64>> = self.gc_guard.try_acquire_as_consumer(
            || -> (popped: Option<u64>) { self.dequeue() },
        );
        match entered {
            Some(Some(item)) => {
                mailbox.store(item, Ordering::Relaxed);
                true
            },
            _ => false,
        }
    }

    /// Takes the oldest value out of the queue, blocking on the read
    /// semaphore while the ring is empty and at the barrier while a pauser
    /// holds it.
    pub fn pop(&self) -> (item: u64)
        requires
            self.wf(),
    {
        let first: Option<u64> = self.gc_guard.acquire_as_consumer(
            || -> (popped: Option<u64>)
                {
                    let mut cells = SharedFlags { queue: self };
                    reserve_pop(&mut cells)
                },
        );
        let item: u64 = match first {
            Some(item) => item,
            None => {
                let mailbox = AtomicU64::new(0);
                self.read_sem.wait_until(|| -> (popped: bool) { self.pop_into(&mailbox) });
                mailbox.load(Ordering::Relaxed)
            },
        };
        self.write_sem.post();
        item
    }

    /// Runs `f` as the pauser of the queue's barrier: while `f` runs, no
    /// consumer that registered before the pause is inside its critical
    /// section. Returns what `f` returned, and on every way out wakes the
    /// consumers that went to sleep during the pause. The producer is not held up. A callback
    /// that calls [`SpmcQueue::pop`] waits for its own pause to end.
    pub fn with_locked_consuming<F: FnOnce() -> T, T>(&self, f: F) -> (out: T)
        requires
            f.requires(()),
        ensures
            f.ensures((), out),
    {
        let _wake = NotifyOnExit { sem: &self.read_sem };
        self.gc_guard.acquire_as_gc(f)
    }

    /// The number of values in the queue as `head` and `tail` show it at
    /// the moment of the call; with other threads at work it is an estimate.
    /// A queue without a ring holds none.
    pub fn len(&self) -> (len: usize)
        ensures
            len <= self.slots(),
    {
        if !self.is_initialized() {
            return 0;
        }
        let cells = SharedFlags { queue: self };
        count_cells(&cells)
    }

    /// Calls `f` with the values from `head` to `tail`, oldest first. On a
    /// queue without a ring it calls nothing.
    pub fn foreach<F: Fn(u64)>(&self, f: F)
        requires
            forall|value: u64| f.requires((value,)),
    {
        if !self.is_initialized() {
            return;
        }
        let head: usize = self.head.load(Ordering::SeqCst);
        let tail: usize = self.tail.load(Ordering::SeqCst);
        let count: usize = window(head, tail, self.size());
        let mut k: usize = 0;
        while k < count
            invariant
                self.wf(),
                forall|value: u64| f.requires((value,)),
            decreases count - k,
        {
            let index: usize = slot_index(head.wrapping_add(k), self.mask());
            f(self.ring[index].get());
            k = k + 1;
        }
    }

    /// Pauses the consumers and calls `mark` with every value in the queue.
    pub fn mark<F: Fn(u64)>(&self, mark: F)
        requires
            forall|value: u64| mark.requires((value,)),
    {
        self.with_locked_consuming(|| { self.foreach(mark) })
    }

    /// The values from `head` to `tail`, oldest first: [`walk_cells`] on
    /// the cells that the threads share. A queue without a ring holds none.
    pub fn serialize(&self) -> (out: Vec<u64>)
        ensures
            out@.len() <= self.slots(),
    {
        if !self.is_initialized() {
            return Vec::new();
        }
        let cells = SharedFlags { queue: self };
        walk_cells(&cells)
    }
}

} // verus!
