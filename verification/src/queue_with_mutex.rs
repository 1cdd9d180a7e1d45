//! A bounded queue behind a mutex: the plain fallback for platforms without
//! efficient lock-free primitives.

use vstd::prelude::*;
use std::collections::VecDeque;
use crate::lock::{guarded, guarded_mut, lock, new_mutex, try_lock};

verus! {

/// The size of a [`QueueWithMutex`] in bytes.
pub const QUEUE_WITH_MUTEX_SIZE: usize = 48;

/// A bounded first-in first-out queue for one thread at a time.
pub struct UnsafeQueue {
    queue: VecDeque<u64>,
    cap: usize,
}

impl View for UnsafeQueue {
    type V = Seq<u64>;

    /// The values in the queue, oldest first.
    closed spec fn view(&self) -> Seq<u64> {
        self.queue@
    }
}

impl UnsafeQueue {
    /// The number of values the queue takes.
    pub closed spec fn cap(&self) -> usize {
        self.cap
    }

    /// An empty queue that takes no value yet.
    pub fn allocate() -> (queue: Self)
        ensures
            queue@ == Seq::<u64>::empty(),
            queue.cap() == 0,
    {
        UnsafeQueue { queue: VecDeque::new(), cap: 0 }
    }

    /// Sets the number of values the queue takes. The values in it stay.
    pub fn init(&mut self, cap: usize)
        ensures
            final(self)@ == old(self)@,
            final(self).cap() == cap,
    {
        self.cap = cap;
    }

    /// Appends `value` if the queue holds fewer values than it takes.
    /// Returns whether it did.
    pub fn try_push(&mut self, value: u64) -> (pushed: bool)
        ensures
            pushed == (old(self)@.len() < old(self).cap()),
            pushed ==> final(self)@ == old(self)@.push(value),
            !pushed ==> final(self)@ == old(self)@,
            final(self).cap() == old(self).cap(),
    {
        push_within(&mut self.queue, self.cap, value)
    }

    /// Takes the oldest value out, if there is one.
    pub fn try_pop(&mut self) -> (popped: Option<u64>)
        ensures
            popped == (if old(self)@.len() > 0 {
                Some(old(self)@[0])
            } else {
                None
            }),
            old(self)@.len() > 0 ==> final(self)@ == old(self)@.drop_first(),
            old(self)@.len() == 0 ==> final(self)@ == old(self)@,
            final(self).cap() == old(self).cap(),
    {
        pop_oldest(&mut self.queue)
    }

    /// Calls `f` with every value in the queue, oldest first.
    pub fn for_each<F: Fn(u64)>(&self, f: F)
        requires
            forall|value: u64| f.requires((value,)),
    {
        visit_all(&self.queue, f)
    }
}

/// A bounded queue that threads share by taking turns at a mutex. The
/// values are behind the mutex; the bound is not, since only a thread that
/// has the queue to itself can set it.
pub struct QueueWithMutex {
    cap: usize,
    inner: parking_lot::Mutex<VecDeque<u64>>,
}

impl QueueWithMutex {
    /// The number of values the queue takes.
    pub closed spec fn cap(&self) -> usize {
        self.cap
    }

    /// An empty queue that takes no value yet.
    pub fn allocate() -> (queue: Self)
        ensures
            queue.cap() == 0,
    {
        QueueWithMutex { cap: 0, inner: new_mutex(VecDeque::new()) }
    }

    /// Sets the number of values the queue takes. The values in it stay.
    pub fn init(&mut self, cap: usize)
        ensures
            final(self).cap() == cap,
    {
        self.cap = cap;
    }

    /// Calls `f` with every value in the queue, oldest first, with the
    /// mutex held: while it runs, `try_push` and `try_pop` give up, and a
    /// callback that calls `mark` itself waits for its own call to end.
    pub fn mark<F: Fn(u64)>(&self, f: F)
        requires
            forall|value: u64| f.requires((value,)),
    {
        let held = lock(&self.inner);
        visit_all(guarded(&held), f);
    }

    /// Appends `value` if the mutex is free and the queue has room, without
    /// blocking. Returns whether it did. A queue that takes no value never
    /// does.
    pub fn try_push(&self, value: u64) -> (pushed: bool)
        ensures
            self.cap() == 0 ==> !pushed,
    {
        match try_lock(&self.inner) {
            Some(mut held) => push_within(guarded_mut(&mut held), self.cap, value),
            None => false,
        }
    }

    /// Takes the oldest value out if the mutex is free and the queue holds
    /// one, without blocking.
    pub fn try_pop(&self) -> (popped: Option<u64>) {
        match try_lock(&self.inner) {
            Some(mut held) => pop_oldest(guarded_mut(&mut held)),
            None => None,
        }
    }
}

/// Appends `value` to `queue` if it holds fewer than `cap` values. Returns
/// whether it did.
pub fn push_within(queue: &mut VecDeque<u64>, cap: usize, value: u64) -> (pushed: bool)
    ensures
        pushed == (old(queue)@.len() < cap),
        pushed ==> final(queue)@ == old(queue)@.push(value),
        !pushed ==> final(queue)@ == old(queue)@,
{
    if queue.len() < cap {
        queue.push_back(value);
        true
    } else {
        false
    }
}

/// Takes the oldest value out of `queue`, if there is one.
pub fn pop_oldest(queue: &mut VecDeque<u64>) -> (popped: Option<u64>)
    ensures
        popped == (if old(queue)@.len() > 0 {
            Some(old(queue)@[0])
        } else {
            None
        }),
        old(queue)@.len() > 0 ==> final(queue)@ == old(queue)@.drop_first(),
        old(queue)@.len() == 0 ==> final(queue)@ == old(queue)@,
{
    let popped: Option<u64> = queue.pop_front();
    proof {
        if old(queue)@.len() > 0 {
            assert(queue@ =~= old(queue)@.drop_first());
        }
    }
    popped
}

/// Calls `f` with every value in `queue`, oldest first.
pub fn visit_all<F: Fn(u64)>(queue: &VecDeque<u64>, f: F)
    requires
        forall|value: u64| f.requires((value,)),
{
    let mut i: usize = 0;
    while i < queue.len()
        invariant
            forall|value: u64| f.requires((value,)),
        decreases queue.len() - i,
    {
        f(queue[i]);
        i = i + 1;
    }
}

} // verus!
