//! A counting semaphore: a number of permits that threads add to and take
//! from, and on which a thread without a permit can sleep.

use vstd::prelude::*;
use std::sync::atomic::AtomicU64;
use std::sync::atomic::Ordering;
use std::time::Duration;
use crate::park::Parker;

verus! {

/// What taking one permit leaves of `permits`: one less, or nothing to take.
pub open spec fn withdrawn(permits: u64) -> Option<u64> {
    if permits > 0 {
        Some((permits - 1) as u64)
    } else {
        None
    }
}

/// Takes one permit from a count of `permits`, if there is one.
pub fn withdraw(permits: u64) -> (left: Option<u64>)
    ensures
        left == withdrawn(permits),
{
    if permits > 0 {
        Some(permits - 1)
    } else {
        None
    }
}

/// A counting semaphore.
#[derive(Debug)]
pub struct Semaphore {
    permits: AtomicU64,
    parker: Parker,
}

/// Notifies a semaphore when it goes out of scope, also when the code in
/// between does not return.
pub(crate) struct NotifyOnExit<'a> {
    pub(crate) sem: &'a Semaphore,
}

impl<'a> Drop for NotifyOnExit<'a> {
    fn drop(&mut self)
        opens_invariants none
        no_unwind
    {
        self.sem.notify();
    }
}

impl Semaphore {
    /// A semaphore without permits.
    pub fn allocate() -> (sem: Self) {
        Semaphore { permits: AtomicU64::new(0), parker: Parker::new() }
    }

    /// Sets the number of permits to `initial`.
    pub fn init(&mut self, initial: u32) {
        self.permits = AtomicU64::new(initial as u64);
    }

    /// Adds one permit and wakes the threads asleep on the semaphore, of
    /// which at most one gets the permit.
    pub fn post(&self) {
        self.permits.fetch_add(1, Ordering::Release);
        self.parker.wake_all();
    }

    /// Wakes the threads asleep on the semaphore without adding a permit, so
    /// that those in [`Semaphore::wait_until`] try again. Call it after a
    /// change, other than a post, that can make their attempts succeed.
    pub fn notify(&self)
        opens_invariants none
        no_unwind
    {
        self.parker.wake_all();
    }

    /// Takes one permit if there is one, without blocking. Returns whether a
    /// permit was taken. A thread that loses the race for the counter
    /// `usize::MAX` times in a row gives up and returns `false`.
    pub fn try_wait(&self) -> (taken: bool) {
        let mut seen: u64 = self.permits.load(Ordering::Acquire);
        let mut lost: usize = 0;
        while lost < usize::MAX
            decreases usize::MAX - lost,
        {
            match withdraw(seen) {
                None => {
                    return false;
                },
                Some(left) => {
                    match self.permits.compare_exchange(
                        seen,
                        left,
                        Ordering::AcqRel,
                        Ordering::Acquire,
                    ) {
                        Ok(_) => {
                            return true;
                        },
                        Err(now) => {
                            seen = now;
                        },
                    }
                },
            }
            lost = lost + 1;
        }
        false
    }

    /// Tells whether the calling thread still lacks a permit, taking one if
    /// there is one.
    fn still_empty(&self) -> bool {
        !self.try_wait()
    }

    /// Blocks until a permit is there, and takes it.
    pub fn wait(&self) {
        self.parker.park_while(|| -> (keep: bool) { self.still_empty() });
    }

    /// Blocks until a permit is there or `duration` has passed. Returns
    /// whether a permit was taken.
    pub fn wait_for(&self, duration: Duration) -> (taken: bool) {
        !self.parker.park_while_for(|| -> (keep: bool) { self.still_empty() }, duration)
    }

    /// As [`Semaphore::wait_until`], for no longer than `duration`. Returns
    /// whether the attempt succeeded: `true` comes back only after an
    /// attempt that returned `true`.
    pub fn wait_until_for<F: Fn() -> bool>(&self, attempt: F, duration: Duration) -> (done: bool)
        requires
            attempt.requires(()),
        ensures
            done ==> attempt.ensures((), true),
    {
        let retry = &attempt;
        let keep_waiting = || -> (keep: bool)
            ensures !keep ==> retry.ensures((), true),
            {
                self.try_wait();
                !retry()
            };
        !self.parker.park_while_for(keep_waiting, duration)
    }

    /// Blocks until `attempt` succeeds. The attempt is made at once and again
    /// each time the semaphore is posted or notified; every attempt uses up
    /// one permit if there is one, but is made without one too.
    ///
    /// The attempt runs while the semaphore keeps its sleepers apart from
    /// its wakers: it must not post, notify or wait on this semaphore.
    pub fn wait_until<F: Fn() -> bool>(&self, attempt: F)
        requires
            attempt.requires(()),
    {
        self.parker.park_while(
            || -> (keep: bool)
                {
                    self.try_wait();
                    !attempt()
                },
        );
    }
}

} // verus!
