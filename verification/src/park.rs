//! Parking of idle threads on a `parking_lot` mutex and condition variable.
//!
//! A thread that has to wait for another thread's progress parks here until
//! a predicate of its own turns false; whoever changes what such a predicate
//! reads wakes the parked threads afterwards. The predicate is evaluated
//! with the parker's mutex held and the waker takes the same mutex before it
//! notifies, so a change is either seen by the predicate or followed by a
//! wake-up.

use vstd::prelude::*;
use std::time::Duration;
use crate::lock::new_mutex;

verus! {

/// `parking_lot::Condvar`, as an opaque value.
#[verifier::external_type_specification]
#[verifier::external_body]
pub struct ExCondvar(parking_lot::Condvar);

/// A place for threads to sleep on.
#[derive(Debug)]
pub struct Parker {
    gate: parking_lot::Mutex<()>,
    wake: parking_lot::Condvar,
}

/// `Duration::from_millis`: the span of so many milliseconds. Nothing is
/// claimed of it.
pub assume_specification[ Duration::from_millis ](millis: u64) -> Duration;

/// `parking_lot::Condvar::new`: a condition variable with no waiters.
/// Nothing is claimed of it.
pub assume_specification[ parking_lot::Condvar::new ]() -> parking_lot::Condvar;

impl Parker {
    /// A parker with nobody asleep on it.
    pub fn new() -> (parker: Self) {
        Parker { gate: new_mutex(()), wake: parking_lot::Condvar::new() }
    }

    /// Blocks the calling thread until `keep_waiting` answers `false`. The
    /// predicate is asked at once and again after every
    /// [`Parker::wake_all`].
    ///
    /// This is `parking_lot::Condvar::wait_while` on the parker's own mutex:
    /// it evaluates the predicate with the mutex held and sleeps until the
    /// next notification for as long as the answer is `true`. It may block
    /// for ever, and nothing is claimed of the state it returns in.
    #[verifier::external_body]
    pub(crate) fn park_while<F: Fn() -> bool>(&self, keep_waiting: F)
        requires
            keep_waiting.requires(()),
    {
        let mut held = self.gate.lock();
        self.wake.wait_while(&mut held, |_| keep_waiting());
    }

    /// As [`Parker::park_while`], for no longer than `timeout`. Returns
    /// `true` when the wait ended because the time ran out.
    ///
    /// This is `parking_lot::Condvar::wait_while_for` on the parker's own
    /// mutex, and the result is what `WaitTimeoutResult::timed_out` says of
    /// the wait. Which answer comes back depends on the clock and on the
    /// other threads. What is claimed is what the loop inside shows: it
    /// ends without a timeout only when the predicate has answered `false`.
    #[verifier::external_body]
    pub(crate) fn park_while_for<F: Fn() -> bool>(&self, keep_waiting: F, timeout: Duration) -> (timed_out: bool)
        requires
            keep_waiting.requires(()),
        ensures
            !timed_out ==> keep_waiting.ensures((), false),
    {
        let mut held = self.gate.lock();
        self.wake.wait_while_for(&mut held, |_| keep_waiting(), timeout).timed_out()
    }

    /// Wakes every thread parked here so that it asks its predicate again.
    /// Call it after changing anything a parked predicate reads.
    ///
    /// This is `parking_lot::Condvar::notify_all`, called with the parker's
    /// mutex held. Neither the lock nor the notification panics.
    #[verifier::external_body]
    pub(crate) fn wake_all(&self)
        opens_invariants none
        no_unwind
    {
        let held = self.gate.lock();
        self.wake.notify_all();
        drop(held);
    }
}

} // verus!
