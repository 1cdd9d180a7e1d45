//! The quiescence barrier: one pauser against many consumers.
//!
//! A consumer brackets each critical section by registering and
//! deregistering itself in a counter. A pauser raises a flag that keeps new
//! consumers out, waits for the counter to fall to zero, runs its callback
//! and lowers the flag again. Nothing here is a lock on the consumers' hot
//! path: a consumer reads the flag once and adds to the counter.
//!
//! The check of the flag and the registration are two steps. A pauser that
//! raises the flag between them sees a counter of zero and runs its callback
//! beside that one consumer. What the barrier does guarantee is stated and
//! proved over its model in [`crate::gc_protocol`].

use vstd::prelude::*;
use std::sync::atomic::AtomicBool;
use std::sync::atomic::AtomicUsize;
use std::sync::atomic::Ordering;
use crate::park::Parker;

verus! {

/// How often a waiting thread looks again before it goes to sleep.
pub const SPIN_LIMIT: usize = 128;

/// The barrier between one pauser and many consumers.
#[derive(Debug)]
pub struct GcGuard {
    locked: AtomicBool,
    count: AtomicUsize,
    parker: Parker,
}

/// `AtomicBool::store` of `false`, sequentially consistent. The store never
/// panics, which is all that is claimed of it.
#[verifier::external_body]
fn lower(flag: &AtomicBool)
    opens_invariants none
    no_unwind
{
    flag.store(false, Ordering::SeqCst);
}

/// Holds the flag up; lowers it when it goes out of scope, also when the
/// callback of the pause does not return.
struct Pause<'a> {
    guard: &'a GcGuard,
}

impl<'a> Drop for Pause<'a> {
    fn drop(&mut self)
        opens_invariants none
        no_unwind
    {
        self.guard.unlock();
    }
}

impl GcGuard {
    /// A barrier that is not locked and has no consumer inside.
    pub fn allocate() -> (guard: Self) {
        GcGuard { locked: AtomicBool::new(false), count: AtomicUsize::new(0), parker: Parker::new() }
    }

    /// Puts the barrier back into its first state: not locked, no consumer
    /// inside.
    pub fn init(&mut self) {
        self.locked = AtomicBool::new(false);
        self.count = AtomicUsize::new(0);
    }

    /// Registers the calling thread as a consumer inside its critical
    /// section. Every call is to be followed by one of
    /// [`GcGuard::remove_consumer`].
    pub fn add_consumer(&self) {
        self.count.fetch_add(1, Ordering::SeqCst);
    }

    /// Takes the calling thread's registration back, and wakes a pauser
    /// that may be waiting for it. It is for a thread that has called
    /// [`GcGuard::add_consumer`] before, once for each such call.
    pub fn remove_consumer(&self) {
        self.count.fetch_sub(1, Ordering::SeqCst);
        if self.is_locked() {
            self.parker.wake_all();
        }
    }

    /// Tells whether a consumer was registered at the moment of the call.
    pub fn has_consumers(&self) -> bool {
        let count: usize = self.count.load(Ordering::SeqCst);
        count != 0
    }

    /// Blocks until no consumer is registered: first by looking again up to
    /// [`SPIN_LIMIT`] times, then asleep until a consumer leaves.
    pub fn wait_for_no_consumers(&self) {
        let mut spins: usize = 0;
        while spins < SPIN_LIMIT
            decreases SPIN_LIMIT - spins,
        {
            if !self.has_consumers() {
                return;
            }
            spins = spins + 1;
        }
        self.parker.park_while(|| -> (keep: bool) { self.has_consumers() });
    }

    /// Raises the flag that keeps new consumers out. It is for the pauser,
    /// and to be followed by [`GcGuard::unlock`].
    pub fn lock(&self) {
        self.locked.store(true, Ordering::SeqCst);
    }

    /// Lowers the flag and wakes the consumers that wait for it. It is for
    /// the pauser that has raised the flag.
    pub fn unlock(&self)
        opens_invariants none
        no_unwind
    {
        lower(&self.locked);
        self.parker.wake_all();
    }

    /// Tells whether the flag was raised at the moment of the call.
    pub fn is_locked(&self) -> bool {
        self.locked.load(Ordering::SeqCst)
    }

    /// Blocks until the flag is down: first by looking again up to
    /// [`SPIN_LIMIT`] times, then asleep until the pauser unlocks.
    pub fn wait_until_unlocked(&self) {
        let mut spins: usize = 0;
        while spins < SPIN_LIMIT
            decreases SPIN_LIMIT - spins,
        {
            if !self.is_locked() {
                return;
            }
            spins = spins + 1;
        }
        self.parker.park_while(|| -> (keep: bool) { self.is_locked() });
    }

    /// Runs `f` as the pauser: raises the flag, waits until no consumer is
    /// registered, runs `f`, lowers the flag, and returns what `f` returned.
    /// The flag is lowered on every way out, also when `f` panics.
    ///
    /// Only one thread at a time may be the pauser; the barrier does not
    /// keep two of them apart. A callback that enters the barrier as a
    /// consumer waits for its own pause to end.
    pub fn acquire_as_gc<F: FnOnce() -> T, T>(&self, f: F) -> (out: T)
        requires
            f.requires(()),
        ensures
            f.ensures((), out),
    {
        self.lock();
        let _pause = Pause { guard: self };
        self.wait_for_no_consumers();
        f()
    }

    /// Runs `f` as a consumer: waits while the flag is seen raised,
    /// registers, runs `f`, deregisters, and returns what `f` returned.
    pub fn acquire_as_consumer<F: FnOnce() -> T, T>(&self, f: F) -> (out: T)
        requires
            f.requires(()),
        ensures
            f.ensures((), out),
    {
        if self.is_locked() {
            self.wait_until_unlocked();
        }
        self.add_consumer();
        let out = f();
        self.remove_consumer();
        out
    }

    /// Runs `f` as a consumer unless the flag is seen raised, in which case
    /// it returns `None` at once and `f` is not run.
    pub fn try_acquire_as_consumer<F: FnOnce() -> T, T>(&self, f: F) -> (out: Option<T>)
        requires
            f.requires(()),
        ensures
            out matches Some(v) ==> f.ensures((), v),
    {
        let locked: bool = self.is_locked();
        self.enter_unless(locked, f)
    }

    /// What [`GcGuard::try_acquire_as_consumer`] does once it has looked at
    /// the flag and seen `locked`: nothing if the flag was up; otherwise it
    /// registers, runs `f`, deregisters, and returns what `f` returned.
    pub fn enter_unless<F: FnOnce() -> T, T>(&self, locked: bool, f: F) -> (out: Option<T>)
        requires
            f.requires(()),
        ensures
            out is Some <==> !locked,
            out matches Some(v) ==> f.ensures((), v),
    {
        if locked {
            return None;
        }
        self.add_consumer();
        let out = f();
        self.remove_consumer();
        Some(out)
    }
}

} // verus!
