//! The `parking_lot` mutex, as far as the library uses it.
//!
//! A mutex keeps a value that threads take turns with. What a thread finds
//! in it was left there by whichever thread held it last, so nothing is
//! claimed of the value behind a guard.

use vstd::prelude::*;

verus! {

/// `lock_api::Mutex`, which `parking_lot::Mutex` is an alias of, as an
/// opaque value.
#[verifier::external_type_specification]
#[verifier::external_body]
#[verifier::reject_recursive_types(R)]
#[verifier::reject_recursive_types(T)]
pub struct ExMutex<R, T: ?Sized>(parking_lot::lock_api::Mutex<R, T>);

/// A held mutex: the `parking_lot::MutexGuard` that `lock` and `try_lock`
/// give out. The mutex is released when the value goes out of scope.
///
/// The guard is kept behind a struct of the library because its own
/// declaration is bounded by `lock_api::RawMutex`, a trait that has no
/// declaration here.
#[verifier::external_body]
#[verifier::reject_recursive_types(T)]
pub struct Held<'a, T> {
    guard: parking_lot::MutexGuard<'a, T>,
}

/// `parking_lot::RawMutex`, the lock inside a `parking_lot::Mutex`, as an
/// opaque value.
#[verifier::external_type_specification]
#[verifier::external_body]
pub struct ExRawMutex(parking_lot::RawMutex);

/// `parking_lot::Mutex::new`: an unlocked mutex that keeps `value`. Nothing
/// is claimed of it.
#[verifier::external_body]
pub(crate) fn new_mutex<T>(value: T) -> parking_lot::Mutex<T> {
    parking_lot::Mutex::new(value)
}

/// `parking_lot::Mutex::lock`: blocks until the mutex is the caller's and
/// returns the guard that holds it. A thread that holds the mutex already
/// would wait for itself; no caller in the library does. Nothing is claimed
/// of the guard.
#[verifier::external_body]
pub(crate) fn lock<T>(mutex: &parking_lot::Mutex<T>) -> Held<'_, T> {
    Held { guard: mutex.lock() }
}

/// `parking_lot::Mutex::try_lock`: the guard if the mutex was free, `None`
/// if it is held. Which of the two comes back depends on the other threads,
/// so nothing is claimed of the result.
#[verifier::external_body]
pub(crate) fn try_lock<T>(mutex: &parking_lot::Mutex<T>) -> Option<Held<'_, T>> {
    mutex.try_lock().map(|guard| Held { guard })
}

/// The value behind a guard, for reading: `Deref::deref` of
/// `parking_lot::MutexGuard`. Nothing is claimed of the value.
#[verifier::external_body]
pub(crate) fn guarded<'a, T>(held: &'a Held<'_, T>) -> &'a T {
    &held.guard
}

/// The value behind a guard, for writing: `DerefMut::deref_mut` of
/// `parking_lot::MutexGuard`. Nothing is claimed of the value.
#[verifier::external_body]
pub(crate) fn guarded_mut<'a, T>(held: &'a mut Held<'_, T>) -> &'a mut T {
    &mut held.guard
}

} // verus!
