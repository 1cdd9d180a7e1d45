//! A counter that many threads share.

use vstd::prelude::*;
use std::sync::atomic::AtomicU64;
use std::sync::atomic::Ordering;

verus! {

/// The size of an [`AtomicCounter`] in bytes.
pub const ATOMIC_COUNTER_SIZE: usize = 8;

/// A counter that many threads share. What it stands at is for the other
/// threads to change at any moment, so no contract speaks of it.
#[derive(Debug)]
pub struct AtomicCounter {
    value: AtomicU64,
}

impl AtomicCounter {
    /// A counter that stands at `n`.
    pub fn new(n: u64) -> (counter: Self) {
        AtomicCounter { value: AtomicU64::new(n) }
    }

    /// Adds one to the counter; past `u64::MAX` it starts again at zero.
    pub fn inc(&self) {
        self.value.fetch_add(1, Ordering::Relaxed);
    }

    /// The number the counter stood at when it was read.
    pub fn read(&self) -> u64 {
        self.value.load(Ordering::Relaxed)
    }
}

} // verus!
