//! A counter for one thread.

use vstd::prelude::*;

verus! {

/// The size of a [`PlainCounter`] in bytes.
pub const PLAIN_COUNTER_SIZE: usize = 8;

/// A counter for one thread.
#[derive(Debug)]
pub struct PlainCounter {
    value: u64,
}

impl View for PlainCounter {
    type V = u64;

    /// The number the counter stands at.
    closed spec fn view(&self) -> u64 {
        self.value
    }
}

impl PlainCounter {
    /// A counter that stands at `n`.
    pub fn new(n: u64) -> (counter: Self)
        ensures
            counter@ == n,
    {
        PlainCounter { value: n }
    }

    /// Adds one to the counter.
    pub fn inc(&mut self)
        requires
            old(self)@ < u64::MAX,
        ensures
            final(self)@ == old(self)@ + 1,
    {
        self.value = self.value + 1;
    }

    /// The number the counter stands at.
    pub fn read(&self) -> (n: u64)
        ensures
            n == self@,
    {
        self.value
    }
}

} // verus!
