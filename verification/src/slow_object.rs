//! An object whose operations take long, for trying out pauses.

use vstd::prelude::*;

verus! {

/// The size of a [`SlowObject`] in bytes.
pub const SLOW_OBJECT_SIZE: usize = 8;

/// An object whose operations take long.
pub struct SlowObject {
    n: u64,
}

impl View for SlowObject {
    type V = u64;

    /// The number the object was given.
    closed spec fn view(&self) -> u64 {
        self.n
    }
}

impl SlowObject {
    /// An object with the number zero.
    pub fn allocate() -> (slow: Self)
        ensures
            slow@ == 0,
    {
        SlowObject { n: 0 }
    }

    /// Gives the object the number `n`.
    pub fn init(&mut self, n: u64)
        ensures
            final(self)@ == n,
    {
        self.n = n;
    }
}

} // verus!
