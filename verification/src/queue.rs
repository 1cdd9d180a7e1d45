//! The mutex-guarded queue under its short name.

use vstd::prelude::*;
use crate::queue_with_mutex::{QueueWithMutex, QUEUE_WITH_MUTEX_SIZE};

verus! {

/// The size of a [`Queue`] in bytes.
pub const QUEUE_SIZE: usize = QUEUE_WITH_MUTEX_SIZE;

/// A bounded queue that threads share by taking turns at a mutex.
pub type Queue = QueueWithMutex;

} // verus!
