//! Fixed-capacity concurrent queues that a privileged thread can pause, with
//! the semaphore and the quiescence barrier they are built on.

use vstd::prelude::*;

pub mod counter;
pub mod fixed_size_object_pool;
pub mod flag;
pub mod gc_guard;
pub mod gc_protocol;
pub mod lock;
pub mod mpmc_cells;
pub mod mpmc_interleaving;
pub mod mpmc_protocol;
pub mod mpmc_queue;
pub mod park;
pub mod plain_counter;
pub mod queue;
pub mod queue_with_mutex;
pub mod ring;
pub mod sem;
pub mod sequence;
pub mod slow_object;
pub mod spmc_cells;
pub mod spmc_interleaving;
pub mod spmc_protocol;
pub mod spmc_queue;
pub mod sync;

pub use crate::counter::{AtomicCounter, ATOMIC_COUNTER_SIZE};
pub use crate::fixed_size_object_pool::{
    FixedSizeObjectPool, PooledItem, FIXED_SIZE_OBJECT_POOL_SIZE,
};
pub use crate::gc_guard::GcGuard;
pub use crate::mpmc_queue::{MpmcQueue, MPMC_QUEUE_OBJECT_SIZE};
pub use crate::plain_counter::{PlainCounter, PLAIN_COUNTER_SIZE};
pub use crate::queue::{Queue, QUEUE_SIZE};
pub use crate::queue_with_mutex::{QueueWithMutex, QUEUE_WITH_MUTEX_SIZE};
pub use crate::slow_object::{SlowObject, SLOW_OBJECT_SIZE};
pub use crate::spmc_queue::SpmcQueue;

verus! {

/// Holds for every type that can be shared with and sent to other threads;
/// for any other type the call does not compile.
pub fn is_sync_and_send<T: Sync + Send>() -> (yes: bool)
    ensures
        yes,
{
    true
}

} // verus!
