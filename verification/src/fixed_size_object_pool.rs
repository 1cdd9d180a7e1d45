//! A pool of a fixed number of objects that are made once and lent out.
//!
//! The objects stay in the pool; what goes round is their index. The free
//! indices wait in a `crossbeam_channel` channel, from which a borrower
//! takes one, waiting for no longer than the pool's timeout, and into which
//! it is put back.

use vstd::prelude::*;
use std::time::Duration;

verus! {

/// The size of a [`FixedSizeObjectPool`] in bytes.
pub const FIXED_SIZE_OBJECT_POOL_SIZE: usize = 72;

/// `crossbeam_channel::Sender`, the sending end of a channel, as an opaque
/// value.
#[verifier::external_type_specification]
#[verifier::external_body]
#[verifier::reject_recursive_types(T)]
pub struct ExSender<T>(crossbeam_channel::Sender<T>);

/// `crossbeam_channel::Receiver`, the receiving end of a channel, as an
/// opaque value.
#[verifier::external_type_specification]
#[verifier::external_body]
#[verifier::reject_recursive_types(T)]
pub struct ExReceiver<T>(crossbeam_channel::Receiver<T>);

/// `crossbeam_channel::SendError`, the message that could not be sent, as
/// an opaque value.
#[verifier::external_type_specification]
#[verifier::external_body]
#[verifier::reject_recursive_types(T)]
pub struct ExSendError<T>(crossbeam_channel::SendError<T>);

/// `crossbeam_channel::RecvTimeoutError`, with its two variants `Timeout`
/// and `Disconnected`.
#[verifier::external_type_specification]
pub struct ExRecvTimeoutError(crossbeam_channel::RecvTimeoutError);

/// `crossbeam_channel::unbounded`: the two ends of a new channel. Nothing
/// is claimed of them.
pub assume_specification<T>[ crossbeam_channel::unbounded::<T> ]() -> (crossbeam_channel::Sender<T>, crossbeam_channel::Receiver<T>);

/// `crossbeam_channel::Sender::send`: puts a message into the channel, or
/// hands it back if no receiver is left. Which of the two happens depends on
/// the other holders of the channel, so nothing is claimed of the result.
pub assume_specification<T>[ crossbeam_channel::Sender::<T>::send ](
    sender: &crossbeam_channel::Sender<T>,
    msg: T,
) -> Result<(), crossbeam_channel::SendError<T>>;

/// `crossbeam_channel::Receiver::recv_timeout`: takes the next message out
/// of the channel, waiting for one for no longer than `timeout`. What comes
/// back depends on the other holders of the channel and on the clock, so
/// nothing is claimed of the result.
pub assume_specification<T>[ crossbeam_channel::Receiver::<T>::recv_timeout ](
    receiver: &crossbeam_channel::Receiver<T>,
    timeout: Duration,
) -> Result<T, crossbeam_channel::RecvTimeoutError>;

/// `Duration::MAX`: the longest span there is. Nothing is claimed of it.
#[verifier::external_body]
fn forever() -> Duration {
    Duration::MAX
}

/// An object on loan: its index in the pool and the object itself.
pub struct PooledItem {
    pub idx: usize,
    pub rbobj: u64,
}

/// A pool of a fixed number of objects.
pub struct FixedSizeObjectPool {
    pool: Vec<u64>,
    tx: crossbeam_channel::Sender<usize>,
    rx: crossbeam_channel::Receiver<usize>,
    timeout: Duration,
}

impl View for FixedSizeObjectPool {
    type V = Seq<u64>;

    /// The objects of the pool, by index.
    closed spec fn view(&self) -> Seq<u64> {
        self.pool@
    }
}

impl FixedSizeObjectPool {
    /// A pool without objects, whose borrowers wait without end.
    pub fn new() -> (pool: Self)
        ensures
            pool@ == Seq::<u64>::empty(),
    {
        let (tx, rx) = crossbeam_channel::unbounded();
        FixedSizeObjectPool { pool: Vec::new(), tx, rx, timeout: forever() }
    }

    /// Fills the pool with `size` objects, each made by `make_obj(0)`, puts
    /// the index of each into the channel of free indices, and sets the
    /// time a borrower waits to `timeout_in_ms` milliseconds.
    pub fn init<F: Fn(u64) -> u64>(&mut self, size: usize, timeout_in_ms: u64, make_obj: F)
        requires
            make_obj.requires((0u64,)),
        ensures
            final(self)@.len() == size,
            forall|i: int| 0 <= i < size ==> make_obj.ensures((0u64,), #[trigger] final(self)@[i]),
    {
        self.timeout = Duration::from_millis(timeout_in_ms);
        self.pool = Vec::with_capacity(size);
        let mut idx: usize = 0;
        while idx < size
            invariant
                idx <= size,
                self.pool@.len() == idx,
                make_obj.requires((0u64,)),
                forall|i: int| 0 <= i < idx ==> make_obj.ensures((0u64,), #[trigger] self.pool@[i]),
            decreases size - idx,
        {
            self.pool.push(make_obj(0));
            let _ = self.tx.send(idx);
            idx = idx + 1;
        }
    }

    /// Calls `f` with every object of the pool, by index.
    pub fn mark<F: Fn(u64)>(&self, f: F)
        requires
            forall|object: u64| f.requires((object,)),
    {
        let mut i: usize = 0;
        while i < self.pool.len()
            invariant
                forall|object: u64| f.requires((object,)),
            decreases self.pool.len() - i,
        {
            f(self.pool[i]);
            i = i + 1;
        }
    }

    /// Borrows an object: takes a free index out of the channel, waiting
    /// for one for no longer than the pool's timeout. Returns `None` when
    /// the time ran out, or when the index taken is none of the pool's.
    pub fn checkout(&self) -> (item: Option<PooledItem>)
        ensures
            item matches Some(lent) ==> lent.idx < self@.len() && lent.rbobj == self@[
                lent.idx as int
            ],
    {
        hand_out(&self.pool, self.rx.recv_timeout(self.timeout))
    }

    /// Gives the object at `idx` back: puts the index into the channel of
    /// free indices. An index that is none of the pool's is put there too,
    /// and turned down when it comes out again.
    pub fn checkin(&self, idx: usize) {
        let _ = self.tx.send(idx);
    }
}

/// What [`lend`] returns: the object at `idx`, if the pool has one there.
pub open spec fn lent(objects: Seq<u64>, idx: usize) -> Option<PooledItem> {
    if idx < objects.len() {
        Some(PooledItem { idx, rbobj: objects[idx as int] })
    } else {
        None
    }
}

/// What a borrower gets for what came out of the channel of free indices:
/// the object at the index received, if the pool has one there, and nothing
/// when no index was received in time.
pub open spec fn handed_out(
    objects: Seq<u64>,
    received: Result<usize, crossbeam_channel::RecvTimeoutError>,
) -> Option<PooledItem> {
    match received {
        Ok(idx) => lent(objects, idx),
        Err(_) => None,
    }
}

/// Computes [`handed_out`].
pub fn hand_out(
    objects: &Vec<u64>,
    received: Result<usize, crossbeam_channel::RecvTimeoutError>,
) -> (item: Option<PooledItem>)
    ensures
        item == handed_out(objects@, received),
{
    match received {
        Ok(idx) => lend(objects, idx),
        Err(_) => None,
    }
}

/// Lends the object at `idx` of `objects`, if there is one.
pub fn lend(objects: &Vec<u64>, idx: usize) -> (item: Option<PooledItem>)
    ensures
        item == lent(objects@, idx),
{
    if idx < objects.len() {
        Some(PooledItem { idx, rbobj: objects[idx] })
    } else {
        None
    }
}

} // verus!
