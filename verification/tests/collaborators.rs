use rust_atomics::fixed_size_object_pool::{hand_out, lend};
use rust_atomics::is_sync_and_send;
use rust_atomics::queue_with_mutex::{pop_oldest, push_within, visit_all, UnsafeQueue};
use std::collections::VecDeque;
use rust_atomics::sync::model;
use rust_atomics::{
    FixedSizeObjectPool, Queue, QueueWithMutex, SlowObject, FIXED_SIZE_OBJECT_POOL_SIZE,
    QUEUE_SIZE, QUEUE_WITH_MUTEX_SIZE,
};
use std::sync::atomic::{AtomicU64, AtomicUsize, Ordering};
use std::sync::Mutex;
use std::time::{Duration, Instant};

#[test]
fn fixed_size_object_pool_test_concurrent_hash_map() {
    assert_eq!(
        FIXED_SIZE_OBJECT_POOL_SIZE,
        std::mem::size_of::<FixedSizeObjectPool>(),
        "size mismatch"
    );
    assert!(is_sync_and_send::<FixedSizeObjectPool>());
}

#[test]
fn queue_test_queue() {
    assert_eq!(QUEUE_SIZE, std::mem::size_of::<Queue>(), "size mismatch");
    assert!(is_sync_and_send::<Queue>());
}

#[test]
fn queue_with_mutex_test_queue() {
    assert_eq!(
        QUEUE_WITH_MUTEX_SIZE,
        std::mem::size_of::<QueueWithMutex>(),
        "size mismatch"
    );
    assert!(is_sync_and_send::<QueueWithMutex>());
}

#[test]
fn unsafe_queue_is_a_bounded_fifo() {
    let mut q = UnsafeQueue::allocate();
    assert!(!q.try_push(1));
    assert_eq!(q.try_pop(), None);
    q.init(2);
    assert!(q.try_push(1));
    assert!(q.try_push(2));
    assert!(!q.try_push(3));
    assert_eq!(q.try_pop(), Some(1));
    assert!(q.try_push(3));
    assert_eq!(q.try_pop(), Some(2));
    assert_eq!(q.try_pop(), Some(3));
    assert_eq!(q.try_pop(), None);
}

#[test]
fn unsafe_queue_keeps_its_values_when_the_bound_changes() {
    let mut q = UnsafeQueue::allocate();
    q.init(3);
    assert!(q.try_push(1));
    assert!(q.try_push(2));
    assert!(q.try_push(3));
    q.init(1);
    assert!(!q.try_push(4));
    assert_eq!(q.try_pop(), Some(1));
    assert_eq!(q.try_pop(), Some(2));
    assert!(!q.try_push(4));
    assert_eq!(q.try_pop(), Some(3));
    assert!(q.try_push(4));
}

#[test]
fn unsafe_queue_for_each_goes_oldest_first() {
    let mut q = UnsafeQueue::allocate();
    q.init(4);
    for value in [5u64, 6, 7] {
        assert!(q.try_push(value));
    }
    assert_eq!(q.try_pop(), Some(5));
    assert!(q.try_push(8));
    let seen = Mutex::new(vec![]);
    q.for_each(|value| seen.lock().unwrap().push(value));
    assert_eq!(*seen.lock().unwrap(), vec![6, 7, 8]);
}

#[test]
fn queue_with_mutex_is_a_bounded_fifo() {
    let mut q = QueueWithMutex::allocate();
    assert!(!q.try_push(1));
    q.init(2);
    assert!(q.try_push(1));
    assert!(q.try_push(2));
    assert!(!q.try_push(3));
    assert_eq!(q.try_pop(), Some(1));
    assert_eq!(q.try_pop(), Some(2));
    assert_eq!(q.try_pop(), None);
}

#[test]
fn queue_with_mutex_mark_sees_every_value() {
    let mut q = QueueWithMutex::allocate();
    q.init(3);
    for value in [10u64, 20, 30] {
        assert!(q.try_push(value));
    }
    let seen = Mutex::new(vec![]);
    q.mark(|value| seen.lock().unwrap().push(value));
    assert_eq!(*seen.lock().unwrap(), vec![10, 20, 30]);
    assert_eq!(q.try_pop(), Some(10));
}

#[test]
fn queue_with_mutex_gives_up_while_the_mutex_is_held() {
    let mut q = QueueWithMutex::allocate();
    q.init(4);
    assert!(q.try_push(1));
    let during = Mutex::new(None);
    q.mark(|_| {
        *during.lock().unwrap() = Some((q.try_push(2), q.try_pop()));
    });
    assert_eq!(*during.lock().unwrap(), Some((false, None)));
    assert_eq!(q.try_pop(), Some(1));
    assert_eq!(q.try_pop(), None);
}

#[test]
fn queue_is_the_queue_with_mutex() {
    let mut q = Queue::allocate();
    q.init(1);
    assert!(q.try_push(9));
    assert!(!q.try_push(10));
    assert_eq!(q.try_pop(), Some(9));
}

#[test]
fn lend_checks_the_index() {
    let objects = vec![11u64, 22, 33];
    let item = lend(&objects, 1).unwrap();
    assert_eq!((item.idx, item.rbobj), (1, 22));
    let item = lend(&objects, 2).unwrap();
    assert_eq!((item.idx, item.rbobj), (2, 33));
    assert!(lend(&objects, 3).is_none());
    assert!(lend(&vec![], 0).is_none());
}

#[test]
fn pool_lends_every_object_once() {
    let made = AtomicU64::new(0);
    let mut pool = FixedSizeObjectPool::new();
    pool.init(3, 10, |seed| {
        assert_eq!(seed, 0);
        100 + made.fetch_add(1, Ordering::SeqCst)
    });
    assert_eq!(made.load(Ordering::SeqCst), 3);
    let a = pool.checkout().unwrap();
    let b = pool.checkout().unwrap();
    let c = pool.checkout().unwrap();
    assert_eq!((a.idx, a.rbobj), (0, 100));
    assert_eq!((b.idx, b.rbobj), (1, 101));
    assert_eq!((c.idx, c.rbobj), (2, 102));
    assert!(pool.checkout().is_none());
}

#[test]
fn pool_checkout_waits_for_its_timeout() {
    let mut pool = FixedSizeObjectPool::new();
    pool.init(1, 100, |_| 7);
    assert!(pool.checkout().is_some());
    let start = Instant::now();
    assert!(pool.checkout().is_none());
    let waited = start.elapsed();
    assert!(waited >= Duration::from_millis(100), "waited {:?}", waited);
    assert!(waited < Duration::from_millis(2000), "waited {:?}", waited);
}

#[test]
fn pool_lends_again_what_was_given_back() {
    let mut pool = FixedSizeObjectPool::new();
    pool.init(2, 10, |_| 5);
    let a = pool.checkout().unwrap();
    let b = pool.checkout().unwrap();
    assert!(pool.checkout().is_none());
    pool.checkin(b.idx);
    pool.checkin(a.idx);
    assert_eq!(pool.checkout().unwrap().idx, 1);
    assert_eq!(pool.checkout().unwrap().idx, 0);
    assert!(pool.checkout().is_none());
}

#[test]
fn pool_mark_sees_every_object() {
    let next = AtomicU64::new(1);
    let mut pool = FixedSizeObjectPool::new();
    pool.init(4, 10, |_| next.fetch_add(1, Ordering::SeqCst));
    let _lent = pool.checkout().unwrap();
    let seen = Mutex::new(vec![]);
    pool.mark(|object| seen.lock().unwrap().push(object));
    assert_eq!(*seen.lock().unwrap(), vec![1, 2, 3, 4]);
}

#[test]
fn an_empty_pool_has_nothing_to_lend() {
    let mut pool = FixedSizeObjectPool::new();
    pool.init(0, 1, |_| 0);
    assert!(pool.checkout().is_none());
    let calls = AtomicUsize::new(0);
    pool.mark(|_| {
        calls.fetch_add(1, Ordering::SeqCst);
    });
    assert_eq!(calls.load(Ordering::SeqCst), 0);
}

#[test]
fn pool_hands_an_object_from_thread_to_thread() {
    let mut pool = FixedSizeObjectPool::new();
    pool.init(1, 5_000, |_| 77);
    let first = pool.checkout().unwrap();
    crossbeam_utils::thread::scope(|s| {
        let waiter = s.spawn(|_| pool.checkout().map(|item| (item.idx, item.rbobj)));
        pool.checkin(first.idx);
        assert_eq!(waiter.join().unwrap(), Some((0, 77)));
    })
    .unwrap();
}

#[test]
fn model_runs_its_closure_once() {
    static RUNS: AtomicUsize = AtomicUsize::new(0);
    model(|| {
        RUNS.fetch_add(1, Ordering::SeqCst);
    });
    assert_eq!(RUNS.load(Ordering::SeqCst), 1);
}

#[test]
fn slow_object_keeps_its_size() {
    let mut slow = SlowObject::allocate();
    slow.init(5);
    assert_eq!(std::mem::size_of_val(&slow), 8);
}

#[test]
fn hand_out_goes_by_what_was_received() {
    let objects = vec![11u64, 22, 33];
    let item = hand_out(&objects, Ok(2)).unwrap();
    assert_eq!((item.idx, item.rbobj), (2, 33));
    let item = hand_out(&objects, Ok(0)).unwrap();
    assert_eq!((item.idx, item.rbobj), (0, 11));
    assert!(hand_out(&objects, Ok(3)).is_none());
    assert!(hand_out(&objects, Err(crossbeam_channel::RecvTimeoutError::Timeout)).is_none());
    assert!(hand_out(&objects, Err(crossbeam_channel::RecvTimeoutError::Disconnected)).is_none());
}

#[test]
fn push_within_keeps_to_the_bound() {
    let mut queue = VecDeque::new();
    assert!(!push_within(&mut queue, 0, 1));
    assert!(push_within(&mut queue, 2, 1));
    assert!(push_within(&mut queue, 2, 2));
    assert!(!push_within(&mut queue, 2, 3));
    assert!(push_within(&mut queue, 3, 3));
    assert_eq!(queue, VecDeque::from(vec![1, 2, 3]));
}

#[test]
fn pop_oldest_takes_from_the_front() {
    let mut queue = VecDeque::from(vec![7u64, 8, 9]);
    assert_eq!(pop_oldest(&mut queue), Some(7));
    assert_eq!(pop_oldest(&mut queue), Some(8));
    assert_eq!(queue, VecDeque::from(vec![9]));
    assert_eq!(pop_oldest(&mut queue), Some(9));
    assert_eq!(pop_oldest(&mut queue), None);
}

#[test]
fn visit_all_goes_oldest_first() {
    let queue = VecDeque::from(vec![4u64, 5, 6]);
    let seen = Mutex::new(vec![]);
    visit_all(&queue, |value| seen.lock().unwrap().push(value));
    assert_eq!(*seen.lock().unwrap(), vec![4, 5, 6]);
}

#[test]
fn queue_with_mutex_keeps_its_values_when_the_bound_changes() {
    let mut q = QueueWithMutex::allocate();
    q.init(2);
    assert!(q.try_push(1));
    assert!(q.try_push(2));
    q.init(0);
    assert!(!q.try_push(3));
    assert_eq!(q.try_pop(), Some(1));
    assert!(!q.try_push(3));
    q.init(2);
    assert!(q.try_push(3));
    assert_eq!(q.try_pop(), Some(2));
    assert_eq!(q.try_pop(), Some(3));
}
