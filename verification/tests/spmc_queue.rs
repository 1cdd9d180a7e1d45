use rust_atomics::is_sync_and_send;
use rust_atomics::spmc_queue::window;
use rust_atomics::SpmcQueue;
use std::sync::atomic::{AtomicBool, AtomicUsize, Ordering};
use std::sync::Arc;
use std::sync::Mutex;

const END: u64 = u64::MAX;

fn new_q(cap: usize) -> Arc<SpmcQueue> {
    let mut queue = SpmcQueue::allocate();
    queue.init(cap + 1, 0);
    Arc::new(queue)
}

fn queue_of(capacity: usize) -> SpmcQueue {
    let mut queue = SpmcQueue::allocate();
    queue.init(capacity, 0);
    queue
}

#[test]
fn test_push_pop() {
    let q = new_q(3);
    assert_eq!(q.serialize(), vec![]);

    assert!(q.try_push(1));
    assert_eq!(q.serialize(), vec![1]);

    assert!(q.try_push(2));
    assert_eq!(q.serialize(), vec![1, 2]);

    assert!(q.try_push(3));
    assert_eq!(q.serialize(), vec![1, 2, 3]);

    assert_eq!(q.try_pop(), Some(1));
    assert_eq!(q.serialize(), vec![2, 3]);

    assert_eq!(q.try_pop(), Some(2));
    assert_eq!(q.serialize(), vec![3]);

    assert_eq!(q.try_pop(), Some(3));
    assert_eq!(q.serialize(), vec![]);

    assert_eq!(q.try_pop(), None);
}

#[test]
fn spmc_is_shared_between_threads() {
    assert!(is_sync_and_send::<SpmcQueue>());
}

#[test]
fn spmc_capacity_four_scenario() {
    let q = queue_of(4);
    assert_eq!(q.size(), 4);
    assert_eq!(q.mask(), 3);
    assert!(q.try_push(1));
    assert!(q.try_push(2));
    assert!(q.try_push(3));
    assert!(q.try_push(4));
    assert!(!q.try_push(5));
    assert_eq!(q.try_pop(), Some(1));
    assert_eq!(q.try_pop(), Some(2));
    assert_eq!(q.try_pop(), Some(3));
    assert_eq!(q.try_pop(), Some(4));
    assert!(q.try_push(5));
}

#[test]
fn spmc_pops_in_push_order_for_every_capacity() {
    let mut capacity: usize = 2;
    while capacity <= 1024 {
        let q = queue_of(capacity);
        for value in 0..capacity as u64 {
            assert!(q.try_push(value * 5 + 2));
        }
        assert_eq!(q.len(), capacity);
        for value in 0..capacity as u64 {
            assert_eq!(q.try_pop(), Some(value * 5 + 2));
        }
        assert_eq!(q.try_pop(), None);
        assert_eq!(q.len(), 0);
        capacity *= 2;
    }
}

#[test]
fn spmc_takes_exactly_its_capacity() {
    for capacity in [2usize, 8, 64] {
        let q = queue_of(capacity);
        for value in 0..capacity as u64 {
            assert!(q.try_push(value));
        }
        assert!(!q.try_push(1000));
        assert!(!q.try_push(1001));
        assert_eq!(q.len(), capacity);
        assert_eq!(q.try_pop(), Some(0));
        assert!(q.try_push(1002));
        assert!(!q.try_push(1003));
        for value in 1..capacity as u64 {
            assert_eq!(q.try_pop(), Some(value));
        }
        assert_eq!(q.try_pop(), Some(1002));
        assert_eq!(q.try_pop(), None);
    }
}

#[test]
fn spmc_a_failed_attempt_changes_nothing() {
    let q = queue_of(2);
    assert_eq!(q.try_pop(), None);
    assert_eq!(q.try_pop(), None);
    assert_eq!(q.len(), 0);
    assert!(q.try_push(1));
    assert!(q.try_push(2));
    assert!(!q.try_push(3));
    assert!(!q.try_push(4));
    assert_eq!(q.len(), 2);
    assert_eq!(q.serialize(), vec![1, 2]);
    assert_eq!(q.try_pop(), Some(1));
    assert_eq!(q.try_pop(), Some(2));
    assert_eq!(q.try_pop(), None);
}

#[test]
fn spmc_serialize_is_in_push_order_over_many_laps() {
    let q = queue_of(4);
    let mut next_in: u64 = 100;
    let mut next_out: u64 = 100;
    for round in 0..500usize {
        let burst = round % 4 + 1;
        for _ in 0..burst {
            assert!(q.try_push(next_in));
            next_in += 1;
        }
        assert_eq!(q.serialize(), (next_out..next_in).collect::<Vec<u64>>());
        assert_eq!(q.len(), burst);
        let keep = round % 2;
        for _ in 0..burst - keep {
            assert_eq!(q.try_pop(), Some(next_out));
            next_out += 1;
        }
        assert_eq!(q.serialize(), (next_out..next_in).collect::<Vec<u64>>());
        for _ in 0..keep {
            assert_eq!(q.try_pop(), Some(next_out));
            next_out += 1;
        }
    }
}

#[test]
fn spmc_foreach_walks_from_head_to_tail() {
    let q = queue_of(4);
    for value in 1..=4u64 {
        assert!(q.try_push(value));
    }
    assert_eq!(q.try_pop(), Some(1));
    assert_eq!(q.try_pop(), Some(2));
    assert!(q.try_push(5));
    let seen = Mutex::new(vec![]);
    q.foreach(|value| seen.lock().unwrap().push(value));
    assert_eq!(*seen.lock().unwrap(), vec![3, 4, 5]);
}

#[test]
fn spmc_mark_sees_the_values_and_leaves_them() {
    let q = queue_of(8);
    for value in [10u64, 20, 30] {
        assert!(q.try_push(value));
    }
    let seen = Mutex::new(vec![]);
    q.mark(|value| seen.lock().unwrap().push(value));
    assert_eq!(*seen.lock().unwrap(), vec![10, 20, 30]);
    assert_eq!(q.serialize(), vec![10, 20, 30]);
}

#[test]
fn spmc_pauser_gets_its_result_back() {
    let q = queue_of(2);
    assert!(q.try_push(4));
    assert_eq!(q.with_locked_consuming(|| q.serialize()), vec![4]);
    assert_eq!(q.with_locked_consuming(|| q.try_pop()), None);
    assert_eq!(q.try_pop(), Some(4));
}

#[test]
fn spmc_push_and_pop_do_not_block_when_they_need_not() {
    let q = queue_of(8);
    for value in 1..=8u64 {
        q.push(value);
    }
    for value in 1..=8u64 {
        assert_eq!(q.pop(), value);
    }
}

#[test]
fn spmc_init_empties_the_queue() {
    let mut q = queue_of(4);
    assert!(q.try_push(1));
    assert!(q.try_push(2));
    q.init(2, 0);
    assert_eq!(q.size(), 2);
    assert_eq!(q.serialize(), vec![]);
    assert_eq!(q.try_pop(), None);
    assert!(q.try_push(3));
    assert!(q.try_push(4));
    assert!(!q.try_push(5));
}

fn pop_until_end(q: &SpmcQueue) -> Vec<u64> {
    let mut out = vec![];
    loop {
        let value = q.pop();
        if value == END {
            return out;
        }
        out.push(value);
    }
}

#[test]
fn spmc_one_producer_one_consumer_deliver_each_value_once_in_order() {
    const K: u64 = 50_000;
    let q = queue_of(16);
    let popped: Vec<u64> = crossbeam_utils::thread::scope(|s| {
        let consumer = s.spawn(|_| pop_until_end(&q));
        for value in 1..=K {
            q.push(value);
        }
        q.push(END);
        consumer.join().unwrap()
    })
    .unwrap();
    assert_eq!(popped, (1..=K).collect::<Vec<u64>>());
    assert_eq!(q.serialize(), vec![]);
}

#[test]
fn spmc_pauses_run_beside_pushes_and_between_pops() {
    const K: u64 = 20_000;
    let q = queue_of(8);
    let stop = AtomicBool::new(false);
    let pauses = AtomicUsize::new(0);
    let popped: Vec<u64> = crossbeam_utils::thread::scope(|s| {
        let consumer = s.spawn(|_| pop_until_end(&q));
        let pauser = s.spawn(|_| {
            while !stop.load(Ordering::SeqCst) {
                let walked = q.with_locked_consuming(|| q.serialize());
                assert!(walked.len() <= 8);
                pauses.fetch_add(1, Ordering::SeqCst);
            }
        });
        for value in 1..=K {
            q.push(value);
        }
        q.push(END);
        let all = consumer.join().unwrap();
        stop.store(true, Ordering::SeqCst);
        pauser.join().unwrap();
        all
    })
    .unwrap();
    assert_eq!(popped, (1..=K).collect::<Vec<u64>>());
    assert!(pauses.load(Ordering::SeqCst) > 0);
}

#[test]
fn spmc_a_failed_pause_leaves_the_queue_in_use() {
    let q = queue_of(4);
    assert!(q.try_push(1));
    let outcome = crossbeam_utils::thread::scope(|s| {
        s.spawn(|_| {
            q.with_locked_consuming(|| {
                if q.try_pop().is_none() {
                    panic!("callback failed");
                }
            })
        })
        .join()
    })
    .unwrap();
    assert!(outcome.is_err());
    assert_eq!(q.try_pop(), Some(1));
    assert!(q.try_push(2));
    assert_eq!(q.pop(), 2);
}

#[test]
fn spmc_an_empty_queue_blocks_the_consumer_until_a_push() {
    let q = queue_of(2);
    let popped = AtomicUsize::new(0);
    crossbeam_utils::thread::scope(|s| {
        let consumer = s.spawn(|_| {
            let mut seen = vec![];
            for _ in 0..5 {
                seen.push(q.pop());
                popped.fetch_add(1, Ordering::SeqCst);
            }
            seen
        });
        for _ in 0..50 {
            assert_eq!(popped.load(Ordering::SeqCst), 0);
            std::hint::spin_loop();
        }
        for value in 1..=5u64 {
            q.push(value);
        }
        assert_eq!(consumer.join().unwrap(), vec![1, 2, 3, 4, 5]);
    })
    .unwrap();
    assert_eq!(q.len(), 0);
}

#[test]
fn window_is_the_distance_from_head_to_tail() {
    assert_eq!(window(0, 0, 4), 0);
    assert_eq!(window(0, 3, 4), 3);
    assert_eq!(window(5, 9, 4), 4);
    assert_eq!(window(7, 7, 8), 0);
    assert_eq!(window(usize::MAX, 1, 4), 2);
    assert_eq!(window(usize::MAX - 1, usize::MAX, 2), 1);
}

#[test]
fn window_is_never_wider_than_the_ring() {
    assert_eq!(window(0, 5, 4), 4);
    assert_eq!(window(3, 2, 4), 4);
    assert_eq!(window(1, 0, 2), 2);
    assert_eq!(window(0, usize::MAX, 1024), 1024);
}

#[test]
fn spmc_a_queue_without_a_ring_says_so() {
    let mut q = SpmcQueue::allocate();
    assert!(!q.is_initialized());
    q.init(2, 0);
    assert!(q.is_initialized());
}

#[test]
fn spmc_a_queue_without_a_ring_holds_nothing() {
    let q = SpmcQueue::allocate();
    assert_eq!(q.serialize(), vec![]);
    assert_eq!(q.len(), 0);
    let calls = AtomicUsize::new(0);
    q.foreach(|_| {
        calls.fetch_add(1, Ordering::SeqCst);
    });
    q.mark(|_| {
        calls.fetch_add(1, Ordering::SeqCst);
    });
    assert_eq!(calls.load(Ordering::SeqCst), 0);
}

#[test]
fn spmc_two_walks_in_a_row_are_equal() {
    let q = queue_of(4);
    for value in [5u64, 6, 7] {
        assert!(q.try_push(value));
    }
    assert_eq!(q.try_pop(), Some(5));
    assert_eq!(q.serialize(), q.serialize());
    assert_eq!(q.serialize(), vec![6, 7]);
    assert_eq!(q.len(), 2);
}

#[test]
fn spmc_a_failed_pop_gives_its_reservation_back() {
    let q = queue_of(2);
    assert_eq!(q.try_pop(), None);
    assert_eq!(q.try_pop(), None);
    assert!(q.try_push(1));
    assert_eq!(q.serialize(), vec![1]);
    assert_eq!(q.try_pop(), Some(1));
    assert_eq!(q.try_pop(), None);
    assert!(q.try_push(2));
    assert!(q.try_push(3));
    assert!(!q.try_push(4));
    assert_eq!(q.serialize(), vec![2, 3]);
}
