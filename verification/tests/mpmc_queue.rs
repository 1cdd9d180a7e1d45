use rust_atomics::is_sync_and_send;
use rust_atomics::{MpmcQueue, MPMC_QUEUE_OBJECT_SIZE};
use std::sync::atomic::{AtomicBool, AtomicUsize, Ordering};
use std::sync::Mutex;

const END: u64 = u64::MAX;

#[test]
fn test_mpmc_queue_size() {
    assert_eq!(
        MPMC_QUEUE_OBJECT_SIZE,
        std::mem::size_of::<MpmcQueue>(),
        "size mismatch"
    );

    assert!(is_sync_and_send::<MpmcQueue>());
}

#[test]
fn mpmc_capacity_four_scenario() {
    let q = MpmcQueue::new(4, 0);
    assert!(q.try_push(1));
    assert!(q.try_push(2));
    assert!(q.try_push(3));
    assert!(q.try_push(4));
    assert!(!q.try_push(5));
    assert_eq!(q.try_pop(), Some(1));
    assert_eq!(q.try_pop(), Some(2));
    assert_eq!(q.try_pop(), Some(3));
    assert_eq!(q.try_pop(), Some(4));
    assert!(q.try_push(5));
}

#[test]
fn mpmc_pops_in_push_order_for_every_capacity() {
    let mut capacity: usize = 2;
    while capacity <= 1024 {
        let q = MpmcQueue::new(capacity, 0);
        for value in 0..capacity as u64 {
            assert!(q.try_push(value * 3 + 1));
        }
        for value in 0..capacity as u64 {
            assert_eq!(q.try_pop(), Some(value * 3 + 1));
        }
        assert_eq!(q.try_pop(), None);
        capacity *= 2;
    }
}

#[test]
fn mpmc_takes_exactly_its_capacity() {
    for capacity in [2usize, 8, 64] {
        let q = MpmcQueue::new(capacity, 0);
        for value in 0..capacity as u64 {
            assert!(q.try_push(value));
        }
        assert!(!q.try_push(1000));
        assert!(!q.try_push(1001));
        assert_eq!(q.try_pop(), Some(0));
        assert!(q.try_push(1002));
        assert!(!q.try_push(1003));
        for value in 1..capacity as u64 {
            assert_eq!(q.try_pop(), Some(value));
        }
        assert_eq!(q.try_pop(), Some(1002));
        assert_eq!(q.try_pop(), None);
    }
}

#[test]
fn mpmc_a_new_queue_is_empty() {
    let q = MpmcQueue::new(2, 9);
    assert_eq!(q.try_pop(), None);
    assert_eq!(q.try_pop(), None);
    assert!(q.try_push(1));
    assert_eq!(q.try_pop(), Some(1));
    assert_eq!(q.try_pop(), None);
}

#[test]
fn mpmc_keeps_order_over_many_laps() {
    let q = MpmcQueue::new(4, 0);
    let mut next_in: u64 = 0;
    let mut next_out: u64 = 0;
    for round in 0..1000usize {
        let burst = round % 4 + 1;
        for _ in 0..burst {
            assert!(q.try_push(next_in));
            next_in += 1;
        }
        for _ in 0..burst {
            assert_eq!(q.try_pop(), Some(next_out));
            next_out += 1;
        }
    }
    assert_eq!(q.try_pop(), None);
}

#[test]
fn mpmc_push_and_pop_do_not_block_when_they_need_not() {
    let q = MpmcQueue::new(8, 0);
    for value in 1..=8u64 {
        q.push(value);
    }
    for value in 1..=8u64 {
        assert_eq!(q.pop(), value);
    }
    q.push(99);
    assert_eq!(q.try_pop(), Some(99));
}

#[test]
fn mpmc_pauser_gets_its_result_back() {
    let q = MpmcQueue::new(2, 0);
    assert_eq!(q.acquire_as_gc(|| 17), 17);
    assert!(q.try_push(1));
    assert_eq!(q.try_pop(), Some(1));
}

#[test]
fn mpmc_try_pop_gives_up_during_a_pause() {
    let q = MpmcQueue::new(2, 0);
    assert!(q.try_push(1));
    let during = q.acquire_as_gc(|| q.try_pop());
    assert_eq!(during, None);
    assert_eq!(q.try_pop(), Some(1));
}

#[test]
fn mpmc_try_push_goes_on_during_a_pause() {
    let q = MpmcQueue::new(2, 0);
    let during = q.acquire_as_gc(|| (q.try_push(1), q.try_push(2), q.try_push(3)));
    assert_eq!(during, (true, true, false));
    assert_eq!(q.try_pop(), Some(1));
    assert_eq!(q.try_pop(), Some(2));
}

#[test]
fn mpmc_foreach_visits_every_slot_once() {
    let q = MpmcQueue::new(4, 7);
    let seen = Mutex::new(vec![]);
    q.foreach(|value| seen.lock().unwrap().push(value));
    assert_eq!(*seen.lock().unwrap(), vec![7, 7, 7, 7]);

    assert!(q.try_push(1));
    assert!(q.try_push(2));
    assert!(q.try_push(3));
    assert_eq!(q.try_pop(), Some(1));
    seen.lock().unwrap().clear();
    q.foreach(|value| seen.lock().unwrap().push(value));
    assert_eq!(*seen.lock().unwrap(), vec![1, 2, 3, 7]);

    assert!(q.try_push(4));
    assert!(q.try_push(5));
    seen.lock().unwrap().clear();
    q.foreach(|value| seen.lock().unwrap().push(value));
    assert_eq!(*seen.lock().unwrap(), vec![5, 2, 3, 4]);
}

#[test]
fn mpmc_mark_sees_the_resident_values_and_leaves_them() {
    let q = MpmcQueue::new(4, 0);
    for value in [10u64, 20, 30, 40] {
        assert!(q.try_push(value));
    }
    let sum = AtomicUsize::new(0);
    let calls = AtomicUsize::new(0);
    q.mark(|value| {
        sum.fetch_add(value as usize, Ordering::SeqCst);
        calls.fetch_add(1, Ordering::SeqCst);
    });
    assert_eq!(calls.load(Ordering::SeqCst), 4);
    assert_eq!(sum.load(Ordering::SeqCst), 100);
    for value in [10u64, 20, 30, 40] {
        assert_eq!(q.try_pop(), Some(value));
    }
}

fn pop_until_end(q: &MpmcQueue) -> Vec<u64> {
    let mut out = vec![];
    loop {
        let value = q.pop();
        if value == END {
            return out;
        }
        out.push(value);
    }
}

#[test]
fn mpmc_one_producer_many_consumers_deliver_each_value_once() {
    const K: u64 = 20_000;
    const C: usize = 4;
    let q = MpmcQueue::new(16, 0);
    let mut popped: Vec<u64> = crossbeam_utils::thread::scope(|s| {
        let mut consumers = vec![];
        for _ in 0..C {
            consumers.push(s.spawn(|_| pop_until_end(&q)));
        }
        for value in 1..=K {
            q.push(value);
        }
        for _ in 0..C {
            q.push(END);
        }
        let mut all = vec![];
        for consumer in consumers {
            let mine = consumer.join().unwrap();
            for pair in mine.windows(2) {
                assert!(pair[0] < pair[1], "a consumer saw {} before {}", pair[0], pair[1]);
            }
            all.extend(mine);
        }
        all
    })
    .unwrap();
    popped.sort_unstable();
    assert_eq!(popped.len() as u64, K);
    assert_eq!(popped.first(), Some(&1));
    for pair in popped.windows(2) {
        assert_eq!(pair[0] + 1, pair[1]);
    }
    assert_eq!(popped, (1..=K).collect::<Vec<u64>>());
}

#[test]
fn mpmc_many_producers_many_consumers_deliver_each_value_once() {
    const P: u64 = 4;
    const PER_PRODUCER: u64 = 5_000;
    const C: usize = 3;
    let q = MpmcQueue::new(8, 0);
    let mut popped: Vec<u64> = crossbeam_utils::thread::scope(|s| {
        let mut consumers = vec![];
        for _ in 0..C {
            consumers.push(s.spawn(|_| pop_until_end(&q)));
        }
        let mut producers = vec![];
        for p in 0..P {
            let q = &q;
            producers.push(s.spawn(move |_| {
                for i in 0..PER_PRODUCER {
                    q.push(p * PER_PRODUCER + i + 1);
                }
            }));
        }
        for producer in producers {
            producer.join().unwrap();
        }
        for _ in 0..C {
            q.push(END);
        }
        let mut all = vec![];
        for consumer in consumers {
            all.extend(consumer.join().unwrap());
        }
        all
    })
    .unwrap();
    popped.sort_unstable();
    assert_eq!(popped, (1..=P * PER_PRODUCER).collect::<Vec<u64>>());
}

#[test]
fn mpmc_pauses_run_beside_pushes_and_between_pops() {
    const K: u64 = 5_000;
    const C: usize = 3;
    let q = MpmcQueue::new(8, 0);
    let stop = AtomicBool::new(false);
    let pauses = AtomicUsize::new(0);
    let mut popped: Vec<u64> = crossbeam_utils::thread::scope(|s| {
        let mut consumers = vec![];
        for _ in 0..C {
            consumers.push(s.spawn(|_| pop_until_end(&q)));
        }
        let pauser = s.spawn(|_| {
            while !stop.load(Ordering::SeqCst) {
                let slots = AtomicUsize::new(0);
                q.mark(|_| {
                    slots.fetch_add(1, Ordering::SeqCst);
                });
                assert_eq!(slots.load(Ordering::SeqCst), 8);
                pauses.fetch_add(1, Ordering::SeqCst);
            }
        });
        for value in 1..=K {
            q.push(value);
        }
        for _ in 0..C {
            q.push(END);
        }
        let mut all = vec![];
        for consumer in consumers {
            all.extend(consumer.join().unwrap());
        }
        stop.store(true, Ordering::SeqCst);
        pauser.join().unwrap();
        all
    })
    .unwrap();
    popped.sort_unstable();
    assert_eq!(popped, (1..=K).collect::<Vec<u64>>());
    assert!(pauses.load(Ordering::SeqCst) > 0);
}

#[test]
fn mpmc_a_full_queue_blocks_the_producer_until_a_pop() {
    let q = MpmcQueue::new(2, 0);
    let pushed = AtomicUsize::new(0);
    crossbeam_utils::thread::scope(|s| {
        s.spawn(|_| {
            for value in 1..=5u64 {
                q.push(value);
                pushed.fetch_add(1, Ordering::SeqCst);
            }
        });
        while pushed.load(Ordering::SeqCst) < 2 {
            std::hint::spin_loop();
        }
        for _ in 0..50 {
            assert_eq!(pushed.load(Ordering::SeqCst), 2);
            std::hint::spin_loop();
        }
        for value in 1..=5u64 {
            assert_eq!(q.pop(), value);
        }
    })
    .unwrap();
    assert_eq!(pushed.load(Ordering::SeqCst), 5);
    assert_eq!(q.try_pop(), None);
}

#[test]
fn mpmc_a_failed_pause_leaves_the_queue_in_use() {
    let q = MpmcQueue::new(4, 0);
    assert!(q.try_push(1));
    let outcome = crossbeam_utils::thread::scope(|s| {
        s.spawn(|_| {
            q.acquire_as_gc(|| {
                if q.try_pop().is_none() {
                    panic!("callback failed");
                }
            })
        })
        .join()
    })
    .unwrap();
    assert!(outcome.is_err());
    assert_eq!(q.try_pop(), Some(1));
    assert!(q.try_push(2));
    assert_eq!(q.pop(), 2);
}

#[test]
fn mpmc_a_queue_without_a_ring_says_so() {
    let mut q = MpmcQueue::allocate();
    assert!(!q.is_initialized());
    q.init(2, 0);
    assert!(q.is_initialized());
    assert!(MpmcQueue::new(8, 0).is_initialized());
}

#[test]
fn mpmc_init_empties_the_queue() {
    let mut q = MpmcQueue::new(4, 0);
    assert!(q.try_push(1));
    assert!(q.try_push(2));
    assert_eq!(q.try_pop(), Some(1));
    q.init(2, 5);
    assert_eq!(q.try_pop(), None);
    assert!(q.try_push(3));
    assert!(q.try_push(4));
    assert!(!q.try_push(5));
    assert_eq!(q.try_pop(), Some(3));
}
