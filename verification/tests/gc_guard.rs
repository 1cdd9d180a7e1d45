use rust_atomics::is_sync_and_send;
use rust_atomics::sem::Semaphore;
use rust_atomics::GcGuard;
use std::sync::atomic::{AtomicBool, AtomicUsize, Ordering};
use std::time::Duration;

#[test]
fn a_fresh_barrier_is_open() {
    let guard = GcGuard::allocate();
    assert!(!guard.is_locked());
    assert!(!guard.has_consumers());
    assert!(is_sync_and_send::<GcGuard>());
}

#[test]
fn the_pauser_gets_its_result_back() {
    let guard = GcGuard::allocate();
    assert_eq!(guard.acquire_as_gc(|| 42), 42);
    assert_eq!(guard.acquire_as_gc(|| "done"), "done");
    assert!(!guard.is_locked());
}

#[test]
fn the_barrier_is_locked_while_the_pauser_runs() {
    let guard = GcGuard::allocate();
    let seen = guard.acquire_as_gc(|| (guard.is_locked(), guard.has_consumers()));
    assert_eq!(seen, (true, false));
    assert!(!guard.is_locked());
}

#[test]
fn the_consumer_gets_its_result_back() {
    let guard = GcGuard::allocate();
    assert_eq!(guard.acquire_as_consumer(|| 7), 7);
    assert!(!guard.has_consumers());
}

#[test]
fn the_consumer_is_registered_while_it_runs() {
    let guard = GcGuard::allocate();
    let seen = guard.acquire_as_consumer(|| (guard.is_locked(), guard.has_consumers()));
    assert_eq!(seen, (false, true));
    assert!(!guard.has_consumers());
}

#[test]
fn consumers_nest_and_count() {
    let guard = GcGuard::allocate();
    guard.add_consumer();
    guard.add_consumer();
    assert!(guard.has_consumers());
    guard.remove_consumer();
    assert!(guard.has_consumers());
    guard.remove_consumer();
    assert!(!guard.has_consumers());
}

#[test]
fn try_acquire_gives_up_at_a_locked_barrier() {
    let guard = GcGuard::allocate();
    assert_eq!(guard.try_acquire_as_consumer(|| 1), Some(1));
    guard.lock();
    assert!(guard.is_locked());
    let ran = AtomicBool::new(false);
    assert_eq!(
        guard.try_acquire_as_consumer(|| ran.store(true, Ordering::SeqCst)),
        None
    );
    assert!(!ran.load(Ordering::SeqCst));
    assert!(!guard.has_consumers());
    guard.unlock();
    assert!(!guard.is_locked());
    assert_eq!(guard.try_acquire_as_consumer(|| 2), Some(2));
}

#[test]
fn init_opens_the_barrier_again() {
    let mut guard = GcGuard::allocate();
    guard.lock();
    guard.add_consumer();
    guard.init();
    assert!(!guard.is_locked());
    assert!(!guard.has_consumers());
}

#[test]
fn waits_return_at_once_when_there_is_nothing_to_wait_for() {
    let guard = GcGuard::allocate();
    guard.wait_for_no_consumers();
    guard.wait_until_unlocked();
}

#[test]
fn the_pauser_waits_for_the_consumers_inside() {
    let guard = GcGuard::allocate();
    let inside = Semaphore::allocate();
    let leave = Semaphore::allocate();
    let consumer_done = AtomicBool::new(false);
    crossbeam_utils::thread::scope(|s| {
        s.spawn(|_| {
            guard.acquire_as_consumer(|| {
                inside.post();
                leave.wait();
                consumer_done.store(true, Ordering::SeqCst);
            });
        });
        inside.wait();
        let pauser = s.spawn(|_| guard.acquire_as_gc(|| consumer_done.load(Ordering::SeqCst)));
        while !guard.is_locked() {
            leave.wait_for(Duration::from_millis(1));
        }
        leave.wait_for(Duration::from_millis(50));
        assert!(guard.has_consumers());
        leave.post();
        assert!(pauser.join().unwrap());
    })
    .unwrap();
    assert!(!guard.is_locked());
    assert!(!guard.has_consumers());
}

#[test]
fn consumers_wait_for_the_pauser_to_finish() {
    let guard = GcGuard::allocate();
    let paused = Semaphore::allocate();
    let resume = Semaphore::allocate();
    let pause_over = AtomicBool::new(false);
    let entered_late = AtomicUsize::new(0);
    crossbeam_utils::thread::scope(|s| {
        s.spawn(|_| {
            guard.acquire_as_gc(|| {
                paused.post();
                resume.wait();
                pause_over.store(true, Ordering::SeqCst);
            });
        });
        paused.wait();
        let mut consumers = vec![];
        for _ in 0..4 {
            consumers.push(s.spawn(|_| {
                guard.acquire_as_consumer(|| {
                    if pause_over.load(Ordering::SeqCst) {
                        entered_late.fetch_add(1, Ordering::SeqCst);
                    }
                })
            }));
        }
        resume.wait_for(Duration::from_millis(200));
        assert_eq!(entered_late.load(Ordering::SeqCst), 0);
        assert!(!guard.has_consumers());
        resume.post();
        for consumer in consumers {
            consumer.join().unwrap();
        }
    })
    .unwrap();
    assert_eq!(entered_late.load(Ordering::SeqCst), 4);
    assert!(!guard.is_locked());
}

#[test]
fn the_flag_comes_down_when_the_callback_panics() {
    let guard = GcGuard::allocate();
    let outcome = crossbeam_utils::thread::scope(|s| {
        s.spawn(|_| {
            guard.acquire_as_gc(|| {
                if guard.is_locked() {
                    panic!("callback failed");
                }
            })
        })
        .join()
    })
    .unwrap();
    assert!(outcome.is_err());
    assert!(!guard.is_locked());
    assert_eq!(guard.acquire_as_consumer(|| 5), 5);
}

#[test]
fn a_consumer_that_registers_late_runs_beside_the_callback() {
    let guard = GcGuard::allocate();
    let running = Semaphore::allocate();
    let finish = Semaphore::allocate();
    // The consumer looks at the flag and finds it down.
    assert!(!guard.is_locked());
    crossbeam_utils::thread::scope(|s| {
        // The pause is requested and finds no consumer registered.
        let pauser = s.spawn(|_| {
            guard.acquire_as_gc(|| {
                let before = guard.has_consumers();
                running.post();
                finish.wait();
                (before, guard.has_consumers())
            })
        });
        running.wait();
        // Only now does the consumer register, and is inside its critical
        // section while the callback runs.
        guard.add_consumer();
        assert!(guard.is_locked());
        finish.post();
        assert_eq!(pauser.join().unwrap(), (false, true));
        guard.remove_consumer();
    })
    .unwrap();
    assert!(!guard.is_locked());
    assert!(!guard.has_consumers());
}

#[test]
fn enter_unless_goes_by_what_was_seen_of_the_flag() {
    let guard = GcGuard::allocate();
    let ran = AtomicUsize::new(0);
    let out = guard.enter_unless(true, || ran.fetch_add(1, Ordering::SeqCst));
    assert_eq!(out, None);
    assert_eq!(ran.load(Ordering::SeqCst), 0);
    let out = guard.enter_unless(false, || {
        ran.fetch_add(1, Ordering::SeqCst);
        guard.has_consumers()
    });
    assert_eq!(out, Some(true));
    assert_eq!(ran.load(Ordering::SeqCst), 1);
    assert!(!guard.has_consumers());
}
