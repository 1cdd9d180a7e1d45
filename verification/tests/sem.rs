use rust_atomics::sem::{withdraw, Semaphore};
use std::sync::atomic::{AtomicUsize, Ordering};
use std::time::{Duration, Instant};

fn semaphore(initial: u32) -> Semaphore {
    let mut sem = Semaphore::allocate();
    sem.init(initial);
    sem
}

#[test]
fn withdraw_takes_one_permit() {
    assert_eq!(withdraw(0), None);
    assert_eq!(withdraw(1), Some(0));
    assert_eq!(withdraw(5), Some(4));
    assert_eq!(withdraw(u64::MAX), Some(u64::MAX - 1));
}

#[test]
fn wait_for_times_out_on_an_empty_semaphore() {
    let read_sem = semaphore(0);
    let start = Instant::now();
    let taken = read_sem.wait_for(Duration::from_millis(100));
    let waited = start.elapsed();
    assert!(!taken);
    assert!(waited >= Duration::from_millis(100), "waited {:?}", waited);
    assert!(waited < Duration::from_millis(500), "waited {:?}", waited);
}

#[test]
fn a_fresh_semaphore_has_no_permit() {
    let sem = Semaphore::allocate();
    assert!(!sem.try_wait());
}

#[test]
fn init_sets_the_permits() {
    let sem = semaphore(3);
    assert!(sem.try_wait());
    assert!(sem.try_wait());
    assert!(sem.try_wait());
    assert!(!sem.try_wait());
}

#[test]
fn init_sets_the_permits_anew() {
    let mut sem = semaphore(3);
    assert!(sem.try_wait());
    sem.init(1);
    assert!(sem.try_wait());
    assert!(!sem.try_wait());
}

#[test]
fn post_adds_one_permit() {
    let sem = semaphore(0);
    sem.post();
    sem.post();
    assert!(sem.try_wait());
    assert!(sem.try_wait());
    assert!(!sem.try_wait());
}

#[test]
fn wait_takes_a_permit_that_is_there() {
    let sem = semaphore(2);
    sem.wait();
    sem.wait();
    assert!(!sem.try_wait());
}

#[test]
fn wait_for_takes_a_permit_that_is_there() {
    let sem = semaphore(1);
    let start = Instant::now();
    assert!(sem.wait_for(Duration::from_millis(100)));
    assert!(start.elapsed() < Duration::from_millis(100));
    assert!(!sem.try_wait());
}

#[test]
fn wait_for_zero_duration_takes_or_gives_up_at_once() {
    let sem = semaphore(1);
    assert!(sem.wait_for(Duration::from_millis(0)));
    assert!(!sem.wait_for(Duration::from_millis(0)));
}

#[test]
fn wait_until_tries_at_once() {
    let sem = semaphore(0);
    let tries = AtomicUsize::new(0);
    sem.wait_until(|| {
        tries.fetch_add(1, Ordering::SeqCst);
        true
    });
    assert_eq!(tries.load(Ordering::SeqCst), 1);
}

#[test]
fn wait_until_uses_up_a_permit_per_try() {
    let sem = semaphore(2);
    sem.wait_until(|| true);
    assert!(sem.try_wait());
    assert!(!sem.try_wait());
}

#[test]
fn wait_blocks_until_posted() {
    let sem = semaphore(0);
    let woken = AtomicUsize::new(0);
    crossbeam_utils::thread::scope(|s| {
        for _ in 0..3 {
            s.spawn(|_| {
                sem.wait();
                woken.fetch_add(1, Ordering::SeqCst);
            });
        }
        assert!(!sem.wait_for(Duration::from_millis(50)));
        assert_eq!(woken.load(Ordering::SeqCst), 0);
        sem.post();
        sem.post();
        sem.post();
    })
    .unwrap();
    assert_eq!(woken.load(Ordering::SeqCst), 3);
    assert!(!sem.try_wait());
}

#[test]
fn wait_for_is_woken_by_a_post() {
    let sem = semaphore(0);
    crossbeam_utils::thread::scope(|s| {
        let waiter = s.spawn(|_| {
            let start = Instant::now();
            let taken = sem.wait_for(Duration::from_secs(10));
            (taken, start.elapsed())
        });
        sem.wait_for(Duration::from_millis(50));
        sem.post();
        let (taken, waited) = waiter.join().unwrap();
        assert!(taken);
        assert!(waited < Duration::from_secs(5));
    })
    .unwrap();
}

#[test]
fn wait_until_retries_after_every_post() {
    let sem = semaphore(0);
    let tries = AtomicUsize::new(0);
    crossbeam_utils::thread::scope(|s| {
        let waiter = s.spawn(|_| {
            sem.wait_until(|| tries.fetch_add(1, Ordering::SeqCst) >= 2);
        });
        while tries.load(Ordering::SeqCst) < 3 {
            sem.post();
            sem.wait_for(Duration::from_millis(1));
        }
        waiter.join().unwrap();
    })
    .unwrap();
    assert_eq!(tries.load(Ordering::SeqCst), 3);
}

#[test]
fn wait_until_for_gives_up_when_the_time_is_out() {
    let sem = semaphore(0);
    let tries = AtomicUsize::new(0);
    let start = Instant::now();
    let done = sem.wait_until_for(
        || {
            tries.fetch_add(1, Ordering::SeqCst);
            false
        },
        Duration::from_millis(100),
    );
    let waited = start.elapsed();
    assert!(!done);
    assert_eq!(tries.load(Ordering::SeqCst), 1);
    assert!(waited >= Duration::from_millis(100), "waited {:?}", waited);
    assert!(waited < Duration::from_millis(500), "waited {:?}", waited);
}

#[test]
fn wait_until_for_returns_as_soon_as_the_attempt_succeeds() {
    let sem = semaphore(0);
    let start = Instant::now();
    assert!(sem.wait_until_for(|| true, Duration::from_secs(10)));
    assert!(start.elapsed() < Duration::from_secs(5));
}
