use rust_atomics::is_sync_and_send;
use rust_atomics::{AtomicCounter, PlainCounter, SlowObject};
use rust_atomics::{ATOMIC_COUNTER_SIZE, PLAIN_COUNTER_SIZE, SLOW_OBJECT_SIZE};

#[test]
fn test_atomic_counter() {
    assert_eq!(ATOMIC_COUNTER_SIZE, std::mem::size_of::<AtomicCounter>());
}

#[test]
fn test_plain_counter() {
    assert_eq!(PLAIN_COUNTER_SIZE, std::mem::size_of::<PlainCounter>());
}

#[test]
fn slow_object_test_concurrent_hash_map() {
    assert_eq!(
        SLOW_OBJECT_SIZE,
        std::mem::size_of::<SlowObject>(),
        "size mismatch"
    );

    assert!(is_sync_and_send::<SlowObject>());
}

#[test]
fn plain_counter_counts_up_from_its_start() {
    let mut counter = PlainCounter::new(40);
    assert_eq!(counter.read(), 40);
    counter.inc();
    counter.inc();
    assert_eq!(counter.read(), 42);
}

#[test]
fn atomic_counter_counts_up_from_its_start() {
    let counter = AtomicCounter::new(7);
    assert_eq!(counter.read(), 7);
    counter.inc();
    counter.inc();
    counter.inc();
    assert_eq!(counter.read(), 10);
}

#[test]
fn atomic_counter_wraps_to_zero() {
    let counter = AtomicCounter::new(u64::MAX);
    counter.inc();
    assert_eq!(counter.read(), 0);
}
