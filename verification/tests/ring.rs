use rust_atomics::ring::{is_valid_capacity, slot_index, MAX_CAPACITY};
use rust_atomics::sequence::{readable, recycled, slot_state, SlotState};

#[test]
fn powers_of_two_from_two_are_valid_capacities() {
    let mut n: usize = 2;
    while n <= MAX_CAPACITY {
        assert!(is_valid_capacity(n), "{} should be valid", n);
        n *= 2;
    }
    assert_eq!(MAX_CAPACITY, 1 << 31);
}

#[test]
fn other_numbers_are_no_capacities() {
    assert!(!is_valid_capacity(0));
    assert!(!is_valid_capacity(1));
    assert!(!is_valid_capacity(3));
    assert!(!is_valid_capacity(6));
    assert!(!is_valid_capacity(9));
    assert!(!is_valid_capacity(1000));
    assert!(!is_valid_capacity(MAX_CAPACITY - 1));
    assert!(!is_valid_capacity(MAX_CAPACITY + 1));
    assert!(!is_valid_capacity(MAX_CAPACITY * 2));
    assert!(!is_valid_capacity(usize::MAX));
}

#[test]
fn slot_index_is_the_position_modulo_the_capacity() {
    assert_eq!(slot_index(0, 3), 0);
    assert_eq!(slot_index(3, 3), 3);
    assert_eq!(slot_index(4, 3), 0);
    assert_eq!(slot_index(13, 7), 5);
    assert_eq!(slot_index(usize::MAX, 15), 15);
    assert_eq!(slot_index(usize::MAX, 1), 1);
    for pos in 0..200usize {
        assert_eq!(slot_index(pos, 15), pos % 16);
    }
}

#[test]
fn slot_state_reads_the_difference_as_signed() {
    assert_eq!(slot_state(5, 5), SlotState::Ready);
    assert_eq!(slot_state(4, 5), SlotState::Behind);
    assert_eq!(slot_state(6, 5), SlotState::Ahead);
    assert_eq!(slot_state(1, 4), SlotState::Behind);
    assert_eq!(slot_state(9, 5), SlotState::Ahead);
}

#[test]
fn slot_state_wraps_around() {
    assert_eq!(slot_state(0, usize::MAX), SlotState::Ahead);
    assert_eq!(slot_state(usize::MAX, 0), SlotState::Behind);
    assert_eq!(slot_state(usize::MAX, usize::MAX), SlotState::Ready);
    assert_eq!(slot_state(2, usize::MAX - 1), SlotState::Ahead);
    assert_eq!(slot_state(1usize << (usize::BITS - 1), 0), SlotState::Behind);
    assert_eq!(slot_state((1usize << (usize::BITS - 1)) - 1, 0), SlotState::Ahead);
}

#[test]
fn published_and_recycled_counters() {
    assert_eq!(readable(0), 1);
    assert_eq!(readable(41), 42);
    assert_eq!(readable(usize::MAX), 0);
    assert_eq!(recycled(0, 4), 4);
    assert_eq!(recycled(7, 8), 15);
    assert_eq!(recycled(usize::MAX, 4), 3);
}
