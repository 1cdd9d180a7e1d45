use rust_atomics::flag::{flag_pop_move, flag_push_move, FlagMove};
use rust_atomics::mpmc_cells::LocalRing;
use rust_atomics::sequence::{pop_move, push_move, PopMove, PushMove};
use rust_atomics::spmc_cells::LocalFlagRing;
use rust_atomics::{MpmcQueue, SpmcQueue};

#[test]
fn push_move_claims_a_slot_that_is_free_for_the_position() {
    assert_eq!(push_move(0, 0), PushMove::Claim { next: 1 });
    assert_eq!(push_move(7, 7), PushMove::Claim { next: 8 });
    assert_eq!(push_move(usize::MAX, usize::MAX), PushMove::Claim { next: 0 });
}

#[test]
fn push_move_finds_the_ring_full_or_the_position_taken() {
    assert_eq!(push_move(1, 4), PushMove::Full);
    assert_eq!(push_move(5, 8), PushMove::Full);
    assert_eq!(push_move(usize::MAX, 0), PushMove::Full);
    assert_eq!(push_move(5, 4), PushMove::Reload);
    assert_eq!(push_move(0, usize::MAX), PushMove::Reload);
}

#[test]
fn pop_move_claims_a_slot_that_holds_the_value_of_the_position() {
    assert_eq!(pop_move(1, 0, 3), PopMove::Claim { next: 1, recycle: 4 });
    assert_eq!(pop_move(6, 5, 1), PopMove::Claim { next: 6, recycle: 7 });
    assert_eq!(pop_move(0, usize::MAX, 7), PopMove::Claim { next: 0, recycle: 7 });
}

#[test]
fn pop_move_finds_the_ring_empty_or_the_position_taken() {
    assert_eq!(pop_move(0, 0, 3), PopMove::Empty);
    assert_eq!(pop_move(4, 4, 3), PopMove::Empty);
    assert_eq!(pop_move(4, 0, 3), PopMove::Reload);
    assert_eq!(pop_move(2, 0, 3), PopMove::Reload);
}

#[test]
fn flag_moves_go_by_the_flag() {
    assert_eq!(flag_push_move(5, false, 3), FlagMove::Proceed { index: 1 });
    assert_eq!(flag_push_move(5, true, 3), FlagMove::GiveBack);
    assert_eq!(flag_pop_move(6, true, 3), FlagMove::Proceed { index: 2 });
    assert_eq!(flag_pop_move(6, false, 3), FlagMove::GiveBack);
    assert_eq!(flag_push_move(usize::MAX, false, 7), FlagMove::Proceed { index: 7 });
}

#[test]
fn local_ring_capacity_four_scenario() {
    let mut q = LocalRing::new(4, 0);
    assert!(q.try_push(1));
    assert!(q.try_push(2));
    assert!(q.try_push(3));
    assert!(q.try_push(4));
    assert!(!q.try_push(5));
    assert_eq!(q.try_pop(), Some(1));
    assert_eq!(q.try_pop(), Some(2));
    assert_eq!(q.try_pop(), Some(3));
    assert_eq!(q.try_pop(), Some(4));
    assert_eq!(q.try_pop(), None);
    assert!(q.try_push(5));
    assert_eq!(q.try_pop(), Some(5));
}

#[test]
fn local_ring_two_slots_three_values() {
    let mut q = LocalRing::new(2, 0);
    assert!(q.try_push(1));
    assert!(q.try_push(2));
    assert_eq!(q.try_pop(), Some(1));
    assert!(q.try_push(3));
    assert_eq!(q.try_pop(), Some(2));
    assert_eq!(q.try_pop(), Some(3));
    assert_eq!(q.try_pop(), None);
}

#[test]
fn a_new_local_ring_never_gives_its_fill_value() {
    let mut q = LocalRing::new(4, 9);
    assert_eq!(q.try_pop(), None);
    assert!(q.try_push(9));
    assert_eq!(q.try_pop(), Some(9));
    assert_eq!(q.try_pop(), None);
}

#[test]
fn local_flag_ring_capacity_four_scenario() {
    let mut q = LocalFlagRing::new(4, 0);
    assert_eq!(q.serialize(), vec![]);
    assert!(q.try_push(1));
    assert!(q.try_push(2));
    assert!(q.try_push(3));
    assert_eq!(q.serialize(), vec![1, 2, 3]);
    assert_eq!(q.len(), 3);
    assert!(q.try_push(4));
    assert!(!q.try_push(5));
    assert_eq!(q.serialize(), vec![1, 2, 3, 4]);
    assert_eq!(q.try_pop(), Some(1));
    assert_eq!(q.try_pop(), Some(2));
    assert_eq!(q.serialize(), vec![3, 4]);
    assert_eq!(q.try_pop(), Some(3));
    assert_eq!(q.try_pop(), Some(4));
    assert_eq!(q.try_pop(), None);
    assert_eq!(q.len(), 0);
    assert!(q.try_push(5));
    assert_eq!(q.serialize(), vec![5]);
}

#[test]
fn the_shared_queues_do_what_the_local_rings_do() {
    let shared = MpmcQueue::new(4, 0);
    let mut local = LocalRing::new(4, 0);
    let mut flagged_shared = SpmcQueue::allocate();
    flagged_shared.init(4, 0);
    let mut flagged_local = LocalFlagRing::new(4, 0);
    let mut next: u64 = 1;
    for round in 0..200usize {
        for _ in 0..(round % 6) {
            let pushed = local.try_push(next);
            assert_eq!(shared.try_push(next), pushed);
            assert_eq!(flagged_local.try_push(next), pushed);
            assert_eq!(flagged_shared.try_push(next), pushed);
            next += 1;
        }
        assert_eq!(flagged_shared.serialize(), flagged_local.serialize());
        assert_eq!(flagged_shared.len(), flagged_local.len());
        for _ in 0..(round % 5) {
            let popped = local.try_pop();
            assert_eq!(shared.try_pop(), popped);
            assert_eq!(flagged_local.try_pop(), popped);
            assert_eq!(flagged_shared.try_pop(), popped);
        }
    }
}
