//! The sequence counter of a slot in the multi-producer ring.
//!
//! Every slot carries a counter that says which logical position owns it.
//! For the position `p` that falls on the slot, the counter reads `p` while
//! the slot may be written for `p`, `p + 1` once the value for `p` is in it,
//! and `p + capacity` after that value was taken out, which is the position
//! of the next lap. Positions and counters are `usize` values that wrap
//! around, and they are compared by their wrapping difference, read as a
//! signed number.

use vstd::prelude::*;
use vstd::arithmetic::div_mod::{lemma_mod_bound, lemma_mod_multiples_vanish, lemma_small_mod, lemma_sub_mod_noop};
use crate::ring::{ahead, valid_mask};

verus! {

/// How a slot's sequence counter stands to the counter a thread expects.
#[derive(Clone, Copy, Debug, PartialEq, Eq)]
pub enum SlotState {
    /// The counter is the expected one: the slot is the caller's to claim.
    Ready,
    /// The counter is behind: the ring is full (for a producer) or empty
    /// (for a consumer) at this position.
    Behind,
    /// The counter is ahead: another thread has taken the position.
    Ahead,
}

/// The wrapping difference `sequence - expected`, read as a signed number.
pub open spec fn lap_difference(sequence: usize, expected: usize) -> int {
    let forward = sequence.wrapping_sub(expected);
    if forward > isize::MAX {
        forward - usize::MAX - 1
    } else {
        forward as int
    }
}

/// The state that a counter of `sequence` means to a thread that expects
/// `expected`.
pub open spec fn slot_state_of(sequence: usize, expected: usize) -> SlotState {
    if lap_difference(sequence, expected) == 0 {
        SlotState::Ready
    } else if lap_difference(sequence, expected) < 0 {
        SlotState::Behind
    } else {
        SlotState::Ahead
    }
}

/// The counter that publishes the value written for position `pos`, which
/// is also the one a consumer expects there.
pub open spec fn readable_at(pos: usize) -> usize {
    pos.wrapping_add(1)
}

/// The counter that hands the slot of position `pos` over to the next lap
/// of a ring with `capacity` slots.
pub open spec fn recycled_at(pos: usize, capacity: usize) -> usize {
    pos.wrapping_add(capacity)
}

/// What a producer does next, having read a slot's counter.
#[derive(Clone, Copy, Debug, PartialEq, Eq)]
pub enum PushMove {
    /// The slot is free for the position: try to move the write position
    /// on to `next`; if that succeeds, store the value and publish `next`
    /// as the slot's counter.
    Claim { next: usize },
    /// The slot is still held by the lap before: the ring is full, the push
    /// fails.
    Full,
    /// Another producer has taken the position: read the write position
    /// again.
    Reload,
}

/// What a consumer does next, having read a slot's counter.
#[derive(Clone, Copy, Debug, PartialEq, Eq)]
pub enum PopMove {
    /// The slot holds the value of the position: try to move the read
    /// position on to `next`; if that succeeds, take the value and store
    /// `recycle` as the slot's counter.
    Claim { next: usize, recycle: usize },
    /// The slot has not been written for the position: the ring is empty,
    /// the pop fails.
    Empty,
    /// Another consumer has taken the position: read the read position
    /// again.
    Reload,
}

/// The move of a producer that has read the write position `pos` and, in
/// the slot of `pos`, the counter `sequence`.
pub open spec fn push_move_of(sequence: usize, pos: usize) -> PushMove {
    match slot_state_of(sequence, pos) {
        SlotState::Ready => PushMove::Claim { next: readable_at(pos) },
        SlotState::Behind => PushMove::Full,
        SlotState::Ahead => PushMove::Reload,
    }
}

/// The move of a consumer that has read the read position `pos` and, in the
/// slot of `pos`, the counter `sequence`, in a ring with mask `mask`.
pub open spec fn pop_move_of(sequence: usize, pos: usize, mask: usize) -> PopMove {
    match slot_state_of(sequence, readable_at(pos)) {
        SlotState::Ready => PopMove::Claim {
            next: readable_at(pos),
            recycle: recycled_at(pos, (mask + 1) as usize),
        },
        SlotState::Behind => PopMove::Empty,
        SlotState::Ahead => PopMove::Reload,
    }
}

/// Computes [`push_move_of`].
pub fn push_move(sequence: usize, pos: usize) -> (m: PushMove)
    ensures
        m == push_move_of(sequence, pos),
{
    match slot_state(sequence, pos) {
        SlotState::Ready => PushMove::Claim { next: readable(pos) },
        SlotState::Behind => PushMove::Full,
        SlotState::Ahead => PushMove::Reload,
    }
}

/// Computes [`pop_move_of`].
pub fn pop_move(sequence: usize, pos: usize, mask: usize) -> (m: PopMove)
    requires
        valid_mask(mask),
    ensures
        m == pop_move_of(sequence, pos, mask),
{
    let next: usize = readable(pos);
    match slot_state(sequence, next) {
        SlotState::Ready => PopMove::Claim { next, recycle: recycled(pos, mask + 1) },
        SlotState::Behind => PopMove::Empty,
        SlotState::Ahead => PopMove::Reload,
    }
}

/// Compares a slot's counter with the expected one.
pub fn slot_state(sequence: usize, expected: usize) -> (state: SlotState)
    ensures
        state == slot_state_of(sequence, expected),
{
    let forward: usize = sequence.wrapping_sub(expected);
    if forward == 0 {
        SlotState::Ready
    } else if forward > isize::MAX as usize {
        SlotState::Behind
    } else {
        SlotState::Ahead
    }
}

/// Computes [`readable_at`].
pub fn readable(pos: usize) -> (sequence: usize)
    ensures
        sequence == readable_at(pos),
{
    pos.wrapping_add(1)
}

/// Computes [`recycled_at`].
pub fn recycled(pos: usize, capacity: usize) -> (sequence: usize)
    ensures
        sequence == recycled_at(pos, capacity),
{
    pos.wrapping_add(capacity)
}

/// Two counters that lie `a` and `b` steps ahead of the same position
/// differ by `a - b`, as long as that fits the signed reading.
pub proof fn lemma_lap_difference(pos: usize, a: int, b: int)
    requires
        0 <= a,
        0 <= b,
        isize::MIN <= a - b <= isize::MAX,
    ensures
        lap_difference(ahead(pos, a), ahead(pos, b)) == a - b,
{
    let word: int = usize::MAX + 1;
    let x: int = ahead(pos, a) as int;
    let y: int = ahead(pos, b) as int;
    lemma_mod_bound(pos + a, word);
    lemma_mod_bound(pos + b, word);
    lemma_sub_mod_noop(pos + a, pos + b, word);
    assert((x - y) % word == (a - b) % word);
    if x - y < 0 {
        lemma_mod_multiples_vanish(1, x - y, word);
        lemma_small_mod((x - y + word) as nat, word as nat);
    } else {
        lemma_small_mod((x - y) as nat, word as nat);
    }
    if a - b < 0 {
        lemma_mod_multiples_vanish(1, a - b, word);
        lemma_small_mod((a - b + word) as nat, word as nat);
    } else {
        lemma_small_mod((a - b) as nat, word as nat);
    }
}

} // verus!
