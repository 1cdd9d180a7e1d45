//! The claim loops of the multi-producer ring, written once for the two
//! kinds of memory they run on.
//!
//! [`SequenceCells`] is what the loops need of the ring: its two position
//! counters and, for every slot, its sequence counter and its value. The
//! queue that threads share keeps them in atomics, of which a thread knows
//! only what it has just read. [`LocalRing`] keeps them in plain memory that
//! one thread has to itself. [`claim_push`] and [`claim_pop`] are the same
//! code for both, and for memory that the caller has to itself they are
//! proved to do exactly what [`RingModel::try_push`] and
//! [`RingModel::try_pop`] say.

use vstd::prelude::*;
use crate::mpmc_protocol::{lemma_fresh, lemma_try_pop, lemma_try_push, RingModel, SlotModel};
use crate::ring::{slot_index, valid_capacity, valid_mask};
use crate::sequence::{pop_move, push_move, PopMove, PushMove};

verus! {

/// The cells of a ring with sequence counters.
pub trait SequenceCells {
    /// Whether the caller has the cells to itself. If so, [`Self::ring`]
    /// says what they hold; if not, nothing is known of them beyond what a
    /// read has just returned.
    spec fn alone(&self) -> bool;

    /// What the cells hold, if the caller has them to itself.
    spec fn ring(&self) -> RingModel;

    /// The mask of the ring.
    spec fn mask(&self) -> usize;

    /// The ring has a valid number of slots.
    spec fn inv(&self) -> bool;

    /// What a ring that is well-formed promises to every caller.
    proof fn lemma_inv(&self)
        requires
            self.inv(),
        ensures
            valid_mask(self.mask()),
            self.alone() ==> self.ring().slots.len() == self.mask() + 1,
    ;

    /// The mask of the ring.
    fn read_mask(&self) -> (mask: usize)
        requires
            self.inv(),
        ensures
            mask == self.mask(),
    ;

    /// Reads the write position.
    fn load_enqueue_pos(&self) -> (pos: usize)
        requires
            self.inv(),
        ensures
            self.alone() ==> pos == self.ring().enqueue_pos,
    ;

    /// Reads the read position.
    fn load_dequeue_pos(&self) -> (pos: usize)
        requires
            self.inv(),
        ensures
            self.alone() ==> pos == self.ring().dequeue_pos,
    ;

    /// Reads the sequence counter of slot `index`.
    fn load_sequence(&self, index: usize) -> (sequence: usize)
        requires
            self.inv(),
            index <= self.mask(),
        ensures
            self.alone() ==> sequence == self.ring().slots[index as int].sequence,
    ;

    /// Reads the value of slot `index`.
    fn load_value(&self, index: usize) -> (value: u64)
        requires
            self.inv(),
            index <= self.mask(),
        ensures
            self.alone() ==> value == self.ring().slots[index as int].value,
    ;

    /// Moves the write position from `pos` on to `next`, if it still is at
    /// `pos`. Returns whether it did.
    fn claim_enqueue_pos(&mut self, pos: usize, next: usize) -> (won: bool)
        requires
            old(self).inv(),
        ensures
            final(self).inv(),
            final(self).mask() == old(self).mask(),
            final(self).alone() == old(self).alone(),
            old(self).alone() ==> won == (old(self).ring().enqueue_pos == pos),
            old(self).alone() && won ==> final(self).ring() == (RingModel {
                enqueue_pos: next,
                ..old(self).ring()
            }),
            old(self).alone() && !won ==> final(self).ring() == old(self).ring(),
    ;

    /// Moves the read position from `pos` on to `next`, if it still is at
    /// `pos`. Returns whether it did.
    fn claim_dequeue_pos(&mut self, pos: usize, next: usize) -> (won: bool)
        requires
            old(self).inv(),
        ensures
            final(self).inv(),
            final(self).mask() == old(self).mask(),
            final(self).alone() == old(self).alone(),
            old(self).alone() ==> won == (old(self).ring().dequeue_pos == pos),
            old(self).alone() && won ==> final(self).ring() == (RingModel {
                dequeue_pos: next,
                ..old(self).ring()
            }),
            old(self).alone() && !won ==> final(self).ring() == old(self).ring(),
    ;

    /// Stores `value` into slot `index`.
    fn store_value(&mut self, index: usize, value: u64)
        requires
            old(self).inv(),
            index <= old(self).mask(),
        ensures
            final(self).inv(),
            final(self).mask() == old(self).mask(),
            final(self).alone() == old(self).alone(),
            old(self).alone() ==> final(self).ring() == (RingModel {
                slots: old(self).ring().slots.update(
                    index as int,
                    SlotModel {
                        sequence: old(self).ring().slots[index as int].sequence,
                        value,
                    },
                ),
                ..old(self).ring()
            }),
    ;

    /// Stores `sequence` into the sequence counter of slot `index`, so that
    /// what was stored into the slot before is seen by whoever reads the
    /// counter.
    fn publish(&mut self, index: usize, sequence: usize)
        requires
            old(self).inv(),
            index <= old(self).mask(),
        ensures
            final(self).inv(),
            final(self).mask() == old(self).mask(),
            final(self).alone() == old(self).alone(),
            old(self).alone() ==> final(self).ring() == (RingModel {
                slots: old(self).ring().slots.update(
                    index as int,
                    SlotModel { sequence, value: old(self).ring().slots[index as int].value },
                ),
                ..old(self).ring()
            }),
    ;
}

/// Claims the next position for writing and puts `data` into its slot.
/// Returns `false` when the slot of the position seen is still held by the
/// lap before, which is how a full ring looks, and when the thread has lost
/// the race for a position `usize::MAX` times in a row.
///
/// On cells that the caller has to itself this is [`RingModel::try_push`].
pub fn claim_push<C: SequenceCells>(cells: &mut C, data: u64) -> (pushed: bool)
    requires
        old(cells).inv(),
    ensures
        final(cells).inv(),
        final(cells).mask() == old(cells).mask(),
        final(cells).alone() == old(cells).alone(),
        old(cells).alone() ==> final(cells).ring() == old(cells).ring().try_push(data).0,
        old(cells).alone() ==> pushed == old(cells).ring().try_push(data).1,
{
    proof {
        cells.lemma_inv();
    }
    let mask: usize = cells.read_mask();
    let mut pos: usize = cells.load_enqueue_pos();
    let mut lost: usize = 0;
    while lost < usize::MAX
        invariant
            cells.inv(),
            valid_mask(mask),
            mask == cells.mask(),
            cells.mask() == old(cells).mask(),
            cells.alone() == old(cells).alone(),
            cells.alone() ==> cells.ring() == old(cells).ring(),
            cells.alone() ==> pos == cells.ring().enqueue_pos,
            cells.alone() ==> cells.ring().slots.len() == mask + 1,
            cells.alone() && lost > 0 ==> !old(cells).ring().try_push(data).1,
        decreases usize::MAX - lost,
    {
        let index: usize = slot_index(pos, mask);
        let sequence: usize = cells.load_sequence(index);
        match push_move(sequence, pos) {
            PushMove::Claim { next } => {
                if cells.claim_enqueue_pos(pos, next) {
                    cells.store_value(index, data);
                    cells.publish(index, next);
                    proof {
                        if old(cells).alone() {
                            assert(cells.ring().slots =~= old(cells).ring().try_push(
                                data,
                            ).0.slots);
                        }
                    }
                    return true;
                }
            },
            PushMove::Full => {
                return false;
            },
            PushMove::Reload => {
                pos = cells.load_enqueue_pos();
            },
        }
        lost = lost + 1;
    }
    false
}

/// Claims the next position for reading and takes the value out of its
/// slot. Returns `None` when the slot of the position seen has not been
/// written for it, which is how an empty ring looks, and when the thread
/// has lost the race for a position `usize::MAX` times in a row.
///
/// On cells that the caller has to itself this is [`RingModel::try_pop`].
pub fn claim_pop<C: SequenceCells>(cells: &mut C) -> (popped: Option<u64>)
    requires
        old(cells).inv(),
    ensures
        final(cells).inv(),
        final(cells).mask() == old(cells).mask(),
        final(cells).alone() == old(cells).alone(),
        old(cells).alone() ==> final(cells).ring() == old(cells).ring().try_pop().0,
        old(cells).alone() ==> popped == old(cells).ring().try_pop().1,
{
    proof {
        cells.lemma_inv();
    }
    let mask: usize = cells.read_mask();
    let mut pos: usize = cells.load_dequeue_pos();
    let mut lost: usize = 0;
    while lost < usize::MAX
        invariant
            cells.inv(),
            valid_mask(mask),
            mask == cells.mask(),
            cells.mask() == old(cells).mask(),
            cells.alone() == old(cells).alone(),
            cells.alone() ==> cells.ring() == old(cells).ring(),
            cells.alone() ==> pos == cells.ring().dequeue_pos,
            cells.alone() ==> cells.ring().slots.len() == mask + 1,
            cells.alone() && lost > 0 ==> old(cells).ring().try_pop().1 is None,
        decreases usize::MAX - lost,
    {
        let index: usize = slot_index(pos, mask);
        let sequence: usize = cells.load_sequence(index);
        match pop_move(sequence, pos, mask) {
            PopMove::Claim { next, recycle } => {
                if cells.claim_dequeue_pos(pos, next) {
                    let data: u64 = cells.load_value(index);
                    cells.publish(index, recycle);
                    proof {
                        if old(cells).alone() {
                            assert(cells.ring().slots =~= old(cells).ring().try_pop().0.slots);
                        }
                    }
                    return Some(data);
                }
            },
            PopMove::Empty => {
                return None;
            },
            PopMove::Reload => {
                pos = cells.load_dequeue_pos();
            },
        }
        lost = lost + 1;
    }
    None
}

/// A ring with sequence counters in plain memory, for one thread at a
/// time. It runs the claim loops of the shared queue on memory that no other
/// thread can change, where what they do is known exactly.
#[derive(Debug)]
pub struct LocalRing {
    slots: Vec<SlotModel>,
    enqueue_pos: usize,
    dequeue_pos: usize,
    mask: usize,
}

impl View for LocalRing {
    type V = RingModel;

    /// The slots and the two positions.
    closed spec fn view(&self) -> RingModel {
        RingModel {
            slots: self.slots@,
            enqueue_pos: self.enqueue_pos,
            dequeue_pos: self.dequeue_pos,
        }
    }
}

impl SequenceCells for LocalRing {
    open spec fn alone(&self) -> bool {
        true
    }

    open spec fn ring(&self) -> RingModel {
        self@
    }

    closed spec fn mask(&self) -> usize {
        self.mask
    }

    closed spec fn inv(&self) -> bool {
        &&& valid_mask(self.mask)
        &&& self.slots@.len() == self.mask + 1
    }

    proof fn lemma_inv(&self) {
    }

    fn read_mask(&self) -> (mask: usize) {
        self.mask
    }

    fn load_enqueue_pos(&self) -> (pos: usize) {
        self.enqueue_pos
    }

    fn load_dequeue_pos(&self) -> (pos: usize) {
        self.dequeue_pos
    }

    fn load_sequence(&self, index: usize) -> (sequence: usize) {
        self.slots[index].sequence
    }

    fn load_value(&self, index: usize) -> (value: u64) {
        self.slots[index].value
    }

    fn claim_enqueue_pos(&mut self, pos: usize, next: usize) -> (won: bool) {
        if self.enqueue_pos == pos {
            self.enqueue_pos = next;
            true
        } else {
            false
        }
    }

    fn claim_dequeue_pos(&mut self, pos: usize, next: usize) -> (won: bool) {
        if self.dequeue_pos == pos {
            self.dequeue_pos = next;
            true
        } else {
            false
        }
    }

    fn store_value(&mut self, index: usize, value: u64) {
        let sequence: usize = self.slots[index].sequence;
        self.slots.set(index, SlotModel { sequence, value });
    }

    fn publish(&mut self, index: usize, sequence: usize) {
        let value: u64 = self.slots[index].value;
        self.slots.set(index, SlotModel { sequence, value });
    }
}

impl LocalRing {
    /// An empty ring of `capacity` slots, each holding `default`.
    pub fn new(capacity: usize, default: u64) -> (ring: Self)
        requires
            valid_capacity(capacity),
        ensures
            ring.inv(),
            ring@ == RingModel::fresh(capacity, default),
            ring@.wf(),
            ring@.contents() == Seq::<u64>::empty(),
    {
        let mut slots: Vec<SlotModel> = Vec::with_capacity(capacity);
        let mut i: usize = 0;
        while i < capacity
            invariant
                i <= capacity,
                slots@.len() == i,
                forall|k: int|
                    0 <= k < i ==> slots@[k] == (SlotModel { sequence: k as usize, value: default }),
            decreases capacity - i,
        {
            slots.push(SlotModel { sequence: i, value: default });
            i = i + 1;
        }
        let ring = LocalRing { slots, enqueue_pos: 0, dequeue_pos: 0, mask: capacity - 1 };
        proof {
            assert(ring@.slots =~= RingModel::fresh(capacity, default).slots);
            lemma_fresh(capacity, default);
        }
        ring
    }

    /// Puts `data` into the ring unless it is full. Returns whether it did.
    pub fn try_push(&mut self, data: u64) -> (pushed: bool)
        requires
            old(self).inv(),
        ensures
            final(self).inv(),
            final(self)@ == old(self)@.try_push(data).0,
            pushed == old(self)@.try_push(data).1,
            old(self)@.wf() ==> {
                &&& final(self)@.wf()
                &&& final(self)@.capacity() == old(self)@.capacity()
                &&& pushed == (old(self)@.len() < old(self)@.capacity())
                &&& pushed ==> final(self)@.contents() == old(self)@.contents().push(data)
                &&& !pushed ==> final(self)@ == old(self)@
            },
    {
        proof {
            if self@.wf() {
                lemma_try_push(self@, data);
            }
        }
        claim_push(self, data)
    }

    /// Takes the oldest value out of the ring, if there is one.
    pub fn try_pop(&mut self) -> (popped: Option<u64>)
        requires
            old(self).inv(),
        ensures
            final(self).inv(),
            final(self)@ == old(self)@.try_pop().0,
            popped == old(self)@.try_pop().1,
            old(self)@.wf() ==> {
                &&& final(self)@.wf()
                &&& final(self)@.capacity() == old(self)@.capacity()
                &&& popped == (if old(self)@.len() > 0 {
                    Some(old(self)@.contents()[0])
                } else {
                    None
                })
                &&& old(self)@.len() > 0 ==> final(self)@.contents() == old(self)@.contents().drop_first()
                &&& old(self)@.len() == 0 ==> final(self)@ == old(self)@
            },
    {
        proof {
            if self@.wf() {
                lemma_try_pop(self@);
            }
        }
        claim_pop(self)
    }
}

} // verus!
