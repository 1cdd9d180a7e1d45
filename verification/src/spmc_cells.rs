//! The reservation steps of the single-producer ring, written once for the
//! two kinds of memory they run on.
//!
//! [`FlagCells`] is what the steps need of the ring: `head`, `tail` and, for
//! every slot, its flag and its value. The queue that threads share keeps
//! them in atomics, of which a thread knows only what it has just read.
//! [`LocalFlagRing`] keeps them in plain memory that one thread has to
//! itself. [`reserve_push`] and [`reserve_pop`] are the same code for both,
//! and for memory that the caller has to itself they are proved to do
//! exactly what [`FlagRing::try_push`] and [`FlagRing::try_pop`] say.

use vstd::prelude::*;
use crate::flag::{flag_pop_move, flag_push_move, FlagMove};
use crate::ring::{slot_index, valid_capacity, valid_mask};
use crate::spmc_protocol::{
    lemma_fresh, lemma_snapshot, lemma_try_pop, lemma_try_push, FlagRing, FlaggedSlot,
};

verus! {

/// The cells of a ring with validity flags.
pub trait FlagCells {
    /// Whether the caller has the cells to itself. If so, [`Self::ring`]
    /// says what they hold; if not, nothing is known of them beyond what a
    /// read has just returned.
    spec fn alone(&self) -> bool;

    /// What the cells hold, if the caller has them to itself.
    spec fn ring(&self) -> FlagRing;

    /// The mask of the ring.
    spec fn mask(&self) -> usize;

    /// The ring has a valid number of slots.
    spec fn inv(&self) -> bool;

    /// What a ring that is well-formed promises to every caller.
    proof fn lemma_inv(&self)
        requires
            self.inv(),
        ensures
            valid_mask(self.mask()),
            self.alone() ==> self.ring().slots.len() == self.mask() + 1,
    ;

    /// The mask of the ring.
    fn read_mask(&self) -> (mask: usize)
        requires
            self.inv(),
        ensures
            mask == self.mask(),
    ;

    /// Reads `head`.
    fn load_head(&self) -> (head: usize)
        requires
            self.inv(),
        ensures
            self.alone() ==> head == self.ring().head,
    ;

    /// Reads `tail`.
    fn load_tail(&self) -> (tail: usize)
        requires
            self.inv(),
        ensures
            self.alone() ==> tail == self.ring().tail,
    ;

    /// Reads the flag of slot `index`.
    fn load_valid(&self, index: usize) -> (valid: bool)
        requires
            self.inv(),
            index <= self.mask(),
        ensures
            self.alone() ==> valid == self.ring().slots[index as int].valid,
    ;

    /// Reads the value of slot `index`.
    fn load_value(&self, index: usize) -> (value: u64)
        requires
            self.inv(),
            index <= self.mask(),
        ensures
            self.alone() ==> value == self.ring().slots[index as int].value,
    ;

    /// Adds one to `tail` and returns what it was before.
    fn reserve_tail(&mut self) -> (reserved: usize)
        requires
            old(self).inv(),
        ensures
            final(self).inv(),
            final(self).mask() == old(self).mask(),
            final(self).alone() == old(self).alone(),
            old(self).alone() ==> reserved == old(self).ring().tail,
            old(self).alone() ==> final(self).ring() == (FlagRing {
                tail: old(self).ring().tail.wrapping_add(1),
                ..old(self).ring()
            }),
    ;

    /// Takes one from `tail`.
    fn give_back_tail(&mut self)
        requires
            old(self).inv(),
        ensures
            final(self).inv(),
            final(self).mask() == old(self).mask(),
            final(self).alone() == old(self).alone(),
            old(self).alone() ==> final(self).ring() == (FlagRing {
                tail: old(self).ring().tail.wrapping_sub(1),
                ..old(self).ring()
            }),
    ;

    /// Adds one to `head` and returns what it was before.
    fn reserve_head(&mut self) -> (reserved: usize)
        requires
            old(self).inv(),
        ensures
            final(self).inv(),
            final(self).mask() == old(self).mask(),
            final(self).alone() == old(self).alone(),
            old(self).alone() ==> reserved == old(self).ring().head,
            old(self).alone() ==> final(self).ring() == (FlagRing {
                head: old(self).ring().head.wrapping_add(1),
                ..old(self).ring()
            }),
    ;

    /// Takes one from `head`.
    fn give_back_head(&mut self)
        requires
            old(self).inv(),
        ensures
            final(self).inv(),
            final(self).mask() == old(self).mask(),
            final(self).alone() == old(self).alone(),
            old(self).alone() ==> final(self).ring() == (FlagRing {
                head: old(self).ring().head.wrapping_sub(1),
                ..old(self).ring()
            }),
    ;

    /// Stores `value` into slot `index`.
    fn store_value(&mut self, index: usize, value: u64)
        requires
            old(self).inv(),
            index <= old(self).mask(),
        ensures
            final(self).inv(),
            final(self).mask() == old(self).mask(),
            final(self).alone() == old(self).alone(),
            old(self).alone() ==> final(self).ring() == (FlagRing {
                slots: old(self).ring().slots.update(
                    index as int,
                    FlaggedSlot { value, valid: old(self).ring().slots[index as int].valid },
                ),
                ..old(self).ring()
            }),
    ;

    /// Stores `valid` into the flag of slot `index`.
    fn set_valid(&mut self, index: usize, valid: bool)
        requires
            old(self).inv(),
            index <= old(self).mask(),
        ensures
            final(self).inv(),
            final(self).mask() == old(self).mask(),
            final(self).alone() == old(self).alone(),
            old(self).alone() ==> final(self).ring() == (FlagRing {
                slots: old(self).ring().slots.update(
                    index as int,
                    FlaggedSlot { value: old(self).ring().slots[index as int].value, valid },
                ),
                ..old(self).ring()
            }),
    ;
}

/// Reserves the slot at `tail` and puts `item` into it. Returns `false`,
/// with the reservation given back, when the slot still holds a value,
/// which is how a full ring looks.
///
/// On cells that the caller has to itself this is [`FlagRing::try_push`].
pub fn reserve_push<C: FlagCells>(cells: &mut C, item: u64) -> (pushed: bool)
    requires
        old(cells).inv(),
    ensures
        final(cells).inv(),
        final(cells).mask() == old(cells).mask(),
        final(cells).alone() == old(cells).alone(),
        old(cells).alone() ==> final(cells).ring() == old(cells).ring().try_push(item).0,
        old(cells).alone() ==> pushed == old(cells).ring().try_push(item).1,
{
    proof {
        cells.lemma_inv();
    }
    let mask: usize = cells.read_mask();
    let reserved: usize = cells.reserve_tail();
    let seen: bool = cells.load_valid(slot_index(reserved, mask));
    match flag_push_move(reserved, seen, mask) {
        FlagMove::Proceed { index } => {
            cells.store_value(index, item);
            cells.set_valid(index, true);
            proof {
                if old(cells).alone() {
                    assert(cells.ring().slots =~= old(cells).ring().try_push(item).0.slots);
                }
            }
            true
        },
        FlagMove::GiveBack => {
            cells.give_back_tail();
            false
        },
    }
}

/// Reserves the slot at `head` and takes its value out. Returns `None`,
/// with the reservation given back, when the slot holds no value, which is
/// how an empty ring looks.
///
/// On cells that the caller has to itself this is [`FlagRing::try_pop`].
pub fn reserve_pop<C: FlagCells>(cells: &mut C) -> (popped: Option<u64>)
    requires
        old(cells).inv(),
    ensures
        final(cells).inv(),
        final(cells).mask() == old(cells).mask(),
        final(cells).alone() == old(cells).alone(),
        old(cells).alone() ==> final(cells).ring() == old(cells).ring().try_pop().0,
        old(cells).alone() ==> popped == old(cells).ring().try_pop().1,
{
    proof {
        cells.lemma_inv();
    }
    let mask: usize = cells.read_mask();
    let reserved: usize = cells.reserve_head();
    let seen: bool = cells.load_valid(slot_index(reserved, mask));
    match flag_pop_move(reserved, seen, mask) {
        FlagMove::Proceed { index } => {
            let item: u64 = cells.load_value(index);
            cells.set_valid(index, false);
            proof {
                if old(cells).alone() {
                    assert(cells.ring().slots =~= old(cells).ring().try_pop().0.slots);
                }
            }
            Some(item)
        },
        FlagMove::GiveBack => {
            cells.give_back_head();
            None
        },
    }
}

/// Collects the values of the slots from position `head` up to position
/// `tail`, oldest first, and never more than there are slots.
///
/// On cells that the caller has to itself this is [`FlagRing::snapshot`].
pub fn walk_cells<C: FlagCells>(cells: &C) -> (out: Vec<u64>)
    requires
        cells.inv(),
    ensures
        out@.len() <= cells.mask() + 1,
        cells.alone() ==> out@ == cells.ring().snapshot(),
{
    proof {
        cells.lemma_inv();
    }
    let mask: usize = cells.read_mask();
    let head: usize = cells.load_head();
    let tail: usize = cells.load_tail();
    let count: usize = crate::spmc_queue::window(head, tail, mask + 1);
    let mut out: Vec<u64> = Vec::new();
    let mut k: usize = 0;
    while k < count
        invariant
            cells.inv(),
            valid_mask(mask),
            mask == cells.mask(),
            k <= count,
            count <= mask + 1,
            out@.len() == k,
            cells.alone() ==> cells.ring().slots.len() == mask + 1,
            cells.alone() ==> head == cells.ring().head,
            cells.alone() ==> count == cells.ring().snapshot().len(),
            cells.alone() ==> forall|j: int| 0 <= j < k ==> out@[j] == cells.ring().snapshot()[j],
        decreases count - k,
    {
        let index: usize = slot_index(head.wrapping_add(k), mask);
        let value: u64 = cells.load_value(index);
        proof {
            crate::ring::lemma_wrapping_add_is_ahead(head, k);
        }
        out.push(value);
        k = k + 1;
    }
    proof {
        if cells.alone() {
            assert(out@ =~= cells.ring().snapshot());
        }
    }
    out
}

/// The number of values that a walk from `head` to `tail` would visit.
pub fn count_cells<C: FlagCells>(cells: &C) -> (count: usize)
    requires
        cells.inv(),
    ensures
        count <= cells.mask() + 1,
        cells.alone() ==> count == cells.ring().snapshot().len(),
{
    proof {
        cells.lemma_inv();
    }
    let mask: usize = cells.read_mask();
    let head: usize = cells.load_head();
    let tail: usize = cells.load_tail();
    crate::spmc_queue::window(head, tail, mask + 1)
}

/// A ring with validity flags in plain memory, for one thread at a time. It
/// runs the reservation steps of the shared queue on memory that no other
/// thread can change, where what they do is known exactly.
#[derive(Debug)]
pub struct LocalFlagRing {
    slots: Vec<FlaggedSlot>,
    head: usize,
    tail: usize,
    mask: usize,
}

impl View for LocalFlagRing {
    type V = FlagRing;

    /// The slots, `head` and `tail`.
    closed spec fn view(&self) -> FlagRing {
        FlagRing { slots: self.slots@, head: self.head, tail: self.tail }
    }
}

impl FlagCells for LocalFlagRing {
    open spec fn alone(&self) -> bool {
        true
    }

    open spec fn ring(&self) -> FlagRing {
        self@
    }

    closed spec fn mask(&self) -> usize {
        self.mask
    }

    closed spec fn inv(&self) -> bool {
        &&& valid_mask(self.mask)
        &&& self.slots@.len() == self.mask + 1
    }

    proof fn lemma_inv(&self) {
    }

    fn read_mask(&self) -> (mask: usize) {
        self.mask
    }

    fn load_head(&self) -> (head: usize) {
        self.head
    }

    fn load_tail(&self) -> (tail: usize) {
        self.tail
    }

    fn load_valid(&self, index: usize) -> (valid: bool) {
        self.slots[index].valid
    }

    fn load_value(&self, index: usize) -> (value: u64) {
        self.slots[index].value
    }

    fn reserve_tail(&mut self) -> (reserved: usize) {
        let reserved: usize = self.tail;
        self.tail = reserved.wrapping_add(1);
        reserved
    }

    fn give_back_tail(&mut self) {
        self.tail = self.tail.wrapping_sub(1);
    }

    fn reserve_head(&mut self) -> (reserved: usize) {
        let reserved: usize = self.head;
        self.head = reserved.wrapping_add(1);
        reserved
    }

    fn give_back_head(&mut self) {
        self.head = self.head.wrapping_sub(1);
    }

    fn store_value(&mut self, index: usize, value: u64) {
        let valid: bool = self.slots[index].valid;
        self.slots.set(index, FlaggedSlot { value, valid });
    }

    fn set_valid(&mut self, index: usize, valid: bool) {
        let value: u64 = self.slots[index].value;
        self.slots.set(index, FlaggedSlot { value, valid });
    }
}

impl LocalFlagRing {
    /// An empty ring of `capacity` slots, each holding `default`.
    pub fn new(capacity: usize, default: u64) -> (ring: Self)
        requires
            valid_capacity(capacity),
        ensures
            ring.inv(),
            ring@ == FlagRing::fresh(capacity, default),
            ring@.wf(),
            ring@.contents() == Seq::<u64>::empty(),
    {
        let mut slots: Vec<FlaggedSlot> = Vec::with_capacity(capacity);
        let mut i: usize = 0;
        while i < capacity
            invariant
                i <= capacity,
                slots@.len() == i,
                forall|k: int|
                    0 <= k < i ==> slots@[k] == (FlaggedSlot { value: default, valid: false }),
            decreases capacity - i,
        {
            slots.push(FlaggedSlot { value: default, valid: false });
            i = i + 1;
        }
        let ring = LocalFlagRing { slots, head: 0, tail: 0, mask: capacity - 1 };
        proof {
            assert(ring@.slots =~= FlagRing::fresh(capacity, default).slots);
            lemma_fresh(capacity, default);
        }
        ring
    }

    /// Puts `item` into the ring unless it is full. Returns whether it did.
    pub fn try_push(&mut self, item: u64) -> (pushed: bool)
        requires
            old(self).inv(),
        ensures
            final(self).inv(),
            final(self)@ == old(self)@.try_push(item).0,
            pushed == old(self)@.try_push(item).1,
            old(self)@.wf() ==> {
                &&& final(self)@.wf()
                &&& final(self)@.capacity() == old(self)@.capacity()
                &&& pushed == (old(self)@.len() < old(self)@.capacity())
                &&& pushed ==> final(self)@.contents() == old(self)@.contents().push(item)
                &&& !pushed ==> final(self)@ == old(self)@
            },
    {
        proof {
            if self@.wf() {
                lemma_try_push(self@, item);
            }
        }
        reserve_push(self, item)
    }

    /// Takes the oldest value out of the ring, if there is one.
    pub fn try_pop(&mut self) -> (popped: Option<u64>)
        requires
            old(self).inv(),
        ensures
            final(self).inv(),
            final(self)@ == old(self)@.try_pop().0,
            popped == old(self)@.try_pop().1,
            old(self)@.wf() ==> {
                &&& final(self)@.wf()
                &&& final(self)@.capacity() == old(self)@.capacity()
                &&& popped == (if old(self)@.len() > 0 {
                    Some(old(self)@.contents()[0])
                } else {
                    None
                })
                &&& old(self)@.len() > 0 ==> final(self)@.contents() == old(self)@.contents().drop_first()
                &&& old(self)@.len() == 0 ==> final(self)@ == old(self)@
            },
    {
        proof {
            if self@.wf() {
                lemma_try_pop(self@);
            }
        }
        reserve_pop(self)
    }

    /// The values in the ring, oldest first.
    pub fn serialize(&self) -> (out: Vec<u64>)
        requires
            self.inv(),
        ensures
            out@ == self@.snapshot(),
            self@.wf() ==> out@ == self@.contents(),
    {
        proof {
            if self@.wf() {
                lemma_snapshot(self@);
            }
        }
        walk_cells(self)
    }

    /// The number of values in the ring.
    pub fn len(&self) -> (len: usize)
        requires
            self.inv(),
        ensures
            len == self@.snapshot().len(),
            self@.wf() ==> len == self@.contents().len(),
    {
        proof {
            if self@.wf() {
                lemma_snapshot(self@);
            }
        }
        count_cells(self)
    }
}

} // verus!
