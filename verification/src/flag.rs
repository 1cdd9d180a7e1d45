//! The validity flag of a slot in the single-producer ring.
//!
//! A thread reserves a position by adding one to `tail` or `head`, reads
//! the flag of the position's slot, and either goes on with the slot or
//! gives its reservation back.

use vstd::prelude::*;
use crate::ring::{slot_index, slot_of, valid_mask};

verus! {

/// What a thread does next, having reserved a position and read the flag
/// of its slot.
#[derive(Clone, Copy, Debug, PartialEq, Eq)]
pub enum FlagMove {
    /// The slot is the thread's. A producer stores the value into slot
    /// `index` and sets its flag; a consumer takes the value out of slot
    /// `index` and clears its flag.
    Proceed { index: usize },
    /// The slot is not the thread's: it takes one from the counter again,
    /// and the call fails.
    GiveBack,
}

/// The move of the producer that has reserved position `reserved` and read
/// `valid` in its slot, in a ring with mask `mask`: a slot that still holds
/// a value is how a full ring looks.
pub open spec fn flag_push_move_of(reserved: usize, valid: bool, mask: usize) -> FlagMove {
    if valid {
        FlagMove::GiveBack
    } else {
        FlagMove::Proceed { index: slot_of(reserved, (mask + 1) as usize) as usize }
    }
}

/// The move of a consumer that has reserved position `reserved` and read
/// `valid` in its slot, in a ring with mask `mask`: a slot without a value
/// is how an empty ring looks.
pub open spec fn flag_pop_move_of(reserved: usize, valid: bool, mask: usize) -> FlagMove {
    if valid {
        FlagMove::Proceed { index: slot_of(reserved, (mask + 1) as usize) as usize }
    } else {
        FlagMove::GiveBack
    }
}

/// Computes [`flag_push_move_of`].
pub fn flag_push_move(reserved: usize, valid: bool, mask: usize) -> (m: FlagMove)
    requires
        valid_mask(mask),
    ensures
        m == flag_push_move_of(reserved, valid, mask),
        m matches FlagMove::Proceed { index } ==> index <= mask,
{
    if valid {
        FlagMove::GiveBack
    } else {
        FlagMove::Proceed { index: slot_index(reserved, mask) }
    }
}

/// Computes [`flag_pop_move_of`].
pub fn flag_pop_move(reserved: usize, valid: bool, mask: usize) -> (m: FlagMove)
    requires
        valid_mask(mask),
    ensures
        m == flag_pop_move_of(reserved, valid, mask),
        m matches FlagMove::Proceed { index } ==> index <= mask,
{
    if valid {
        FlagMove::Proceed { index: slot_index(reserved, mask) }
    } else {
        FlagMove::GiveBack
    }
}

} // verus!
