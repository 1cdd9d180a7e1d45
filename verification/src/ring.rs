//! Geometry of a power-of-two ring: which capacities are accepted, and which
//! slot a logical position falls on.

use vstd::prelude::*;
use vstd::arithmetic::div_mod::{
    lemma_add_mod_noop, lemma_fundamental_div_mod, lemma_mod_bound, lemma_mod_mod,
    lemma_mod_multiples_vanish, lemma_small_mod,
};
use vstd::arithmetic::power2::{
    lemma2_to64, lemma_pow2_adds, lemma_pow2_pos, lemma_pow2_strictly_increases, pow2,
};
use vstd::bits::{lemma_usize_low_bits_mask_is_mod, low_bits_mask};

verus! {

/// Largest ring the queues accept. A semaphore is set up with a 32-bit
/// number of permits, and sequence counters are compared by a signed
/// difference that must tell a lap ahead from a lap behind, so a ring has
/// at most 2^31 slots.
pub const MAX_CAPACITY: usize = 0x8000_0000;

/// `n` is 2^k for some natural number k.
pub open spec fn is_power_of_two(n: int) -> bool {
    exists|k: nat| n == pow2(k)
}

/// The capacities a ring can be built with: powers of two from 2 up to
/// [`MAX_CAPACITY`].
pub open spec fn valid_capacity(n: usize) -> bool {
    &&& 2 <= n <= MAX_CAPACITY
    &&& is_power_of_two(n as int)
}

/// The masks of the rings that can be built: a valid capacity less one.
pub open spec fn valid_mask(mask: usize) -> bool {
    &&& mask < usize::MAX
    &&& valid_capacity((mask + 1) as usize)
}

/// The slot that logical position `pos` falls on in a ring of `capacity`
/// slots.
pub open spec fn slot_of(pos: usize, capacity: usize) -> int {
    (pos as int) % (capacity as int)
}

/// The position `k` steps after `pos`. Positions wrap around at the width of
/// `usize`.
pub open spec fn ahead(pos: usize, k: int) -> usize {
    ((pos + k) % (usize::MAX + 1)) as usize
}

/// The exponents up to 31 give exactly the powers of two up to 2^31.
proof fn lemma_small_powers(n: int)
    requires
        1 <= n <= 0x8000_0000,
    ensures
        is_power_of_two(n) <==> (n == 0x1 || n == 0x2 || n == 0x4 || n == 0x8 || n == 0x10 || n
            == 0x20 || n == 0x40 || n == 0x80 || n == 0x100 || n == 0x200 || n == 0x400 || n
            == 0x800 || n == 0x1000 || n == 0x2000 || n == 0x4000 || n == 0x8000 || n == 0x10000
            || n == 0x20000 || n == 0x40000 || n == 0x80000 || n == 0x100000 || n == 0x200000 || n
            == 0x400000 || n == 0x800000 || n == 0x1000000 || n == 0x2000000 || n == 0x4000000
            || n == 0x8000000 || n == 0x10000000 || n == 0x20000000 || n == 0x40000000 || n
            == 0x80000000),
{
    lemma2_to64();
    if is_power_of_two(n) {
        let k: nat = choose|k: nat| n == pow2(k);
        if k > 31 {
            lemma_pow2_strictly_increases(31, k);
        }
    }
}

/// A valid capacity is 2^k for an exponent k between 1 and 31.
pub proof fn lemma_capacity_exponent(capacity: usize) -> (k: nat)
    requires
        valid_capacity(capacity),
    ensures
        1 <= k <= 31,
        capacity == pow2(k),
        capacity - 1 == low_bits_mask(k),
{
    lemma2_to64();
    let k: nat = choose|k: nat| capacity as int == pow2(k);
    if k > 31 {
        lemma_pow2_strictly_increases(31, k);
    }
    if k < 1 {
        assert(pow2(0) == 1);
    }
    k
}

/// Tells whether a ring can be built with `n` slots.
pub fn is_valid_capacity(n: usize) -> (ok: bool)
    ensures
        ok == valid_capacity(n),
{
    let m: u64 = n as u64;
    if m < 2 || m > 0x8000_0000 {
        return false;
    }
    let below: u64 = m - 1;
    let ok: bool = (m & below) == 0;
    proof {
        lemma_small_powers(m as int);
        assert(((m & below) == 0) <==> (m == 0x2 || m == 0x4 || m == 0x8 || m == 0x10 || m == 0x20
            || m == 0x40 || m == 0x80 || m == 0x100 || m == 0x200 || m == 0x400 || m == 0x800 || m
            == 0x1000 || m == 0x2000 || m == 0x4000 || m == 0x8000 || m == 0x10000 || m == 0x20000
            || m == 0x40000 || m == 0x80000 || m == 0x100000 || m == 0x200000 || m == 0x400000
            || m == 0x800000 || m == 0x1000000 || m == 0x2000000 || m == 0x4000000 || m
            == 0x8000000 || m == 0x10000000 || m == 0x20000000 || m == 0x40000000 || m
            == 0x80000000)) by (bit_vector)
            requires
                2 <= m <= 0x8000_0000,
                below == m - 1,
        ;
    }
    ok
}

/// The slot index of logical position `pos`, for a ring whose mask is
/// `mask` (its capacity less one).
pub fn slot_index(pos: usize, mask: usize) -> (idx: usize)
    requires
        valid_mask(mask),
    ensures
        idx == slot_of(pos, (mask + 1) as usize),
        idx <= mask,
{
    proof {
        let k = lemma_capacity_exponent((mask + 1) as usize);
        lemma_usize_low_bits_mask_is_mod(pos, k);
    }
    pos & mask
}

/// The number of `usize` values is a multiple of every valid capacity, so
/// that wrapping a position around does not move it to another slot.
pub proof fn lemma_word_is_whole_laps(capacity: usize) -> (laps: int)
    requires
        valid_capacity(capacity),
    ensures
        0 < laps,
        usize::MAX + 1 == capacity * laps,
{
    let k = lemma_capacity_exponent(capacity);
    lemma2_to64();
    if usize::MAX + 1 == 0x1_0000_0000 {
        let rest: nat = (32 - k) as nat;
        lemma_pow2_adds(k, rest);
        lemma_pow2_pos(rest);
        pow2(rest) as int
    } else {
        let rest: nat = (64 - k) as nat;
        lemma_pow2_adds(k, rest);
        lemma_pow2_pos(rest);
        pow2(rest) as int
    }
}

/// Wrapping addition moves a position ahead.
pub proof fn lemma_wrapping_add_is_ahead(pos: usize, k: usize)
    ensures
        pos.wrapping_add(k) == ahead(pos, k as int),
{
    let word: int = usize::MAX + 1;
    if pos + k > usize::MAX {
        lemma_mod_multiples_vanish(1, pos + k - word, word);
        lemma_small_mod((pos + k - word) as nat, word as nat);
    } else {
        lemma_small_mod((pos + k) as nat, word as nat);
    }
}

/// Going ahead in two stages is going ahead by their sum.
pub proof fn lemma_ahead_twice(pos: usize, j: int, k: int)
    requires
        0 <= j,
        0 <= k,
    ensures
        ahead(ahead(pos, j), k) == ahead(pos, j + k),
{
    let word: int = usize::MAX + 1;
    lemma_mod_bound(pos + j, word);
    lemma_add_mod_noop(pos + j, k, word);
    lemma_mod_bound(k, word);
    lemma_add_mod_noop((pos + j) % word, k, word);
    lemma_small_mod(((pos + j) % word) as nat, word as nat);
}

/// Going no step ahead stays in place.
pub proof fn lemma_ahead_zero(pos: usize)
    ensures
        ahead(pos, 0) == pos,
{
    lemma_small_mod(pos as nat, (usize::MAX + 1) as nat);
}

/// The wrapping distance from a position to the one `k` steps ahead is `k`.
pub proof fn lemma_ahead_distance(pos: usize, k: int)
    requires
        0 <= k <= usize::MAX,
    ensures
        ahead(pos, k).wrapping_sub(pos) == k,
{
    let word: int = usize::MAX + 1;
    if pos + k > usize::MAX {
        lemma_mod_multiples_vanish(1, pos + k - word, word);
        lemma_small_mod((pos + k - word) as nat, word as nat);
    } else {
        lemma_small_mod((pos + k) as nat, word as nat);
    }
}

/// A position whose wrapping distance from `pos` is `k` lies `k` steps ahead
/// of `pos`.
pub proof fn lemma_distance_ahead(pos: usize, other: usize)
    ensures
        other == ahead(pos, other.wrapping_sub(pos) as int),
{
    let word: int = usize::MAX + 1;
    let k: int = other.wrapping_sub(pos) as int;
    if other - pos < 0 {
        lemma_mod_multiples_vanish(1, other as int, word);
        lemma_small_mod(other as nat, word as nat);
    } else {
        lemma_small_mod(other as nat, word as nat);
    }
}

/// The slot of the position `k` steps ahead lies `k` slots further on,
/// around the ring.
pub proof fn lemma_slot_of_ahead(pos: usize, k: int, capacity: usize)
    requires
        valid_capacity(capacity),
        0 <= k,
    ensures
        slot_of(ahead(pos, k), capacity) == (slot_of(pos, capacity) + k) % (capacity as int),
        0 <= slot_of(ahead(pos, k), capacity) < capacity,
{
    let n: int = capacity as int;
    let laps = lemma_word_is_whole_laps(capacity);
    lemma_mod_mod(pos + k, n, laps);
    lemma_add_mod_noop(pos as int, k, n);
    lemma_mod_bound(pos as int, n);
    lemma_mod_bound(k, n);
    lemma_add_mod_noop((pos as int) % n, k, n);
    lemma_small_mod(((pos as int) % n) as nat, n as nat);
    lemma_mod_bound(pos + k, n);
}

/// Within one lap, different steps ahead fall on different slots.
pub proof fn lemma_slots_differ(pos: usize, j: int, k: int, capacity: usize)
    requires
        valid_capacity(capacity),
        0 <= j < capacity,
        0 <= k < capacity,
        j != k,
    ensures
        slot_of(ahead(pos, j), capacity) != slot_of(ahead(pos, k), capacity),
{
    let n: int = capacity as int;
    let base: int = slot_of(pos, capacity);
    lemma_slot_of_ahead(pos, j, capacity);
    lemma_slot_of_ahead(pos, k, capacity);
    lemma_mod_bound(pos as int, n);
    lemma_fundamental_div_mod(base + j, n);
    lemma_fundamental_div_mod(base + k, n);
    let qj: int = (base + j) / n;
    let qk: int = (base + k) / n;
    if (base + j) % n == (base + k) % n {
        assert(j - k == n * qj - n * qk);
        assert(n * qj - n * qk == n * (qj - qk)) by (nonlinear_arith);
        assert(qj != qk);
        assert(n * (qj - qk) >= n || n * (qj - qk) <= -n) by (nonlinear_arith)
            requires
                qj != qk,
                n > 0,
        ;
    }
}

/// One whole lap ahead is the same slot again.
pub proof fn lemma_slot_of_lap(pos: usize, capacity: usize)
    requires
        valid_capacity(capacity),
    ensures
        slot_of(ahead(pos, capacity as int), capacity) == slot_of(pos, capacity),
{
    let n: int = capacity as int;
    lemma_slot_of_ahead(pos, n, capacity);
    lemma_mod_bound(pos as int, n);
    lemma_mod_multiples_vanish(1, slot_of(pos, capacity), n);
    lemma_small_mod(slot_of(pos, capacity) as nat, n as nat);
}

} // verus!
