//! The index encoding: a `usize` whose top bit counts laps.
//!
//! A logical read or write index stores its true offset into the backing
//! store in the low bits and reserves the most-significant bit, `WRAP_BIT`,
//! as a one-bit lap counter.  The counter flips each time the offset wraps
//! from the end of the store back to the start, which is what lets a buffer
//! of capacity `L` tell "full" (offsets equal, lap bits differ) from
//! "empty" (indices identical) without a separate flag.

use vstd::arithmetic::div_mod::{lemma_mod_sub_multiples_vanish, lemma_small_mod};
use vstd::arithmetic::power2::{lemma2_to64, lemma_pow2_adds, lemma_pow2_pos, pow2};
use vstd::bits::{lemma_usize_pow2_no_overflow, lemma_usize_shl_is_mul};
use vstd::layout::unsigned_int_max_values;
use vstd::prelude::*;

verus! {

/// The most-significant bit of `usize`, reserved as the lap counter.
pub const WRAP_BIT: usize = 1usize << ((usize::BITS - 1) as usize);

/// True when the lap bit of index `i` is set.
pub open spec fn wrapped(i: usize) -> bool {
    i >= WRAP_BIT
}

/// The true offset encoded in index `i`, i.e. `i` with the lap bit cleared.
pub open spec fn position(i: usize) -> int {
    if i >= WRAP_BIT {
        i - WRAP_BIT
    } else {
        i as int
    }
}

/// A usable capacity: at least one slot, and small enough that the lap
/// bit stays free.
pub open spec fn valid_len(len: int) -> bool {
    0 < len < WRAP_BIT
}

/// A well-formed index for a store of length `len`: its offset is in range.
pub open spec fn valid_index(i: usize, len: int) -> bool {
    position(i) < len
}

/// The index after one step through a store of length `len`: the offset
/// advances by one, and the lap bit flips exactly when the offset wraps
/// back to the start.
pub open spec fn advance(i: usize, len: int) -> usize
    recommends
        valid_len(len),
        valid_index(i, len),
{
    if position(i) + 1 < len {
        (i + 1) as usize
    } else if wrapped(i) {
        0usize
    } else {
        WRAP_BIT
    }
}

/// `WRAP_BIT` is the top bit: it is 2^(BITS-1), and every index value
/// fits below twice it.
pub proof fn lemma_wrap_bit_value()
    ensures
        2 <= WRAP_BIT,
        2 * WRAP_BIT - 1 == usize::MAX,
{
    let s = (usize::BITS - 1) as nat;
    lemma_usize_pow2_no_overflow(s);
    lemma_usize_shl_is_mul(1usize, (usize::BITS - 1) as usize);
    assert(WRAP_BIT == pow2(s));
    unsigned_int_max_values();
    lemma_pow2_adds(s, 1);
    lemma2_to64();
    assert(pow2(usize::BITS as nat) == pow2(s) * 2);
    lemma_pow2_pos(s);
}

/// Clearing the lap bit with a mask recovers the encoded offset.
pub proof fn lemma_mask_is_position(i: usize)
    ensures
        i & !WRAP_BIT == position(i),
{
    assert(i & !WRAP_BIT == (if i >= WRAP_BIT {
        i - WRAP_BIT
    } else {
        i as int
    })) by (bit_vector);
}

/// Toggling the lap bit with xor keeps the offset and flips the lap.
pub proof fn lemma_xor_flips_lap(i: usize)
    ensures
        i ^ WRAP_BIT == (if wrapped(i) {
            i - WRAP_BIT
        } else {
            i + WRAP_BIT
        }),
{
    assert(i ^ WRAP_BIT == (if i >= WRAP_BIT {
        i - WRAP_BIT
    } else {
        i + WRAP_BIT
    })) by (bit_vector);
}

/// An offset sum that stays below two full laps reduces mod `len` by
/// subtracting `len` at most once.
pub proof fn lemma_offset_mod(a: int, len: int)
    requires
        0 < len,
        0 <= a < 2 * len,
    ensures
        a % len == (if a < len {
            a
        } else {
            a - len
        }),
{
    if a < len {
        lemma_small_mod(a as nat, len as nat);
    } else {
        lemma_mod_sub_multiples_vanish(a, len);
        lemma_small_mod((a - len) as nat, len as nat);
    }
}

/// What one advance step does to the encoded offset and lap bit.
pub proof fn lemma_advance(i: usize, len: int)
    requires
        valid_len(len),
        valid_index(i, len),
    ensures
        valid_index(advance(i, len), len),
        position(advance(i, len)) == (position(i) + 1) % len,
        position(i) + 1 < len ==> wrapped(advance(i, len)) == wrapped(i) && position(
            advance(i, len),
        ) == position(i) + 1,
        position(i) + 1 == len ==> wrapped(advance(i, len)) != wrapped(i) && position(
            advance(i, len),
        ) == 0,
{
    lemma_wrap_bit_value();
    lemma_offset_mod(position(i) + 1, len);
}

/// Two indices xor to exactly the lap bit if and only if they encode the
/// same offset with opposite lap bits.
pub proof fn lemma_xor_detects_lap_gap(h: usize, t: usize)
    ensures
        (h ^ t == WRAP_BIT) <==> (position(h) == position(t) && wrapped(h) != wrapped(t)),
{
    assert((h ^ t == WRAP_BIT) <==> ((if h >= WRAP_BIT {
        h - WRAP_BIT
    } else {
        h as int
    }) == (if t >= WRAP_BIT {
        t - WRAP_BIT
    } else {
        t as int
    }) && ((h >= WRAP_BIT) != (t >= WRAP_BIT)))) by (bit_vector);
}

} // verus!
