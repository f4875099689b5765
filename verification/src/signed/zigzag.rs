//! The zigzag transform between signed and unsigned 64-bit integers.
//!
//! Non-negative values map to the even numbers and negative values to
//! the odd ones, by magnitude, so integers of small magnitude — of
//! either sign — take few bytes once encoded.

use vstd::prelude::*;

verus! {

/// The zigzag image of a signed value: `2*v` when `v` is non-negative,
/// `-2*v - 1` when it is negative.
pub open spec fn zigzag_spec(v: i64) -> u64 {
    if v >= 0 {
        (2 * (v as int)) as u64
    } else {
        (-2 * (v as int) - 1) as u64
    }
}

/// The signed value a zigzag image stands for: `u/2` for even `u`,
/// `-(u/2) - 1` for odd `u`.
pub open spec fn unzigzag_spec(u: u64) -> i64 {
    if u % 2 == 0 {
        (u / 2) as i64
    } else {
        (-((u / 2) as int) - 1) as i64
    }
}

/// Map a signed 64-bit integer to its zigzag-encoded unsigned form.
pub fn encode(value: i64) -> (r: u64)
    ensures
        r == zigzag_spec(value),
{
    if value >= 0 {
        (value as u64) * 2
    } else {
        ((-(value + 1)) as u64) * 2 + 1
    }
}

/// Map a zigzag-encoded unsigned integer back to its signed value.
pub fn decode(encoded: u64) -> (r: i64)
    ensures
        r == unzigzag_spec(encoded),
{
    if encoded % 2 == 0 {
        (encoded / 2) as i64
    } else {
        -((encoded / 2) as i64) - 1
    }
}

/// The zigzag transform is a bijection between the full signed and
/// unsigned 64-bit domains: each direction inverts the other.
pub proof fn lemma_zigzag_bijection(v: i64, u: u64)
    ensures
        unzigzag_spec(zigzag_spec(v)) == v,
        zigzag_spec(unzigzag_spec(u)) == u,
{
}

/// Small magnitudes stay small: a value between `-n` and `n` has a
/// zigzag image no larger than `2 * n`.
pub proof fn lemma_zigzag_bound(v: i64, n: int)
    requires
        -n <= v <= n,
    ensures
        zigzag_spec(v) <= 2 * n,
{
}

} // verus!
