//! Integers read with or without a sign.
use vstd::prelude::*;

verus! {

/// `n` read as a signed number of 64 bits.
pub open spec fn signed(n: u64) -> int {
    if n <= i64::MAX {
        n as int
    } else {
        n - 0x1_0000_0000_0000_0000
    }
}

/// `n` read as an unsigned number of 64 bits.
pub open spec fn unsigned(n: i64) -> int {
    if n >= 0 {
        n as int
    } else {
        n + 0x1_0000_0000_0000_0000
    }
}

/// Reads `n` as a signed number.
pub fn to_signed(n: u64) -> (s: i64)
    ensures
        s == signed(n),
{
    if n <= 9223372036854775807 {
        n as i64
    } else {
        -((u64::MAX - n) as i64) - 1
    }
}

/// Reads `n` as an unsigned number.
pub fn to_unsigned(n: i64) -> (u: u64)
    ensures
        u == unsigned(n),
{
    if n >= 0 {
        n as u64
    } else {
        u64::MAX - ((-(n + 1)) as u64)
    }
}

} // verus!
