//! Saturating arithmetic used throughout the ledger: balances and point counts
//! clamp at their natural bounds instead of overflowing.

use vstd::prelude::*;

verus! {

/// Clamp a mathematical integer into the `u64` range from above.
pub open spec fn clamp_u64(x: int) -> u64 {
    if x > u64::MAX { u64::MAX } else { x as u64 }
}

/// Clamp a mathematical integer into the `u32` range from above.
pub open spec fn clamp_u32(x: int) -> u32 {
    if x > u32::MAX { u32::MAX } else { x as u32 }
}

/// Saturating addition on balances.
pub fn sat_add_u64(a: u64, b: u64) -> (r: u64)
    ensures
        r == clamp_u64(a + b),
{
    if b > u64::MAX - a {
        u64::MAX
    } else {
        a + b
    }
}

/// Saturating addition on point counts.
pub fn sat_add_u32(a: u32, b: u32) -> (r: u32)
    ensures
        r == clamp_u32(a + b),
{
    if b > u32::MAX - a {
        u32::MAX
    } else {
        a + b
    }
}

/// Saturating multiplication, used for weight accounting.
pub fn sat_mul_u64(a: u64, b: u64) -> (r: u64)
    ensures
        r == clamp_u64(a * b),
{
    match a.checked_mul(b) {
        Some(p) => p,
        None => u64::MAX,
    }
}

/// Saturating subtraction on balances.
pub fn sat_sub_u64(a: u64, b: u64) -> (r: u64)
    ensures
        r == if a >= b { (a - b) as u64 } else { 0u64 },
{
    if a >= b {
        a - b
    } else {
        0
    }
}

} // verus!
