//! Saturating and clamping integer helpers shared by the audio code.
use vstd::prelude::*;

verus! {

/// `x` clipped into the range of `u64`.
pub open spec fn clip_u64(x: int) -> int {
    if x > u64::MAX {
        u64::MAX as int
    } else if x < 0 {
        0
    } else {
        x
    }
}

/// `x` clipped into the range of `u32`.
pub open spec fn clip_u32(x: int) -> int {
    if x > u32::MAX {
        u32::MAX as int
    } else if x < 0 {
        0
    } else {
        x
    }
}

/// `x` clipped into the range of `i64`.
pub open spec fn clip_i64(x: int) -> int {
    if x > i64::MAX {
        i64::MAX as int
    } else if x < i64::MIN {
        i64::MIN as int
    } else {
        x
    }
}

pub open spec fn min_int(a: int, b: int) -> int {
    if a <= b {
        a
    } else {
        b
    }
}

pub open spec fn max_int(a: int, b: int) -> int {
    if a >= b {
        a
    } else {
        b
    }
}

/// `a * b`, or `u64::MAX` where the product does not fit.
pub fn saturating_mul_u64(a: u64, b: u64) -> (r: u64)
    ensures
        r == clip_u64(a * b),
{
    match a.checked_mul(b) {
        Some(p) => p,
        None => u64::MAX,
    }
}

/// `a * b`, or `u32::MAX` where the product does not fit.
pub fn saturating_mul_u32(a: u32, b: u32) -> (r: u32)
    ensures
        r == clip_u32(a * b),
{
    match a.checked_mul(b) {
        Some(p) => p,
        None => u32::MAX,
    }
}

/// `a - b` clipped into the range of `i64`.
pub fn saturating_sub_i64(a: i64, b: i64) -> (r: i64)
    ensures
        r == clip_i64(a - b),
{
    let wide: i128 = a as i128 - b as i128;
    if wide > i64::MAX as i128 {
        i64::MAX
    } else if wide < i64::MIN as i128 {
        i64::MIN
    } else {
        wide as i64
    }
}

/// `a + b` clipped into the range of `i64`.
pub fn saturating_add_i64(a: i64, b: i64) -> (r: i64)
    ensures
        r == clip_i64(a + b),
{
    let wide: i128 = a as i128 + b as i128;
    if wide > i64::MAX as i128 {
        i64::MAX
    } else if wide < i64::MIN as i128 {
        i64::MIN
    } else {
        wide as i64
    }
}

/// A millisecond count as `i64`, capped at `i64::MAX`.
pub fn ms_to_i64(ms: u64) -> (r: i64)
    ensures
        r == min_int(ms as int, i64::MAX as int),
{
    if ms > i64::MAX as u64 {
        i64::MAX
    } else {
        ms as i64
    }
}

} // verus!
