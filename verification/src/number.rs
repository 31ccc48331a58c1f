//! Numbers of fixed width.

use vstd::prelude::*;

verus! {

/// A counter that wraps around.
pub open spec fn counted(n: u64, more: nat) -> u64 {
    ((n + more) % 0x1_0000_0000_0000_0000) as u64
}

pub fn count(n: u64, more: u64) -> (r: u64)
    ensures
        r == counted(n, more as nat),
{
    n.wrapping_add(more)
}

/// A time that has passed, in 32 bits; 0 where the clock went back.
pub open spec fn elapsed(from_us: u64, to_us: u64) -> u32 {
    if to_us < from_us {
        0
    } else {
        ((to_us - from_us) % 0x1_0000_0000) as u32
    }
}

pub fn elapsed_us(from_us: u64, to_us: u64) -> (r: u32)
    ensures
        r == elapsed(from_us, to_us),
{
    if to_us < from_us {
        0
    } else {
        ((to_us - from_us) % 0x1_0000_0000) as u32
    }
}

/// A number read as signed, as a cast to `i32` reads it.
pub open spec fn as_signed(n: u32) -> i32 {
    if n <= 0x7fff_ffff {
        n as i32
    } else {
        (n - 0x1_0000_0000) as i32
    }
}

pub fn signed_of(n: u32) -> (r: i32)
    ensures
        r == as_signed(n),
{
    if n <= 0x7fff_ffff {
        n as i32
    } else {
        (n as i64 - 0x1_0000_0000) as i32
    }
}

/// A counter grows by what it is told, and only beyond 2^64 - 1 it begins anew at 0.
pub proof fn counters_grow(n: u64, more: nat)
    ensures
        n + more < 0x1_0000_0000_0000_0000 ==> counted(n, more) == n + more,
        counted(0xffff_ffff_ffff_ffff, 1) == 0,
        counted(n, 0) == n,
{
}

/// Under 72 minutes the time between two moments is exact; a clock that went back shows none.
pub proof fn short_times_are_exact(from_us: u64, to_us: u64)
    ensures
        from_us <= to_us < from_us + 0x1_0000_0000 ==> from_us + elapsed(from_us, to_us) == to_us,
        to_us < from_us ==> elapsed(from_us, to_us) == 0,
        to_us >= from_us ==> (to_us - from_us - elapsed(from_us, to_us)) % 0x1_0000_0000 == 0,
{
}

/// Read as signed, the lower half of the numbers stays and the upper half is 2^32 less.
pub proof fn the_upper_half_is_negative(n: u32)
    ensures
        n < 0x8000_0000 ==> as_signed(n) == n,
        n >= 0x8000_0000 ==> as_signed(n) == n - 0x1_0000_0000,
{
}

} // verus!
