//! Binary32 numbers in whole units.
//!
//! A binary32 number has 24 significant bits. A calculation on such numbers rounds every result to
//! the nearest one, and to the even one of two that are equally near. Here the numbers are counted
//! in a unit that is a power of two and small enough for all of them to be whole; rounding does
//! not depend on the choice of that unit.

use vstd::arithmetic::div_mod::{lemma_div_denominator, lemma_fundamental_div_mod};
use vstd::arithmetic::power2::{lemma_pow2_unfold, pow2};
use vstd::prelude::*;

verus! {

/// Numbers from 2^24 on have more bits than are kept.
pub const TOO_LONG: u128 = 0x100_0000;

/// What the last kept bit of `n` stands for.
pub open spec fn last_place(n: nat) -> nat
    decreases n,
{
    if n < TOO_LONG {
        1
    } else {
        2 * last_place(n / 2)
    }
}

/// The multiple of `step` nearest to `n`; of two equally near ones, the even multiple.
pub open spec fn nearest(n: nat, step: nat) -> nat {
    let q = n / step;
    let r = n % step;
    if 2 * r < step || (2 * r == step && q % 2 == 0) {
        q * step
    } else {
        (q + 1) * step
    }
}

/// The binary32 number nearest to `n`.
pub open spec fn rounded(n: nat) -> nat {
    nearest(n, last_place(n))
}

pub proof fn last_place_bounds(n: nat)
    ensures
        1 <= last_place(n),
        n > 0 ==> last_place(n) <= n,
        n < TOO_LONG ==> last_place(n) == 1,
    decreases n,
{
    if n >= TOO_LONG {
        last_place_bounds(n / 2);
    }
}

pub proof fn nearest_bounds(n: nat, step: nat)
    requires
        0 < step,
    ensures
        nearest(n, step) <= n + step,
        n <= nearest(n, step) + step,
        step == 1 ==> nearest(n, step) == n,
{
    lemma_fundamental_div_mod(n as int, step as int);
    let q = n / step;
    assert(q * step == step * q) by (nonlinear_arith);
    assert((q + 1) * step == step * q + step) by (nonlinear_arith);
    if step == 1 {
        assert(n % 1 == 0);
        assert(q * 1 == q);
    }
}

/// Rounding keeps what has at most 24 bits, and never more than doubles a number.
pub proof fn rounded_bounds(n: nat)
    ensures
        rounded(n) <= 2 * n,
        n < TOO_LONG ==> rounded(n) == n,
{
    last_place_bounds(n);
    nearest_bounds(n, last_place(n));
    if n == 0 {
        assert(rounded(0) == 0);
    }
}

proof fn last_place_is_small(n: nat)
    requires
        n >= TOO_LONG,
    ensures
        0x80_0000 * last_place(n) <= n,
    decreases n,
{
    if n / 2 >= TOO_LONG {
        last_place_is_small(n / 2);
    } else {
        assert(last_place(n / 2) == 1);
    }
}

/// Rounding changes a number by at most one part in 2^23.
pub proof fn rounded_is_close(n: nat)
    ensures
        0x80_0000 * rounded(n) <= 0x80_0001 * n,
        0x7f_ffff * n <= 0x80_0000 * rounded(n),
{
    rounded_bounds(n);
    if n >= TOO_LONG {
        last_place_bounds(n);
        last_place_is_small(n);
        nearest_bounds(n, last_place(n));
    }
}

/// What is nearest is at most half a step away.
pub proof fn nearest_is_within_half(n: nat, step: nat)
    requires
        0 < step,
    ensures
        2 * nearest(n, step) <= 2 * n + step,
        2 * n <= 2 * nearest(n, step) + step,
{
    lemma_fundamental_div_mod(n as int, step as int);
    let q = n / step;
    assert(q * step == step * q) by (nonlinear_arith);
    assert((q + 1) * step == step * q + step) by (nonlinear_arith);
}

/// A number of `24 + j` bits loses at most `j` of them.
pub proof fn last_place_under(n: nat, j: nat)
    requires
        n < TOO_LONG * pow2(j),
    ensures
        1 <= last_place(n) <= pow2(j),
    decreases n,
{
    last_place_bounds(n);
    if j > 0 {
        lemma_pow2_unfold(j);
    } else {
        vstd::arithmetic::power2::lemma2_to64();
    }
    if n >= TOO_LONG {
        last_place_under(n / 2, (j - 1) as nat);
    } else {
        vstd::arithmetic::power2::lemma_pow2_pos(j);
    }
}

/// Rounding a number of `24 + j` bits changes it by at most half of what the last kept bit stands
/// for.
pub proof fn rounded_is_within_half(n: nat, j: nat)
    requires
        n < TOO_LONG * pow2(j),
    ensures
        2 * rounded(n) <= 2 * n + pow2(j),
        2 * n <= 2 * rounded(n) + pow2(j),
{
    last_place_under(n, j);
    nearest_is_within_half(n, last_place(n));
}

pub fn nearest_of(n: u128, step: u128) -> (r: u128)
    requires
        0 < step <= 0x8000_0000_0000_0000_0000_0000_0000_0000,
        n < 0x8000_0000_0000_0000_0000_0000_0000_0000,
        n + step <= u128::MAX,
    ensures
        r == nearest(n as nat, step as nat),
{
    let q: u128 = n / step;
    let rest: u128 = n % step;
    proof {
        lemma_fundamental_div_mod(n as int, step as int);
        assert(q * step == step * q) by (nonlinear_arith);
        assert((q + 1) * step == step * q + step) by (nonlinear_arith);
    }
    if rest < step - rest || (rest == step - rest && q % 2 == 0) {
        q * step
    } else {
        (q + 1) * step
    }
}

/// Rounds to the nearest binary32 number.
pub fn round(n: u128) -> (r: u128)
    requires
        n < 0x4000_0000_0000_0000_0000_0000_0000_0000,
    ensures
        r == rounded(n as nat),
        r <= 2 * n,
{
    let mut m: u128 = n;
    let mut step: u128 = 1;
    assert(n as nat / 1 == n);
    while m >= TOO_LONG
        invariant
            n < 0x4000_0000_0000_0000_0000_0000_0000_0000,
            1 <= step,
            m == n as nat / step as nat,
            m * step <= n,
            last_place(n as nat) == step * last_place(m as nat),
        decreases m,
    {
        proof {
            lemma_div_denominator(n as int, step as int, 2);
            let half = m / 2;
            assert(half * (2 * step) <= m * step) by (nonlinear_arith)
                requires
                    2 * half <= m,
            ;
            assert(step * (2 * last_place(half as nat)) == (2 * step) * last_place(half as nat))
                by (nonlinear_arith);
            assert(step <= n) by (nonlinear_arith)
                requires
                    m * step <= n,
                    m >= 1,
                    step >= 1,
            ;
        }
        m = m / 2;
        step = step * 2;
    }
    proof {
        assert(last_place(m as nat) == 1);
        assert(step * 1 == step);
        last_place_bounds(n as nat);
        rounded_bounds(n as nat);
    }
    nearest_of(n, step)
}

/// Nothing that is a whole number of steps lies nearer, and where two lie equally near it is the
/// even one.
pub proof fn no_multiple_is_nearer(n: nat, step: nat, k: nat)
    requires
        0 < step,
    ensures
        ({
            let chosen = nearest(n, step);
            let off = if chosen < n {
                n - chosen
            } else {
                chosen - n
            };
            let other = if k * step < n {
                n - k * step
            } else {
                k * step - n
            };
            &&& off <= other
            &&& off == other && k * step != chosen ==> k % 2 == 1
            &&& exists|m: nat| chosen == #[trigger] (m * step)
        }),
{
    lemma_fundamental_div_mod(n as int, step as int);
    let q = n / step;
    let r = n % step;
    assert(q * step == step * q) by (nonlinear_arith);
    assert((q + 1) * step == step * q + step) by (nonlinear_arith);
    if k < q {
        assert(k * step + step <= q * step) by (nonlinear_arith)
            requires
                k + 1 <= q,
                0 < step,
        ;
    } else if k > q + 1 {
        assert((q + 1) * step + step <= k * step) by (nonlinear_arith)
            requires
                q + 2 <= k,
                0 < step,
        ;
    } else if k == q {
        assert(k * step == q * step);
    } else {
        assert(k * step == (q + 1) * step);
    }
}

/// 24 bits are kept: the last place is a power of two, and counted in it a number is below 2^24,
/// and not below 2^23 unless it is kept whole.
pub proof fn twenty_four_bits_are_kept(n: nat)
    ensures
        exists|e: nat| last_place(n) == #[trigger] pow2(e),
        n / last_place(n) < 0x100_0000,
        last_place(n) == 1 || n / last_place(n) >= 0x80_0000,
    decreases n,
{
    last_place_bounds(n);
    if n < TOO_LONG {
        vstd::arithmetic::power2::lemma2_to64();
        assert(last_place(n) == pow2(0));
        assert(n / 1 == n);
    } else {
        let half = n / 2;
        twenty_four_bits_are_kept(half);
        last_place_bounds(half);
        let e = choose|e: nat| last_place(half) == #[trigger] pow2(e);
        lemma_pow2_unfold(e + 1);
        assert(last_place(n) == pow2(e + 1));
        lemma_div_denominator(n as int, 2, last_place(half) as int);
        assert(n / (2 * last_place(half)) == half / last_place(half));
        if last_place(half) == 1 {
            assert(half / 1 == half);
        }
    }
}

/// What is computed is the nearest multiple, and a number of at most 24 bits stays as it is.
pub proof fn short_numbers_stay(n: u128, step: u128, near: u128, r: u128)
    requires
        0 < step,
        call_ensures(nearest_of, (n, step), near),
        call_ensures(round, (n,), r),
    ensures
        n % step == 0 ==> near == n,
        n < 0x100_0000 ==> r == n,
        r == rounded(n as nat),
        near == nearest(n as nat, step as nat),
{
    if n % step == 0 {
        vstd::arithmetic::div_mod::lemma_fundamental_div_mod(n as int, step as int);
        let k = (n as int / step as int) as nat;
        assert(k * step == n) by (nonlinear_arith)
            requires
                n == step * (n as int / step as int) + n as int % step as int,
                n as int % step as int == 0,
                k == n as int / step as int,
        ;
        no_multiple_is_nearer(n as nat, step as nat, k);
    }
    if n < 0x100_0000 {
        assert(last_place(n as nat) == 1);
        no_multiple_is_nearer(n as nat, 1, n as nat);
        assert(n * 1 == n);
    }
}

} // verus!
