//! The IEEE 754 binary64 format, read as integers.
//!
//! A binary64 value is a 64-bit pattern: one sign bit, eleven bits of biased
//! exponent and fifty-two bits of fraction. A finite value has the magnitude
//! `significand * 2^exponent` for the two integers that [`significand`] and
//! [`exponent`] read from the pattern. Arithmetic on such values is exact
//! arithmetic on these integers followed by a rounding to 53 significant
//! bits, ties to even.

use vstd::prelude::*;
use vstd::arithmetic::div_mod::{lemma_fundamental_div_mod, lemma_mod_bound};

verus! {

/// The pattern of `0.0`.
pub const ZERO: u64 = 0;

/// The pattern of `0.5`.
pub const HALF: u64 = 0x3FE0_0000_0000_0000;

/// The pattern of `1.0`.
pub const ONE: u64 = 0x3FF0_0000_0000_0000;

/// The pattern of positive infinity. Every larger pattern is a NaN or has its
/// sign bit set.
pub const INFINITY: u64 = 0x7FF0_0000_0000_0000;

/// The lowest bit of the exponent field, two to the power 52. In a normal
/// value it is also the leading bit of the significand, which the pattern
/// does not store.
pub const HIDDEN_BIT: u64 = 0x0010_0000_0000_0000;

/// The sign bit, two to the power 63.
pub const SIGN_BIT: u64 = 0x8000_0000_0000_0000;

/// Whether the sign bit is set.
pub open spec fn is_negative(bits: u64) -> bool {
    bits >= SIGN_BIT
}

/// The exponent field.
pub open spec fn biased_exponent(bits: u64) -> nat {
    ((bits / HIDDEN_BIT) % 0x800) as nat
}

/// The fraction field.
pub open spec fn fraction(bits: u64) -> nat {
    (bits % HIDDEN_BIT) as nat
}

/// Whether the pattern is a NaN.
pub open spec fn is_nan(bits: u64) -> bool {
    biased_exponent(bits) == 0x7FF && fraction(bits) != 0
}

/// The significand of a finite value: the fraction field, with the hidden bit
/// in front unless the value is subnormal.
pub open spec fn significand(bits: u64) -> nat {
    if biased_exponent(bits) == 0 {
        fraction(bits)
    } else {
        HIDDEN_BIT as nat + fraction(bits)
    }
}

/// The power of two that scales the significand of a finite value.
pub open spec fn exponent(bits: u64) -> int {
    if biased_exponent(bits) == 0 {
        -1074
    } else {
        biased_exponent(bits) - 1075
    }
}

/// The integer nearest to `n / d`; of two equally near, the even one.
pub open spec fn round_ties_even(n: nat, d: nat) -> nat {
    let q = n / d;
    let r = n % d;
    if 2 * r < d || (2 * r == d && q % 2 == 0) {
        q
    } else {
        q + 1
    }
}

/// The integer nearest to `n / d`; of two equally near, the larger one.
pub open spec fn round_ties_away(n: nat, d: nat) -> nat {
    (2 * n + d) / (2 * d)
}

/// By how many bits `n` is longer than the 53 bits of a significand.
pub open spec fn excess_bits(n: nat) -> nat
    decreases n,
{
    if n < 0x20_0000_0000_0000 {
        0
    } else {
        1 + excess_bits(n / 2)
    }
}

/// Rounding with ties to even moves a quotient by no more than a half.
pub proof fn round_ties_even_is_nearest(n: nat, d: nat)
    requires
        d > 0,
    ensures
        2 * (d * round_ties_even(n, d)) <= 2 * n + d,
        2 * n <= 2 * (d * round_ties_even(n, d)) + d,
{
    let q = n / d;
    let r = n % d;
    lemma_fundamental_div_mod(n as int, d as int);
    lemma_mod_bound(n as int, d as int);
    assert(d * (q + 1) == d * q + d) by (nonlinear_arith);
}

/// Rounding with ties away from zero moves a quotient by no more than a
/// half, and by less than a half downwards.
pub proof fn round_ties_away_is_nearest(n: nat, d: nat)
    requires
        d > 0,
    ensures
        2 * (d * round_ties_away(n, d)) <= 2 * n + d,
        2 * n < 2 * (d * round_ties_away(n, d)) + d,
{
    let x = 2 * n + d;
    let q = x / (2 * d);
    lemma_fundamental_div_mod(x as int, (2 * d) as int);
    lemma_mod_bound(x as int, (2 * d) as int);
    assert((2 * d) * q == 2 * (d * q)) by (nonlinear_arith);
}

/// `n / d` rounded to the nearest integer, ties to even.
pub fn divide_ties_even(n: u64, d: u64) -> (q: u64)
    requires
        d > 0,
    ensures
        q == round_ties_even(n as nat, d as nat),
{
    let kept: u64 = n / d;
    let lost: u64 = n % d;
    if lost < d - lost || (lost == d - lost && kept % 2 == 0) {
        kept
    } else {
        assert(kept < u64::MAX) by (nonlinear_arith)
            requires
                kept == n / d,
                d > 1,
                n <= u64::MAX,
        ;
        kept + 1
    }
}

} // verus!
