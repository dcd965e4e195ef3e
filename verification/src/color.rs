//! RGB colors.

use vstd::prelude::*;
use vstd::arithmetic::div_mod::{lemma_basic_div, lemma_multiply_divide_lt};
use vstd::arithmetic::power2::{
    lemma2_to64, lemma2_to64_rest, lemma_pow2_adds, lemma_pow2_pos, lemma_pow2_strictly_increases,
    pow2,
};
use vstd::bits::lemma_u64_shl_is_mul;
use crate::binary64::{
    biased_exponent, divide_ties_even, excess_bits, exponent, is_nan, is_negative,
    round_ties_away, round_ties_away_is_nearest, round_ties_even, round_ties_even_is_nearest,
    significand, HIDDEN_BIT, INFINITY, ONE, ZERO,
};

pub mod consts;

verus! {

/// An RGB color with three binary64 channels, nominally in the range 0 to 1.
///
/// Each channel is stored as the bit pattern of its IEEE 754 binary64 value,
/// exactly as given: nothing is clamped or normalized until the color is
/// exported with [`Color::to_byte_triple`].
#[derive(Clone, Copy, Debug, PartialEq, Eq, Structural)]
pub struct Color {
    pub red: u64,
    pub green: u64,
    pub blue: u64,
}

/// The largest value of a byte, as which a channel of `1.0` is exported.
pub const MAX_SUBPIXEL_VALUE: u64 = 255;

/// The byte as which a channel is exported.
///
/// The channel is first clamped to the range from 0 to 1: a value with the
/// sign bit set and a NaN give 0, a value of 1 or more gives 255. A value
/// `x` within the range gives `x * 255` as binary64 arithmetic computes it,
/// so rounded to 53 significant bits with ties to even, and then rounded to
/// the nearest integer, with ties away from zero.
pub open spec fn channel_byte(bits: u64) -> nat {
    if is_negative(bits) || is_nan(bits) {
        0
    } else if bits >= ONE {
        MAX_SUBPIXEL_VALUE as nat
    } else {
        let product = MAX_SUBPIXEL_VALUE as nat * significand(bits);
        let excess = excess_bits(product);
        let rounded = round_ties_even(product, pow2(excess));
        round_ties_away(rounded, pow2((-(exponent(bits) + excess)) as nat))
    }
}

/// How often `n` must be doubled to reach 255 or more.
pub open spec fn doublings(n: nat) -> nat
    decreases
        (if n < 255 {
            255 - n
        } else {
            0
        }),
{
    if n == 0 || n >= 255 {
        0
    } else {
        1 + doublings(2 * n)
    }
}

/// The pattern of `byte / 255` as binary64 arithmetic computes it: the
/// quotient rounded to 53 significant bits, ties to even.
///
/// For a byte other than 0 the quotient lies between `2^-j` and `2^(1-j)`,
/// where `j` is the number of doublings that take the byte to 255 or more, so
/// its exponent field is `1023 - j` and its significand is the quotient
/// scaled by `2^(52+j)`.
pub open spec fn unit_fraction(byte: nat) -> nat {
    if byte == 0 {
        ZERO as nat
    } else {
        let j = doublings(byte);
        let q = round_ties_even(byte * pow2(52 + j), MAX_SUBPIXEL_VALUE as nat);
        ((1023 - j) * HIDDEN_BIT + (q - HIDDEN_BIT)) as nat
    }
}

/// The product of 255 and a significand has at most eight excess bits, and
/// rounded to 53 bits it stays below the bounds that the export relies on.
proof fn rounded_product_bounds(sig: nat)
    requires
        sig < 0x20_0000_0000_0000,
    ensures
        ({
            let product = MAX_SUBPIXEL_VALUE as nat * sig;
            let excess = excess_bits(product);
            let rounded = round_ties_even(product, pow2(excess));
            &&& excess <= 8
            &&& excess == 8 <==> product >= 0x1000_0000_0000_0000
            &&& excess == 7 <==> 0x800_0000_0000_0000 <= product < 0x1000_0000_0000_0000
            &&& rounded <= 0x20_0000_0000_0000
            &&& excess == 8 ==> rounded <= 255 * 0x2000_0000_0000
        }),
{
    let product = MAX_SUBPIXEL_VALUE as nat * sig;
    let excess = excess_bits(product);
    lemma2_to64();
    reveal_with_fuel(excess_bits, 10);
    if product < 0x20_0000_0000_0000 {
        assert(excess == 0);
    } else if product < 0x40_0000_0000_0000 {
        assert(excess == 1);
    } else if product < 0x80_0000_0000_0000 {
        assert(excess == 2);
    } else if product < 0x100_0000_0000_0000 {
        assert(excess == 3);
    } else if product < 0x200_0000_0000_0000 {
        assert(excess == 4);
    } else if product < 0x400_0000_0000_0000 {
        assert(excess == 5);
    } else if product < 0x800_0000_0000_0000 {
        assert(excess == 6);
    } else if product < 0x1000_0000_0000_0000 {
        assert(excess == 7);
    } else {
        assert(excess == 8);
    }
}

/// A channel below `2^-9` is exported as 0.
pub proof fn small_channel_is_zero(bits: u64)
    requires
        bits < 1014 * HIDDEN_BIT,
    ensures
        channel_byte(bits) == 0,
{
    let product = MAX_SUBPIXEL_VALUE as nat * significand(bits);
    let excess = excess_bits(product);
    let rounded = round_ties_even(product, pow2(excess));
    let shift = (-(exponent(bits) + excess)) as nat;
    lemma2_to64_rest();
    rounded_product_bounds(significand(bits));
    assert(shift >= 62 - excess);
    assert(2 * rounded < pow2(shift)) by {
        if shift > 54 {
            lemma_pow2_strictly_increases(54, shift);
        }
    }
    lemma_basic_div((2 * rounded + pow2(shift)) as int, (2 * pow2(shift)) as int);
}

/// A channel `x` between 0 and 1 is exported as a byte within a half of
/// `255 * x`, but for the rounding of the product, which is less than `2^-44`.
///
/// The value of the channel is `significand / scale` for the power of two
/// `scale`, and the product has at most eight excess bits, so in units of
/// `1 / (2 * scale)` the statement is one about integers.
pub proof fn channel_byte_is_nearest(bits: u64)
    requires
        bits <= ONE,
    ensures
        ({
            let scale = pow2((-exponent(bits)) as nat);
            let exact = MAX_SUBPIXEL_VALUE as nat * significand(bits);
            let byte = channel_byte(bits);
            &&& scale >= HIDDEN_BIT
            &&& byte <= MAX_SUBPIXEL_VALUE
            &&& 2 * (scale * byte) <= 2 * exact + scale + 256
            &&& 2 * exact <= 2 * (scale * byte) + scale + 256
        }),
{
    lemma2_to64();
    lemma2_to64_rest();
    if bits == ONE {
        assert(biased_exponent(bits) == 1023);
        assert(significand(bits) == 0x10_0000_0000_0000);
    } else {
        let sig = significand(bits);
        let whole = (-exponent(bits)) as nat;
        let scale = pow2(whole);
        let product = MAX_SUBPIXEL_VALUE as nat * sig;
        let excess = excess_bits(product);
        let unit = pow2(excess);
        let rounded = round_ties_even(product, unit);
        let rest = (whole - excess) as nat;
        let step = pow2(rest);
        let byte = round_ties_away(rounded, step);
        assert(biased_exponent(bits) <= 1022);
        rounded_product_bounds(sig);
        lemma_pow2_adds(excess, rest);
        lemma_pow2_pos(rest);
        lemma_pow2_pos(excess);
        if excess < 8 {
            lemma_pow2_strictly_increases(excess, 8);
        }
        if whole > 53 {
            lemma_pow2_strictly_increases(53, whole);
        }
        round_ties_even_is_nearest(product, unit);
        round_ties_away_is_nearest(rounded, step);
        let near = unit * rounded;
        let far = step * byte;
        assert(scale * byte == unit * far) by (nonlinear_arith)
            requires
                scale == unit * step,
                far == step * byte,
        ;
        assert(2 * (unit * far) <= 2 * near + scale && 2 * near < 2 * (unit * far) + scale)
            by (nonlinear_arith)
            requires
                2 * far <= 2 * rounded + step,
                2 * rounded < 2 * far + step,
                near == unit * rounded,
                scale == unit * step,
                unit >= 1,
        ;
        assert(byte <= 255) by (nonlinear_arith)
            requires
                2 * (scale * byte) <= 2 * product + scale + 256,
                product < 255 * scale,
                scale >= 0x20_0000_0000_0000,
        ;
    }
}

/// Whatever a channel holds, it is exported as a byte.
pub proof fn channel_byte_is_a_byte(bits: u64)
    ensures
        channel_byte(bits) <= MAX_SUBPIXEL_VALUE,
{
    if bits <= ONE {
        channel_byte_is_nearest(bits);
    }
}

/// A byte from 1 to 255 reaches the range from 255 to 509 within eight
/// doublings.
proof fn doublings_bounds(n: nat)
    requires
        1 <= n <= 255,
    ensures
        doublings(n) <= 8,
        255 <= n * pow2(doublings(n)) < 510,
        pow2(doublings(n)) <= 256,
    decreases 255 - n,
{
    lemma2_to64();
    if n == 255 {
        assert(n * pow2(0) == n) by (nonlinear_arith)
            requires
                pow2(0) == 1,
        ;
    } else if n >= 128 {
        reveal_with_fuel(doublings, 2);
        assert(doublings(n) == 1);
        assert(n * pow2(1) == 2 * n) by (nonlinear_arith)
            requires
                pow2(1) == 2,
        ;
    } else {
        doublings_bounds(2 * n);
        let j = doublings(2 * n);
        lemma_pow2_adds(j, 1);
        assert(n * (pow2(j) * 2) == (2 * n) * pow2(j)) by (nonlinear_arith);
        assert(pow2(j) < 255) by (nonlinear_arith)
            requires
                (2 * n) * pow2(j) < 510,
                n >= 1,
        ;
        if j > 8 {
            lemma_pow2_strictly_increases(8, j);
        } else if j < 7 {
            lemma_pow2_strictly_increases(j, 7);
        }
    }
}

/// The value of `unit_fraction(byte)` is the binary64 value nearest to
/// `byte / 255`: a normal value `significand / scale` for the power of two
/// `scale`, no more than half a unit of the significand away from the
/// quotient.
pub proof fn unit_fraction_is_nearest(byte: nat)
    requires
        1 <= byte <= 255,
    ensures
        ({
            let bits = unit_fraction(byte) as u64;
            let scale = pow2((-exponent(bits)) as nat);
            &&& unit_fraction(byte) <= ONE
            &&& HIDDEN_BIT <= significand(bits) < 2 * HIDDEN_BIT
            &&& scale >= HIDDEN_BIT
            &&& 2 * (255 * significand(bits)) <= 2 * (byte * scale) + 255
            &&& 2 * (byte * scale) <= 2 * (255 * significand(bits)) + 255
        }),
{
    let j = doublings(byte);
    let scale = pow2(52 + j);
    let q = round_ties_even(byte * scale, 255);
    lemma2_to64_rest();
    doublings_bounds(byte);
    lemma_pow2_adds(52, j);
    assert(byte * scale == (byte * pow2(j)) * HIDDEN_BIT) by (nonlinear_arith)
        requires
            scale == pow2(52) * pow2(j),
            pow2(52) == HIDDEN_BIT,
    ;
    assert(scale >= HIDDEN_BIT) by (nonlinear_arith)
        requires
            scale == HIDDEN_BIT * pow2(j),
            pow2(j) >= 1,
    ;
    round_ties_even_is_nearest(byte * scale, 255);
    assert(HIDDEN_BIT <= q < 2 * HIDDEN_BIT);
    let bits = unit_fraction(byte) as u64;
    assert(bits == (1023 - j) * HIDDEN_BIT + (q - HIDDEN_BIT));
    assert(biased_exponent(bits) == 1023 - j);
    assert(significand(bits) == q);
    assert((-exponent(bits)) as nat == 52 + j);
}

/// Exporting the channel that [`Color::from_hex`] makes of a byte gives the
/// byte back.
pub proof fn hex_round_trip(byte: nat)
    requires
        byte <= 255,
    ensures
        unit_fraction(byte) <= ONE,
        channel_byte(unit_fraction(byte) as u64) == byte,
{
    if byte == 0 {
        small_channel_is_zero(0);
    } else {
        let bits = unit_fraction(byte) as u64;
        let scale = pow2((-exponent(bits)) as nat);
        let sig = significand(bits);
        let back = channel_byte(bits);
        unit_fraction_is_nearest(byte);
        channel_byte_is_nearest(bits);
        assert(back == byte) by (nonlinear_arith)
            requires
                2 * (scale * back) <= 2 * (255 * sig) + scale + 256,
                2 * (255 * sig) <= 2 * (scale * back) + scale + 256,
                2 * (255 * sig) <= 2 * (byte * scale) + 255,
                2 * (byte * scale) <= 2 * (255 * sig) + 255,
                scale >= 0x10_0000_0000_0000,
        ;
    }
}

impl Color {
    /// Builds a color from the bit patterns of its three channels.
    #[verifier::allow_in_spec]
    pub fn new(r: u64, g: u64, b: u64) -> Color
        returns
            (Color { red: r, green: g, blue: b }),
    {
        Color { red: r, green: g, blue: b }
    }

    /// The color that a packed `0xRRGGBB` value names: each of its three
    /// bytes divided by 255. Bits above the lowest 24 are ignored.
    pub fn from_hex(hex_color: u32) -> (c: Color)
        ensures
            c.red == unit_fraction(((hex_color / 0x1_0000) % 0x100) as nat),
            c.green == unit_fraction(((hex_color / 0x100) % 0x100) as nat),
            c.blue == unit_fraction((hex_color % 0x100) as nat),
    {
        assert((hex_color >> 16) & 0xFF == (hex_color / 0x1_0000) % 0x100) by (bit_vector);
        assert((hex_color >> 8) & 0xFF == (hex_color / 0x100) % 0x100) by (bit_vector);
        assert(hex_color & 0xFF == hex_color % 0x100) by (bit_vector);
        let r: u8 = ((hex_color >> 16) & 0xFF) as u8;
        let g: u8 = ((hex_color >> 8) & 0xFF) as u8;
        let b: u8 = (hex_color & 0xFF) as u8;
        Self::new(
            Self::unit_fraction_bits(r),
            Self::unit_fraction_bits(g),
            Self::unit_fraction_bits(b),
        )
    }

    /// The pattern of `byte / 255`.
    fn unit_fraction_bits(byte: u8) -> (bits: u64)
        ensures
            bits == unit_fraction(byte as nat),
    {
        if byte == 0 {
            return ZERO;
        }
        let mut scaled: u64 = byte as u64;
        let mut j: u64 = 0;
        proof {
            lemma2_to64();
        }
        while scaled < MAX_SUBPIXEL_VALUE
            invariant
                1 <= scaled < 510,
                j <= 8,
                pow2(j as nat) <= scaled,
                scaled == byte * pow2(j as nat),
                doublings(byte as nat) == j + doublings(scaled as nat),
            decreases 510 - scaled,
        {
            proof {
                lemma2_to64();
                if j > 8 {
                    lemma_pow2_strictly_increases(8, j as nat);
                }
                lemma_pow2_adds(j as nat, 1);
                assert(byte * (pow2(j as nat) * 2) == 2 * (byte * pow2(j as nat)))
                    by (nonlinear_arith);
            }
            scaled = 2 * scaled;
            j = j + 1;
        }
        proof {
            lemma2_to64_rest();
            lemma_pow2_adds(52, j as nat);
            assert(byte * (pow2(52) * pow2(j as nat)) == (byte * pow2(j as nat)) * pow2(52))
                by (nonlinear_arith);
        }
        let q: u64 = divide_ties_even(scaled * HIDDEN_BIT, MAX_SUBPIXEL_VALUE);
        (1023 - j) * HIDDEN_BIT + (q - HIDDEN_BIT)
    }

    /// The bit pattern of the red channel, as stored.
    #[verifier::allow_in_spec]
    pub fn red(&self) -> u64
        returns
            self.red,
    {
        self.red
    }

    /// The bit pattern of the green channel, as stored.
    #[verifier::allow_in_spec]
    pub fn green(&self) -> u64
        returns
            self.green,
    {
        self.green
    }

    /// The bit pattern of the blue channel, as stored.
    #[verifier::allow_in_spec]
    pub fn blue(&self) -> u64
        returns
            self.blue,
    {
        self.blue
    }

    /// The byte as which a channel is exported.
    fn normalize(subpixel: u64) -> (byte: u8)
        ensures
            byte == channel_byte(subpixel),
    {
        if subpixel > INFINITY {
            return 0;
        }
        if subpixel >= ONE {
            return 255;
        }
        let biased: u64 = subpixel / HIDDEN_BIT;
        if biased < 1014 {
            proof {
                small_channel_is_zero(subpixel);
            }
            return 0;
        }
        let product: u64 = MAX_SUBPIXEL_VALUE * (HIDDEN_BIT + subpixel % HIDDEN_BIT);
        let excess: u64 = if product >= 0x1000_0000_0000_0000 {
            8
        } else {
            7
        };
        let shift: u64 = 1075 - biased - excess;
        proof {
            lemma2_to64();
            lemma2_to64_rest();
            assert(biased_exponent(subpixel) == biased);
            rounded_product_bounds(significand(subpixel));
            lemma_pow2_strictly_increases(shift as nat, 64);
            lemma_u64_shl_is_mul(1, excess);
            lemma_u64_shl_is_mul(1, shift);
            if shift > 46 {
                lemma_pow2_strictly_increases(46, shift as nat);
            }
        }
        let rounded: u64 = divide_ties_even(product, 1u64 << excess);
        let scale: u64 = 1u64 << shift;
        proof {
            assert(rounded <= 255 * scale);
            lemma_multiply_divide_lt((2 * rounded + scale) as int, (2 * scale) as int, 256);
        }
        ((2 * rounded + scale) / (2 * scale)) as u8
    }

    /// The color as three bytes: red, green, blue.
    pub fn to_byte_triple(self) -> (bytes: (u8, u8, u8))
        ensures
            bytes.0 == channel_byte(self.red),
            bytes.1 == channel_byte(self.green),
            bytes.2 == channel_byte(self.blue),
    {
        (Self::normalize(self.red), Self::normalize(self.green), Self::normalize(self.blue))
    }
}

} // verus!
