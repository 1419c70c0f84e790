//! IEEE 754 binary32 numbers, read from their bit patterns.
//!
//! A finite binary32 number is a whole multiple of 2^-149.  The module
//! describes a bit pattern by that multiple, so that contracts can speak of
//! the number's exact value with integers alone.

use vstd::prelude::*;
use vstd::arithmetic::power2::{pow2, lemma2_to64, lemma_pow2_adds, lemma_pow2_pos, lemma_pow2_strictly_increases, lemma_pow2_unfold};

verus! {

/// Bit pattern of the number 0.
pub const ZERO: u32 = 0;

/// Bit pattern of the number 1/2.
pub const HALF: u32 = 0x3F00_0000;

/// Bit pattern of the number 1.
pub const ONE: u32 = 0x3F80_0000;

/// The sign bit: 1 for a pattern with the sign set.
pub open spec fn sign_of(bits: u32) -> nat {
    bits as nat / 0x8000_0000
}

/// The eight-bit exponent field.
pub open spec fn exponent_of(bits: u32) -> nat {
    (bits as nat / 0x80_0000) % 256
}

/// The 23-bit fraction field.
pub open spec fn fraction_of(bits: u32) -> nat {
    bits as nat % 0x80_0000
}

/// The pattern is not a number.
pub open spec fn is_nan(bits: u32) -> bool {
    exponent_of(bits) == 255 && fraction_of(bits) != 0
}

/// The pattern is an infinity.
pub open spec fn is_infinite(bits: u32) -> bool {
    exponent_of(bits) == 255 && fraction_of(bits) == 0
}

/// The pattern is a finite number.
pub open spec fn is_finite(bits: u32) -> bool {
    exponent_of(bits) < 255
}

/// The absolute value of a finite pattern, in units of 2^-149.
pub open spec fn magnitude(bits: u32) -> nat {
    if exponent_of(bits) == 0 {
        fraction_of(bits)
    } else {
        (0x80_0000 + fraction_of(bits)) * pow2((exponent_of(bits) - 1) as nat)
    }
}

/// The value of a finite pattern, in units of 2^-149.
pub open spec fn units(bits: u32) -> int {
    if sign_of(bits) == 1 {
        -(magnitude(bits) as int)
    } else {
        magnitude(bits) as int
    }
}

/// The number 1, in units of 2^-149.
pub open spec fn one() -> nat {
    pow2(149)
}

/// A finite pattern with a non-zero exponent field `e` has a magnitude from
/// 2^(e+22) up to, but not including, 2^(e+23); one with a zero exponent
/// field stays below 2^23.
pub proof fn lemma_magnitude_bounds(bits: u32)
    ensures
        exponent_of(bits) == 0 ==> magnitude(bits) < pow2(23),
        exponent_of(bits) > 0 ==> pow2(exponent_of(bits) + 22) <= magnitude(bits) < pow2(
            exponent_of(bits) + 23,
        ),
{
    let e = exponent_of(bits);
    let f = fraction_of(bits);
    lemma2_to64();
    if e > 0 {
        let p = pow2((e - 1) as nat);
        lemma_pow2_pos((e - 1) as nat);
        lemma_pow2_adds(23, (e - 1) as nat);
        lemma_pow2_adds(24, (e - 1) as nat);
        assert(0x80_0000 * p <= (0x80_0000 + f) * p < 0x100_0000 * p) by (nonlinear_arith)
            requires
                0 <= f < 0x80_0000,
                p > 0,
        ;
    }
}

/// Whether the pattern is a finite number.
pub fn finite(bits: u32) -> (finite: bool)
    ensures
        finite == is_finite(bits),
{
    (bits / 0x80_0000) % 256 < 255
}

/// 2 to the power `exponent`.
pub fn power_of_two(exponent: u32) -> (power: u64)
    requires
        exponent < 64,
    ensures
        power == pow2(exponent as nat),
{
    let mut power: u64 = 1;
    let mut done: u32 = 0;
    proof {
        lemma2_to64();
    }
    while done < exponent
        invariant
            done <= exponent < 64,
            power == pow2(done as nat),
        decreases exponent - done,
    {
        proof {
            lemma_pow2_unfold((done + 1) as nat);
            lemma_pow2_strictly_increases((done + 1) as nat, 64);
            lemma2_to64();
        }
        power = power * 2;
        done = done + 1;
    }
    power
}

} // verus!
