//! Tone-mapping settings.
//!
//! Tone mapping adjusts the radiance before it is turned into bytes: first
//! the low, mid and high levels, then the saturation, then the gamma.  The
//! adjustments themselves are arithmetic on real numbers and are done
//! outside this crate; the crate decides which of them are made, and in
//! which order.

use vstd::prelude::*;
use vstd::arithmetic::power2::{pow2, lemma2_to64, lemma_pow2_adds, lemma_pow2_pos, lemma_pow2_strictly_increases};
use crate::ieee::{HALF, ONE, ZERO, exponent_of, fraction_of, is_finite, lemma_magnitude_bounds, magnitude, one, sign_of, units};

verus! {

/// Levels, saturation and gamma, as binary32 words.
#[derive(Clone, Copy, Debug, PartialEq, Eq, Structural)]
pub struct ToneSettings {
    /// The radiance that becomes black.
    pub low: u32,
    /// The radiance that becomes middle grey.
    pub mid: u32,
    /// The radiance that becomes white.
    pub high: u32,
    /// 1 keeps the colours; 0 leaves the luminance alone.
    pub saturation: u32,
    /// The exponent of the display curve; 1 is linear.
    pub gamma: u32,
}

/// One adjustment of the tone mapping.
#[derive(Clone, Copy, Debug, PartialEq, Eq, Structural)]
pub enum ToneStage {
    /// Stretch the radiance between the low and the high level and bend it
    /// about the mid level.
    Levels,
    /// Blend each colour with its luminance.
    Saturation,
    /// Raise to the power 1 / gamma.
    Gamma,
}

/// The word is a finite number whose value is `numerator` / 2.
pub open spec fn is_halves(bits: u32, numerator: int) -> bool {
    is_finite(bits) && 2 * units(bits) == numerator * one()
}

impl ToneSettings {
    /// The settings that change nothing: levels 0, 1/2 and 1, saturation 1
    /// and gamma 1.
    pub open spec fn spec_is_neutral(self) -> bool {
        &&& is_halves(self.low, 0)
        &&& is_halves(self.mid, 1)
        &&& is_halves(self.high, 2)
        &&& is_halves(self.saturation, 2)
        &&& is_halves(self.gamma, 2)
    }

    /// The adjustments to make, in the order in which they are made: none
    /// for the neutral settings, else levels, saturation, gamma.
    pub open spec fn spec_stages(self) -> Seq<ToneStage> {
        if self.spec_is_neutral() {
            Seq::<ToneStage>::empty()
        } else {
            seq![ToneStage::Levels, ToneStage::Saturation, ToneStage::Gamma]
        }
    }

    /// The settings that change nothing.
    pub fn neutral() -> (settings: ToneSettings)
        ensures
            settings.spec_is_neutral(),
            settings == (ToneSettings {
                low: ZERO,
                mid: HALF,
                high: ONE,
                saturation: ONE,
                gamma: ONE,
            }),
    {
        proof {
            lemma_halves(ZERO);
            lemma_halves(HALF);
            lemma_halves(ONE);
        }
        ToneSettings { low: ZERO, mid: HALF, high: ONE, saturation: ONE, gamma: ONE }
    }

    /// Whether the settings change nothing, so that the radiance can be
    /// turned into bytes as it is.
    pub fn is_neutral(&self) -> (neutral: bool)
        ensures
            neutral == self.spec_is_neutral(),
    {
        proof {
            lemma_halves(self.low);
            lemma_halves(self.mid);
            lemma_halves(self.high);
            lemma_halves(self.saturation);
            lemma_halves(self.gamma);
        }
        (self.low == 0 || self.low == 0x8000_0000) && self.mid == HALF && self.high == ONE
            && self.saturation == ONE && self.gamma == ONE
    }

    /// The adjustments to make to the radiance before it is turned into
    /// bytes, in the order in which they are made.
    pub fn stages(&self) -> (stages: Vec<ToneStage>)
        ensures
            stages@ == self.spec_stages(),
    {
        let mut stages: Vec<ToneStage> = Vec::new();
        if !self.is_neutral() {
            stages.push(ToneStage::Levels);
            stages.push(ToneStage::Saturation);
            stages.push(ToneStage::Gamma);
        }
        assert(stages@ =~= self.spec_stages());
        stages
    }
}

/// Which words stand for the numbers 0, 1/2 and 1.
pub proof fn lemma_halves(bits: u32)
    ensures
        is_halves(bits, 0) <==> (bits == 0 || bits == 0x8000_0000),
        is_halves(bits, 1) <==> bits == HALF,
        is_halves(bits, 2) <==> bits == ONE,
{
    let e = exponent_of(bits);
    let f = fraction_of(bits);
    let m = magnitude(bits);
    lemma2_to64();
    lemma_pow2_pos(149);
    lemma_pow2_adds(148, 1);
    lemma_magnitude_bounds(bits);
    assert(bits as nat == sign_of(bits) * 0x8000_0000 + e * 0x80_0000 + f);
    if e == 0 {
        lemma_pow2_strictly_increases(23, 148);
        lemma_pow2_strictly_increases(23, 149);
    } else {
        lemma_pow2_pos((e + 22) as nat);
        if e < 125 {
            lemma_pow2_strictly_increases((e + 23) as nat, 148);
        } else if e == 126 {
            lemma_pow2_adds(23, 125);
            lemma_pow2_pos(125);
            assert(m == pow2(148) <==> f == 0) by (nonlinear_arith)
                requires
                    m == (0x80_0000 + f) * pow2(125),
                    pow2(148) == 0x80_0000 * pow2(125),
                    pow2(125) > 0,
            ;
        } else if e == 127 {
            lemma_pow2_adds(23, 126);
            lemma_pow2_pos(126);
            assert(m == pow2(149) <==> f == 0) by (nonlinear_arith)
                requires
                    m == (0x80_0000 + f) * pow2(126),
                    pow2(149) == 0x80_0000 * pow2(126),
                    pow2(126) > 0,
            ;
        } else if e > 127 {
            lemma_pow2_strictly_increases(149, (e + 22) as nat);
        }
    }
    assert(m == 0 <==> (e == 0 && f == 0));
    assert(m == pow2(148) <==> (e == 126 && f == 0));
    assert(m == pow2(149) <==> (e == 127 && f == 0));
}

} // verus!
