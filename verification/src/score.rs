//! Confidence scores as the classifier reports them.
//!
//! The classifier reports a confidence as a single-precision binary
//! floating-point number. A [`Score`] holds such a number by its bit
//! pattern: one sign bit, eight exponent bits, twenty-three fraction bits.
//! What the number is worth, and how two of them compare, is stated here
//! over the integers.

use vstd::arithmetic::power2::{
    lemma2_to64, lemma_pow2_adds, lemma_pow2_pos, lemma_pow2_strictly_increases,
    lemma_pow2_unfold, pow2,
};
use vstd::prelude::*;

verus! {

/// The bit pattern of the threshold, 0.7 in single precision, at and above
/// which a score flags a message.
pub const FLAGGING_THRESHOLD_BITS: u32 = 0x3F33_3333;

/// A confidence score: a single-precision number, held by its bit pattern.
/// Two scores are equal when their bit patterns are.
#[derive(Clone, Copy, Debug, PartialEq, Eq, Structural)]
pub struct Score {
    pub bits: u32,
}

impl Score {
    /// The sign bit.
    pub open spec fn is_negative(self) -> bool {
        self.bits >= 0x8000_0000
    }

    /// The exponent field.
    pub open spec fn exponent(self) -> nat {
        ((self.bits % 0x8000_0000) / 0x80_0000) as nat
    }

    /// The fraction field.
    pub open spec fn fraction(self) -> nat {
        (self.bits % 0x80_0000) as nat
    }

    /// Whether the score is not a number.
    pub open spec fn is_nan(self) -> bool {
        self.exponent() == 0xFF && self.fraction() != 0
    }

    /// The magnitude of a score that is a number, in units of 2 to the
    /// power -149. An infinite score stands at twice the power of two
    /// below which all finite magnitudes lie.
    pub open spec fn magnitude(self) -> nat {
        magnitude_of(self.exponent(), self.fraction())
    }

    /// The value of a score that is a number, in units of 2 to the power
    /// -149. Both zeros have the value zero.
    pub open spec fn value(self) -> int {
        if self.is_negative() {
            -(self.magnitude() as int)
        } else {
            self.magnitude() as int
        }
    }

    /// Whether this score is at least `threshold`. A score that is not a
    /// number is at least nothing, and nothing is at least it.
    pub open spec fn reaches(self, threshold: Score) -> bool {
        &&& !self.is_nan()
        &&& !threshold.is_nan()
        &&& self.value() >= threshold.value()
    }

    /// The score with the given bit pattern.
    pub fn from_bits(bits: u32) -> (score: Score)
        ensures
            score.bits == bits,
    {
        Score { bits }
    }

    /// The bit pattern of the score.
    pub fn to_bits(self) -> (bits: u32)
        ensures
            bits == self.bits,
    {
        self.bits
    }

    /// The threshold at and above which a score flags a message.
    pub fn flagging_threshold() -> (threshold: Score)
        ensures
            threshold.bits == FLAGGING_THRESHOLD_BITS,
    {
        Score { bits: FLAGGING_THRESHOLD_BITS }
    }

    /// Tests whether the score is not a number.
    pub fn check_nan(self) -> (nan: bool)
        ensures
            nan == self.is_nan(),
    {
        self.bits % 0x8000_0000 > 0x7F80_0000
    }

    /// Tests whether this score is at least `threshold`.
    pub fn at_least(self, threshold: Score) -> (met: bool)
        ensures
            met == self.reaches(threshold),
    {
        if self.check_nan() || threshold.check_nan() {
            return false;
        }
        let own: u32 = self.bits % 0x8000_0000;
        let other: u32 = threshold.bits % 0x8000_0000;
        proof {
            lemma_magnitude_follows_bits(self, threshold);
            lemma_magnitude_follows_bits(threshold, self);
            lemma_zero_magnitude(self);
            lemma_zero_magnitude(threshold);
        }
        if self.bits >= 0x8000_0000 {
            if threshold.bits >= 0x8000_0000 {
                own <= other
            } else {
                own == 0 && other == 0
            }
        } else {
            if threshold.bits >= 0x8000_0000 {
                true
            } else {
                own >= other
            }
        }
    }
}

/// The magnitude that an exponent field and a fraction field stand for, in
/// units of 2 to the power -149: the fraction alone where the exponent is
/// zero, else the fraction with its leading one, scaled by the exponent.
pub open spec fn magnitude_of(exponent: nat, fraction: nat) -> nat {
    if exponent == 0 {
        fraction
    } else {
        (0x80_0000 + fraction) * pow2((exponent - 1) as nat)
    }
}

/// The magnitude grows strictly with the exponent, and under one exponent
/// with the fraction.
pub proof fn lemma_magnitude_grows(
    low_exponent: nat,
    low_fraction: nat,
    high_exponent: nat,
    high_fraction: nat,
)
    requires
        low_fraction < 0x80_0000,
        high_fraction < 0x80_0000,
        low_exponent < high_exponent || (low_exponent == high_exponent && low_fraction
            < high_fraction),
    ensures
        magnitude_of(low_exponent, low_fraction) < magnitude_of(high_exponent, high_fraction),
{
    if low_exponent == high_exponent {
        if low_exponent != 0 {
            let scale = pow2((low_exponent - 1) as nat);
            lemma_pow2_pos((low_exponent - 1) as nat);
            assert((0x80_0000 + low_fraction) * scale < (0x80_0000 + high_fraction) * scale)
                by (nonlinear_arith)
                requires
                    low_fraction < high_fraction,
                    scale > 0,
            ;
        }
    } else {
        let high_scale = pow2((high_exponent - 1) as nat);
        lemma_pow2_pos((high_exponent - 1) as nat);
        assert(0x80_0000 * high_scale <= (0x80_0000 + high_fraction) * high_scale)
            by (nonlinear_arith);
        if low_exponent == 0 {
            assert(0x80_0000 <= 0x80_0000 * high_scale) by (nonlinear_arith)
                requires
                    high_scale > 0,
            ;
        } else {
            let low_scale = pow2((low_exponent - 1) as nat);
            lemma_pow2_pos((low_exponent - 1) as nat);
            lemma_pow2_unfold(low_exponent);
            if low_exponent < high_exponent - 1 {
                lemma_pow2_strictly_increases(low_exponent, (high_exponent - 1) as nat);
            }
            assert(2 * low_scale <= high_scale);
            assert((0x80_0000 + low_fraction) * low_scale < 0x80_0000 * high_scale)
                by (nonlinear_arith)
                requires
                    low_fraction < 0x80_0000,
                    2 * low_scale <= high_scale,
                    low_scale > 0,
            ;
        }
    }
}

/// The bit pattern of one has the value of one, which is 2 to the power
/// 149 in units of 2 to the power -149; and the threshold has the value
/// 11744051 in units of 2 to the power -24, the single-precision number
/// next to seven tenths.
pub proof fn lemma_known_values()
    ensures
        (Score { bits: 0x3F80_0000 }).value() == pow2(149),
        (Score { bits: FLAGGING_THRESHOLD_BITS }).value() * pow2(24) == 11_744_051 * pow2(149),
        !(Score { bits: FLAGGING_THRESHOLD_BITS }).is_nan(),
{
    let one = Score { bits: 0x3F80_0000 };
    assert(one.exponent() == 127 && one.fraction() == 0);
    lemma_pow2_adds(23, 126);
    assert(pow2(23) == 0x80_0000) by {
        lemma2_to64();
    }
    let threshold = Score { bits: FLAGGING_THRESHOLD_BITS };
    assert(threshold.exponent() == 126 && threshold.fraction() == 0x33_3333);
    lemma_pow2_adds(24, 125);
    assert(pow2(24) == 0x100_0000) by {
        lemma2_to64();
    }
    let scale = pow2(125);
    assert(11_744_051 * scale * 0x100_0000 == 11_744_051 * (0x100_0000 * scale))
        by (nonlinear_arith);
}

/// Only the two zeros have magnitude zero.
pub proof fn lemma_zero_magnitude(score: Score)
    ensures
        score.magnitude() == 0 <==> score.bits % 0x8000_0000 == 0,
{
    if score.exponent() != 0 {
        let scale = pow2((score.exponent() - 1) as nat);
        let fraction = score.fraction();
        lemma_pow2_pos((score.exponent() - 1) as nat);
        assert((0x80_0000 + fraction) * scale > 0) by (nonlinear_arith)
            requires
                scale > 0,
        ;
    }
}

/// Among all bit patterns, the magnitude grows strictly with the pattern
/// below the sign bit.
pub proof fn lemma_magnitude_follows_bits(low: Score, high: Score)
    ensures
        low.bits % 0x8000_0000 < high.bits % 0x8000_0000 ==> low.magnitude() < high.magnitude(),
        low.bits % 0x8000_0000 == high.bits % 0x8000_0000 ==> low.magnitude() == high.magnitude(),
{
    if low.bits % 0x8000_0000 < high.bits % 0x8000_0000 {
        lemma_magnitude_grows(low.exponent(), low.fraction(), high.exponent(), high.fraction());
    }
}

/// Between two scores that are numbers and not negative, the greater bit
/// pattern is the greater score.
pub proof fn lemma_order_of_bits(score: Score, threshold: Score)
    requires
        !score.is_nan(),
        !threshold.is_nan(),
        !score.is_negative(),
        !threshold.is_negative(),
    ensures
        score.reaches(threshold) <==> score.bits >= threshold.bits,
{
    lemma_magnitude_follows_bits(score, threshold);
    lemma_magnitude_follows_bits(threshold, score);
}

} // verus!
