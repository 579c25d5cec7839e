//! Filter coefficients and the saturation of the output.
use vstd::prelude::*;

use crate::scalar::{Scalar, ONE_BITS};

verus! {

/// The range of a band in decibels: minus twelve to twelve.
pub const EQ_MIN_DB: u32 = 0xc140_0000;

pub const EQ_MAX_DB: u32 = 0x4140_0000;

/// The level up to which the saturation leaves samples alone, one decibel
/// below full scale.
pub const SOFT_CLIP_KNEE: u32 = 0x3f64_2905;

/// The coefficients of one filter, normalized.
#[derive(Clone, Copy, Debug, PartialEq, Eq, Structural)]
pub struct BandCoefficients {
    pub b0: Scalar,
    pub b1: Scalar,
    pub b2: Scalar,
    pub a1: Scalar,
    pub a2: Scalar,
}

/// One filter with its state.
#[derive(Clone, Copy, Debug, PartialEq, Eq, Structural)]
pub struct Biquad {
    pub coefficients: BandCoefficients,
    pub z1: Scalar,
    pub z2: Scalar,
}

/// The filter that passes audio as it is.
pub open spec fn identity_filter() -> Biquad {
    let zero = Scalar { bits: 0 };
    Biquad {
        coefficients: BandCoefficients {
            b0: Scalar { bits: ONE_BITS },
            b1: zero,
            b2: zero,
            a1: zero,
            a2: zero,
        },
        z1: zero,
        z2: zero,
    }
}

impl Default for Biquad {
    /// A filter that passes audio as it is.
    fn default() -> (filter: Self)
        ensures
            filter == identity_filter(),
    {
        let zero = Scalar::zero();
        Biquad {
            coefficients: BandCoefficients { b0: Scalar::one(), b1: zero, b2: zero, a1: zero, a2: zero },
            z1: zero,
            z2: zero,
        }
    }
}

impl Biquad {
    /// Sets the coefficients and clears the state.
    pub fn set_coefficients(&mut self, coefficients: BandCoefficients)
        ensures
            *final(self) == (Biquad {
                coefficients,
                z1: Scalar { bits: 0 },
                z2: Scalar { bits: 0 },
            }),
    {
        self.coefficients = coefficients;
        self.z1 = Scalar::zero();
        self.z2 = Scalar::zero();
    }

    /// Sets the coefficients and keeps the state.
    pub fn retune(&mut self, coefficients: BandCoefficients)
        ensures
            *final(self) == (Biquad { coefficients, ..*old(self) }),
    {
        self.coefficients = coefficients;
    }
}

/// The coefficients of the three bands.
#[derive(Clone, Copy, Debug, PartialEq, Eq, Structural)]
pub struct EqCoefficients {
    pub low: BandCoefficients,
    pub mid: BandCoefficients,
    pub high: BandCoefficients,
}

/// Coefficients that pass audio as it is.
pub open spec fn plain_coefficients() -> EqCoefficients {
    let band = identity_filter().coefficients;
    EqCoefficients { low: band, mid: band, high: band }
}

impl Default for EqCoefficients {
    /// Coefficients that pass audio as it is.
    fn default() -> (coefficients: Self)
        ensures
            coefficients == plain_coefficients(),
    {
        let band = Biquad::default().coefficients;
        EqCoefficients { low: band, mid: band, high: band }
    }
}

/// The three bands of one channel in series.
#[derive(Clone, Copy, Debug, PartialEq, Eq, Structural)]
pub struct ChannelEq {
    pub low: Biquad,
    pub mid: Biquad,
    pub high: Biquad,
}

impl Default for ChannelEq {
    /// Bands that pass audio as it is.
    fn default() -> (eq: Self)
        ensures
            eq == (ChannelEq {
                low: identity_filter(),
                mid: identity_filter(),
                high: identity_filter(),
            }),
    {
        ChannelEq { low: Biquad::default(), mid: Biquad::default(), high: Biquad::default() }
    }
}

impl ChannelEq {
    /// The bands with other coefficients and their state.
    pub open spec fn retuned(self, coefficients: EqCoefficients) -> Self {
        ChannelEq {
            low: Biquad { coefficients: coefficients.low, ..self.low },
            mid: Biquad { coefficients: coefficients.mid, ..self.mid },
            high: Biquad { coefficients: coefficients.high, ..self.high },
        }
    }

    /// Sets the coefficients and clears the state.
    pub fn set_coefficients(&mut self, coefficients: &EqCoefficients)
        ensures
            ({
                let zero = Scalar { bits: 0 };
                *final(self) == (ChannelEq {
                    low: Biquad { coefficients: coefficients.low, z1: zero, z2: zero },
                    mid: Biquad { coefficients: coefficients.mid, z1: zero, z2: zero },
                    high: Biquad { coefficients: coefficients.high, z1: zero, z2: zero },
                })
            }),
    {
        self.low.set_coefficients(coefficients.low);
        self.mid.set_coefficients(coefficients.mid);
        self.high.set_coefficients(coefficients.high);
    }

    /// Sets the coefficients and keeps the state, so a live change is smooth.
    pub fn retune(&mut self, coefficients: &EqCoefficients)
        ensures
            *final(self) == old(self).retuned(*coefficients),
    {
        self.low.retune(coefficients.low);
        self.mid.retune(coefficients.mid);
        self.high.retune(coefficients.high);
    }
}

/// A sample after saturation: silence in place of what is no finite number,
/// the sample itself up to the knee, and `bent`, the sample on the bend, above.
pub open spec fn saturated(sample: Scalar, bent: Scalar) -> Scalar {
    if !sample.finite() {
        Scalar { bits: 0 }
    } else if sample.without_sign().le(Scalar { bits: SOFT_CLIP_KNEE }) {
        sample
    } else {
        bent
    }
}

/// Whether a bent sample lies where the bend runs, for a sample above the knee:
/// between the knee and full scale, on the side of the sample.
pub open spec fn on_the_bend(sample: Scalar, bent: Scalar) -> bool {
    let knee = Scalar { bits: SOFT_CLIP_KNEE };
    sample.finite() && knee.lt(sample.without_sign()) ==> {
        &&& knee.le(bent.without_sign())
        &&& bent.without_sign().le(Scalar { bits: ONE_BITS })
        &&& bent.negative() == sample.negative()
    }
}

/// Whatever comes in, what goes out is finite and within full scale. It has the
/// sign of the sample, is never taken below the knee from above it, and the
/// curve is odd.
pub proof fn law_saturation_is_bounded(sample: Scalar, bent: Scalar)
    requires
        on_the_bend(sample, bent),
    ensures
        ({
            let result = saturated(sample, bent);
            let knee = Scalar { bits: SOFT_CLIP_KNEE };
            &&& result.finite()
            &&& result.without_sign().le(Scalar { bits: ONE_BITS })
            &&& !sample.finite() ==> result.bits == 0
            &&& sample.finite() ==> result.negative() == sample.negative()
            &&& sample.without_sign().le(knee) ==> result == sample
            &&& sample.finite() && knee.lt(sample.without_sign()) ==> knee.le(
                result.without_sign(),
            )
            &&& sample.finite() ==> saturated(sample.negated(), bent.negated()) == result.negated()
        }),
{
}

/// Whether a sample is a finite number within full scale.
pub open spec fn in_scale(sample: Scalar) -> bool {
    sample.finite() && sample.without_sign().le(Scalar { bits: ONE_BITS })
}

/// A block after saturation; `bent` has every sample on the bend.
pub open spec fn saturated_block(samples: Seq<Scalar>, bent: Seq<Scalar>) -> Seq<Scalar> {
    Seq::new(samples.len(), |i: int| saturated(samples[i], bent[i]))
}

/// Saturates every sample of a block.
pub fn saturate_block(samples: &mut Vec<Scalar>, bent: &Vec<Scalar>)
    requires
        bent@.len() == old(samples)@.len(),
    ensures
        final(samples)@ == saturated_block(old(samples)@, bent@),
{
    let count: usize = samples.len();
    let mut at: usize = 0;
    while at < count
        invariant
            at <= count == samples@.len(),
            count == old(samples)@.len() == bent@.len(),
            forall|i: int|
                0 <= i < count ==> (#[trigger] samples@[i]) == (if i < at {
                    saturated(old(samples)@[i], bent@[i])
                } else {
                    old(samples)@[i]
                }),
        decreases count - at,
    {
        let sample = samples[at];
        samples.set(at, soft_clip(sample, bent[at]));
        at = at + 1;
    }
    assert(samples@ =~= saturated_block(old(samples)@, bent@));
}

/// A sample after saturation.
pub fn soft_clip(sample: Scalar, bent: Scalar) -> (result: Scalar)
    ensures
        result == saturated(sample, bent),
{
    if !sample.is_finite() {
        Scalar::zero()
    } else if sample.abs().at_most(Scalar { bits: SOFT_CLIP_KNEE }) {
        sample
    } else {
        bent
    }
}

/// Each band takes the coefficients that are meant for it, and a live change
/// keeps what the filters remember.
pub proof fn law_bands_take_their_own_coefficients(eq: ChannelEq, coefficients: EqCoefficients)
    ensures
        ({
            let after = eq.retuned(coefficients);
            &&& after.low.coefficients == coefficients.low
            &&& after.mid.coefficients == coefficients.mid
            &&& after.high.coefficients == coefficients.high
            &&& after.low.z1 == eq.low.z1 && after.low.z2 == eq.low.z2
            &&& after.mid.z1 == eq.mid.z1 && after.mid.z2 == eq.mid.z2
            &&& after.high.z1 == eq.high.z1 && after.high.z2 == eq.high.z2
        }),
{
}

/// The filter that changes nothing passes the sample with factor one, and has
/// no other term and no memory.
pub proof fn law_the_plain_filter_passes_samples()
    ensures
        identity_filter().coefficients.b0.bits == 0x3f80_0000,
        identity_filter().coefficients.b1.bits == 0,
        identity_filter().coefficients.b2.bits == 0,
        identity_filter().coefficients.a1.bits == 0,
        identity_filter().coefficients.a2.bits == 0,
        identity_filter().z1.bits == 0,
        identity_filter().z2.bits == 0,
        plain_coefficients().low == identity_filter().coefficients,
        plain_coefficients().mid == identity_filter().coefficients,
        plain_coefficients().high == identity_filter().coefficients,
{
}

/// A block is saturated sample by sample: what is no finite number falls
/// silent, what is below the knee stays, and what is above it is bent.
pub proof fn law_a_block_is_saturated_by_sample(
    samples: Seq<Scalar>,
    bent: Seq<Scalar>,
    at: int,
)
    requires
        bent.len() == samples.len(),
        0 <= at < samples.len(),
    ensures
        saturated_block(samples, bent).len() == samples.len(),
        !samples[at].finite() ==> saturated_block(samples, bent)[at].bits == 0,
        samples[at].finite() && samples[at].magnitude() <= 0x3f64_2905 ==> saturated_block(
            samples,
            bent,
        )[at] == samples[at],
        samples[at].finite() && samples[at].magnitude() > 0x3f64_2905 ==> saturated_block(
            samples,
            bent,
        )[at] == bent[at],
        in_scale(samples[at]) <==> samples[at].magnitude() <= 0x3f80_0000,
{
}

} // verus!
