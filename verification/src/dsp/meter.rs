//! The meter of one channel.
use vstd::prelude::*;

use crate::scalar::{Scalar, INFINITY_BITS, ONE_BITS, SIGN_BIT};

verus! {

/// A sample that can be metered: silence in place of no number, full scale in
/// place of an infinity.
pub open spec fn metered(sample: Scalar) -> Scalar {
    if sample.nan() {
        Scalar { bits: 0 }
    } else if sample.bits == INFINITY_BITS {
        Scalar { bits: ONE_BITS }
    } else if sample.bits == SIGN_BIT + INFINITY_BITS {
        Scalar { bits: (SIGN_BIT + ONE_BITS) as u32 }
    } else {
        sample
    }
}

/// Makes a sample such that it can be metered.
pub fn sanitize(sample: Scalar) -> (result: Scalar)
    ensures
        result == metered(sample),
        result.finite(),
{
    if sample.is_nan() {
        Scalar::zero()
    } else if sample.bits == INFINITY_BITS {
        Scalar::one()
    } else if sample.bits == SIGN_BIT + INFINITY_BITS {
        Scalar { bits: SIGN_BIT + ONE_BITS }
    } else {
        sample
    }
}

/// How far a sample is from zero.
pub open spec fn level(sample: Scalar) -> Scalar {
    metered(sample).without_sign()
}

/// The highest level of samples.
pub open spec fn peak_of(samples: Seq<Scalar>) -> Scalar
    decreases samples.len(),
{
    if samples.len() == 0 {
        Scalar { bits: 0 }
    } else {
        let before = peak_of(samples.drop_last());
        if before.lt(level(samples.last())) {
            level(samples.last())
        } else {
            before
        }
    }
}

/// How many samples reach full scale.
pub open spec fn clips_in(samples: Seq<Scalar>) -> nat
    decreases samples.len(),
{
    if samples.len() == 0 {
        0
    } else {
        clips_in(samples.drop_last()) + if (Scalar { bits: ONE_BITS }).le(level(samples.last())) {
            1nat
        } else {
            0nat
        }
    }
}

/// The peak is no lower than any level.
pub proof fn law_peak_is_the_highest_level(samples: Seq<Scalar>)
    ensures
        peak_of(samples).finite(),
        !peak_of(samples).negative(),
        forall|i: int| 0 <= i < samples.len() ==> level(#[trigger] samples[i]).le(peak_of(samples)),
        samples.len() > 0 ==> exists|i: int|
            0 <= i < samples.len() && level(#[trigger] samples[i]) == peak_of(samples),
    decreases samples.len(),
{
    if samples.len() > 0 {
        let rest = samples.drop_last();
        law_peak_is_the_highest_level(rest);
        assert forall|i: int| 0 <= i < samples.len() implies level(#[trigger] samples[i]).le(
            peak_of(samples),
        ) by {
            if i < rest.len() {
                assert(samples[i] == rest[i]);
            }
        }
        if peak_of(rest).lt(level(samples.last())) {
            assert(level(samples[samples.len() - 1]) == peak_of(samples));
        } else if rest.len() > 0 {
            let i = choose|i: int|
                0 <= i < rest.len() && level(#[trigger] rest[i]) == peak_of(rest);
            assert(level(samples[i]) == peak_of(samples));
        } else {
            assert(level(samples[0]) == peak_of(samples));
        }
    }
}

/// Peak, average level, held peak and clipping of one channel.
#[derive(Debug, Clone, Copy, PartialEq, Eq, Structural)]
pub struct ChannelMeter {
    pub peak: Scalar,
    pub rms: Scalar,
    pub held_peak: Scalar,
    pub peak_hold_frames: usize,
    pub hold_remaining_frames: usize,
    pub clip_latched: bool,
    pub clip_count: u64,
}

/// A meter that has seen nothing.
pub open spec fn fresh_meter(peak_hold_frames: usize) -> ChannelMeter {
    ChannelMeter {
        peak: Scalar { bits: 0 },
        rms: Scalar { bits: 0 },
        held_peak: Scalar { bits: 0 },
        peak_hold_frames,
        hold_remaining_frames: 0,
        clip_latched: false,
        clip_count: 0,
    }
}

impl ChannelMeter {
    pub fn new(peak_hold_frames: usize) -> (meter: Self)
        ensures
            meter == fresh_meter(peak_hold_frames),
    {
        ChannelMeter {
            peak: Scalar::zero(),
            rms: Scalar::zero(),
            held_peak: Scalar::zero(),
            peak_hold_frames,
            hold_remaining_frames: 0,
            clip_latched: false,
            clip_count: 0,
        }
    }

    /// The meter after a block. A held peak is let go after the hold time.
    pub open spec fn processed(self, samples: Seq<Scalar>, rms: Scalar) -> Self {
        let peak = peak_of(samples);
        let clips = clips_in(samples);
        let total = self.clip_count + clips;
        let (held_peak, hold_remaining_frames) = if self.held_peak.le(peak) {
            (peak, self.peak_hold_frames)
        } else if samples.len() >= self.hold_remaining_frames {
            (peak, 0)
        } else {
            (self.held_peak, (self.hold_remaining_frames - samples.len()) as usize)
        };
        ChannelMeter {
            peak,
            rms: if samples.len() == 0 {
                Scalar { bits: 0 }
            } else {
                rms
            },
            held_peak,
            peak_hold_frames: self.peak_hold_frames,
            hold_remaining_frames,
            clip_latched: self.clip_latched || clips > 0,
            clip_count: if total > u64::MAX {
                u64::MAX
            } else {
                total as u64
            },
        }
    }

    /// Meters a block. `rms` is the root of the mean of the squares of the
    /// metered samples.
    pub fn process(&mut self, samples: &Vec<Scalar>, rms: Scalar)
        ensures
            *final(self) == old(self).processed(samples@, rms),
    {
        let mut peak = Scalar::zero();
        let mut latched = self.clip_latched;
        let mut count: u64 = self.clip_count;
        let mut at: usize = 0;
        while at < samples.len()
            invariant
                at <= samples@.len(),
                *self == *old(self),
                peak == peak_of(samples@.take(at as int)),
                latched == (self.clip_latched || clips_in(samples@.take(at as int)) > 0),
                count == (if self.clip_count + clips_in(samples@.take(at as int)) > u64::MAX {
                    u64::MAX as int
                } else {
                    self.clip_count + clips_in(samples@.take(at as int))
                }),
            decreases samples@.len() - at,
        {
            let magnitude = sanitize(samples[at]).abs();
            assert(samples@.take(at + 1).drop_last() =~= samples@.take(at as int));
            assert(samples@.take(at + 1).last() == samples@[at as int]);
            if peak.less(magnitude) {
                peak = magnitude;
            }
            if Scalar::one().at_most(magnitude) {
                latched = true;
                if count < u64::MAX {
                    count = count + 1;
                }
            }
            at = at + 1;
        }
        assert(samples@.take(at as int) =~= samples@);
        let frames: usize = samples.len();
        self.clip_latched = latched;
        self.clip_count = count;
        self.peak = peak;
        self.rms = if frames == 0 {
            Scalar::zero()
        } else {
            rms
        };
        if self.held_peak.at_most(peak) {
            self.held_peak = peak;
            self.hold_remaining_frames = self.peak_hold_frames;
        } else if frames >= self.hold_remaining_frames {
            self.held_peak = peak;
            self.hold_remaining_frames = 0;
        } else {
            self.hold_remaining_frames = self.hold_remaining_frames - frames;
        }
    }

    pub fn peak(&self) -> (peak: Scalar)
        ensures
            peak == self.peak,
    {
        self.peak
    }

    pub fn rms(&self) -> (rms: Scalar)
        ensures
            rms == self.rms,
    {
        self.rms
    }

    pub fn held_peak(&self) -> (peak: Scalar)
        ensures
            peak == self.held_peak,
    {
        self.held_peak
    }

    pub fn hold_remaining_frames(&self) -> (frames: usize)
        ensures
            frames == self.hold_remaining_frames,
    {
        self.hold_remaining_frames
    }

    pub fn clip_latched(&self) -> (latched: bool)
        ensures
            latched == self.clip_latched,
    {
        self.clip_latched
    }

    pub fn clip_count(&self) -> (count: u64)
        ensures
            count == self.clip_count,
    {
        self.clip_count
    }

    pub fn clear_clip_latch(&mut self)
        ensures
            *final(self) == (ChannelMeter { clip_latched: false, ..*old(self) }),
    {
        self.clip_latched = false;
    }

    pub fn reset_clip_count(&mut self)
        ensures
            *final(self) == (ChannelMeter { clip_count: 0, ..*old(self) }),
    {
        self.clip_count = 0;
    }

    pub fn reset(&mut self)
        ensures
            *final(self) == fresh_meter(old(self).peak_hold_frames),
    {
        self.peak = Scalar::zero();
        self.rms = Scalar::zero();
        self.held_peak = Scalar::zero();
        self.hold_remaining_frames = 0;
        self.clip_latched = false;
        self.clip_count = 0;
    }
}

/// A sample is metered by its distance from zero: nothing for what is no
/// number, full scale for an infinity, and itself otherwise.
pub proof fn law_levels_are_distances_from_zero(sample: Scalar)
    ensures
        sample.finite() ==> metered(sample) == sample,
        sample.nan() ==> metered(sample).bits == 0,
        sample.bits == 0x7f80_0000 ==> metered(sample).bits == 0x3f80_0000,
        sample.bits == 0xff80_0000 ==> metered(sample).bits == 0xbf80_0000,
        sample.finite() ==> level(sample).rank() == sample.magnitude(),
        !level(sample).negative(),
{
}

/// A sample counts as clipped exactly where its level reaches full scale, and
/// every such sample is counted once.
pub proof fn law_clips_are_counted(samples: Seq<Scalar>)
    ensures
        clips_in(samples) == samples.filter(
            |sample: Scalar| level(sample).rank() >= 0x3f80_0000,
        ).len(),
    decreases samples.len(),
{
    reveal(Seq::filter);
    if samples.len() > 0 {
        law_clips_are_counted(samples.drop_last());
        law_levels_are_distances_from_zero(samples.last());
    }
}

/// After a block the meter shows the peak of the block. A held peak is replaced
/// by one that is no lower, is held for as long as it was set to be, and is let
/// go after that. Clipping stays until it is cleared, and clips add up.
pub proof fn law_a_peak_is_held_for_its_time(
    meter: ChannelMeter,
    samples: Seq<Scalar>,
    rms: Scalar,
)
    requires
        !meter.held_peak.nan(),
        samples.len() > 0,
    ensures
        ({
            let after = meter.processed(samples, rms);
            let peak = peak_of(samples);
            &&& after.peak == peak
            &&& after.rms == rms
            &&& after.peak_hold_frames == meter.peak_hold_frames
            &&& peak.rank() >= meter.held_peak.rank() ==> after.held_peak == peak
                && after.hold_remaining_frames == meter.peak_hold_frames
            &&& peak.rank() < meter.held_peak.rank() && samples.len()
                < meter.hold_remaining_frames ==> after.held_peak == meter.held_peak
                && after.hold_remaining_frames == meter.hold_remaining_frames - samples.len()
            &&& peak.rank() < meter.held_peak.rank() && samples.len()
                >= meter.hold_remaining_frames ==> after.held_peak == peak
                && after.hold_remaining_frames == 0
            &&& after.clip_latched <==> meter.clip_latched || clips_in(samples) > 0
            &&& meter.clip_count + clips_in(samples) <= u64::MAX ==> after.clip_count
                == meter.clip_count + clips_in(samples)
        }),
{
    law_peak_is_the_highest_level(samples);
}

/// A new meter shows nothing.
pub proof fn law_a_new_meter_shows_nothing(peak_hold_frames: usize)
    ensures
        ({
            let meter = fresh_meter(peak_hold_frames);
            &&& meter.peak.bits == 0 && meter.rms.bits == 0 && meter.held_peak.bits == 0
            &&& meter.peak_hold_frames == peak_hold_frames
            &&& meter.hold_remaining_frames == 0
            &&& !meter.clip_latched && meter.clip_count == 0
        }),
{
}

} // verus!
