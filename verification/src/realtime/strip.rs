//! What the engines of sources and buses have in common: gain, mute, filters
//! and the delay line.
use vstd::prelude::*;

use super::stage::{
    apply_sync_offset, control_ramp_frames, delay_line_capacity, offset_samples, refresh_eq,
    DelayState,
};
use super::stage;
use crate::domain::controls::ChannelMode;
use crate::dsp::buffer::{zeros, MAX_CHANNELS};
use crate::dsp::eq::{ChannelEq, EqCoefficients};
use crate::dsp::eq;
use crate::dsp::error::DspError;
use crate::dsp::processors::ParameterSmoother;
use crate::dsp::processors;
use crate::scalar::{Scalar, ONE_BITS};

verus! {

/// A change from one channel mode to another, and how far it has come.
#[derive(Debug, Clone, Copy, PartialEq, Eq, Structural)]
pub struct ModeFade {
    pub previous: ChannelMode,
    pub mix: ParameterSmoother,
}

/// A fade that begins; `step` is one over the number of frames.
pub open spec fn fresh_fade(previous: ChannelMode, ramp_frames: usize, step: Scalar) -> ModeFade {
    ModeFade {
        previous,
        mix: processors::resting(Scalar { bits: 0 }).headed(
            Scalar { bits: ONE_BITS },
            ramp_frames,
            step,
        ),
    }
}

impl ModeFade {
    /// Begins a fade; `step` is one over the number of frames.
    pub fn begin(previous: ChannelMode, ramp_frames: usize, step: Scalar) -> (fade: Self)
        ensures
            fade == fresh_fade(previous, ramp_frames, step),
    {
        let mut mix = ParameterSmoother {
            current: Scalar::zero(),
            target: Scalar::zero(),
            step: Scalar::zero(),
            remaining_frames: 0,
        };
        let _ = mix.set_target(Scalar::one(), ramp_frames, step);
        ModeFade { previous, mix }
    }
}

/// Gain, mute, filters and the delay line of an endpoint.
#[derive(Debug)]
pub struct Strip {
    pub channels: usize,
    pub ramp_frames: usize,
    pub gain: ParameterSmoother,
    pub audible: ParameterSmoother,
    pub eqs: Vec<ChannelEq>,
    pub eq_current: EqCoefficients,
    pub delay_line: Vec<Scalar>,
    pub delay_write: usize,
}

/// The output and the delay line after samples went through it.
pub open spec fn delayed_all(state: DelayState, samples: Seq<Scalar>, offset: int) -> (
    Seq<Scalar>,
    DelayState,
)
    decreases samples.len(),
{
    if samples.len() == 0 {
        (Seq::empty(), state)
    } else {
        let (output, before) = delayed_all(state, samples.drop_last(), offset);
        (
            output.push(stage::delayed(before, samples.last(), offset)),
            if offset == 0 {
                before
            } else {
                before.stored(samples.last())
            },
        )
    }
}

impl Strip {
    pub open spec fn wf(self) -> bool {
        &&& 1 <= self.channels <= MAX_CHANNELS
        &&& self.eqs@.len() == self.channels
        &&& self.delay_write < self.delay_line@.len()
        &&& 2 * self.delay_line@.len() <= usize::MAX
    }

    /// Nothing went through the strip yet, and its controls are at rest.
    pub open spec fn fresh(self, channels: usize, rate: u32, gain: Scalar, muted: bool) -> bool {
        &&& self.channels == channels
        &&& self.ramp_frames == (if rate * stage::CONTROL_RAMP_MS / 1_000 < 1 {
            1
        } else {
            rate * stage::CONTROL_RAMP_MS / 1_000
        })
        &&& self.gain == processors::resting(gain)
        &&& self.audible == processors::resting(processors::audibility(muted))
        &&& self.eqs@ == Seq::new(
            channels as nat,
            |_channel: int|
                ChannelEq {
                    low: eq::identity_filter(),
                    mid: eq::identity_filter(),
                    high: eq::identity_filter(),
                },
        )
        &&& self.eq_current == eq::plain_coefficients()
        &&& self.delay_line@ == Seq::new(
            stage::delay_capacity(rate, channels) as nat,
            |_at: int| Scalar { bits: 0 },
        )
        &&& self.delay_write == 0
    }

    /// The delay line.
    pub open spec fn delay(self) -> DelayState {
        DelayState { line: self.delay_line@, write: self.delay_write as int }
    }

    /// A strip at rest. `gain` is the linear gain.
    pub fn new(channels: usize, rate: u32, gain: Scalar, muted: bool) -> (result: Result<
        Self,
        DspError,
    >)
        requires
            2 * stage::delay_capacity(rate, channels) <= usize::MAX,
        ensures
            match result {
                Ok(strip) => {
                    &&& strip.wf()
                    &&& gain.finite()
                    &&& strip.fresh(channels, rate, gain, muted)
                },
                Err(error) => if !(1 <= channels <= MAX_CHANNELS) {
                    error == DspError::InvalidChannelCount(channels)
                } else {
                    !gain.finite() && error == DspError::InvalidParameter("smoother value")
                },
            },
    {
        if channels < 1 || channels > MAX_CHANNELS {
            return Err(DspError::InvalidChannelCount(channels));
        }
        let gain = match ParameterSmoother::new(gain) {
            Ok(gain) => gain,
            Err(error) => {
                return Err(error);
            },
        };
        let target = if muted {
            Scalar::zero()
        } else {
            Scalar::one()
        };
        let audible = match ParameterSmoother::new(target) {
            Ok(audible) => audible,
            Err(error) => {
                return Err(error);
            },
        };
        let mut eqs: Vec<ChannelEq> = Vec::new();
        let mut at: usize = 0;
        while at < channels
            invariant
                at <= channels,
                eqs@.len() == at,
                forall|i: int|
                    0 <= i < at ==> eqs@[i] == (ChannelEq {
                        low: eq::identity_filter(),
                        mid: eq::identity_filter(),
                        high: eq::identity_filter(),
                    }),
            decreases channels - at,
        {
            eqs.push(ChannelEq::default());
            at = at + 1;
        }
        let strip = Strip {
            channels,
            ramp_frames: control_ramp_frames(rate),
            gain,
            audible,
            eqs,
            eq_current: EqCoefficients::default(),
            delay_line: zeros(delay_line_capacity(rate, channels)),
            delay_write: 0,
        };
        assert(strip.eqs@ =~= Seq::new(
            channels as nat,
            |_channel: int|
                ChannelEq {
                    low: eq::identity_filter(),
                    mid: eq::identity_filter(),
                    high: eq::identity_filter(),
                },
        ));
        Ok(strip)
    }

    /// Heads for the gain and mute that the controls ask for. The steps are
    /// the differences over the ramp.
    pub fn refresh_targets(&mut self, gain: Scalar, gain_step: Scalar, muted: bool, step: Scalar)
        ensures
            *final(self) == (Strip {
                gain: old(self).gain.following(gain, old(self).ramp_frames, gain_step),
                audible: old(self).audible.following(
                    processors::audibility(muted),
                    old(self).ramp_frames,
                    step,
                ),
                ..*old(self)
            }),
    {
        self.gain.follow(gain, self.ramp_frames, gain_step);
        let target = if muted {
            Scalar::zero()
        } else {
            Scalar::one()
        };
        self.audible.follow(target, self.ramp_frames, step);
    }

    /// The gain and the audibility for the next frame. The arguments are their
    /// stepped values.
    pub fn next_gains(&mut self, stepped_gain: Scalar, stepped_audible: Scalar) -> (gains: (
        Scalar,
        Scalar,
    ))
        ensures
            *final(self) == (Strip {
                gain: old(self).gain.advanced(stepped_gain),
                audible: old(self).audible.advanced(stepped_audible),
                ..*old(self)
            }),
            gains == (final(self).gain.current, final(self).audible.current),
    {
        let gain = self.gain.next_value(stepped_gain);
        let audible = self.audible.next_value(stepped_audible);
        (gain, audible)
    }

    /// Takes up new filter coefficients.
    pub fn refresh_eq(&mut self, published: &EqCoefficients)
        requires
            old(self).wf(),
        ensures
            final(self).wf(),
            final(self).eq_current == *published,
            final(self).delay() == old(self).delay(),
            final(self).channels == old(self).channels,
            final(self).ramp_frames == old(self).ramp_frames,
            final(self).gain == old(self).gain,
            final(self).audible == old(self).audible,
            forall|i: int|
                0 <= i < old(self).eqs@.len() ==> (#[trigger] final(self).eqs@[i]) == (
                if *published == old(self).eq_current {
                    old(self).eqs@[i]
                } else {
                    old(self).eqs@[i].retuned(*published)
                }),
    {
        refresh_eq(&mut self.eqs, &mut self.eq_current, published);
    }

    /// The samples by which the stream is delayed.
    pub fn delay_samples(&self, delay_frames: u32) -> (samples: usize)
        requires
            self.wf(),
        ensures
            samples == stage::whole_offset(
                delay_frames as int,
                self.channels as int,
                self.delay_line@.len() as int,
            ),
            samples <= self.delay_line@.len(),
    {
        offset_samples(delay_frames, self.channels, self.delay_line.len())
    }

    /// Puts a block through the delay line.
    pub fn delay_block(&mut self, samples: &mut Vec<Scalar>, offset: usize)
        requires
            old(self).wf(),
            offset <= old(self).delay_line@.len(),
        ensures
            final(self).wf(),
            final(samples)@ == delayed_all(old(self).delay(), old(samples)@, offset as int).0,
            final(self).delay() == delayed_all(
                old(self).delay(),
                old(samples)@,
                offset as int,
            ).1,
            *final(self) == (Strip {
                delay_line: final(self).delay_line,
                delay_write: final(self).delay_write,
                ..*old(self)
            }),
    {
        let ghost before = samples@;
        let count: usize = samples.len();
        let mut at: usize = 0;
        proof {
            assert(before.take(0) =~= Seq::empty());
        }
        while at < count
            invariant
                at <= count == before.len() == samples@.len(),
                self.wf(),
                self.delay_line@.len() == old(self).delay_line@.len(),
                offset <= self.delay_line@.len(),
                self.delay() == delayed_all(
                    old(self).delay(),
                    before.take(at as int),
                    offset as int,
                ).1,
                delayed_all(old(self).delay(), before.take(at as int), offset as int).0.len()
                    == at,
                forall|i: int|
                    0 <= i < count ==> (#[trigger] samples@[i]) == (if i < at {
                        delayed_all(
                            old(self).delay(),
                            before.take(at as int),
                            offset as int,
                        ).0[i]
                    } else {
                        before[i]
                    }),
                *self == (Strip {
                    delay_line: self.delay_line,
                    delay_write: self.delay_write,
                    ..*old(self)
                }),
            decreases count - at,
        {
            let sample = samples[at];
            assert(before.take(at + 1).drop_last() =~= before.take(at as int));
            assert(before.take(at + 1).last() == sample);
            let result = apply_sync_offset(
                sample,
                &mut self.delay_line,
                &mut self.delay_write,
                offset,
            );
            samples.set(at, result);
            at = at + 1;
        }
        assert(before.take(count as int) =~= before);
        assert(samples@ =~= delayed_all(old(self).delay(), before, offset as int).0);
    }
}

proof fn lemma_delayed_all(state: DelayState, samples: Seq<Scalar>, offset: int)
    requires
        offset > 0,
    ensures
        delayed_all(state, samples, offset).0.len() == samples.len(),
        delayed_all(state, samples, offset).1 == state.stored_all(samples),
        forall|i: int|
            0 <= i < samples.len() ==> (#[trigger] delayed_all(state, samples, offset).0[i])
                == stage::delayed(state.stored_all(samples.take(i)), samples[i], offset),
    decreases samples.len(),
{
    if samples.len() > 0 {
        let rest = samples.drop_last();
        lemma_delayed_all(state, rest, offset);
        assert forall|i: int| 0 <= i < samples.len() implies (#[trigger] delayed_all(
            state,
            samples,
            offset,
        ).0[i]) == stage::delayed(state.stored_all(samples.take(i)), samples[i], offset) by {
            if i < rest.len() {
                assert(delayed_all(state, samples, offset).0[i] == delayed_all(
                    state,
                    rest,
                    offset,
                ).0[i]);
                assert(rest.take(i) =~= samples.take(i));
            } else {
                assert(samples.take(i) =~= rest);
            }
        }
    }
}

/// A block comes out of the delay line as it went in, later by as many samples
/// as the delay is long.
pub proof fn law_block_is_shifted(state: DelayState, samples: Seq<Scalar>, offset: int, at: int)
    requires
        state.wf(),
        0 < offset <= state.line.len(),
        offset <= at < samples.len(),
    ensures
        delayed_all(state, samples, offset).0[at] == samples[at - offset],
{
    lemma_delayed_all(state, samples, offset);
    stage::law_delay_is_exact(state, samples.take(at), samples[at], offset);
}

/// A new strip is at the gain that it was given, silent exactly where it is
/// muted, with a filter for each channel that passes samples as they are and an
/// empty delay line. Its ramps last for ten milliseconds, one frame at least.
pub proof fn law_a_new_strip_is_at_rest(
    strip: Strip,
    channels: usize,
    rate: u32,
    gain: Scalar,
    muted: bool,
    at: int,
)
    requires
        strip.fresh(channels, rate, gain, muted),
    ensures
        strip.channels == channels,
        strip.gain.current == gain && strip.gain.target == gain && strip.gain.remaining_frames == 0,
        strip.audible.current.bits == (if muted {
            0
        } else {
            0x3f80_0000u32
        }),
        strip.audible.remaining_frames == 0,
        strip.eqs@.len() == channels,
        0 <= at < channels ==> strip.eqs@[at].low == eq::identity_filter() && strip.eqs@[at].mid
            == eq::identity_filter() && strip.eqs@[at].high == eq::identity_filter(),
        0 <= at < strip.delay_line@.len() ==> strip.delay_line@[at].bits == 0,
        strip.delay_write == 0,
        rate >= 100 ==> strip.ramp_frames == rate as int * 10 / 1_000,
        rate < 100 ==> strip.ramp_frames == 1,
{
}

/// A fade begins at the mode that was and ends at the one that is: its mix runs
/// from nothing to all over the frames of the ramp.
pub proof fn law_a_fade_runs_from_the_old_mode(
    previous: ChannelMode,
    ramp_frames: usize,
    step: Scalar,
)
    requires
        ramp_frames > 0,
    ensures
        ({
            let fade = fresh_fade(previous, ramp_frames, step);
            &&& fade.previous == previous
            &&& fade.mix.current.bits == 0
            &&& fade.mix.target.bits == 0x3f80_0000
            &&& fade.mix.step == step
            &&& fade.mix.remaining_frames == ramp_frames
        }),
{
}

/// A delay of nothing passes a block as it is and leaves the line alone.
pub proof fn law_no_delay_changes_nothing(state: DelayState, samples: Seq<Scalar>)
    ensures
        delayed_all(state, samples, 0).0.len() == samples.len(),
        delayed_all(state, samples, 0).1 == state,
        forall|i: int|
            0 <= i < samples.len() ==> (#[trigger] delayed_all(state, samples, 0).0[i])
                == samples[i],
    decreases samples.len(),
{
    if samples.len() > 0 {
        law_no_delay_changes_nothing(state, samples.drop_last());
        let all = delayed_all(state, samples, 0).0;
        let before = delayed_all(state, samples.drop_last(), 0).0;
        assert forall|i: int| 0 <= i < samples.len() implies (#[trigger] all[i]) == samples[i] by {
            if i < samples.len() - 1 {
                assert(all[i] == before[i]);
                assert(samples.drop_last()[i] == samples[i]);
            }
        }
    }
}

} // verus!
