//! Drift correction between two clocks: the frames that are held and when a
//! held frame is let go. The rate at which frames are consumed is worked out
//! outside.
use vstd::prelude::*;

use super::buffer::{zeros, MAX_CHANNELS};
use super::error::DspError;
use crate::scalar::Scalar;

verus! {

/// How long a frame is held where none comes.
pub const HOLD_LIMIT_MS: u32 = 25;

/// The two frames between which the output is interpolated, and how long the
/// newer one has been held.
#[derive(Debug)]
pub struct DriftCorrector {
    pub target_frames: usize,
    pub previous: Vec<Scalar>,
    pub current: Vec<Scalar>,
    pub starved_frames: usize,
    pub hold_limit_frames: usize,
}

/// What a corrector holds, with its frames as sequences.
pub struct DriftState {
    pub target_frames: usize,
    pub previous: Seq<Scalar>,
    pub current: Seq<Scalar>,
    pub starved_frames: usize,
    pub hold_limit_frames: usize,
}

impl View for DriftCorrector {
    type V = DriftState;

    open spec fn view(&self) -> DriftState {
        DriftState {
            target_frames: self.target_frames,
            previous: self.previous@,
            current: self.current@,
            starved_frames: self.starved_frames,
            hold_limit_frames: self.hold_limit_frames,
        }
    }
}

/// A silent frame.
pub open spec fn silence(channels: nat) -> Seq<Scalar> {
    Seq::new(channels, |_channel: int| Scalar { bits: 0 })
}

/// The frames for which a held frame is kept at a rate.
pub open spec fn hold_limit(sample_rate: u32) -> int {
    let frames = sample_rate as int / 1_000 * HOLD_LIMIT_MS;
    if frames < 1 {
        1
    } else {
        frames
    }
}

/// Whether a sample came for any channel.
pub open spec fn any_came(pulled: Seq<Option<Scalar>>) -> bool {
    exists|i: int| 0 <= i < pulled.len() && #[trigger] pulled[i] is Some
}

impl DriftState {
    /// The corrector after one more frame was asked for. A channel without a
    /// sample keeps its last one, until the whole frame has been held for too
    /// long.
    pub open spec fn pulled(self, samples: Seq<Option<Scalar>>) -> DriftState {
        let kept = Seq::new(
            self.current.len(),
            |i: int|
                if i < samples.len() && samples[i] is Some {
                    samples[i]->0
                } else {
                    self.current[i]
                },
        );
        let starved = if any_came(samples) {
            0
        } else if self.starved_frames < usize::MAX {
            (self.starved_frames + 1) as usize
        } else {
            usize::MAX
        };
        DriftState {
            previous: self.current,
            current: if starved > 0 && starved >= self.hold_limit_frames {
                silence(self.current.len())
            } else {
                kept
            },
            starved_frames: starved,
            ..self
        }
    }

    /// The corrector after frames for which nothing came.
    pub open spec fn starved(self, frames: nat) -> DriftState
        decreases frames,
    {
        if frames == 0 {
            self
        } else {
            self.starved((frames - 1) as nat).pulled(Seq::empty())
        }
    }
}

/// With one frame pulled for each frame played, the earlier of the two frames
/// that are played between is the input, one frame late.
pub proof fn law_output_is_one_frame_late(
    state: DriftState,
    first: Seq<Option<Scalar>>,
    second: Seq<Option<Scalar>>,
    channel: int,
)
    requires
        first.len() == state.current.len(),
        forall|i: int| 0 <= i < first.len() ==> #[trigger] first[i] is Some,
        0 <= channel < first.len(),
    ensures
        state.pulled(first).current[channel] == first[channel]->0,
        state.pulled(first).pulled(second).previous[channel] == first[channel]->0,
{
    assert(first[channel] is Some);
}

/// A starved corrector holds its last frame, but for no longer than the limit;
/// from there on it is silent.
pub proof fn law_a_held_frame_is_let_go(state: DriftState, frames: nat)
    requires
        state.starved_frames == 0,
        state.hold_limit_frames > 0,
        frames <= usize::MAX,
    ensures
        state.starved(frames).starved_frames == frames,
        state.starved(frames).hold_limit_frames == state.hold_limit_frames,
        state.starved(frames).current == (if frames < state.hold_limit_frames {
            state.current
        } else {
            silence(state.current.len())
        }),
    decreases frames,
{
    if frames > 0 {
        let before = state.starved((frames - 1) as nat);
        law_a_held_frame_is_let_go(state, (frames - 1) as nat);
        assert(!any_came(Seq::empty()));
        assert(before.pulled(Seq::empty()).current =~= (if frames < state.hold_limit_frames {
            state.current
        } else {
            silence(state.current.len())
        }));
    }
}

impl DriftCorrector {
    pub fn new(channels: usize, target_frames: usize, sample_rate: u32) -> (result: Result<
        Self,
        DspError,
    >)
        ensures
            match result {
                Ok(corrector) => {
                    &&& 1 <= channels <= MAX_CHANNELS
                    &&& sample_rate > 0
                    &&& corrector@ == (DriftState {
                        target_frames,
                        previous: silence(channels as nat),
                        current: silence(channels as nat),
                        starved_frames: 0,
                        hold_limit_frames: hold_limit(sample_rate) as usize,
                    })
                    &&& corrector.hold_limit_frames == hold_limit(sample_rate)
                },
                Err(error) => error == (if !(1 <= channels <= MAX_CHANNELS) {
                    DspError::InvalidChannelCount(channels)
                } else {
                    DspError::InvalidSampleRate(0)
                }) && (!(1 <= channels <= MAX_CHANNELS) || sample_rate == 0),
            },
    {
        if channels < 1 || channels > MAX_CHANNELS {
            return Err(DspError::InvalidChannelCount(channels));
        }
        if sample_rate == 0 {
            return Err(DspError::InvalidSampleRate(0));
        }
        assert(sample_rate / 1_000 <= 4_294_967);
        let frames: usize = (sample_rate / 1_000 * HOLD_LIMIT_MS) as usize;
        let hold_limit_frames: usize = if frames < 1 {
            1
        } else {
            frames
        };
        Ok(
            DriftCorrector {
                target_frames,
                previous: zeros(channels),
                current: zeros(channels),
                starved_frames: 0,
                hold_limit_frames,
            },
        )
    }

    pub fn set_target_frames(&mut self, target_frames: usize)
        ensures
            final(self)@ == (DriftState { target_frames, ..old(self)@ }),
    {
        self.target_frames = target_frames;
    }

    fn fall_silent(&mut self)
        ensures
            final(self)@ == (DriftState { current: silence(old(self)@.current.len()), ..old(self)@ }),
    {
        let count: usize = self.current.len();
        let mut channel: usize = 0;
        while channel < count
            invariant
                channel <= count == self.current@.len(),
                count == old(self).current@.len(),
                self.previous == old(self).previous,
                self.target_frames == old(self).target_frames,
                self.starved_frames == old(self).starved_frames,
                self.hold_limit_frames == old(self).hold_limit_frames,
                forall|i: int| 0 <= i < channel ==> (#[trigger] self.current@[i]).bits == 0,
            decreases count - channel,
        {
            self.current.set(channel, Scalar::zero());
            channel = channel + 1;
        }
        assert(self.current@ =~= silence(old(self)@.current.len()));
    }

    /// Moves on by one frame, with the sample that came for each channel.
    pub fn pull_frame(&mut self, samples: &Vec<Option<Scalar>>)
        requires
            samples@.len() == old(self).current@.len(),
            old(self).previous@.len() == old(self).current@.len(),
        ensures
            final(self)@ == old(self)@.pulled(samples@),
    {
        let count: usize = self.current.len();
        let mut got_sample = false;
        let mut channel: usize = 0;
        let ghost held = self.current@;
        while channel < count
            invariant
                channel <= count == held.len(),
                samples@.len() == count,
                self.current@.len() == count,
                self.previous@.len() == count,
                self.target_frames == old(self).target_frames,
                self.starved_frames == old(self).starved_frames,
                self.hold_limit_frames == old(self).hold_limit_frames,
                got_sample == any_came(samples@.take(channel as int)),
                forall|i: int| 0 <= i < channel ==> (#[trigger] self.previous@[i]) == held[i],
                forall|i: int|
                    0 <= i < count ==> (#[trigger] self.current@[i]) == (if i < channel
                        && samples@[i] is Some {
                        samples@[i]->0
                    } else {
                        held[i]
                    }),
            decreases count - channel,
        {
            let sample = self.current[channel];
            self.previous.set(channel, sample);
            let ghost before = samples@.take(channel as int);
            let ghost here = samples@.take(channel + 1);
            proof {
                if any_came(before) {
                    let i = choose|i: int| 0 <= i < before.len() && #[trigger] before[i] is Some;
                    assert(here[i] is Some);
                }
                if samples@[channel as int] is Some {
                    assert(here[channel as int] is Some);
                }
                if any_came(here) && !(samples@[channel as int] is Some) {
                    let i = choose|i: int| 0 <= i < here.len() && #[trigger] here[i] is Some;
                    assert(before[i] is Some);
                }
            }
            if let Some(sample) = samples[channel] {
                self.current.set(channel, sample);
                got_sample = true;
            }
            channel = channel + 1;
        }
        assert(samples@.take(channel as int) =~= samples@);
        if got_sample {
            self.starved_frames = 0;
        } else {
            if self.starved_frames < usize::MAX {
                self.starved_frames = self.starved_frames + 1;
            }
            if self.starved_frames >= self.hold_limit_frames {
                self.fall_silent();
            }
        }
        let ghost wanted = old(self)@.pulled(samples@);
        assert(self.previous@ =~= wanted.previous);
        assert(self.current@ =~= wanted.current);
    }
}

/// A frame is held for 25 milliseconds at the rate, and for one frame at least.
pub proof fn law_frames_are_held_for_their_time(sample_rate: u32)
    ensures
        sample_rate >= 1_000 ==> hold_limit(sample_rate) == 25 * (sample_rate as int / 1_000),
        sample_rate < 1_000 ==> hold_limit(sample_rate) == 1,
{
}

/// A channel takes the sample that came for it and keeps its last one where
/// none came; what was current becomes what was before. As long as a sample
/// comes for some channel, nothing counts as held.
pub proof fn law_each_channel_takes_its_own_sample(
    state: DriftState,
    samples: Seq<Option<Scalar>>,
    channel: int,
)
    requires
        samples.len() == state.current.len(),
        0 <= channel < samples.len(),
    ensures
        ({
            let after = state.pulled(samples);
            &&& after.previous == state.current
            &&& after.current.len() == state.current.len()
            &&& samples[channel] is Some ==> after.current[channel] == samples[channel]->0
                && after.starved_frames == 0
            &&& samples[channel] is None && (exists|i: int|
                0 <= i < samples.len() && #[trigger] samples[i] is Some) ==> after.current[channel]
                == state.current[channel] && after.starved_frames == 0
            &&& (forall|i: int| 0 <= i < samples.len() ==> #[trigger] samples[i] is None)
                && state.starved_frames + 1 < state.hold_limit_frames ==> {
                &&& after.current[channel] == state.current[channel]
                &&& after.starved_frames == state.starved_frames + 1
            }
            &&& (forall|i: int| 0 <= i < samples.len() ==> #[trigger] samples[i] is None)
                && state.starved_frames + 1 >= state.hold_limit_frames && state.starved_frames
                < usize::MAX ==> after.current[channel].bits == 0
            &&& after.target_frames == state.target_frames
        }),
{
    if samples[channel] is Some {
        assert(any_came(samples));
    }
}

} // verus!
