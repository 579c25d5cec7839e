//! Ramped parameters and the processors built on them.
use vstd::prelude::*;

use super::buffer::{validate_process, AudioBuffer, ProcessConfig, ProcessContext};
use super::buffer;
use super::error::DspError;
use crate::scalar::{Scalar, ONE_BITS, SIGN_BIT};

verus! {

/// A value that moves to its target over a number of frames.
#[derive(Debug, Clone, Copy, PartialEq, Eq, Structural)]
pub struct ParameterSmoother {
    pub current: Scalar,
    pub target: Scalar,
    pub step: Scalar,
    pub remaining_frames: usize,
}

/// A parameter that rests at a value.
pub open spec fn resting(value: Scalar) -> ParameterSmoother {
    ParameterSmoother {
        current: value,
        target: value,
        step: Scalar { bits: 0 },
        remaining_frames: 0,
    }
}

impl ParameterSmoother {
    pub fn new(value: Scalar) -> (result: Result<Self, DspError>)
        ensures
            result == (if value.finite() {
                Ok::<Self, DspError>(resting(value))
            } else {
                Err(DspError::InvalidParameter("smoother value"))
            }),
    {
        match validate_finite(value, "smoother value") {
            Ok(()) => Ok(
                ParameterSmoother {
                    current: value,
                    target: value,
                    step: Scalar::zero(),
                    remaining_frames: 0,
                },
            ),
            Err(error) => Err(error),
        }
    }

    pub fn current(&self) -> (value: Scalar)
        ensures
            value == self.current,
    {
        self.current
    }

    pub fn target(&self) -> (value: Scalar)
        ensures
            value == self.target,
    {
        self.target
    }

    pub fn remaining_frames(&self) -> (frames: usize)
        ensures
            frames == self.remaining_frames,
    {
        self.remaining_frames
    }

    pub fn is_smoothing(&self) -> (result: bool)
        ensures
            result == (self.remaining_frames != 0),
    {
        self.remaining_frames != 0
    }

    /// On its way to a target, by a step for each frame.
    pub open spec fn headed(self, target: Scalar, ramp_frames: usize, step: Scalar) -> Self {
        if ramp_frames == 0 {
            resting(target)
        } else {
            ParameterSmoother { current: self.current, target, step, remaining_frames: ramp_frames }
        }
    }

    /// Heads for a target. `step` is the difference to it over the number of
    /// frames.
    pub fn set_target(&mut self, target: Scalar, ramp_frames: usize, step: Scalar) -> (result:
        Result<(), DspError>)
        ensures
            result == (if target.finite() {
                Ok::<(), DspError>(())
            } else {
                Err(DspError::InvalidParameter("smoother target"))
            }),
            *final(self) == (if target.finite() {
                old(self).headed(target, ramp_frames, step)
            } else {
                *old(self)
            }),
    {
        match validate_finite(target, "smoother target") {
            Ok(()) => {},
            Err(error) => {
                return Err(error);
            },
        }
        self.target = target;
        if ramp_frames == 0 {
            self.current = target;
            self.step = Scalar::zero();
            self.remaining_frames = 0;
        } else {
            self.step = step;
            self.remaining_frames = ramp_frames;
        }
        Ok(())
    }

    /// On its way to a target where that is another one, otherwise as it is.
    pub open spec fn following(self, target: Scalar, ramp_frames: usize, step: Scalar) -> Self {
        if target.finite() && !target.same_value_as(self.target) {
            self.headed(target, ramp_frames, step)
        } else {
            self
        }
    }

    /// Heads for a target where that is another one. A target that is no
    /// finite number is left out.
    pub fn follow(&mut self, target: Scalar, ramp_frames: usize, step: Scalar)
        ensures
            *final(self) == old(self).following(target, ramp_frames, step),
    {
        if !target.same_value(self.target) {
            let _ = self.set_target(target, ramp_frames, step);
        }
    }

    /// The parameter one frame later; `stepped` is the current value and the
    /// step together.
    pub open spec fn advanced(self, stepped: Scalar) -> Self {
        if self.remaining_frames == 0 {
            self
        } else if self.remaining_frames == 1 {
            ParameterSmoother { current: self.target, remaining_frames: 0, ..self }
        } else {
            ParameterSmoother {
                current: stepped,
                remaining_frames: (self.remaining_frames - 1) as usize,
                ..self
            }
        }
    }

    /// The value for the next frame. `stepped` is the current value and the
    /// step together. The last frame of a ramp lands on the target itself.
    pub fn next_value(&mut self, stepped: Scalar) -> (value: Scalar)
        ensures
            *final(self) == old(self).advanced(stepped),
            value == final(self).current,
    {
        if self.remaining_frames != 0 {
            self.current = stepped;
            self.remaining_frames = self.remaining_frames - 1;
            if self.remaining_frames == 0 {
                self.current = self.target;
            }
        }
        self.current
    }

    /// Puts the parameter to rest at a value.
    pub fn reset(&mut self, value: Scalar) -> (result: Result<(), DspError>)
        ensures
            result == (if value.finite() {
                Ok::<(), DspError>(())
            } else {
                Err(DspError::InvalidParameter("smoother reset value"))
            }),
            *final(self) == (if value.finite() {
                resting(value)
            } else {
                *old(self)
            }),
    {
        match validate_finite(value, "smoother reset value") {
            Ok(()) => {},
            Err(error) => {
                return Err(error);
            },
        }
        self.current = value;
        self.target = value;
        self.step = Scalar::zero();
        self.remaining_frames = 0;
        Ok(())
    }

    /// Puts the parameter to rest at its target.
    pub fn settle_at_target(&mut self)
        ensures
            *final(self) == resting(old(self).target),
    {
        self.current = self.target;
        self.step = Scalar::zero();
        self.remaining_frames = 0;
    }
}

/// The parameter after as many frames as there are stepped values.
pub open spec fn after_frames(smoother: ParameterSmoother, stepped: Seq<Scalar>) -> ParameterSmoother
    decreases stepped.len(),
{
    if stepped.len() == 0 {
        smoother
    } else {
        after_frames(smoother.advanced(stepped[0]), stepped.skip(1))
    }
}

proof fn lemma_resting_stays(smoother: ParameterSmoother, stepped: Seq<Scalar>)
    requires
        smoother.remaining_frames == 0,
    ensures
        after_frames(smoother, stepped) == smoother,
    decreases stepped.len(),
{
    if stepped.len() > 0 {
        lemma_resting_stays(smoother, stepped.skip(1));
    }
}

/// A ramp is over after its frames, and it ends on its target exactly, however
/// the steps were rounded.
pub proof fn law_ramp_lands_on_its_target(smoother: ParameterSmoother, stepped: Seq<Scalar>)
    requires
        smoother.remaining_frames > 0,
        stepped.len() >= smoother.remaining_frames,
    ensures
        after_frames(smoother, stepped).current == smoother.target,
        after_frames(smoother, stepped).target == smoother.target,
        after_frames(smoother, stepped).remaining_frames == 0,
    decreases smoother.remaining_frames,
{
    let next = smoother.advanced(stepped[0]);
    if smoother.remaining_frames == 1 {
        lemma_resting_stays(next, stepped.skip(1));
    } else {
        law_ramp_lands_on_its_target(next, stepped.skip(1));
    }
}

/// A ramp is not over before its last frame.
pub proof fn law_ramp_takes_all_its_frames(smoother: ParameterSmoother, stepped: Seq<Scalar>)
    requires
        stepped.len() <= smoother.remaining_frames,
    ensures
        after_frames(smoother, stepped).remaining_frames == smoother.remaining_frames
            - stepped.len(),
        after_frames(smoother, stepped).target == smoother.target,
    decreases stepped.len(),
{
    if stepped.len() > 0 {
        law_ramp_takes_all_its_frames(smoother.advanced(stepped[0]), stepped.skip(1));
    }
}

/// Gain and mute, each ramped.
#[derive(Debug)]
pub struct GainProcessor {
    pub prepared: Option<ProcessConfig>,
    pub gain: ParameterSmoother,
    pub audible: ParameterSmoother,
}

/// A gain is finite and not below zero.
pub open spec fn valid_gain(gain: Scalar) -> bool {
    gain.finite() && (Scalar { bits: 0 }).le(gain)
}

/// A balance or pan position lies between minus one and one.
pub open spec fn valid_pan(pan: Scalar) -> bool {
    &&& pan.finite()
    &&& (Scalar { bits: (SIGN_BIT + ONE_BITS) as u32 }).le(pan)
    &&& pan.le(Scalar { bits: ONE_BITS })
}

/// One where the processor is to be heard, zero where it is muted.
pub open spec fn audibility(muted: bool) -> Scalar {
    if muted {
        Scalar { bits: 0 }
    } else {
        Scalar { bits: ONE_BITS }
    }
}

impl GainProcessor {
    pub fn new(initial_gain: Scalar) -> (result: Result<Self, DspError>)
        ensures
            result == (if valid_gain(initial_gain) {
                Ok::<Self, DspError>(
                    GainProcessor {
                        prepared: None,
                        gain: resting(initial_gain),
                        audible: resting(audibility(false)),
                    },
                )
            } else {
                Err(DspError::InvalidParameter("gain"))
            }),
    {
        match validate_gain(initial_gain) {
            Ok(()) => {},
            Err(error) => {
                return Err(error);
            },
        }
        let gain = match ParameterSmoother::new(initial_gain) {
            Ok(gain) => gain,
            Err(error) => {
                return Err(error);
            },
        };
        let audible = match ParameterSmoother::new(Scalar::one()) {
            Ok(audible) => audible,
            Err(error) => {
                return Err(error);
            },
        };
        Ok(GainProcessor { prepared: None, gain, audible })
    }

    pub fn set_target_gain(&mut self, gain: Scalar, ramp_frames: usize, step: Scalar) -> (result:
        Result<(), DspError>)
        ensures
            result == (if valid_gain(gain) {
                Ok::<(), DspError>(())
            } else {
                Err(DspError::InvalidParameter("gain"))
            }),
            *final(self) == (if valid_gain(gain) {
                GainProcessor {
                    gain: old(self).gain.headed(gain, ramp_frames, step),
                    ..*old(self)
                }
            } else {
                *old(self)
            }),
    {
        match validate_gain(gain) {
            Ok(()) => self.gain.set_target(gain, ramp_frames, step),
            Err(error) => Err(error),
        }
    }

    pub fn set_muted(&mut self, muted: bool, ramp_frames: usize, step: Scalar) -> (result: Result<
        (),
        DspError,
    >)
        ensures
            result is Ok,
            *final(self) == (GainProcessor {
                audible: old(self).audible.headed(audibility(muted), ramp_frames, step),
                ..*old(self)
            }),
    {
        let target = if muted {
            Scalar::zero()
        } else {
            Scalar::one()
        };
        self.audible.set_target(target, ramp_frames, step)
    }

    pub fn target_gain(&self) -> (gain: Scalar)
        ensures
            gain == self.gain.target,
    {
        self.gain.target()
    }

    pub fn is_muted(&self) -> (muted: bool)
        ensures
            muted == self.audible.target.same_value_as(Scalar { bits: 0 }),
    {
        self.audible.target().same_value(Scalar::zero())
    }

    pub fn prepare(&mut self, config: ProcessConfig) -> (result: Result<(), DspError>)
        ensures
            result is Ok,
            *final(self) == (GainProcessor { prepared: Some(config), ..*old(self) }),
    {
        self.prepared = Some(config);
        Ok(())
    }

    /// Checks a block before it is processed.
    pub fn check(&self, context: &ProcessContext, buffer: &AudioBuffer) -> (result: Result<
        ProcessConfig,
        DspError,
    >)
        requires
            buffer.wf(),
        ensures
            match result {
                Ok(config) => self.prepared == Some(config) && buffer::block_fault(
                    self.prepared,
                    *context,
                    buffer@.len() as int,
                    buffer@[0].len() as int,
                ) is None,
                Err(error) => buffer::block_fault(
                    self.prepared,
                    *context,
                    buffer@.len() as int,
                    buffer@[0].len() as int,
                ) == Some(error),
            },
    {
        validate_process(self.prepared, context, buffer)
    }

    /// The gain and the audibility for the next frame, whose product scales
    /// every channel. The arguments are their stepped values.
    pub fn next_gains(&mut self, stepped_gain: Scalar, stepped_audible: Scalar) -> (gains: (
        Scalar,
        Scalar,
    ))
        ensures
            *final(self) == (GainProcessor {
                gain: old(self).gain.advanced(stepped_gain),
                audible: old(self).audible.advanced(stepped_audible),
                ..*old(self)
            }),
            gains == (final(self).gain.current, final(self).audible.current),
    {
        let gain = self.gain.next_value(stepped_gain);
        let audible = self.audible.next_value(stepped_audible);
        (gain, audible)
    }

    pub fn reset(&mut self)
        ensures
            *final(self) == (GainProcessor {
                gain: resting(old(self).gain.target),
                audible: resting(old(self).audible.target),
                ..*old(self)
            }),
    {
        self.gain.settle_at_target();
        self.audible.settle_at_target();
    }

    pub fn latency_frames(&self) -> (frames: usize)
        ensures
            frames == 0,
    {
        0
    }
}

/// Stereo balance, ramped.
#[derive(Debug)]
pub struct StereoBalanceProcessor {
    pub prepared: Option<ProcessConfig>,
    pub balance: ParameterSmoother,
}

impl StereoBalanceProcessor {
    pub fn new(initial_balance: Scalar) -> (result: Result<Self, DspError>)
        ensures
            result == (if valid_pan(initial_balance) {
                Ok::<Self, DspError>(
                    StereoBalanceProcessor { prepared: None, balance: resting(initial_balance) },
                )
            } else {
                Err(DspError::InvalidParameter("balance"))
            }),
    {
        match validate_pan(initial_balance, "balance") {
            Ok(()) => {},
            Err(error) => {
                return Err(error);
            },
        }
        match ParameterSmoother::new(initial_balance) {
            Ok(balance) => Ok(StereoBalanceProcessor { prepared: None, balance }),
            Err(error) => Err(error),
        }
    }

    pub fn set_target_balance(&mut self, balance: Scalar, ramp_frames: usize, step: Scalar) -> (
    result: Result<(), DspError>)
        ensures
            result == (if valid_pan(balance) {
                Ok::<(), DspError>(())
            } else {
                Err(DspError::InvalidParameter("balance"))
            }),
            *final(self) == (if valid_pan(balance) {
                StereoBalanceProcessor {
                    balance: old(self).balance.headed(balance, ramp_frames, step),
                    ..*old(self)
                }
            } else {
                *old(self)
            }),
    {
        match validate_pan(balance, "balance") {
            Ok(()) => self.balance.set_target(balance, ramp_frames, step),
            Err(error) => Err(error),
        }
    }

    /// Balance exists for stereo only.
    pub fn prepare(&mut self, config: ProcessConfig) -> (result: Result<(), DspError>)
        ensures
            result == (if config.width() == 2 {
                Ok::<(), DspError>(())
            } else {
                Err(DspError::ChannelCountMismatch { expected: 2, actual: config.width() })
            }),
            *final(self) == (if config.width() == 2 {
                StereoBalanceProcessor { prepared: Some(config), ..*old(self) }
            } else {
                *old(self)
            }),
    {
        let actual: usize = config.channel_count();
        if actual != 2 {
            return Err(DspError::ChannelCountMismatch { expected: 2, actual });
        }
        self.prepared = Some(config);
        Ok(())
    }

    /// Checks a block before it is processed.
    pub fn check(&self, context: &ProcessContext, buffer: &AudioBuffer) -> (result: Result<
        ProcessConfig,
        DspError,
    >)
        requires
            buffer.wf(),
        ensures
            match result {
                Ok(config) => self.prepared == Some(config) && buffer::block_fault(
                    self.prepared,
                    *context,
                    buffer@.len() as int,
                    buffer@[0].len() as int,
                ) is None,
                Err(error) => buffer::block_fault(
                    self.prepared,
                    *context,
                    buffer@.len() as int,
                    buffer@[0].len() as int,
                ) == Some(error),
            },
    {
        validate_process(self.prepared, context, buffer)
    }

    /// The balance for the next frame.
    pub fn next_balance(&mut self, stepped: Scalar) -> (balance: Scalar)
        ensures
            *final(self) == (StereoBalanceProcessor {
                balance: old(self).balance.advanced(stepped),
                ..*old(self)
            }),
            balance == final(self).balance.current,
    {
        self.balance.next_value(stepped)
    }

    pub fn reset(&mut self)
        ensures
            *final(self) == (StereoBalanceProcessor {
                balance: resting(old(self).balance.target),
                ..*old(self)
            }),
    {
        self.balance.settle_at_target();
    }

    pub fn latency_frames(&self) -> (frames: usize)
        ensures
            frames == 0,
    {
        0
    }
}

/// The gains of a balance position, left and right: only the side opposite the
/// turn is attenuated.
pub open spec fn sides(balance: Scalar, remainder: Scalar) -> (Scalar, Scalar) {
    (
        if (Scalar { bits: 0 }).lt(balance) {
            remainder
        } else {
            Scalar { bits: ONE_BITS }
        },
        if balance.lt(Scalar { bits: 0 }) {
            remainder
        } else {
            Scalar { bits: ONE_BITS }
        },
    )
}

/// Nothing is boosted, and one side always plays in full: the side towards
/// which the balance is turned, and both in the center. A mirrored balance
/// mirrors the gains, and one beyond the range is that at the end of the range.
pub proof fn law_balance_attenuates_one_side(balance: Scalar, remainder: Scalar)
    requires
        !balance.nan(),
        (Scalar { bits: 0 }).le(remainder),
        remainder.le(Scalar { bits: ONE_BITS }),
    ensures
        ({
            let zero = Scalar { bits: 0 };
            let one = Scalar { bits: ONE_BITS };
            let (left, right) = sides(balance, remainder);
            &&& zero.le(left) && left.le(one)
            &&& zero.le(right) && right.le(one)
            &&& balance.le(zero) ==> left == one
            &&& zero.le(balance) ==> right == one
            &&& left == one || right == one
            &&& sides(balance.negated(), remainder) == (right, left)
            &&& sides(
                balance.clamped(Scalar { bits: (SIGN_BIT + ONE_BITS) as u32 }, one),
                remainder,
            ) == (left, right)
        }),
{
}

/// The gains of a balance position. `remainder` is one less the distance of the
/// position from the center, for a position clamped to the range.
pub fn linear_balance_gains(balance: Scalar, remainder: Scalar) -> (gains: (Scalar, Scalar))
    ensures
        gains == sides(balance, remainder),
        gains.0.bits == ONE_BITS || gains.1.bits == ONE_BITS,
{
    let left = if Scalar::zero().less(balance) {
        remainder
    } else {
        Scalar::one()
    };
    let right = if balance.less(Scalar::zero()) {
        remainder
    } else {
        Scalar::one()
    };
    (left, right)
}

/// The balance that the gains are worked out for.
pub fn balance_in_range(balance: Scalar) -> (clamped: Scalar)
    ensures
        clamped == balance.clamped(
            Scalar { bits: (SIGN_BIT + ONE_BITS) as u32 },
            Scalar { bits: ONE_BITS },
        ),
{
    balance.clamp(Scalar { bits: SIGN_BIT + ONE_BITS }, Scalar::one())
}

/// The gains of a pan position: all on one side at its ends, and the given
/// cosine and sine of its angle in between.
pub fn constant_power_pan_gains(pan: Scalar, cosine: Scalar, sine: Scalar) -> (result: Result<
    (Scalar, Scalar),
    DspError,
>)
    ensures
        result == (if !valid_pan(pan) {
            Err(DspError::InvalidParameter("pan"))
        } else if pan.bits == SIGN_BIT + ONE_BITS {
            Ok((Scalar { bits: ONE_BITS }, Scalar { bits: 0 }))
        } else if pan.bits == ONE_BITS {
            Ok((Scalar { bits: 0 }, Scalar { bits: ONE_BITS }))
        } else {
            Ok((cosine, sine))
        }),
{
    match validate_pan(pan, "pan") {
        Ok(()) => {},
        Err(error) => {
            return Err(error);
        },
    }
    if pan.bits == SIGN_BIT + ONE_BITS {
        return Ok((Scalar::one(), Scalar::zero()));
    }
    if pan.bits == ONE_BITS {
        return Ok((Scalar::zero(), Scalar::one()));
    }
    Ok((cosine, sine))
}

/// Why a mono signal cannot be panned.
pub open spec fn pan_fault(input: int, left: int, right: int, pan: Scalar) -> Option<DspError> {
    if left != input {
        Some(DspError::FrameCountMismatch { expected: input as usize, actual: left as usize })
    } else if right != input {
        Some(DspError::FrameCountMismatch { expected: input as usize, actual: right as usize })
    } else if !valid_pan(pan) {
        Some(DspError::InvalidParameter("pan"))
    } else {
        None
    }
}

/// The gains with which a mono signal is panned into two channels. The
/// arguments are lengths, the position, and the cosine and sine of its angle.
pub fn pan_mono_to_stereo(
    input: usize,
    left: usize,
    right: usize,
    pan: Scalar,
    cosine: Scalar,
    sine: Scalar,
) -> (result: Result<(Scalar, Scalar), DspError>)
    ensures
        match pan_fault(input as int, left as int, right as int, pan) {
            Some(error) => result == Err::<(Scalar, Scalar), DspError>(error),
            None => result == Ok::<(Scalar, Scalar), DspError>(
                if pan.bits == SIGN_BIT + ONE_BITS {
                    (Scalar { bits: ONE_BITS }, Scalar { bits: 0 })
                } else if pan.bits == ONE_BITS {
                    (Scalar { bits: 0 }, Scalar { bits: ONE_BITS })
                } else {
                    (cosine, sine)
                },
            ),
        },
{
    if left != input {
        return Err(DspError::FrameCountMismatch { expected: input, actual: left });
    }
    if right != input {
        return Err(DspError::FrameCountMismatch { expected: input, actual: right });
    }
    constant_power_pan_gains(pan, cosine, sine)
}

/// Refuses a value that is not a number or infinite.
pub fn validate_finite(value: Scalar, name: &'static str) -> (result: Result<(), DspError>)
    ensures
        result == (if value.finite() {
            Ok::<(), DspError>(())
        } else {
            Err(DspError::InvalidParameter(name))
        }),
{
    if value.is_finite() {
        Ok(())
    } else {
        Err(DspError::InvalidParameter(name))
    }
}

/// Refuses a gain that is not a finite number at or above zero.
pub fn validate_gain(gain: Scalar) -> (result: Result<(), DspError>)
    ensures
        result == (if valid_gain(gain) {
            Ok::<(), DspError>(())
        } else {
            Err(DspError::InvalidParameter("gain"))
        }),
{
    if gain.is_finite() && Scalar::zero().at_most(gain) {
        Ok(())
    } else {
        Err(DspError::InvalidParameter("gain"))
    }
}

/// Refuses a position outside the range from minus one to one.
pub fn validate_pan(pan: Scalar, name: &'static str) -> (result: Result<(), DspError>)
    ensures
        result == (if valid_pan(pan) {
            Ok::<(), DspError>(())
        } else {
            Err(DspError::InvalidParameter(name))
        }),
{
    let low = Scalar { bits: SIGN_BIT + ONE_BITS };
    if pan.is_finite() && low.at_most(pan) && pan.at_most(Scalar::one()) {
        Ok(())
    } else {
        Err(DspError::InvalidParameter(name))
    }
}

/// A parameter that rests stays where it is. One on its way takes the stepped
/// value, frame by frame, and the target itself with the last frame; a ramp of
/// no frames is there at once.
pub proof fn law_a_parameter_moves_frame_by_frame(
    smoother: ParameterSmoother,
    stepped: Scalar,
    target: Scalar,
    ramp_frames: usize,
    step: Scalar,
)
    ensures
        smoother.remaining_frames == 0 ==> smoother.advanced(stepped) == smoother,
        smoother.remaining_frames == 1 ==> smoother.advanced(stepped).current == smoother.target
            && smoother.advanced(stepped).remaining_frames == 0,
        smoother.remaining_frames > 1 ==> smoother.advanced(stepped).current == stepped
            && smoother.advanced(stepped).remaining_frames == smoother.remaining_frames - 1,
        smoother.advanced(stepped).target == smoother.target,
        smoother.advanced(stepped).step == smoother.step,
        ramp_frames == 0 ==> smoother.headed(target, ramp_frames, step).current == target
            && smoother.headed(target, ramp_frames, step).remaining_frames == 0,
        ramp_frames > 0 ==> {
            let headed = smoother.headed(target, ramp_frames, step);
            &&& headed.current == smoother.current
            &&& headed.remaining_frames == ramp_frames
            &&& headed.step == step
        },
        smoother.headed(target, ramp_frames, step).target == target,
        resting(target).current == target,
        resting(target).target == target,
        resting(target).step.bits == 0,
        resting(target).remaining_frames == 0,
{
}

/// A parameter heads for a new target exactly where it is a finite number and
/// another one; the same target, or one that is no number, changes nothing.
pub proof fn law_a_new_target_starts_one_ramp(
    smoother: ParameterSmoother,
    target: Scalar,
    ramp_frames: usize,
    step: Scalar,
)
    ensures
        !target.finite() ==> smoother.following(target, ramp_frames, step) == smoother,
        target.finite() && target == smoother.target ==> smoother.following(
            target,
            ramp_frames,
            step,
        ) == smoother,
        target.finite() && smoother.target.finite() && target.rank() != smoother.target.rank()
            ==> smoother.following(target, ramp_frames, step) == smoother.headed(
            target,
            ramp_frames,
            step,
        ),
        audibility(true).bits == 0,
        audibility(false).bits == 0x3f80_0000,
{
}

/// A balance to the right takes the left side down and leaves the right alone,
/// one to the left the other way round, and in the center both play in full.
pub proof fn law_a_balance_takes_the_other_side_down(balance: Scalar, remainder: Scalar)
    requires
        !balance.nan(),
    ensures
        balance.rank() > 0 ==> sides(balance, remainder).0 == remainder && sides(
            balance,
            remainder,
        ).1.bits == 0x3f80_0000,
        balance.rank() < 0 ==> sides(balance, remainder).0.bits == 0x3f80_0000 && sides(
            balance,
            remainder,
        ).1 == remainder,
        balance.rank() == 0 ==> sides(balance, remainder).0.bits == 0x3f80_0000 && sides(
            balance,
            remainder,
        ).1.bits == 0x3f80_0000,
{
}

/// A gain is a finite number from zero up, a position one between minus one and
/// one. A signal is panned where both sides are as long as it is and the
/// position is valid.
pub proof fn law_gains_and_positions_have_ranges(
    value: Scalar,
    input: usize,
    left: usize,
    right: usize,
)
    ensures
        valid_gain(value) <==> value.finite() && value.rank() >= 0,
        valid_pan(value) <==> !value.nan() && -0x3f80_0000 <= value.rank() <= 0x3f80_0000,
        pan_fault(input as int, left as int, right as int, value) is None <==> left == input
            && right == input && valid_pan(value),
        left != input ==> pan_fault(input as int, left as int, right as int, value) == Some(
            DspError::FrameCountMismatch { expected: input, actual: left },
        ),
        left == input && right != input ==> pan_fault(
            input as int,
            left as int,
            right as int,
            value,
        ) == Some(DspError::FrameCountMismatch { expected: input, actual: right }),
        left == input && right == input && !valid_pan(value) ==> pan_fault(
            input as int,
            left as int,
            right as int,
            value,
        ) == Some(DspError::InvalidParameter("pan")),
{
}

} // verus!
