//! The decisions of block processing: sizes, channel modes and the delay line.
use vstd::prelude::*;

use crate::domain::controls::ChannelMode;
use crate::dsp::eq::{ChannelEq, EqCoefficients};
use crate::scalar::Scalar;

verus! {

/// No more frames are processed in one pass.
pub const MAX_BLOCK_FRAMES: usize = 4_096;

/// How long a change of gain, mute or balance takes, at any rate.
pub const CONTROL_RAMP_MS: usize = 10;

/// How many quanta a route buffers by default, and at most.
pub const TARGET_QUANTA: u32 = 1;

pub const MAX_TARGET_QUANTA: u32 = 2;

/// No ring is smaller than this.
pub const MIN_RING_FRAMES: usize = 16_384;

/// The number closest to `value` among those with at most 24 binary digits,
/// scaled by `unit`; of two, the even one.
pub open spec fn rounded_to(value: int, unit: int) -> int {
    let low = value / unit;
    let rest = value % unit;
    if 2 * rest < unit || (2 * rest == unit && low % 2 == 0) {
        low * unit
    } else {
        (low + 1) * unit
    }
}

/// A rate as a single-precision number.
pub open spec fn single_precision(rate: int) -> int {
    if rate < 0x100_0000 {
        rate
    } else if rate < 0x200_0000 {
        rounded_to(rate, 2)
    } else if rate < 0x400_0000 {
        rounded_to(rate, 4)
    } else if rate < 0x800_0000 {
        rounded_to(rate, 8)
    } else if rate < 0x1000_0000 {
        rounded_to(rate, 16)
    } else if rate < 0x2000_0000 {
        rounded_to(rate, 32)
    } else if rate < 0x4000_0000 {
        rounded_to(rate, 64)
    } else if rate < 0x8000_0000 {
        rounded_to(rate, 128)
    } else {
        rounded_to(rate, 256)
    }
}

fn round_to(value: u64, unit: u64) -> (rounded: u64)
    requires
        0 < unit <= 256,
        value <= u32::MAX,
    ensures
        rounded == rounded_to(value as int, unit as int),
        rounded <= value + unit,
{
    let low: u64 = value / unit;
    let rest: u64 = value % unit;
    assert(low * unit <= value && value == low * unit + rest && rest < unit) by (nonlinear_arith)
        requires
            low == value as int / unit as int,
            rest == value as int % unit as int,
            unit > 0,
    ;
    assert((low + 1) * unit == low * unit + unit) by (nonlinear_arith);
    if 2 * rest < unit || (2 * rest == unit && low % 2 == 0) {
        low * unit
    } else {
        (low + 1) * unit
    }
}

fn as_single_precision(rate: u32) -> (value: u64)
    ensures
        value == single_precision(rate as int),
        value <= 0x1_0000_0000 + 256,
{
    let rate: u64 = rate as u64;
    if rate < 0x100_0000 {
        rate
    } else if rate < 0x200_0000 {
        round_to(rate, 2)
    } else if rate < 0x400_0000 {
        round_to(rate, 4)
    } else if rate < 0x800_0000 {
        round_to(rate, 8)
    } else if rate < 0x1000_0000 {
        round_to(rate, 16)
    } else if rate < 0x2000_0000 {
        round_to(rate, 32)
    } else if rate < 0x4000_0000 {
        round_to(rate, 64)
    } else if rate < 0x8000_0000 {
        round_to(rate, 128)
    } else {
        round_to(rate, 256)
    }
}

/// The frames of the longest delay at a rate: half a second.
pub open spec fn longest_delay(rate: u32) -> int {
    single_precision(if rate == 0 {
        1
    } else {
        rate as int
    }) / 2
}

/// The length of a delay line in samples: half a second of frames, the longest
/// delay there is.
pub open spec fn delay_capacity(rate: u32, channels: usize) -> int {
    let samples = longest_delay(rate) * if channels == 0 {
        1
    } else {
        channels as int
    };
    if samples < 1 {
        1
    } else if samples > usize::MAX {
        usize::MAX as int
    } else {
        samples
    }
}

/// The length of a delay line in samples.
pub fn delay_line_capacity(rate: u32, channels: usize) -> (samples: usize)
    ensures
        samples == delay_capacity(rate, channels),
{
    let rate: u32 = if rate == 0 {
        1
    } else {
        rate
    };
    let frames: u64 = as_single_precision(rate) / 2;
    let width: usize = if channels == 0 {
        1
    } else {
        channels
    };
    assert(frames as u128 * width as u128 <= 0x1_0000_0100 * 0x1_0000_0000_0000_0000)
        by (nonlinear_arith)
        requires
            frames <= 0x1_0000_0100,
            width <= 0x1_0000_0000_0000_0000,
    ;
    let total: u128 = frames as u128 * width as u128;
    assert(total == frames * width);
    if total < 1 {
        1
    } else if total > usize::MAX as u128 {
        usize::MAX
    } else {
        total as usize
    }
}

/// How many frames a change of a control takes at a rate.
pub fn control_ramp_frames(rate: u32) -> (frames: usize)
    ensures
        frames == (if rate * CONTROL_RAMP_MS / 1_000 < 1 {
            1
        } else {
            rate * CONTROL_RAMP_MS / 1_000
        }),
{
    assert(rate * CONTROL_RAMP_MS <= u32::MAX * 10) by (nonlinear_arith)
        requires
            rate <= u32::MAX,
            CONTROL_RAMP_MS == 10,
    ;
    let frames: u64 = rate as u64 * CONTROL_RAMP_MS as u64 / 1_000;
    if frames < 1 {
        1
    } else {
        frames as usize
    }
}

/// The length of the ring of a route in frames.
pub open spec fn ring_frames(quantum_frames: u32) -> int {
    if quantum_frames * 4 < MIN_RING_FRAMES {
        MIN_RING_FRAMES as int
    } else {
        quantum_frames * 4
    }
}

/// The length of the ring of a route in frames.
pub fn ring_capacity_frames(quantum_frames: u32) -> (frames: usize)
    requires
        quantum_frames * 4 <= usize::MAX,
    ensures
        frames == ring_frames(quantum_frames),
{
    let wanted: usize = quantum_frames as usize * 4;
    if wanted < MIN_RING_FRAMES {
        MIN_RING_FRAMES
    } else {
        wanted
    }
}

/// How many frames a route buffers: one or two quanta, and never none.
pub open spec fn target_frames(quantum_frames: u32, target_quanta: u32) -> int {
    let quanta = if target_quanta < 1 {
        1
    } else if target_quanta > MAX_TARGET_QUANTA {
        MAX_TARGET_QUANTA as int
    } else {
        target_quanta as int
    };
    if quantum_frames * quanta < 1 {
        1
    } else {
        quantum_frames * quanta
    }
}

/// How many frames a route buffers.
pub fn corrector_target_frames(quantum_frames: u32, target_quanta: u32) -> (frames: usize)
    requires
        quantum_frames * 2 <= usize::MAX,
    ensures
        frames == target_frames(quantum_frames, target_quanta),
{
    let quanta: usize = if target_quanta < 1 {
        1
    } else if target_quanta > MAX_TARGET_QUANTA {
        MAX_TARGET_QUANTA as usize
    } else {
        target_quanta as usize
    };
    assert(quanta == 1 || quanta == 2);
    assert(quantum_frames * quanta <= quantum_frames * 2) by (nonlinear_arith)
        requires
            quanta <= 2,
    ;
    let frames: usize = quantum_frames as usize * quanta;
    if frames < 1 {
        1
    } else {
        frames
    }
}

/// A route buffers between one and two quanta.
pub proof fn law_buffering_is_one_to_two_quanta(quantum_frames: u32, target_quanta: u32)
    requires
        quantum_frames > 0,
    ensures
        quantum_frames <= target_frames(quantum_frames, target_quanta) <= 2 * quantum_frames,
        target_frames(quantum_frames, target_quanta) <= ring_frames(quantum_frames),
{
    assert(quantum_frames * 1 == quantum_frames && quantum_frames * 2 == 2 * quantum_frames);
}

/// A sample that can be processed: silence in place of what is no finite
/// number.
pub fn sanitize(sample: Scalar) -> (result: Scalar)
    ensures
        result == processable(sample),
        result.finite(),
{
    if sample.is_finite() {
        sample
    } else {
        Scalar::zero()
    }
}

/// A sample, or silence in place of what is no finite number.
pub open spec fn processable(sample: Scalar) -> Scalar {
    if sample.finite() {
        sample
    } else {
        Scalar { bits: 0 }
    }
}

/// The gain of a channel: the first two have one each, the others pass.
pub fn channel_gain(channel: usize, left: Scalar, right: Scalar) -> (gain: Scalar)
    ensures
        gain == (if channel == 0 {
            left
        } else if channel == 1 {
            right
        } else {
            Scalar { bits: crate::scalar::ONE_BITS }
        }),
{
    if channel == 0 {
        left
    } else if channel == 1 {
        right
    } else {
        Scalar::one()
    }
}

/// Where a channel of a route gets its sample from within a source frame.
#[derive(Debug, Clone, Copy, PartialEq, Eq, Structural)]
pub enum FrameTap {
    /// The source is too narrow.
    Silence,
    /// One channel of the source.
    Channel(usize),
    /// The mean of the first two channels of the source.
    Mean,
}

/// Where a channel gets its sample from without a mode: a mono source feeds
/// every channel, a mono destination gets the mean, and otherwise channels keep
/// their places.
pub open spec fn plain_tap(source_channels: int, channel: int, channels: int) -> FrameTap {
    if source_channels == 1 {
        FrameTap::Channel(0)
    } else if channels == 1 {
        FrameTap::Mean
    } else if channel < source_channels {
        FrameTap::Channel(channel as usize)
    } else {
        FrameTap::Silence
    }
}

/// Where a channel gets its sample from in a mode.
pub open spec fn mode_tap(
    mode: ChannelMode,
    source_channels: int,
    channel: int,
    channels: int,
) -> FrameTap {
    match mode {
        ChannelMode::Mono if source_channels > 1 => FrameTap::Mean,
        ChannelMode::Left => FrameTap::Channel(0),
        ChannelMode::Right if source_channels > 1 => FrameTap::Channel(1),
        ChannelMode::Swap if source_channels > 1 && channels > 1 => FrameTap::Channel(
            if channel == 0 {
                1
            } else {
                0
            },
        ),
        _ => plain_tap(source_channels, channel, channels),
    }
}

/// What a tap picks out of a stereo frame with a mean.
pub open spec fn picked(tap: FrameTap, left: Scalar, right: Scalar, mean: Scalar) -> Scalar {
    match tap {
        FrameTap::Channel(0) => left,
        FrameTap::Channel(_) => right,
        FrameTap::Mean => mean,
        FrameTap::Silence => Scalar { bits: 0 },
    }
}

/// Between a stereo source and a stereo bus each mode takes its sides: `Swap`
/// takes for each side what `Stereo` takes for the other, `Stereo` and `Auto`
/// keep the sides, `Left` and `Right` take one source channel for both, and
/// `Mono` takes the mean for both.
pub proof fn law_modes_take_their_sides(channel: int)
    requires
        0 <= channel < 2,
    ensures
        mode_tap(ChannelMode::Swap, 2, channel, 2) == mode_tap(
            ChannelMode::Stereo,
            2,
            1 - channel,
            2,
        ),
        mode_tap(ChannelMode::Swap, 2, channel, 2) == FrameTap::Channel((1 - channel) as usize),
        mode_tap(ChannelMode::Stereo, 2, channel, 2) == FrameTap::Channel(channel as usize),
        mode_tap(ChannelMode::Auto, 2, channel, 2) == FrameTap::Channel(channel as usize),
        mode_tap(ChannelMode::Left, 2, channel, 2) == FrameTap::Channel(0),
        mode_tap(ChannelMode::Right, 2, channel, 2) == FrameTap::Channel(1),
        mode_tap(ChannelMode::Mono, 2, channel, 2) == FrameTap::Mean,
{
}

/// A mode means the same on the way into a route as on the way out of a bus: the
/// pair that the taps of the two sides pick out of a frame is the frame in that
/// mode.
pub proof fn law_a_mode_is_the_same_on_both_ways(
    mode: ChannelMode,
    left: Scalar,
    right: Scalar,
    mean: Scalar,
)
    ensures
        mapped_pair(mode, left, right, mean) == (
            picked(mode_tap(mode, 2, 0, 2), left, right, mean),
            picked(mode_tap(mode, 2, 1, 2), left, right, mean),
        ),
        mode == ChannelMode::Swap ==> mapped_pair(mode, left, right, mean) == (right, left),
        mode == ChannelMode::Left ==> mapped_pair(mode, left, right, mean) == (left, left),
        mode == ChannelMode::Right ==> mapped_pair(mode, left, right, mean) == (right, right),
        mode == ChannelMode::Mono ==> mapped_pair(mode, left, right, mean) == (mean, mean),
        mode == ChannelMode::Auto || mode == ChannelMode::Stereo ==> mapped_pair(
            mode,
            left,
            right,
            mean,
        ) == (left, right),
{
}

/// A source of one channel is heard on every channel of a bus in every mode, a
/// bus of one channel hears a wide source in its mean unless the mode picks a
/// side, and a channel without a counterpart in the source is silent unless the
/// mode fills it.
pub proof fn law_layouts_are_matched(
    mode: ChannelMode,
    source_channels: int,
    channel: int,
    channels: int,
)
    requires
        1 <= source_channels,
        0 <= channel < channels,
        channel <= usize::MAX,
    ensures
        source_channels == 1 ==> mode_tap(mode, source_channels, channel, channels)
            == FrameTap::Channel(0),
        source_channels > 1 && channels == 1 && mode != ChannelMode::Left && mode
            != ChannelMode::Right ==> mode_tap(mode, source_channels, channel, channels)
            == FrameTap::Mean,
        source_channels > 1 && channels > 1 && (mode == ChannelMode::Auto || mode
            == ChannelMode::Stereo) ==> (mode_tap(mode, source_channels, channel, channels)
            == if channel < source_channels {
            FrameTap::Channel(channel as usize)
        } else {
            FrameTap::Silence
        }),
{
}

/// Where a channel of a route gets its sample from.
pub fn capture_mode_frame(
    mode: ChannelMode,
    source_channels: usize,
    channel: usize,
    channels: usize,
) -> (tap: FrameTap)
    requires
        source_channels > 0,
    ensures
        tap == mode_tap(mode, source_channels as int, channel as int, channels as int),
        tap matches FrameTap::Channel(at) ==> at < source_channels,
        tap is Mean ==> source_channels >= 2,
        source_channels == 1 ==> tap == FrameTap::Channel(0),
        mode == ChannelMode::Left ==> tap == FrameTap::Channel(0),
        mode == ChannelMode::Right && source_channels > 1 ==> tap == FrameTap::Channel(1),
        mode == ChannelMode::Mono && source_channels > 1 ==> tap == FrameTap::Mean,
        mode == ChannelMode::Swap && source_channels > 1 && channels > 1 && channel == 0 ==> tap
            == FrameTap::Channel(1),
        mode == ChannelMode::Swap && source_channels > 1 && channels > 1 && channel > 0 ==> tap
            == FrameTap::Channel(0),
        (mode == ChannelMode::Auto || mode == ChannelMode::Stereo) && source_channels > 1
            && channels != 1 && channel < source_channels ==> tap == FrameTap::Channel(channel),
        (mode == ChannelMode::Auto || mode == ChannelMode::Stereo) && source_channels > 1
            && channels != 1 && channel >= source_channels ==> tap == FrameTap::Silence,
        (mode == ChannelMode::Auto || mode == ChannelMode::Stereo || mode == ChannelMode::Swap)
            && source_channels > 1 && channels == 1 ==> tap == FrameTap::Mean,
{
    if mode == ChannelMode::Mono && source_channels > 1 {
        return FrameTap::Mean;
    }
    if mode == ChannelMode::Left {
        return FrameTap::Channel(0);
    }
    if mode == ChannelMode::Right && source_channels > 1 {
        return FrameTap::Channel(1);
    }
    if mode == ChannelMode::Swap && source_channels > 1 && channels > 1 {
        return FrameTap::Channel(
            if channel == 0 {
                1
            } else {
                0
            },
        );
    }
    if source_channels == 1 {
        FrameTap::Channel(0)
    } else if channels == 1 {
        FrameTap::Mean
    } else if channel < source_channels {
        FrameTap::Channel(channel)
    } else {
        FrameTap::Silence
    }
}

/// A pair of samples in a mode; `mean` is their mean.
pub open spec fn mapped_pair(
    mode: ChannelMode,
    left: Scalar,
    right: Scalar,
    mean: Scalar,
) -> (Scalar, Scalar) {
    match mode {
        ChannelMode::Mono => (mean, mean),
        ChannelMode::Left => (left, left),
        ChannelMode::Right => (right, right),
        ChannelMode::Swap => (right, left),
        ChannelMode::Auto | ChannelMode::Stereo => (left, right),
    }
}

/// A pair of samples in a mode; `mean` is their mean.
pub fn mode_map(mode: ChannelMode, left: Scalar, right: Scalar, mean: Scalar) -> (pair: (
    Scalar,
    Scalar,
))
    ensures
        pair == mapped_pair(mode, left, right, mean),
        mode == ChannelMode::Swap ==> pair == (right, left),
        mode == ChannelMode::Left ==> pair == (left, left),
        mode == ChannelMode::Right ==> pair == (right, right),
        mode == ChannelMode::Mono ==> pair == (mean, mean),
        mode == ChannelMode::Auto || mode == ChannelMode::Stereo ==> pair == (left, right),
{
    match mode {
        ChannelMode::Mono => (mean, mean),
        ChannelMode::Left => (left, left),
        ChannelMode::Right => (right, right),
        ChannelMode::Swap => (right, left),
        ChannelMode::Auto => (left, right),
        ChannelMode::Stereo => (left, right),
    }
}

/// Swapping the sides twice changes nothing.
pub proof fn law_swapping_twice_is_nothing(
    left: Scalar,
    right: Scalar,
    first_mean: Scalar,
    second_mean: Scalar,
)
    ensures
        ({
            let once = mapped_pair(ChannelMode::Swap, left, right, first_mean);
            mapped_pair(ChannelMode::Swap, once.0, once.1, second_mean) == (left, right)
        }),
{
}

/// A block of stereo frames in a mode. A sample after the last whole frame
/// stays.
pub open spec fn reshaped(mode: ChannelMode, samples: Seq<Scalar>, means: Seq<Scalar>) -> Seq<
    Scalar,
> {
    Seq::new(
        samples.len(),
        |i: int|
            {
                let frame = i / 2;
                if 2 * frame + 1 >= samples.len() {
                    samples[i]
                } else {
                    let pair = mapped_pair(
                        mode,
                        samples[2 * frame],
                        samples[2 * frame + 1],
                        means[frame],
                    );
                    if i % 2 == 0 {
                        pair.0
                    } else {
                        pair.1
                    }
                }
            },
    )
}

/// Puts a block of frames into a mode. Only stereo has modes. `means` has the
/// mean of each frame.
pub fn apply_output_mode(
    mode: ChannelMode,
    samples: &mut Vec<Scalar>,
    channels: usize,
    means: &Vec<Scalar>,
)
    requires
        means@.len() >= old(samples)@.len() / 2,
    ensures
        final(samples)@ == (if channels != 2 || mode == ChannelMode::Auto || mode
            == ChannelMode::Stereo {
            old(samples)@
        } else {
            reshaped(mode, old(samples)@, means@)
        }),
{
    if channels != 2 || mode == ChannelMode::Auto || mode == ChannelMode::Stereo {
        return;
    }
    let ghost before = samples@;
    let total: usize = samples.len();
    let count: usize = total / 2;
    let mut frame: usize = 0;
    while frame < count
        invariant
            frame <= count,
            total == before.len(),
            count == before.len() / 2,
            samples@.len() == before.len(),
            means@.len() >= count,
            forall|i: int|
                0 <= i < before.len() ==> (#[trigger] samples@[i]) == (if i < 2 * frame {
                    reshaped(mode, before, means@)[i]
                } else {
                    before[i]
                }),
        decreases count - frame,
    {
        let left = samples[2 * frame];
        let right = samples[2 * frame + 1];
        let (new_left, new_right) = mode_map(mode, left, right, means[frame]);
        assert((2 * frame) / 2 == frame && (2 * frame + 1) / 2 == frame);
        samples.set(2 * frame, new_left);
        samples.set(2 * frame + 1, new_right);
        frame = frame + 1;
    }
    proof {
        assert forall|i: int| 0 <= i < before.len() implies (#[trigger] samples@[i]) == reshaped(
            mode,
            before,
            means@,
        )[i] by {
            if i >= 2 * count {
                assert(2 * (i / 2) + 1 >= before.len());
            }
        }
        assert(samples@ =~= reshaped(mode, before, means@));
    }
}

/// A ring buffer of samples that delays a stream.
pub struct DelayState {
    pub line: Seq<Scalar>,
    pub write: int,
}

impl DelayState {
    /// The line after one more sample.
    pub open spec fn stored(self, sample: Scalar) -> DelayState {
        DelayState {
            line: self.line.update(self.write, sample),
            write: (self.write + 1) % self.line.len() as int,
        }
    }

    /// The line after more samples.
    pub open spec fn stored_all(self, samples: Seq<Scalar>) -> DelayState
        decreases samples.len(),
    {
        if samples.len() == 0 {
            self
        } else {
            self.stored_all(samples.drop_last()).stored(samples.last())
        }
    }

    pub open spec fn wf(self) -> bool {
        0 <= self.write < self.line.len()
    }
}

/// What comes out of a delay line for a sample.
pub open spec fn delayed(state: DelayState, sample: Scalar, offset: int) -> Scalar {
    if offset == 0 {
        sample
    } else {
        state.line[(state.write + state.line.len() - offset) % state.line.len() as int]
    }
}

/// Puts a sample through the delay line. Without a delay the line is left
/// alone.
pub fn apply_sync_offset(
    sample: Scalar,
    delay_line: &mut Vec<Scalar>,
    write: &mut usize,
    offset_samples: usize,
) -> (result: Scalar)
    requires
        *old(write) < old(delay_line)@.len(),
        *old(write) + old(delay_line)@.len() <= usize::MAX,
        offset_samples <= *old(write) + old(delay_line)@.len(),
    ensures
        ({
            let before = DelayState { line: old(delay_line)@, write: *old(write) as int };
            let after = DelayState { line: final(delay_line)@, write: *final(write) as int };
            &&& result == delayed(before, sample, offset_samples as int)
            &&& after == (if offset_samples == 0 {
                before
            } else {
                before.stored(sample)
            })
            &&& after.wf()
        }),
{
    if offset_samples == 0 {
        return sample;
    }
    let len: usize = delay_line.len();
    let at: usize = *write;
    let read: usize = (at + len - offset_samples) % len;
    let delayed = delay_line[read];
    delay_line.set(at, sample);
    *write = (at + 1) % len;
    delayed
}

proof fn lemma_stored_all(state: DelayState, samples: Seq<Scalar>)
    requires
        state.wf(),
    ensures
        state.stored_all(samples).wf(),
        state.stored_all(samples).line.len() == state.line.len(),
        state.stored_all(samples).write == (state.write + samples.len())
            % state.line.len() as int,
        forall|back: int|
            1 <= back <= samples.len() && back <= state.line.len() ==> #[trigger] state.stored_all(
                samples,
            ).line[(state.write + samples.len() - back) % state.line.len() as int]
                == samples[samples.len() - back],
    decreases samples.len(),
{
    let len = state.line.len() as int;
    if samples.len() == 0 {
        assert(state.write % len == state.write) by (nonlinear_arith)
            requires
                0 <= state.write < len,
        ;
    } else {
        let rest = samples.drop_last();
        lemma_stored_all(state, rest);
        let before = state.stored_all(rest);
        let after = state.stored_all(samples);
        let sum = state.write + rest.len();
        assert((sum % len + 1) % len == (sum + 1) % len) by {
            vstd::arithmetic::div_mod::lemma_add_mod_noop(sum, 1, len);
            vstd::arithmetic::div_mod::lemma_mod_twice(sum, len);
            vstd::arithmetic::div_mod::lemma_add_mod_noop(sum % len, 1, len);
        }
        assert forall|back: int|
            1 <= back <= samples.len() && back <= len implies #[trigger] after.line[(state.write
            + samples.len() - back) % len] == samples[samples.len() - back] by {
            let place = (state.write + samples.len() - back) % len;
            if back == 1 {
                assert(place == before.write);
                assert(0 <= before.write < before.line.len());
                assert(after.line[place] == samples.last());
            } else {
                assert(state.write + samples.len() - back == sum - (back - 1));
                assert(place != before.write) by {
                    lemma_different_places(sum, back - 1, len);
                }
                assert(before.line[(state.write + rest.len() - (back - 1)) % len] == rest[rest.len()
                    - (back - 1)]);
                assert(rest[rest.len() - (back - 1)] == samples[samples.len() - back]);
            }
        }
    }
}

proof fn lemma_different_places(sum: int, distance: int, len: int)
    requires
        0 < distance < len,
    ensures
        (sum - distance) % len != sum % len,
{
    if (sum - distance) % len == sum % len {
        vstd::arithmetic::div_mod::lemma_fundamental_div_mod(sum, len);
        vstd::arithmetic::div_mod::lemma_fundamental_div_mod(sum - distance, len);
        let first = sum / len;
        let second = (sum - distance) / len;
        assert(distance == len * first - len * second);
        assert(len * first - len * second == len * (first - second)) by (nonlinear_arith);
        assert(false) by (nonlinear_arith)
            requires
                0 < distance < len,
                distance == len * (first - second),
        ;
    }
}

/// A delay line gives back the sample that went in as many samples earlier as
/// the delay is long, up to its whole length.
pub proof fn law_delay_is_exact(
    state: DelayState,
    earlier: Seq<Scalar>,
    sample: Scalar,
    offset: int,
)
    requires
        state.wf(),
        0 < offset <= state.line.len(),
        offset <= earlier.len(),
    ensures
        delayed(state.stored_all(earlier), sample, offset) == earlier[earlier.len() - offset],
{
    lemma_stored_all(state, earlier);
    let now = state.stored_all(earlier);
    let len = state.line.len() as int;
    let sum = state.write + earlier.len();
    assert((now.write + len - offset) % len == (sum - offset) % len) by {
        vstd::arithmetic::div_mod::lemma_mod_add_multiples_vanish(now.write - offset, len);
        vstd::arithmetic::div_mod::lemma_sub_mod_noop(sum, offset, len);
        vstd::arithmetic::div_mod::lemma_sub_mod_noop(sum % len, offset, len);
        vstd::arithmetic::div_mod::lemma_mod_twice(sum, len);
    }
    assert(now.line[(state.write + earlier.len() - offset) % len] == earlier[earlier.len()
        - offset]);
}

/// The samples by which a stream is delayed: whole frames, no more than the
/// delay line holds.
pub open spec fn whole_offset(delay_frames: int, channels: int, line: int) -> int {
    if channels == 0 {
        0
    } else if delay_frames > line / channels {
        line / channels * channels
    } else {
        delay_frames * channels
    }
}

/// The samples by which a stream is delayed.
pub fn offset_samples(delay_frames: u32, channels: usize, line: usize) -> (samples: usize)
    ensures
        samples == whole_offset(delay_frames as int, channels as int, line as int),
        samples <= line,
{
    if channels == 0 {
        return 0;
    }
    let longest: usize = line / channels;
    assert(longest * channels <= line) by (nonlinear_arith)
        requires
            longest == line as int / channels as int,
            channels > 0,
    ;
    if delay_frames as u64 > longest as u64 {
        longest * channels
    } else {
        assert(delay_frames * channels <= longest * channels) by (nonlinear_arith)
            requires
                delay_frames <= longest,
        ;
        delay_frames as usize * channels
    }
}

/// The delay line of a stream holds every delay up to half a second, and not
/// more than that: none of them is cut short.
pub proof fn law_the_line_holds_every_delay(rate: u32, channels: usize, delay_frames: int)
    requires
        channels > 0,
        longest_delay(rate) * channels <= usize::MAX,
        0 <= delay_frames <= longest_delay(rate),
    ensures
        delay_capacity(rate, channels) >= 1,
        delay_capacity(rate, channels) >= delay_frames * channels,
        delay_capacity(rate, channels) == (if longest_delay(rate) * channels < 1 {
            1
        } else {
            longest_delay(rate) * channels
        }),
        whole_offset(delay_frames, channels as int, delay_capacity(rate, channels)) == delay_frames
            * channels,
{
    let longest = longest_delay(rate);
    let line = delay_capacity(rate, channels);
    assert(delay_frames * channels <= longest * channels) by (nonlinear_arith)
        requires
            delay_frames <= longest,
    ;
    assert(longest * channels >= 0) by (nonlinear_arith)
        requires
            longest >= 0,
    ;
    assert(line / channels as int >= delay_frames) by (nonlinear_arith)
        requires
            line >= delay_frames * channels,
            channels > 0,
            delay_frames >= 0,
    ;
}

/// Takes up new filter coefficients, where they changed, and keeps the state
/// of the filters.
pub fn refresh_eq(
    eqs: &mut Vec<ChannelEq>,
    current: &mut EqCoefficients,
    published: &EqCoefficients,
)
    ensures
        *final(current) == *published,
        final(eqs)@.len() == old(eqs)@.len(),
        forall|i: int|
            0 <= i < old(eqs)@.len() ==> (#[trigger] final(eqs)@[i]) == (if *published == *old(
                current,
            ) {
                old(eqs)@[i]
            } else {
                old(eqs)@[i].retuned(*published)
            }),
{
    if *published == *current {
        return;
    }
    let mut at: usize = 0;
    while at < eqs.len()
        invariant
            at <= eqs@.len() == old(eqs)@.len(),
            *current == *old(current),
            *published != *current,
            forall|i: int|
                0 <= i < eqs@.len() ==> (#[trigger] eqs@[i]) == (if i < at {
                    old(eqs)@[i].retuned(*published)
                } else {
                    old(eqs)@[i]
                }),
        decreases eqs@.len() - at,
    {
        let mut eq = eqs[at];
        eq.retune(published);
        eqs.set(at, eq);
        at = at + 1;
    }
    *current = *published;
}

/// The frames of the next pass over a block.
pub fn next_chunk(total_frames: usize, first_frame: usize) -> (frames: usize)
    requires
        first_frame < total_frames,
    ensures
        frames == (if total_frames - first_frame < MAX_BLOCK_FRAMES {
            total_frames - first_frame
        } else {
            MAX_BLOCK_FRAMES as int
        }),
        0 < frames <= total_frames - first_frame,
{
    if total_frames - first_frame < MAX_BLOCK_FRAMES {
        total_frames - first_frame
    } else {
        MAX_BLOCK_FRAMES
    }
}

/// A sample that is a finite number is processed as it is, and any other one as
/// silence.
pub proof fn law_only_finite_samples_are_processed(sample: Scalar)
    ensures
        sample.finite() ==> processable(sample) == sample,
        !sample.finite() ==> processable(sample).bits == 0,
{
}

/// In a block of stereo frames each mode takes the sides of every frame from that
/// frame alone, and a sample after the last whole frame stays.
pub proof fn law_every_frame_is_reshaped_by_itself(
    mode: ChannelMode,
    samples: Seq<Scalar>,
    means: Seq<Scalar>,
    frame: int,
)
    requires
        0 <= frame,
        2 * frame < samples.len(),
    ensures
        reshaped(mode, samples, means).len() == samples.len(),
        2 * frame + 1 == samples.len() ==> reshaped(mode, samples, means)[2 * frame]
            == samples[2 * frame],
        2 * frame + 1 < samples.len() ==> {
            let left = reshaped(mode, samples, means)[2 * frame];
            let right = reshaped(mode, samples, means)[2 * frame + 1];
            &&& mode == ChannelMode::Swap ==> left == samples[2 * frame + 1] && right
                == samples[2 * frame]
            &&& mode == ChannelMode::Left ==> left == samples[2 * frame] && right
                == samples[2 * frame]
            &&& mode == ChannelMode::Right ==> left == samples[2 * frame + 1] && right
                == samples[2 * frame + 1]
            &&& mode == ChannelMode::Mono ==> left == means[frame] && right == means[frame]
            &&& mode == ChannelMode::Stereo || mode == ChannelMode::Auto ==> left
                == samples[2 * frame] && right == samples[2 * frame + 1]
        },
{
}

/// A ring has room for four quanta and is never smaller than the smallest ring,
/// and a route buffers the quanta that were asked for between one and two.
pub proof fn law_rings_hold_four_quanta(quantum_frames: u32, target_quanta: u32)
    ensures
        ring_frames(quantum_frames) >= 4 * quantum_frames,
        ring_frames(quantum_frames) >= 16_384,
        ring_frames(quantum_frames) == 4 * quantum_frames || ring_frames(quantum_frames)
            == 16_384,
        quantum_frames > 0 && target_quanta <= 1 ==> target_frames(quantum_frames, target_quanta)
            == quantum_frames,
        quantum_frames > 0 && target_quanta >= 2 ==> target_frames(quantum_frames, target_quanta)
            == 2 * quantum_frames,
        quantum_frames == 0 ==> target_frames(quantum_frames, target_quanta) == 1,
{
    let quantum = quantum_frames as int;
    assert(quantum * 1 == quantum && quantum * 2 == 2 * quantum) by (nonlinear_arith);
    if target_quanta >= 2 {
        assert(MAX_TARGET_QUANTA as int == 2);
    }
}

/// A rate of up to 24 binary digits is exact, so its longest delay is half a
/// second of frames; a larger one is rounded by no more than half of what its
/// last digit is worth.
pub proof fn law_the_longest_delay_is_half_a_second(rate: u32)
    requires
        rate > 0,
    ensures
        rate <= 0x100_0000 ==> longest_delay(rate) == rate as int / 2,
        longest_delay(rate) <= (rate + 128) / 2,
        longest_delay(rate) >= (rate - 128) / 2,
{
}

/// A delay is whole frames: as many as were asked for, or as many as the line
/// holds where it holds fewer.
pub proof fn law_a_delay_is_whole_frames(delay_frames: int, channels: int, line: int)
    requires
        0 <= delay_frames,
        0 < channels,
        0 <= line,
    ensures
        delay_frames <= line / channels ==> whole_offset(delay_frames, channels, line)
            == delay_frames * channels,
        delay_frames > line / channels ==> whole_offset(delay_frames, channels, line) == (line
            / channels) * channels,
{
}

} // verus!
