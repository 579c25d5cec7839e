//! The shapes of blocks and how they are checked.
use vstd::prelude::*;

use super::error::DspError;
use crate::scalar::Scalar;

verus! {

/// No stream has more channels than this. Block processors are mono or stereo.
pub const MAX_CHANNELS: usize = 64;

#[derive(Debug, Clone, Copy, PartialEq, Eq, Structural)]
pub struct ProcessConfig {
    sample_rate: u32,
    max_block_size: usize,
    channel_count: usize,
}

impl ProcessConfig {
    pub closed spec fn rate(self) -> u32 {
        self.sample_rate
    }

    pub closed spec fn block_size(self) -> usize {
        self.max_block_size
    }

    pub closed spec fn width(self) -> usize {
        self.channel_count
    }

    #[verifier::type_invariant]
    spec fn wf(self) -> bool {
        &&& self.sample_rate > 0
        &&& self.max_block_size > 0
        &&& 1 <= self.channel_count <= 2
    }

    pub fn new(sample_rate: u32, max_block_size: usize, channel_count: usize) -> (result: Result<
        Self,
        DspError,
    >)
        ensures
            match result {
                Ok(config) => {
                    &&& sample_rate > 0
                    &&& max_block_size > 0
                    &&& 1 <= channel_count <= 2
                    &&& config.rate() == sample_rate
                    &&& config.block_size() == max_block_size
                    &&& config.width() == channel_count
                },
                Err(error) => error == (if sample_rate == 0 {
                    DspError::InvalidSampleRate(sample_rate)
                } else if max_block_size == 0 {
                    DspError::InvalidMaxBlockSize(max_block_size)
                } else {
                    DspError::InvalidChannelCount(channel_count)
                }) && (sample_rate == 0 || max_block_size == 0 || !(1 <= channel_count <= 2)),
            },
    {
        if sample_rate == 0 {
            return Err(DspError::InvalidSampleRate(sample_rate));
        }
        if max_block_size == 0 {
            return Err(DspError::InvalidMaxBlockSize(max_block_size));
        }
        if channel_count < 1 || channel_count > 2 {
            return Err(DspError::InvalidChannelCount(channel_count));
        }
        Ok(ProcessConfig { sample_rate, max_block_size, channel_count })
    }

    pub fn sample_rate(self) -> (rate: u32)
        ensures
            rate == self.rate(),
            rate > 0,
    {
        proof {
            use_type_invariant(self);
        }
        self.sample_rate
    }

    pub fn max_block_size(self) -> (size: usize)
        ensures
            size == self.block_size(),
            size > 0,
    {
        proof {
            use_type_invariant(self);
        }
        self.max_block_size
    }

    pub fn channel_count(self) -> (count: usize)
        ensures
            count == self.width(),
            1 <= count <= 2,
    {
        proof {
            use_type_invariant(self);
        }
        self.channel_count
    }

    /// Whether two configurations are the same.
    pub fn same(self, other: Self) -> (same: bool)
        ensures
            same == (self == other),
    {
        self == other
    }
}

#[derive(Debug, Clone, Copy, PartialEq, Eq, Structural)]
pub struct ProcessContext {
    config: ProcessConfig,
    frames: usize,
    frame_position: u64,
}

impl ProcessContext {
    pub closed spec fn configuration(self) -> ProcessConfig {
        self.config
    }

    pub closed spec fn length(self) -> usize {
        self.frames
    }

    pub closed spec fn position(self) -> u64 {
        self.frame_position
    }

    #[verifier::type_invariant]
    spec fn wf(self) -> bool {
        self.frames <= self.config.block_size()
    }

    pub fn new(config: ProcessConfig, frames: usize, frame_position: u64) -> (result: Result<
        Self,
        DspError,
    >)
        ensures
            match result {
                Ok(context) => {
                    &&& frames <= config.block_size()
                    &&& context.configuration() == config
                    &&& context.length() == frames
                    &&& context.position() == frame_position
                },
                Err(error) => frames > config.block_size() && error == (DspError::BlockTooLarge {
                    frames,
                    max_frames: config.block_size(),
                }),
            },
    {
        let max_frames: usize = config.max_block_size();
        if frames > max_frames {
            return Err(DspError::BlockTooLarge { frames, max_frames });
        }
        Ok(ProcessContext { config, frames, frame_position })
    }

    pub fn config(self) -> (config: ProcessConfig)
        ensures
            config == self.configuration(),
    {
        self.config
    }

    pub fn frames(self) -> (frames: usize)
        ensures
            frames == self.length(),
            frames <= self.configuration().block_size(),
    {
        proof {
            use_type_invariant(self);
        }
        self.frames
    }

    pub fn frame_position(self) -> (position: u64)
        ensures
            position == self.position(),
    {
        self.frame_position
    }
}

/// One or two channels of equally many samples.
#[derive(Debug)]
pub struct AudioBuffer {
    channels: Vec<Vec<Scalar>>,
}

/// The first channel whose length differs from that of the first.
pub open spec fn first_uneven(channels: Seq<Seq<Scalar>>, at: int) -> bool {
    &&& 0 <= at < channels.len()
    &&& channels[at].len() != channels[0].len()
    &&& forall|i: int| 0 <= i < at ==> (#[trigger] channels[i]).len() == channels[0].len()
}

impl View for AudioBuffer {
    type V = Seq<Seq<Scalar>>;

    closed spec fn view(&self) -> Seq<Seq<Scalar>> {
        Seq::new(self.channels@.len(), |i: int| self.channels@[i]@)
    }
}

/// The samples of channels.
pub open spec fn samples_of(channels: Seq<Vec<Scalar>>) -> Seq<Seq<Scalar>> {
    Seq::new(channels.len(), |i: int| channels[i]@)
}

impl AudioBuffer {
    /// The channels are one or two, and equally long.
    pub open spec fn wf(self) -> bool {
        &&& 1 <= self@.len() <= 2
        &&& forall|i: int|
            0 <= i < self@.len() ==> (#[trigger] self@[i]).len() == self@[0].len()
    }

    pub fn new(channels: Vec<Vec<Scalar>>) -> (result: Result<Self, DspError>)
        ensures
            match result {
                Ok(buffer) => {
                    &&& buffer.wf()
                    &&& buffer@ == samples_of(channels@)
                },
                Err(DspError::InvalidChannelCount(count)) => !(1 <= channels@.len() <= 2) && count
                    == channels@.len(),
                Err(DspError::NonUniformBuffer { expected_frames, channel, actual_frames }) => {
                    &&& 1 <= channels@.len() <= 2
                    &&& first_uneven(samples_of(channels@), channel as int)
                    &&& expected_frames == channels@[0]@.len()
                    &&& actual_frames == channels@[channel as int]@.len()
                },
                Err(_) => false,
            },
    {
        let count: usize = channels.len();
        if count < 1 || count > 2 {
            return Err(DspError::InvalidChannelCount(count));
        }
        let frames: usize = channels[0].len();
        if count == 2 {
            let actual: usize = channels[1].len();
            if actual != frames {
                proof {
                    let all = samples_of(channels@);
                    assert(all[1].len() != all[0].len());
                    assert(first_uneven(all, 1));
                }
                return Err(
                    DspError::NonUniformBuffer {
                        expected_frames: frames,
                        channel: 1,
                        actual_frames: actual,
                    },
                );
            }
        }
        let buffer = AudioBuffer { channels };
        assert(buffer@ =~= samples_of(channels@));
        Ok(buffer)
    }

    pub fn channel_count(&self) -> (count: usize)
        ensures
            count == self@.len(),
    {
        self.channels.len()
    }

    pub fn frames(&self) -> (frames: usize)
        requires
            self.wf(),
        ensures
            frames == self@[0].len(),
    {
        self.channels[0].len()
    }

    pub fn sample(&self, channel: usize, frame: usize) -> (sample: Scalar)
        requires
            channel < self@.len(),
            frame < self@[channel as int].len(),
        ensures
            sample == self@[channel as int][frame as int],
    {
        self.channels[channel][frame]
    }

    pub fn set_sample(&mut self, channel: usize, frame: usize, sample: Scalar)
        requires
            channel < old(self)@.len(),
            frame < old(self)@[channel as int].len(),
        ensures
            final(self)@ == old(self)@.update(
                channel as int,
                old(self)@[channel as int].update(frame as int, sample),
            ),
            old(self).wf() ==> final(self).wf(),
    {
        self.channels[channel][frame] = sample;
        assert(self@ =~= old(self)@.update(
            channel as int,
            old(self)@[channel as int].update(frame as int, sample),
        ));
    }

    /// Makes every sample zero.
    pub fn silence(&mut self)
        requires
            old(self).wf(),
        ensures
            final(self).wf(),
            final(self)@ == silent(old(self)@),
    {
        let count: usize = self.channels.len();
        let frames: usize = self.channels[0].len();
        let mut at: usize = 0;
        let ghost before = self@;
        while at < count
            invariant
                at <= count == before.len() == self.channels@.len(),
                frames == before[0].len(),
                forall|i: int| 0 <= i < count ==> (#[trigger] before[i]).len() == before[0].len(),
                forall|i: int|
                    0 <= i < at ==> (#[trigger] self.channels@[i])@ =~= silent(before)[i],
            decreases count - at,
        {
            self.channels.set(at, zeros(frames));
            assert(before[at as int].len() == frames);
            at = at + 1;
        }
        assert(self@ =~= silent(before));
    }
}

/// Silence of the same shape.
pub open spec fn silent(channels: Seq<Seq<Scalar>>) -> Seq<Seq<Scalar>> {
    Seq::new(
        channels.len(),
        |i: int| Seq::new(channels[i].len(), |_frame: int| Scalar { bits: 0 }),
    )
}

/// As many zeros as asked for.
pub fn zeros(count: usize) -> (samples: Vec<Scalar>)
    ensures
        samples@ == Seq::new(count as nat, |_at: int| Scalar { bits: 0 }),
{
    let mut samples: Vec<Scalar> = Vec::new();
    let mut at: usize = 0;
    while at < count
        invariant
            at <= count,
            samples@.len() == at,
            forall|i: int| 0 <= i < at ==> samples@[i] == (Scalar { bits: 0 }),
        decreases count - at,
    {
        samples.push(Scalar::zero());
        at = at + 1;
    }
    assert(samples@ =~= Seq::new(count as nat, |_at: int| Scalar { bits: 0 }));
    samples
}

/// Why a block cannot be processed, in the order in which it is checked.
pub open spec fn block_fault(
    prepared: Option<ProcessConfig>,
    context: ProcessContext,
    channels: int,
    frames: int,
) -> Option<DspError> {
    match prepared {
        None => Some(DspError::NotPrepared),
        Some(config) => if context.configuration() != config {
            Some(DspError::ConfigurationMismatch)
        } else if channels != config.width() {
            Some(
                DspError::ChannelCountMismatch {
                    expected: config.width(),
                    actual: channels as usize,
                },
            )
        } else if frames != context.length() {
            Some(DspError::FrameCountMismatch { expected: context.length(), actual: frames as usize })
        } else {
            None
        },
    }
}

/// Checks that a block fits what a processor was prepared for.
pub fn validate_process(
    prepared: Option<ProcessConfig>,
    context: &ProcessContext,
    buffer: &AudioBuffer,
) -> (result: Result<ProcessConfig, DspError>)
    requires
        buffer.wf(),
    ensures
        match result {
            Ok(config) => prepared == Some(config) && block_fault(
                prepared,
                *context,
                buffer@.len() as int,
                buffer@[0].len() as int,
            ) is None,
            Err(error) => block_fault(
                prepared,
                *context,
                buffer@.len() as int,
                buffer@[0].len() as int,
            ) == Some(error),
        },
{
    match prepared {
        None => Err(DspError::NotPrepared),
        Some(config) => {
            if !context.config().same(config) {
                return Err(DspError::ConfigurationMismatch);
            }
            let channels: usize = buffer.channel_count();
            if channels != config.channel_count() {
                return Err(
                    DspError::ChannelCountMismatch {
                        expected: config.channel_count(),
                        actual: channels,
                    },
                );
            }
            let frames: usize = buffer.frames();
            if frames != context.frames() {
                return Err(
                    DspError::FrameCountMismatch { expected: context.frames(), actual: frames },
                );
            }
            Ok(config)
        },
    }
}

/// A block is processed exactly where the processor was prepared, the block is
/// for what it was prepared for, and it has as many channels and frames as that
/// says; what is said otherwise names the first of these that does not hold.
pub proof fn law_a_block_fits_what_was_prepared(
    prepared: Option<ProcessConfig>,
    context: ProcessContext,
    channels: int,
    frames: int,
)
    requires
        0 <= channels <= usize::MAX,
        0 <= frames <= usize::MAX,
    ensures
        ({
            let fault = block_fault(prepared, context, channels, frames);
            &&& fault is None <==> prepared == Some(context.configuration()) && channels
                == context.configuration().width() && frames == context.length()
            &&& prepared is None ==> fault == Some(DspError::NotPrepared)
            &&& prepared is Some && prepared->0 != context.configuration() ==> fault == Some(
                DspError::ConfigurationMismatch,
            )
            &&& prepared == Some(context.configuration()) && channels
                != context.configuration().width() ==> fault == Some(
                DspError::ChannelCountMismatch {
                    expected: context.configuration().width(),
                    actual: channels as usize,
                },
            )
            &&& prepared == Some(context.configuration()) && channels
                == context.configuration().width() && frames != context.length() ==> fault == Some(
                DspError::FrameCountMismatch {
                    expected: context.length(),
                    actual: frames as usize,
                },
            )
        }),
{
}

/// Silence has the shape of what it replaces and nothing but zeros.
pub proof fn law_silence_is_zeros(channels: Seq<Seq<Scalar>>, channel: int, frame: int)
    requires
        0 <= channel < channels.len(),
        0 <= frame < channels[channel].len(),
    ensures
        silent(channels).len() == channels.len(),
        silent(channels)[channel].len() == channels[channel].len(),
        silent(channels)[channel][frame].bits == 0,
{
}

/// The channel that is found uneven differs from the first in its length, and
/// every one before it does not.
pub proof fn law_the_first_uneven_channel(channels: Seq<Seq<Scalar>>, at: int, before: int)
    requires
        first_uneven(channels, at),
        0 <= before < at,
    ensures
        at < channels.len(),
        channels[at].len() != channels[0].len(),
        channels[before].len() == channels[0].len(),
{
}

} // verus!
