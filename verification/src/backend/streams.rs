//! The decisions of a PipeWire stream: its liveness, its properties and the
//! layout of its buffers.
//!
//! Times are in milliseconds on a clock that does not run backwards.
use vstd::prelude::*;

use super::pipewire::route_command_error;
use super::pipewire;
use super::properties::Properties;
use super::runtimes::StreamState;
use crate::domain::endpoint::{AudioEndpoint, EndpointType};
use crate::domain::error::{AudioError, ErrorCode};
use crate::domain::ids;
use crate::scalar::Scalar;
use crate::text::{decimal_text, joined, joined3};
use crate::text;

verus! {

/// The size of one sample.
pub const SAMPLE_BYTES: usize = 4;

/// The number under which each stream state is reported.
pub const STREAM_CONNECTING: u32 = 0;

pub const STREAM_CONNECTED: u32 = 1;

pub const STREAM_FAILED: u32 = 2;

pub const STREAM_DISCONNECTED: u32 = 3;

/// How long a stream may do nothing before it counts as stalled.
pub const STALL_AFTER: u64 = 750;

/// How long a new stream is left alone.
pub const STALL_GRACE: u64 = 1_500;

/// How often a stream that does not run is woken.
pub const WAKE_INTERVAL: u64 = 250;

/// The latency hint for a stream: frames over the rate of the stream.
pub fn latency_hint_value(hint_frames: u32, rate: u32) -> (value: String)
    ensures
        value@ == text::decimal(hint_frames as nat) + "/"@ + text::decimal(rate as nat),
{
    let frames = decimal_text(hint_frames as u64);
    let rate = decimal_text(rate as u64);
    joined3(frames.as_str(), "/", rate.as_str())
}

/// The state that the server reports of a stream.
#[derive(Clone, Copy, Debug, PartialEq, Eq, Structural)]
pub enum ServerStreamState {
    Error,
    Unconnected,
    Connecting,
    Paused,
    Streaming,
}

/// The stream state for a state of the server.
pub open spec fn stream_state_of(state: ServerStreamState) -> StreamState {
    match state {
        ServerStreamState::Error => StreamState::Failed,
        ServerStreamState::Unconnected => StreamState::Disconnected,
        ServerStreamState::Connecting | ServerStreamState::Paused => StreamState::Connecting,
        ServerStreamState::Streaming => StreamState::Connected,
    }
}

/// The number of a stream state.
pub open spec fn state_number(state: StreamState) -> u32 {
    match state {
        StreamState::Connecting => STREAM_CONNECTING,
        StreamState::Connected => STREAM_CONNECTED,
        StreamState::Failed => STREAM_FAILED,
        StreamState::Disconnected => STREAM_DISCONNECTED,
    }
}

/// The number under which a state of the server is reported.
pub fn stream_state_code(state: ServerStreamState) -> (code: u32)
    ensures
        code == state_number(stream_state_of(state)),
{
    match state {
        ServerStreamState::Error => STREAM_FAILED,
        ServerStreamState::Unconnected => STREAM_DISCONNECTED,
        ServerStreamState::Connecting => STREAM_CONNECTING,
        ServerStreamState::Paused => STREAM_CONNECTING,
        ServerStreamState::Streaming => STREAM_CONNECTED,
    }
}

/// The stream state under a number; a number that none has counts as
/// connecting.
pub fn stream_state_from_code(code: u32) -> (state: StreamState)
    ensures
        forall|known: StreamState| code == #[trigger] state_number(known) ==> state == known,
        code > 3 ==> state == StreamState::Connecting,
{
    if code == STREAM_CONNECTED {
        StreamState::Connected
    } else if code == STREAM_FAILED {
        StreamState::Failed
    } else if code == STREAM_DISCONNECTED {
        StreamState::Disconnected
    } else {
        StreamState::Connecting
    }
}

/// Whether a stream is to be activated when it enters a state: a paused stream
/// carries no audio.
pub fn wake_paused_stream(state: ServerStreamState) -> (wake: bool)
    ensures
        wake == (state == ServerStreamState::Paused),
{
    state == ServerStreamState::Paused
}

/// What is known of the liveness of a stream.
#[derive(Clone, Copy, Debug, PartialEq, Eq, Structural)]
pub struct StreamHealth {
    pub last_seen: u64,
    pub stalled_since: Option<u64>,
    pub created: u64,
    pub last_wake: u64,
}

impl StreamHealth {
    pub fn new(now: u64) -> (health: Self)
        ensures
            health == (StreamHealth {
                last_seen: 0,
                stalled_since: None,
                created: now,
                last_wake: now,
            }),
    {
        StreamHealth { last_seen: 0, stalled_since: None, created: now, last_wake: now }
    }

    /// The liveness after a look at a stream that has processed `activity`
    /// buffers.
    pub open spec fn looked_at(self, state: StreamState, activity: u64, now: u64) -> Self {
        if now - self.created < STALL_GRACE {
            self
        } else if state != StreamState::Connected {
            StreamHealth { stalled_since: None, ..self }
        } else if activity != self.last_seen {
            StreamHealth { last_seen: activity, stalled_since: None, ..self }
        } else if self.stalled_since is None {
            StreamHealth { stalled_since: Some(now), ..self }
        } else {
            self
        }
    }

    /// Whether a stream says that it runs but processes nothing.
    pub open spec fn stalls(self, state: StreamState, activity: u64, now: u64) -> bool {
        &&& now - self.created >= STALL_GRACE
        &&& state == StreamState::Connected
        &&& activity == self.last_seen
        &&& self.stalled_since matches Some(since) && now - since >= STALL_AFTER
    }

    /// Looks whether a stream says that it runs but processes nothing.
    pub fn is_stalled(&mut self, state: StreamState, activity: u64, now: u64) -> (stalled: bool)
        ensures
            stalled == old(self).stalls(state, activity, now),
            *final(self) == old(self).looked_at(state, activity, now),
    {
        if now < self.created || now - self.created < STALL_GRACE {
            return false;
        }
        if state != StreamState::Connected {
            self.stalled_since = None;
            return false;
        }
        if activity != self.last_seen {
            self.last_seen = activity;
            self.stalled_since = None;
            return false;
        }
        match self.stalled_since {
            Some(since) => now >= since && now - since >= STALL_AFTER,
            None => {
                self.stalled_since = Some(now);
                false
            },
        }
    }

    /// Decides whether a stream that does not run is activated again.
    pub fn ensure_active(&mut self, state: StreamState, now: u64) -> (wake: bool)
        ensures
            wake == (state != StreamState::Connected && now - old(self).last_wake
                >= WAKE_INTERVAL),
            *final(self) == (if wake {
                StreamHealth { last_wake: now, ..*old(self) }
            } else {
                *old(self)
            }),
    {
        if state == StreamState::Connected || now < self.last_wake || now - self.last_wake
            < WAKE_INTERVAL {
            return false;
        }
        self.last_wake = now;
        true
    }
}

/// A stream that processes a buffer between two looks is never reported as
/// stalled by the second.
pub proof fn law_a_working_stream_is_not_stalled(
    health: StreamHealth,
    state: StreamState,
    first: u64,
    second: u64,
    before: u64,
    now: u64,
)
    requires
        first != second,
        before - health.created >= STALL_GRACE,
    ensures
        !health.looked_at(StreamState::Connected, first, before).stalls(state, second, now),
{
}

/// The channels of a stream to an endpoint.
pub fn stream_channel_count(endpoint: &AudioEndpoint) -> (result: Result<usize, AudioError>)
    ensures
        match result {
            Ok(channels) => endpoint.channel_count != 0 && channels == endpoint.channel_count,
            Err(error) => endpoint.channel_count == 0 && error@ == pipewire::route_fault(
                ErrorCode::InvalidRoute,
                "The selected device exposes no audio channels."@,
                "endpoint "@ + ids::hyphenated(endpoint.id.value) + " has zero channels"@,
            ),
        },
{
    if endpoint.channel_count == 0 {
        let id = endpoint.id.to_text();
        Err(
            stream_error(
                "The selected device exposes no audio channels.",
                joined3("endpoint ", id.as_str(), " has zero channels").as_str(),
            ),
        )
    } else {
        Ok(endpoint.channel_count as usize)
    }
}

/// What is said when a stream fails.
pub fn stream_error(user: &str, technical: &str) -> (error: AudioError)
    ensures
        error@ == pipewire::route_fault(ErrorCode::InvalidRoute, user@, technical@),
{
    route_command_error(ErrorCode::InvalidRoute, user, technical)
}

/// What is said when the engine of a stream cannot be made.
pub fn dsp_error(detail: &str) -> (error: AudioError)
    ensures
        error@ == pipewire::route_fault(
            ErrorCode::InvalidRoute,
            "Orion could not start realtime processing for that connection."@,
            "failed to initialize route DSP: "@ + detail@,
        ),
{
    stream_error(
        "Orion could not start realtime processing for that connection.",
        joined("failed to initialize route DSP: ", detail).as_str(),
    )
}

/// The node that a stream is connected to.
pub fn stream_target(endpoint: &AudioEndpoint, capture: bool) -> (result: Result<u32, AudioError>)
    ensures
        match endpoint.runtime_id {
            Some(node) => result == Ok::<u32, AudioError>(node),
            None => {
                &&& result is Err
                &&& result->Err_0@ == pipewire::route_fault(
                    ErrorCode::InvalidRoute,
                    if capture {
                        "The route source is not connected to PipeWire."@
                    } else {
                        "The route destination is not connected to PipeWire."@
                    },
                    (if capture {
                        "source endpoint "@
                    } else {
                        "destination endpoint "@
                    }) + ids::hyphenated(endpoint.id.value) + " has no runtime id"@,
                )
            },
        },
{
    match endpoint.runtime_id {
        Some(node) => Ok(node),
        None => {
            let id = endpoint.id.to_text();
            let lead = if capture {
                "source endpoint "
            } else {
                "destination endpoint "
            };
            Err(
                stream_error(
                    if capture {
                        "The route source is not connected to PipeWire."
                    } else {
                        "The route destination is not connected to PipeWire."
                    },
                    joined3(lead, id.as_str(), " has no runtime id").as_str(),
                ),
            )
        },
    }
}

/// The channel count of a stream as the server takes it, with the rate, which
/// is never zero.
pub fn raw_audio_format(channels: usize, sample_rate: u32) -> (result: Result<(u32, u32), AudioError>)
    ensures
        match result {
            Ok((count, rate)) => {
                &&& channels <= u32::MAX
                &&& count == channels
                &&& rate == (if sample_rate == 0 {
                    1
                } else {
                    sample_rate
                })
            },
            Err(error) => channels > u32::MAX && error@ == pipewire::route_fault(
                ErrorCode::InvalidRoute,
                "The selected device exposes too many audio channels."@,
                "channel count "@ + text::decimal(channels as nat)
                    + " does not fit in PipeWire format"@,
            ),
        },
{
    if channels > u32::MAX as usize {
        let count = decimal_text(channels as u64);
        Err(
            stream_error(
                "The selected device exposes too many audio channels.",
                joined3(
                    "channel count ",
                    count.as_str(),
                    " does not fit in PipeWire format",
                ).as_str(),
            ),
        )
    } else {
        let rate = if sample_rate == 0 {
            1
        } else {
            sample_rate
        };
        Ok((channels as u32, rate))
    }
}

/// The properties that every stream has.
pub open spec fn common_properties(
    category: Seq<char>,
    buffer_frames: u32,
    stream_rate: u32,
) -> Seq<(Seq<char>, Seq<char>)> {
    let fixed = seq![
        ("media.type"@, "Audio"@),
        ("media.category"@, category),
        ("media.role"@, "Production"@),
        ("application.id"@, "io.github.gardun0.orion"@),
        ("application.name"@, "Orion"@),
    ];
    if buffer_frames > 0 {
        fixed.push(
            (
                "node.latency"@,
                text::decimal(buffer_frames as nat) + "/"@ + text::decimal(stream_rate as nat),
            ),
        )
    } else {
        fixed
    }
}

fn stream_properties(category: &str, buffer_frames: u32, stream_rate: u32) -> (props: Properties)
    ensures
        props@ == common_properties(category@, buffer_frames, stream_rate),
{
    let mut props = Properties::new();
    props.add_entry("media.type", "Audio");
    props.add_entry("media.category", category);
    props.add_entry("media.role", "Production");
    props.add_entry("application.id", "io.github.gardun0.orion");
    props.add_entry("application.name", "Orion");
    if buffer_frames > 0 {
        let hint = latency_hint_value(buffer_frames, stream_rate);
        props.add_entry("node.latency", hint.as_str());
    }
    assert(props@ =~= common_properties(category@, buffer_frames, stream_rate));
    props
}

/// The properties of a capture stream. A virtual input is captured where it is
/// played to.
pub fn capture_properties(endpoint: &AudioEndpoint, buffer_frames: u32, stream_rate: u32) -> (props:
    Properties)
    ensures
        ({
            let named = common_properties("Capture"@, buffer_frames, stream_rate).push(
                ("node.name"@, "orion.capture."@ + ids::hyphenated(endpoint.id.value)),
            );
            props@ == (if endpoint.endpoint_type == EndpointType::VirtualInput {
                named.push(("stream.capture.sink"@, "true"@))
            } else {
                named
            })
        }),
{
    let mut props = stream_properties("Capture", buffer_frames, stream_rate);
    let id = endpoint.id.to_text();
    props.add_entry("node.name", joined("orion.capture.", id.as_str()).as_str());
    if endpoint.endpoint_type == EndpointType::VirtualInput {
        props.add_entry("stream.capture.sink", "true");
    }
    props
}

/// The properties of a playback stream.
pub fn playback_properties(endpoint: &AudioEndpoint, buffer_frames: u32, stream_rate: u32) -> (props:
    Properties)
    ensures
        props@ == common_properties("Playback"@, buffer_frames, stream_rate).push(
            ("node.name"@, "orion.playback."@ + ids::hyphenated(endpoint.id.value)),
        ),
{
    let mut props = stream_properties("Playback", buffer_frames, stream_rate);
    let id = endpoint.id.to_text();
    props.add_entry("node.name", joined("orion.playback.", id.as_str()).as_str());
    props
}

/// The pattern in four bytes, the least significant first.
pub open spec fn sample_at(bytes: Seq<u8>, offset: int) -> Scalar {
    Scalar {
        bits: (bytes[offset] + 0x100 * bytes[offset + 1] + 0x1_0000 * bytes[offset + 2]
            + 0x100_0000 * bytes[offset + 3]) as u32,
    }
}

/// Where a sample starts in a buffer.
pub open spec fn sample_offset(frame: int, channel: int, frame_stride: int) -> int {
    frame * frame_stride + channel * SAMPLE_BYTES
}

/// Reads one sample of a buffer with padded frames.
pub fn read_sample(bytes: &[u8], frame: usize, channel: usize, frame_stride: usize) -> (sample:
    Scalar)
    requires
        sample_offset(frame as int, channel as int, frame_stride as int) + SAMPLE_BYTES
            <= bytes@.len(),
    ensures
        sample == sample_at(
            bytes@,
            sample_offset(frame as int, channel as int, frame_stride as int),
        ),
{
    assert(0 <= frame * frame_stride) by (nonlinear_arith)
        requires
            0 <= frame,
            0 <= frame_stride,
    ;
    let len: usize = bytes.len();
    assert(frame * frame_stride <= len);
    assert(channel * SAMPLE_BYTES <= len);
    let offset: usize = frame * frame_stride + channel * SAMPLE_BYTES;
    let low: u32 = bytes[offset] as u32 + 0x100 * bytes[offset + 1] as u32;
    let high: u32 = 0x1_0000 * bytes[offset + 2] as u32 + 0x100_0000 * bytes[offset + 3] as u32;
    Scalar { bits: low + high }
}

/// Writes one sample into a buffer with padded frames.
pub fn write_sample(
    bytes: &mut [u8],
    frame: usize,
    channel: usize,
    frame_stride: usize,
    sample: Scalar,
)
    requires
        sample_offset(frame as int, channel as int, frame_stride as int) + SAMPLE_BYTES <= old(
            bytes)@.len(),
    ensures
        final(bytes)@.len() == old(bytes)@.len(),
        sample_at(
            final(bytes)@,
            sample_offset(frame as int, channel as int, frame_stride as int),
        ) == sample,
        forall|i: int|
            0 <= i < old(bytes)@.len() && !(sample_offset(
                frame as int,
                channel as int,
                frame_stride as int,
            ) <= i < sample_offset(frame as int, channel as int, frame_stride as int)
                + SAMPLE_BYTES) ==> (#[trigger] final(bytes)@[i]) == old(bytes)@[i],
{
    assert(0 <= frame * frame_stride) by (nonlinear_arith)
        requires
            0 <= frame,
            0 <= frame_stride,
    ;
    let len: usize = bytes.len();
    assert(frame * frame_stride <= len);
    assert(channel * SAMPLE_BYTES <= len);
    let offset: usize = frame * frame_stride + channel * SAMPLE_BYTES;
    let bits: u32 = sample.bits;
    let first: u32 = bits % 0x100;
    let second: u32 = bits / 0x100 % 0x100;
    let third: u32 = bits / 0x1_0000 % 0x100;
    let fourth: u32 = bits / 0x100_0000;
    assert(bits == first + 0x100 * second + 0x1_0000 * third + 0x100_0000 * fourth && first < 0x100
        && second < 0x100 && third < 0x100 && fourth < 0x100) by (bit_vector)
        requires
            first == bits % 0x100,
            second == bits / 0x100 % 0x100,
            third == bits / 0x1_0000 % 0x100,
            fourth == bits / 0x100_0000,
    ;
    bytes[offset] = first as u8;
    bytes[offset + 1] = second as u8;
    bytes[offset + 2] = third as u8;
    bytes[offset + 3] = fourth as u8;
}

/// Where the frames of a captured buffer lie.
#[derive(Clone, Copy, Debug, PartialEq, Eq, Structural)]
pub struct CaptureLayout {
    pub start: usize,
    pub end: usize,
    pub frame_stride: usize,
    pub total_frames: usize,
}

/// The distance between frames: the stride of the driver where it is wide
/// enough for a frame, otherwise the frames are packed.
pub open spec fn stride_of(chunk_stride: i32, frame_bytes: int) -> int {
    if chunk_stride > 0 && chunk_stride as int >= frame_bytes {
        chunk_stride as int
    } else {
        frame_bytes
    }
}

/// Finds the frames in a buffer of `len` bytes, of which the server says that
/// `size` bytes from `offset` on hold audio. Nothing where there are no
/// channels.
pub fn capture_layout(len: usize, offset: u32, size: u32, chunk_stride: i32, channels: usize) -> (
layout: Option<CaptureLayout>)
    ensures
        channels == 0 ==> layout is None,
        0 < channels && channels * SAMPLE_BYTES <= usize::MAX ==> layout is Some,
        layout matches Some(layout) ==> {
            let frame_bytes = if channels * SAMPLE_BYTES > usize::MAX {
                usize::MAX as int
            } else {
                channels * SAMPLE_BYTES
            };
            &&& layout.start == (if offset <= len {
                offset as int
            } else {
                len as int
            })
            &&& layout.end == (if layout.start + size <= len {
                layout.start + size
            } else {
                len as int
            })
            &&& layout.frame_stride == stride_of(chunk_stride, frame_bytes)
            &&& layout.frame_stride >= frame_bytes
            &&& layout.total_frames == (layout.end - layout.start) / layout.frame_stride as int
        },
{
    let frame_bytes: usize = if channels > usize::MAX / SAMPLE_BYTES {
        usize::MAX
    } else {
        channels * SAMPLE_BYTES
    };
    if frame_bytes == 0 {
        return None;
    }
    let start: usize = if offset as usize <= len {
        offset as usize
    } else {
        len
    };
    let end: usize = if size as usize <= len - start {
        start + size as usize
    } else {
        len
    };
    let frame_stride: usize = if chunk_stride > 0 && chunk_stride as u32 as usize >= frame_bytes {
        chunk_stride as u32 as usize
    } else {
        frame_bytes
    };
    let total_frames: usize = (end - start) / frame_stride;
    Some(CaptureLayout { start, end, frame_stride, total_frames })
}

/// The samples of some frames, channel after channel.
pub open spec fn block_of(
    bytes: Seq<u8>,
    first_frame: int,
    frames: int,
    channels: int,
    frame_stride: int,
) -> Seq<Scalar> {
    Seq::new(
        (frames * channels) as nat,
        |i: int|
            sample_at(
                bytes,
                sample_offset(first_frame + i / channels, i % channels, frame_stride),
            ),
    )
}

proof fn lemma_sample_fits(
    frame: int,
    channel: int,
    channels: int,
    frame_stride: int,
    total_frames: int,
    len: int,
)
    requires
        0 <= frame < total_frames,
        0 <= channel < channels,
        channels * SAMPLE_BYTES <= frame_stride,
        total_frames * frame_stride <= len,
    ensures
        0 <= sample_offset(frame, channel, frame_stride),
        sample_offset(frame, channel, frame_stride) + SAMPLE_BYTES <= len,
        frame * frame_stride <= len,
{
    assert(frame * frame_stride + frame_stride <= total_frames * frame_stride) by (nonlinear_arith)
        requires
            frame + 1 <= total_frames,
            0 <= frame_stride,
    ;
    assert(0 <= frame * frame_stride) by (nonlinear_arith)
        requires
            0 <= frame,
            0 <= frame_stride,
    ;
}

/// Reads a block of frames out of a buffer. What `samples` held before is
/// dropped; its memory is used again.
pub fn read_block(
    bytes: &[u8],
    first_frame: usize,
    frames: usize,
    channels: usize,
    frame_stride: usize,
    samples: &mut Vec<Scalar>,
)
    requires
        0 < channels,
        channels * SAMPLE_BYTES <= frame_stride,
        (first_frame + frames) * frame_stride <= bytes@.len(),
    ensures
        final(samples)@ == block_of(
            bytes@,
            first_frame as int,
            frames as int,
            channels as int,
            frame_stride as int,
        ),
{
    let len: usize = bytes.len();
    proof {
        assert(frames * channels <= len) by {
            assert(frames * channels <= (first_frame + frames) * frame_stride) by (nonlinear_arith)
                requires
                    0 <= first_frame,
                    0 <= frames,
                    0 < channels,
                    channels * 4 <= frame_stride,
            ;
        }
    }
    let total: usize = frames * channels;
    samples.clear();
    let mut frame: usize = 0;
    let mut channel: usize = 0;
    let mut index: usize = 0;
    while index < total
        invariant
            0 < channels,
            channels * SAMPLE_BYTES <= frame_stride,
            (first_frame + frames) * frame_stride <= bytes@.len(),
            len == bytes@.len(),
            total == frames * channels,
            index <= total,
            frame == index as int / channels as int,
            channel == index as int % channels as int,
            samples@.len() == index,
            forall|i: int|
                0 <= i < index ==> (#[trigger] samples@[i]) == block_of(
                    bytes@,
                    first_frame as int,
                    frames as int,
                    channels as int,
                    frame_stride as int,
                )[i],
        decreases total - index,
    {
        proof {
            assert(frame < frames) by (nonlinear_arith)
                requires
                    frame == index as int / channels as int,
                    index < frames * channels,
                    0 < channels,
            ;
            lemma_sample_fits(
                first_frame + frame,
                channel as int,
                channels as int,
                frame_stride as int,
                first_frame + frames,
                bytes@.len() as int,
            );
            assert(first_frame + frame <= bytes@.len()) by (nonlinear_arith)
                requires
                    first_frame + frame < first_frame + frames,
                    (first_frame + frames) * frame_stride <= bytes@.len(),
                    frame_stride >= 1,
            ;
            assert((index + 1) / channels as int == (if channel + 1 == channels {
                frame + 1
            } else {
                frame as int
            }) && (index + 1) % channels as int == (if channel + 1 == channels {
                0
            } else {
                channel + 1
            })) by (nonlinear_arith)
                requires
                    0 < channels,
                    frame == index as int / channels as int,
                    channel == index as int % channels as int,
            ;
        }
        samples.push(read_sample(bytes, first_frame + frame, channel, frame_stride));
        index = index + 1;
        if channel + 1 == channels {
            channel = 0;
            frame = frame + 1;
        } else {
            channel = channel + 1;
        }
    }
    assert(samples@ =~= block_of(
        bytes@,
        first_frame as int,
        frames as int,
        channels as int,
        frame_stride as int,
    ));
}

/// Writes a block of packed frames into a buffer.
pub fn write_block(bytes: &mut [u8], first_frame: usize, channels: usize, samples: &Vec<Scalar>)
    requires
        0 < channels,
        samples@.len() % channels as nat == 0,
        first_frame * (channels * SAMPLE_BYTES) + samples@.len() * SAMPLE_BYTES <= old(bytes)@.len(),
    ensures
        final(bytes)@.len() == old(bytes)@.len(),
        forall|i: int|
            0 <= i < samples@.len() ==> sample_at(
                final(bytes)@,
                first_frame * (channels * SAMPLE_BYTES) + i * SAMPLE_BYTES,
            ) == (#[trigger] samples@[i]),
        forall|i: int|
            0 <= i < old(bytes)@.len() && !(first_frame * (channels * SAMPLE_BYTES) <= i
                < first_frame * (channels * SAMPLE_BYTES) + samples@.len() * SAMPLE_BYTES)
                ==> (#[trigger] final(bytes)@[i]) == old(bytes)@[i],
{
    let ghost base = first_frame * (channels * SAMPLE_BYTES);
    let len: usize = bytes.len();
    assert(0 <= base) by (nonlinear_arith)
        requires
            base == first_frame * (channels * 4),
            0 <= first_frame,
            0 <= channels,
    ;
    let mut index: usize = 0;
    assert(channels * SAMPLE_BYTES <= usize::MAX || first_frame == 0) by {
        if first_frame > 0 {
            assert(channels * 4 <= first_frame * (channels * 4)) by (nonlinear_arith)
                requires
                    first_frame >= 1,
                    0 <= channels,
            ;
        }
    }
    let start: usize = if first_frame == 0 {
        0
    } else {
        first_frame * (channels * SAMPLE_BYTES)
    };
    assert(start == base) by (nonlinear_arith)
        requires
            base == first_frame * (channels * 4),
            start == (if first_frame == 0 {
                0
            } else {
                first_frame * (channels * 4)
            }),
    ;
    while index < samples.len()
        invariant
            start == base,
            index <= samples@.len(),
            bytes@.len() == old(bytes)@.len(),
            bytes@.len() == len,
            base >= 0,
            base + samples@.len() * SAMPLE_BYTES <= bytes@.len(),
            forall|i: int|
                0 <= i < index ==> sample_at(bytes@, base + i * SAMPLE_BYTES) == (
                #[trigger] samples@[i]),
            forall|i: int|
                0 <= i < bytes@.len() && !(base <= i < base + samples@.len() * SAMPLE_BYTES) ==> (
                #[trigger] bytes@[i]) == old(bytes)@[i],
        decreases samples@.len() - index,
    {
        let ghost before = bytes@;
        let at: usize = start + index * SAMPLE_BYTES;
        assert(sample_offset(1, 0, at as int) == at);
        write_sample(bytes, 1, 0, at, samples[index]);
        proof {
            assert forall|i: int| 0 <= i < index implies sample_at(bytes@, base + i * SAMPLE_BYTES)
                == (#[trigger] samples@[i]) by {
                let place = base + i * SAMPLE_BYTES;
                assert(bytes@[place] == before[place]);
                assert(bytes@[place + 1] == before[place + 1]);
                assert(bytes@[place + 2] == before[place + 2]);
                assert(bytes@[place + 3] == before[place + 3]);
            }
        }
        index = index + 1;
    }
}

/// What a buffer that was filled holds: its frames, the distance between them
/// and the bytes in use.
pub fn playback_layout(len: usize, channels: usize) -> (layout: Option<(usize, usize, usize)>)
    ensures
        match layout {
            Some((total_frames, stride, size)) => {
                &&& 0 < channels
                &&& stride == channels * SAMPLE_BYTES
                &&& total_frames == len as int / stride as int
                &&& 0 < total_frames
                &&& size == total_frames * stride
                &&& size <= len
            },
            None => channels == 0 || (len as int) < channels * SAMPLE_BYTES,
        },
{
    if channels == 0 || channels > usize::MAX / SAMPLE_BYTES {
        return None;
    }
    let stride: usize = channels * SAMPLE_BYTES;
    let total_frames: usize = len / stride;
    if total_frames == 0 {
        assert((len as int) < stride) by (nonlinear_arith)
            requires
                len as int / stride as int == 0,
                0 < stride,
        ;
        return None;
    }
    assert(total_frames * stride <= len) by (nonlinear_arith)
        requires
            total_frames == len as int / stride as int,
            0 < stride,
    ;
    Some((total_frames, stride, total_frames * stride))
}

/// A block that was written into a packed buffer reads back as it was.
pub proof fn law_written_block_reads_back(
    bytes: Seq<u8>,
    first_frame: int,
    frames: int,
    channels: int,
    samples: Seq<Scalar>,
)
    requires
        0 <= first_frame,
        0 <= frames,
        0 < channels,
        samples.len() == frames * channels,
        forall|i: int|
            0 <= i < samples.len() ==> sample_at(
                bytes,
                first_frame * (channels * SAMPLE_BYTES) + i * SAMPLE_BYTES,
            ) == (#[trigger] samples[i]),
    ensures
        block_of(bytes, first_frame, frames, channels, channels * SAMPLE_BYTES) == samples,
{
    let block = block_of(bytes, first_frame, frames, channels, channels * SAMPLE_BYTES);
    assert forall|i: int| 0 <= i < samples.len() implies block[i] == samples[i] by {
        let frame = i / channels;
        let channel = i % channels;
        assert((first_frame + frame) * (channels * 4) + channel * 4 == first_frame * (channels * 4)
            + i * 4) by (nonlinear_arith)
            requires
                frame == i / channels,
                channel == i % channels,
                0 < channels,
        ;
    }
    assert(block =~= samples);
}

/// A stream is connected exactly while the server streams, has failed where
/// the server reports an error, and ends where the server lets it go; the four
/// states have four numbers.
pub proof fn law_server_states_are_stream_states()
    ensures
        stream_state_of(ServerStreamState::Streaming) == StreamState::Connected,
        stream_state_of(ServerStreamState::Connecting) == StreamState::Connecting,
        stream_state_of(ServerStreamState::Paused) == StreamState::Connecting,
        stream_state_of(ServerStreamState::Error) == StreamState::Failed,
        stream_state_of(ServerStreamState::Unconnected) == StreamState::Disconnected,
        state_number(StreamState::Connecting) == 0,
        state_number(StreamState::Connected) == 1,
        state_number(StreamState::Failed) == 2,
        state_number(StreamState::Disconnected) == 3,
{
}

/// The four bytes of a sample are its pattern, the least significant first.
pub proof fn law_samples_are_little_endian(bytes: Seq<u8>, offset: int)
    ensures
        ({
            let bits = sample_at(bytes, offset).bits as int;
            &&& bits % 0x100 == bytes[offset]
            &&& bits / 0x100 % 0x100 == bytes[offset + 1]
            &&& bits / 0x1_0000 % 0x100 == bytes[offset + 2]
            &&& bits / 0x100_0000 == bytes[offset + 3]
        }),
{
}

/// A block holds the channels of one frame side by side and the frames in
/// turn, each from where it lies in the buffer.
pub proof fn law_a_block_is_interleaved(
    bytes: Seq<u8>,
    first_frame: int,
    frames: int,
    channels: int,
    frame_stride: int,
    frame: int,
    channel: int,
)
    requires
        0 <= frame < frames,
        0 <= channel < channels,
    ensures
        frame * channels + channel < frames * channels,
        block_of(bytes, first_frame, frames, channels, frame_stride).len() == frames * channels,
        block_of(bytes, first_frame, frames, channels, frame_stride)[frame * channels + channel]
            == sample_at(bytes, (first_frame + frame) * frame_stride + 4 * channel),
{
    assert(frame * channels + channel < frames * channels) by (nonlinear_arith)
        requires
            0 <= frame < frames,
            0 <= channel < channels,
    ;
    assert(0 <= frame * channels) by (nonlinear_arith)
        requires
            0 <= frame,
            0 < channels,
    ;
    vstd::arithmetic::div_mod::lemma_fundamental_div_mod_converse(
        frame * channels + channel,
        channels,
        frame,
        channel,
    );
}

/// A stream that says it runs and processes nothing is stalled once that has
/// lasted for three quarters of a second, and not before; one that does not
/// run, or is younger than a second and a half, never is.
pub proof fn law_a_stream_stalls_after_its_time(
    health: StreamHealth,
    activity: u64,
    first: u64,
    second: u64,
    state: StreamState,
)
    requires
        first >= health.created + 1_500,
        second >= first,
        health.stalled_since is None,
        health.last_seen == activity,
    ensures
        ({
            let looked = health.looked_at(StreamState::Connected, activity, first);
            &&& looked.stalled_since == Some(first)
            &&& looked.stalls(StreamState::Connected, activity, second) <==> second >= first + 750
            &&& state != StreamState::Connected ==> !looked.stalls(state, activity, second)
            &&& looked.looked_at(StreamState::Connecting, activity, second).stalled_since is None
        }),
        forall|now: u64|
            now < health.created + 1_500 ==> !(#[trigger] health.stalls(state, activity, now)),
{
}

/// Frames lie as far apart as the driver says where a frame fits in there, and
/// side by side otherwise.
pub proof fn law_frames_are_strided_or_packed(chunk_stride: i32, frame_bytes: int)
    requires
        frame_bytes > 0,
    ensures
        chunk_stride >= frame_bytes ==> stride_of(chunk_stride, frame_bytes) == chunk_stride,
        chunk_stride < frame_bytes ==> stride_of(chunk_stride, frame_bytes) == frame_bytes,
{
}

/// Every stream names itself as one of the router, under the category that it
/// has, and asks for the latency of its buffer where it has one.
pub proof fn law_streams_name_the_router(category: Seq<char>, buffer_frames: u32, stream_rate: u32)
    ensures
        ({
            let props = common_properties(category, buffer_frames, stream_rate);
            &&& props[0] == ("media.type"@, "Audio"@)
            &&& props[1] == ("media.category"@, category)
            &&& props[2] == ("media.role"@, "Production"@)
            &&& props[3] == ("application.id"@, "io.github.gardun0.orion"@)
            &&& props[4] == ("application.name"@, "Orion"@)
            &&& props.len() == (if buffer_frames > 0 {
                6int
            } else {
                5
            })
            &&& buffer_frames > 0 ==> props[5] == (
                "node.latency"@,
                text::decimal(buffer_frames as nat) + "/"@ + text::decimal(stream_rate as nat),
            )
        }),
{
}

} // verus!
