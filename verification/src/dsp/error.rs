//! The errors of the processors.
use vstd::prelude::*;

use crate::text::{decimal_text, joined, joined3};
use crate::text;

verus! {

#[derive(Debug, Clone, Copy, PartialEq)]
pub enum DspError {
    InvalidSampleRate(u32),
    InvalidMaxBlockSize(usize),
    InvalidChannelCount(usize),
    NonUniformBuffer { expected_frames: usize, channel: usize, actual_frames: usize },
    BlockTooLarge { frames: usize, max_frames: usize },
    FrameCountMismatch { expected: usize, actual: usize },
    ChannelCountMismatch { expected: usize, actual: usize },
    ConfigurationMismatch,
    NotPrepared,
    InvalidParameter(&'static str),
}

/// What an error says.
pub open spec fn described(error: DspError) -> Seq<char> {
    match error {
        DspError::InvalidSampleRate(rate) => "invalid sample rate: "@ + text::decimal(rate as nat),
        DspError::InvalidMaxBlockSize(size) => "invalid maximum block size: "@ + text::decimal(
            size as nat,
        ),
        DspError::InvalidChannelCount(count) => "invalid channel count: "@ + text::decimal(
            count as nat,
        ),
        DspError::NonUniformBuffer { expected_frames, channel, actual_frames } => "channel "@
            + text::decimal(channel as nat) + " has "@ + text::decimal(actual_frames as nat)
            + " frames, expected "@ + text::decimal(expected_frames as nat),
        DspError::BlockTooLarge { frames, max_frames } => "block has "@ + text::decimal(
            frames as nat,
        ) + " frames, maximum is "@ + text::decimal(max_frames as nat),
        DspError::FrameCountMismatch { expected, actual } => "buffer has "@ + text::decimal(
            actual as nat,
        ) + " frames, expected "@ + text::decimal(expected as nat),
        DspError::ChannelCountMismatch { expected, actual } => "buffer has "@ + text::decimal(
            actual as nat,
        ) + " channels, expected "@ + text::decimal(expected as nat),
        DspError::ConfigurationMismatch => "process context does not match prepared configuration"@,
        DspError::NotPrepared => "processor has not been prepared"@,
        DspError::InvalidParameter(name) => "invalid parameter: "@ + name@,
    }
}

fn counted(lead: &str, first: usize, middle: &str, second: usize) -> (text: String)
    ensures
        text@ == lead@ + text::decimal(first as nat) + middle@ + text::decimal(second as nat),
{
    let first = decimal_text(first as u64);
    let second = decimal_text(second as u64);
    let mut text = joined3(lead, first.as_str(), middle);
    text.append(second.as_str());
    text
}

impl DspError {
    /// What the error says.
    pub fn message(&self) -> (message: String)
        ensures
            message@ == described(*self),
    {
        match self {
            DspError::InvalidSampleRate(rate) => {
                let rate = decimal_text(*rate as u64);
                joined("invalid sample rate: ", rate.as_str())
            },
            DspError::InvalidMaxBlockSize(size) => {
                let size = decimal_text(*size as u64);
                joined("invalid maximum block size: ", size.as_str())
            },
            DspError::InvalidChannelCount(count) => {
                let count = decimal_text(*count as u64);
                joined("invalid channel count: ", count.as_str())
            },
            DspError::NonUniformBuffer { expected_frames, channel, actual_frames } => {
                let expected = decimal_text(*expected_frames as u64);
                let mut text = counted("channel ", *channel, " has ", *actual_frames);
                text.append(" frames, expected ");
                text.append(expected.as_str());
                text
            },
            DspError::BlockTooLarge { frames, max_frames } => counted(
                "block has ",
                *frames,
                " frames, maximum is ",
                *max_frames,
            ),
            DspError::FrameCountMismatch { expected, actual } => counted(
                "buffer has ",
                *actual,
                " frames, expected ",
                *expected,
            ),
            DspError::ChannelCountMismatch { expected, actual } => counted(
                "buffer has ",
                *actual,
                " channels, expected ",
                *expected,
            ),
            DspError::ConfigurationMismatch => {
                "process context does not match prepared configuration".to_owned()
            },
            DspError::NotPrepared => "processor has not been prepared".to_owned(),
            DspError::InvalidParameter(name) => joined("invalid parameter: ", name),
        }
    }
}

/// What an error says names what went wrong and gives the numbers in order.
pub proof fn law_errors_name_their_numbers(error: DspError)
    ensures
        error matches DspError::InvalidSampleRate(rate) ==> described(error)
            == "invalid sample rate: "@ + text::decimal(rate as nat),
        error matches DspError::InvalidMaxBlockSize(size) ==> described(error)
            == "invalid maximum block size: "@ + text::decimal(size as nat),
        error matches DspError::InvalidChannelCount(count) ==> described(error)
            == "invalid channel count: "@ + text::decimal(count as nat),
        error matches DspError::BlockTooLarge { frames, max_frames } ==> described(error)
            == "block has "@ + text::decimal(frames as nat) + " frames, maximum is "@
            + text::decimal(max_frames as nat),
        error matches DspError::FrameCountMismatch { expected, actual } ==> described(error)
            == "buffer has "@ + text::decimal(actual as nat) + " frames, expected "@
            + text::decimal(expected as nat),
        error matches DspError::ChannelCountMismatch { expected, actual } ==> described(error)
            == "buffer has "@ + text::decimal(actual as nat) + " channels, expected "@
            + text::decimal(expected as nat),
        error is NotPrepared ==> described(error) == "processor has not been prepared"@,
        error is ConfigurationMismatch ==> described(error)
            == "process context does not match prepared configuration"@,
        error matches DspError::InvalidParameter(name) ==> described(error)
            == "invalid parameter: "@ + name@,
{
}

} // verus!
