//! The meter of a running stream: peaks, clipping and average levels over the
//! time between two readings.
use vstd::prelude::*;

use super::stage::sanitize;
use super::stage;
use crate::scalar::{Scalar, ONE_BITS};

verus! {

/// What a channel showed since the last reading.
#[derive(Debug, Clone, Copy, PartialEq, Eq, Structural)]
pub struct ChannelReading {
    pub peak: Scalar,
    pub rms: Scalar,
    pub clipped: bool,
}

/// What is gathered of a channel between two readings.
#[derive(Debug, Clone, Copy, PartialEq, Eq, Structural)]
pub struct ChannelWindow {
    pub peak: Scalar,
    /// The sum of the squares, as the pattern of a double-precision number.
    pub sum_squares: u64,
    pub sample_count: u64,
    pub clipped: bool,
    /// What was shown last; it falls off while nothing plays.
    pub last_peak: Scalar,
    pub last_rms: Scalar,
}

/// A channel of which nothing has been gathered.
pub open spec fn empty_window() -> ChannelWindow {
    ChannelWindow {
        peak: Scalar { bits: 0 },
        sum_squares: 0,
        sample_count: 0,
        clipped: false,
        last_peak: Scalar { bits: 0 },
        last_rms: Scalar { bits: 0 },
    }
}

/// The numbers for a reading that are worked out from a window.
#[derive(Debug, Clone, Copy, PartialEq, Eq, Structural)]
pub struct WindowLevels {
    /// The root of the sum of the squares over the number of samples.
    pub rms: Scalar,
    /// Half of what was shown last.
    pub half_peak: Scalar,
    pub half_rms: Scalar,
}

/// The level that a sample shows: its distance from zero, at most full scale.
pub open spec fn shown_level(sample: Scalar) -> Scalar {
    let size = stage::processable(sample).without_sign();
    if (Scalar { bits: ONE_BITS }).lt(size) {
        Scalar { bits: ONE_BITS }
    } else {
        size
    }
}

/// Whether a sample is beyond what can be played.
pub fn clips(sample: Scalar) -> (result: bool)
    ensures
        result == (Scalar { bits: ONE_BITS }).le(sample.without_sign()),
{
    Scalar::one().at_most(sample.abs())
}

impl ChannelWindow {
    /// With the level of one more sample.
    pub open spec fn observed(self, sample: Scalar) -> Self {
        ChannelWindow {
            peak: if self.peak.lt(shown_level(sample)) {
                shown_level(sample)
            } else {
                self.peak
            },
            ..self
        }
    }

    /// With a block more.
    pub open spec fn merged(self, sum_squares: u64, sample_count: u64, clipped: bool) -> Self {
        ChannelWindow {
            sum_squares,
            sample_count: ((self.sample_count + sample_count) % 0x1_0000_0000_0000_0000) as u64,
            clipped: self.clipped || clipped,
            ..self
        }
    }

    /// What the channel shows: what was gathered where audio came, otherwise
    /// half of what was shown before.
    pub open spec fn reading(self, fresh: bool, levels: WindowLevels) -> ChannelReading {
        if fresh {
            ChannelReading {
                peak: self.peak,
                rms: if self.sample_count > 0 {
                    levels.rms
                } else {
                    Scalar { bits: 0 }
                },
                clipped: self.clipped,
            }
        } else {
            ChannelReading { peak: levels.half_peak, rms: levels.half_rms, clipped: false }
        }
    }

    /// What is gathered anew after a reading.
    pub open spec fn after_reading(self, fresh: bool, levels: WindowLevels) -> Self {
        let shown = self.reading(fresh, levels);
        if fresh {
            ChannelWindow { last_peak: shown.peak, last_rms: shown.rms, ..empty_window() }
        } else {
            ChannelWindow {
                clipped: false,
                last_peak: shown.peak,
                last_rms: shown.rms,
                ..self
            }
        }
    }
}

/// The meter of a stream.
#[derive(Debug)]
pub struct RouteMeter {
    pub windows: Vec<ChannelWindow>,
    pub dirty: bool,
    pub sequence: u64,
}

impl RouteMeter {
    pub fn new(channels: usize) -> (meter: Self)
        ensures
            meter.windows@ == Seq::new(channels as nat, |_channel: int| empty_window()),
            !meter.dirty,
            meter.sequence == 0,
    {
        let mut windows: Vec<ChannelWindow> = Vec::new();
        let mut at: usize = 0;
        while at < channels
            invariant
                at <= channels,
                windows@.len() == at,
                forall|i: int| 0 <= i < at ==> windows@[i] == empty_window(),
            decreases channels - at,
        {
            windows.push(
                ChannelWindow {
                    peak: Scalar::zero(),
                    sum_squares: 0,
                    sample_count: 0,
                    clipped: false,
                    last_peak: Scalar::zero(),
                    last_rms: Scalar::zero(),
                },
            );
            at = at + 1;
        }
        assert(windows@ =~= Seq::new(channels as nat, |_channel: int| empty_window()));
        RouteMeter { windows, dirty: false, sequence: 0 }
    }

    /// Takes note of a sample.
    pub fn observe(&mut self, channel: usize, sample: Scalar)
        requires
            channel < old(self).windows@.len(),
        ensures
            final(self).dirty,
            final(self).sequence == old(self).sequence,
            final(self).windows@ == old(self).windows@.update(
                channel as int,
                old(self).windows@[channel as int].observed(sample),
            ),
    {
        let size = sanitize(sample).abs();
        let level = if Scalar::one().less(size) {
            Scalar::one()
        } else {
            size
        };
        self.dirty = true;
        let mut window = self.windows[channel];
        if window.peak.less(level) {
            window.peak = level;
        }
        self.windows.set(channel, window);
    }

    /// Takes note of a block. `sum_squares` is the sum so far with that of the
    /// block.
    pub fn merge_block_stats(
        &mut self,
        channel: usize,
        sum_squares: u64,
        sample_count: u64,
        clipped: bool,
    )
        requires
            channel < old(self).windows@.len(),
        ensures
            final(self).dirty,
            final(self).sequence == old(self).sequence,
            final(self).windows@ == old(self).windows@.update(
                channel as int,
                old(self).windows@[channel as int].merged(sum_squares, sample_count, clipped),
            ),
    {
        self.dirty = true;
        let mut window = self.windows[channel];
        window.sum_squares = sum_squares;
        window.sample_count = window.sample_count.wrapping_add(sample_count);
        if clipped {
            window.clipped = true;
        }
        self.windows.set(channel, window);
    }

    /// What every channel shows, and a fresh start for the next reading.
    pub fn readings(&mut self, levels: &Vec<WindowLevels>) -> (readings: Vec<ChannelReading>)
        requires
            levels@.len() == old(self).windows@.len(),
        ensures
            !final(self).dirty,
            final(self).sequence == old(self).sequence,
            final(self).windows@.len() == old(self).windows@.len(),
            readings@.len() == old(self).windows@.len(),
            forall|i: int|
                0 <= i < old(self).windows@.len() ==> {
                    &&& (#[trigger] readings@[i]) == old(self).windows@[i].reading(
                        old(self).dirty,
                        levels@[i],
                    )
                    &&& final(self).windows@[i] == old(self).windows@[i].after_reading(
                        old(self).dirty,
                        levels@[i],
                    )
                },
    {
        let fresh = self.dirty;
        self.dirty = false;
        let mut readings: Vec<ChannelReading> = Vec::new();
        let count: usize = self.windows.len();
        let mut at: usize = 0;
        while at < count
            invariant
                at <= count == self.windows@.len(),
                count == old(self).windows@.len(),
                levels@.len() == count,
                fresh == old(self).dirty,
                !self.dirty,
                self.sequence == old(self).sequence,
                readings@.len() == at,
                forall|i: int| at <= i < count ==> self.windows@[i] == old(self).windows@[i],
                forall|i: int|
                    0 <= i < at ==> (#[trigger] readings@[i]) == old(self).windows@[i].reading(
                        fresh,
                        levels@[i],
                    ),
                forall|i: int|
                    0 <= i < at ==> (#[trigger] self.windows@[i]) == old(
                        self,
                    ).windows@[i].after_reading(fresh, levels@[i]),
            decreases count - at,
        {
            let mut window = self.windows[at];
            let level = levels[at];
            let shown = if fresh {
                ChannelReading {
                    peak: window.peak,
                    rms: if window.sample_count > 0 {
                        level.rms
                    } else {
                        Scalar::zero()
                    },
                    clipped: window.clipped,
                }
            } else {
                ChannelReading { peak: level.half_peak, rms: level.half_rms, clipped: false }
            };
            if fresh {
                window.peak = Scalar::zero();
                window.sum_squares = 0;
                window.sample_count = 0;
            }
            window.clipped = false;
            window.last_peak = shown.peak;
            window.last_rms = shown.rms;
            self.windows.set(at, window);
            readings.push(shown);
            at = at + 1;
        }
        readings
    }

    /// The number of the next frame of readings.
    pub fn next_sequence(&mut self) -> (sequence: u64)
        ensures
            sequence == old(self).sequence,
            final(self).sequence == (if old(self).sequence < u64::MAX {
                (old(self).sequence + 1) as u64
            } else {
                0
            }),
            final(self).windows == old(self).windows,
            final(self).dirty == old(self).dirty,
    {
        let sequence: u64 = self.sequence;
        self.sequence = sequence.wrapping_add(1);
        sequence
    }
}

/// Clipping shows in one reading and is gone in the next, unless it happens
/// again.
pub proof fn law_clipping_shows_once(window: ChannelWindow, first: WindowLevels, next: WindowLevels)
    ensures
        window.reading(true, first).clipped == window.clipped,
        !window.after_reading(true, first).reading(true, next).clipped,
        !window.after_reading(true, first).reading(false, next).clipped,
{
}

/// A meter never shows more than full scale.
pub proof fn law_peaks_stay_in_range(window: ChannelWindow, sample: Scalar)
    requires
        window.peak.le(Scalar { bits: ONE_BITS }),
    ensures
        window.observed(sample).peak.le(Scalar { bits: ONE_BITS }),
        shown_level(sample).le(window.observed(sample).peak),
{
}

/// A sample raises the peak to its level where that is higher and never lowers
/// it; a block adds its samples and its clipping to what was gathered.
pub proof fn law_windows_gather_what_they_see(
    window: ChannelWindow,
    sample: Scalar,
    sum_squares: u64,
    sample_count: u64,
    clipped: bool,
)
    requires
        !window.peak.nan(),
    ensures
        ({
            let seen = window.observed(sample);
            let level = shown_level(sample);
            &&& level.rank() > window.peak.rank() ==> seen.peak == level
            &&& level.rank() <= window.peak.rank() ==> seen.peak == window.peak
            &&& seen == (ChannelWindow { peak: seen.peak, ..window })
            &&& sample.finite() && sample.magnitude() <= 0x3f80_0000 ==> level.rank()
                == sample.magnitude()
            &&& sample.finite() && sample.magnitude() > 0x3f80_0000 ==> level.bits == 0x3f80_0000
        }),
        ({
            let more = window.merged(sum_squares, sample_count, clipped);
            &&& more.sum_squares == sum_squares
            &&& window.sample_count + sample_count <= u64::MAX ==> more.sample_count
                == window.sample_count + sample_count
            &&& more.clipped <==> window.clipped || clipped
            &&& more.peak == window.peak
            &&& more.last_peak == window.last_peak && more.last_rms == window.last_rms
        }),
{
}

/// Where audio came, a reading shows what was gathered and gathering starts
/// anew; where none came, it shows half of what was shown before, without
/// clipping. What is shown is what the next reading falls off from.
pub proof fn law_readings_show_what_was_gathered(window: ChannelWindow, levels: WindowLevels)
    ensures
        window.reading(true, levels).peak == window.peak,
        window.sample_count > 0 ==> window.reading(true, levels).rms == levels.rms,
        window.sample_count == 0 ==> window.reading(true, levels).rms.bits == 0,
        window.reading(true, levels).clipped == window.clipped,
        window.reading(false, levels).peak == levels.half_peak,
        window.reading(false, levels).rms == levels.half_rms,
        !window.reading(false, levels).clipped,
        ({
            let after = window.after_reading(true, levels);
            &&& after.peak.bits == 0 && after.sum_squares == 0 && after.sample_count == 0
                && !after.clipped
            &&& after.last_peak == window.peak
            &&& after.last_rms == window.reading(true, levels).rms
        }),
        ({
            let after = window.after_reading(false, levels);
            &&& after.last_peak == levels.half_peak
            &&& after.last_rms == levels.half_rms
            &&& !after.clipped
            &&& after.peak == window.peak && after.sum_squares == window.sum_squares
                && after.sample_count == window.sample_count
        }),
{
}

/// A window that has seen nothing shows nothing.
pub proof fn law_a_new_window_is_empty()
    ensures
        empty_window().peak.bits == 0,
        empty_window().sum_squares == 0,
        empty_window().sample_count == 0,
        !empty_window().clipped,
        empty_window().last_peak.bits == 0,
        empty_window().last_rms.bits == 0,
{
}

} // verus!
