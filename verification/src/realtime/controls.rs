//! The controls that running streams follow.
use vstd::prelude::*;

use crate::domain::controls::{ChannelMode, GainDb, NormalizedBalance};
use crate::domain::endpoint::AudioEndpoint;
use crate::domain::ids::EndpointId;
use crate::scalar::Scalar;
use crate::table::Table;

verus! {

/// The sample rate of streams until the platform reports its clock.
pub const DEFAULT_SAMPLE_RATE: u32 = 48_000;

/// The latency hint of new streams.
pub const DEFAULT_BUFFER_FRAMES: u32 = 512;

/// The pattern of 500, the longest sync delay in milliseconds.
pub const MAX_DELAY_MS: u32 = 0x43fa_0000;

/// The strip controls of one endpoint.
#[derive(Clone, Copy, Debug, PartialEq, Eq, Structural)]
pub struct EndpointControls {
    gain: GainDb,
    muted: bool,
    balance: NormalizedBalance,
}

/// The settings of strip controls.
pub struct StripSettings {
    pub gain: Scalar,
    pub muted: bool,
    pub balance: Scalar,
}

/// Strip controls at rest: unity gain, audible, centered.
pub open spec fn plain_strip() -> StripSettings {
    StripSettings { gain: Scalar { bits: 0 }, muted: false, balance: Scalar { bits: 0 } }
}

impl View for EndpointControls {
    type V = StripSettings;

    open spec fn view(&self) -> StripSettings {
        StripSettings {
            gain: self.gain_setting().amount(),
            muted: self.mute_setting(),
            balance: self.balance_setting().amount(),
        }
    }
}

impl Default for EndpointControls {
    fn default() -> (controls: Self)
        ensures
            controls@ == plain_strip(),
    {
        EndpointControls {
            gain: GainDb::default(),
            muted: false,
            balance: NormalizedBalance::default(),
        }
    }
}

impl EndpointControls {
    pub closed spec fn gain_setting(self) -> GainDb {
        self.gain
    }

    pub closed spec fn mute_setting(self) -> bool {
        self.muted
    }

    pub closed spec fn balance_setting(self) -> NormalizedBalance {
        self.balance
    }

    /// The controls as the endpoint has them now.
    pub fn from_endpoint(endpoint: &AudioEndpoint) -> (controls: Self)
        ensures
            controls.gain_setting() == endpoint.gain,
            controls.mute_setting() == endpoint.muted,
            controls.balance_setting() == endpoint.balance,
    {
        EndpointControls { gain: endpoint.gain, muted: endpoint.muted, balance: endpoint.balance }
    }

    pub fn set_gain(&mut self, gain: GainDb)
        ensures
            final(self).gain_setting() == gain,
            final(self).mute_setting() == old(self).mute_setting(),
            final(self).balance_setting() == old(self).balance_setting(),
    {
        self.gain = gain;
    }

    pub fn set_muted(&mut self, muted: bool)
        ensures
            final(self).mute_setting() == muted,
            final(self).gain_setting() == old(self).gain_setting(),
            final(self).balance_setting() == old(self).balance_setting(),
    {
        self.muted = muted;
    }

    pub fn set_balance(&mut self, balance: NormalizedBalance)
        ensures
            final(self).balance_setting() == balance,
            final(self).gain_setting() == old(self).gain_setting(),
            final(self).mute_setting() == old(self).mute_setting(),
    {
        self.balance = balance;
    }

    pub fn is_muted(&self) -> (muted: bool)
        ensures
            muted == self.mute_setting(),
    {
        self.muted
    }

    /// The gain that the fader asks for, in decibels.
    pub fn gain(&self) -> (gain: GainDb)
        ensures
            gain == self.gain_setting(),
    {
        self.gain
    }

    pub fn balance(&self) -> (balance: Scalar)
        ensures
            balance == self.balance_setting().amount(),
    {
        self.balance.value()
    }

    /// The gain for metering at once, where `linear` is the gain of the fader
    /// as a factor: nothing where the strip is muted.
    pub fn gain_linear(&self, linear: Scalar) -> (gain: Scalar)
        ensures
            gain == (if self.mute_setting() {
                Scalar { bits: 0 }
            } else {
                linear
            }),
    {
        if self.muted {
            Scalar::zero()
        } else {
            linear
        }
    }
}

/// The channel processing of one endpoint: sync delay, equalizer and mode.
#[derive(Clone, Copy, Debug, PartialEq, Eq, Structural)]
pub struct ChannelControls {
    pub delay_ms: Scalar,
    pub eq_low_db: Scalar,
    pub eq_mid_db: Scalar,
    pub eq_high_db: Scalar,
    pub mode: ChannelMode,
}

/// Channel processing that changes nothing.
pub open spec fn plain_channel() -> ChannelControls {
    ChannelControls {
        delay_ms: Scalar { bits: 0 },
        eq_low_db: Scalar { bits: 0 },
        eq_mid_db: Scalar { bits: 0 },
        eq_high_db: Scalar { bits: 0 },
        mode: ChannelMode::Auto,
    }
}

impl Default for ChannelControls {
    fn default() -> (controls: Self)
        ensures
            controls == plain_channel(),
    {
        ChannelControls {
            delay_ms: Scalar::zero(),
            eq_low_db: Scalar::zero(),
            eq_mid_db: Scalar::zero(),
            eq_high_db: Scalar::zero(),
            mode: ChannelMode::Auto,
        }
    }
}

/// The tuning of all streams and the controls of every endpoint.
#[derive(Debug)]
pub struct ControlHub {
    pub stream_rate: u32,
    pub buffer_frames: u32,
    pub endpoints: Table<EndpointId, EndpointControls>,
    pub channels: Table<EndpointId, ChannelControls>,
}

impl Default for ControlHub {
    fn default() -> (hub: Self)
        ensures
            hub.at_rest(),
    {
        ControlHub {
            stream_rate: DEFAULT_SAMPLE_RATE,
            buffer_frames: DEFAULT_BUFFER_FRAMES,
            endpoints: Table::new(),
            channels: Table::new(),
        }
    }
}

impl ControlHub {
    /// Nothing was set.
    pub open spec fn at_rest(self) -> bool {
        &&& self.stream_rate == DEFAULT_SAMPLE_RATE
        &&& self.buffer_frames == DEFAULT_BUFFER_FRAMES
        &&& self.endpoints@ == Map::<EndpointId, EndpointControls>::empty()
        &&& self.channels@ == Map::<EndpointId, ChannelControls>::empty()
    }

    /// The strip controls of an endpoint; at rest where nothing was set.
    pub open spec fn strip_of(self, endpoint: EndpointId) -> StripSettings {
        if self.endpoints@.contains_key(endpoint) {
            self.endpoints@[endpoint]@
        } else {
            plain_strip()
        }
    }

    /// The channel processing of an endpoint; plain where nothing was set.
    pub open spec fn channel_of(self, endpoint: EndpointId) -> ChannelControls {
        if self.channels@.contains_key(endpoint) {
            self.channels@[endpoint]
        } else {
            plain_channel()
        }
    }

    pub fn stream_rate(&self) -> (rate: u32)
        ensures
            rate == self.stream_rate,
    {
        self.stream_rate
    }

    /// Sets the sample rate. Says whether it is another one. Delays and
    /// equalizers are kept in milliseconds and decibels, so they hold at any
    /// rate.
    pub fn set_stream_rate(&mut self, rate: u32) -> (changed: bool)
        ensures
            changed == (old(self).stream_rate != rate),
            *final(self) == (ControlHub { stream_rate: rate, ..*old(self) }),
    {
        let changed = self.stream_rate != rate;
        self.stream_rate = rate;
        changed
    }

    pub fn buffer_frames(&self) -> (frames: u32)
        ensures
            frames == self.buffer_frames,
    {
        self.buffer_frames
    }

    /// Sets the latency hint. Says whether it is another one.
    pub fn set_buffer_frames(&mut self, frames: u32) -> (changed: bool)
        ensures
            changed == (old(self).buffer_frames != frames),
            *final(self) == (ControlHub { buffer_frames: frames, ..*old(self) }),
    {
        let changed = self.buffer_frames != frames;
        self.buffer_frames = frames;
        changed
    }

    /// The strip controls of an endpoint, made with defaults where there were
    /// none.
    pub fn endpoint(&mut self, endpoint: EndpointId) -> (controls: EndpointControls)
        ensures
            final(self).endpoints@ == old(self).endpoints@.insert(endpoint, controls),
            old(self).endpoints@.contains_key(endpoint) ==> controls
                == old(self).endpoints@[endpoint],
            controls@ == old(self).strip_of(endpoint),
            final(self).stream_rate == old(self).stream_rate,
            final(self).buffer_frames == old(self).buffer_frames,
            final(self).channels == old(self).channels,
    {
        match self.endpoints.get(&endpoint) {
            Some(controls) => {
                let controls = *controls;
                assert(self.endpoints@ =~= self.endpoints@.insert(endpoint, controls));
                controls
            },
            None => {
                let controls = EndpointControls::default();
                self.endpoints.insert(endpoint, controls);
                controls
            },
        }
    }

    /// The strip controls of an endpoint, made from its present settings where
    /// there were none.
    pub fn endpoint_seeded(&mut self, endpoint: &AudioEndpoint) -> (controls: EndpointControls)
        ensures
            final(self).endpoints@ == old(self).endpoints@.insert(endpoint.id, controls),
            old(self).endpoints@.contains_key(endpoint.id) ==> controls
                == old(self).endpoints@[endpoint.id],
            !old(self).endpoints@.contains_key(endpoint.id) ==> {
                &&& controls.gain_setting() == endpoint.gain
                &&& controls.mute_setting() == endpoint.muted
                &&& controls.balance_setting() == endpoint.balance
            },
            final(self).stream_rate == old(self).stream_rate,
            final(self).buffer_frames == old(self).buffer_frames,
            final(self).channels == old(self).channels,
    {
        match self.endpoints.get(&endpoint.id) {
            Some(controls) => {
                let controls = *controls;
                assert(self.endpoints@ =~= self.endpoints@.insert(endpoint.id, controls));
                controls
            },
            None => {
                let controls = EndpointControls::from_endpoint(endpoint);
                self.endpoints.insert(endpoint.id, controls);
                controls
            },
        }
    }

    /// Replaces the strip controls of an endpoint.
    pub fn set_endpoint(&mut self, endpoint: EndpointId, controls: EndpointControls)
        ensures
            final(self).endpoints@ == old(self).endpoints@.insert(endpoint, controls),
            final(self).stream_rate == old(self).stream_rate,
            final(self).buffer_frames == old(self).buffer_frames,
            final(self).channels == old(self).channels,
    {
        self.endpoints.insert(endpoint, controls);
    }

    /// The channel processing of an endpoint, made plain where there was none.
    pub fn channel(&mut self, endpoint: EndpointId) -> (controls: ChannelControls)
        ensures
            controls == old(self).channel_of(endpoint),
            final(self).channels@ == old(self).channels@.insert(endpoint, controls),
            final(self).stream_rate == old(self).stream_rate,
            final(self).buffer_frames == old(self).buffer_frames,
            final(self).endpoints == old(self).endpoints,
    {
        match self.channels.get(&endpoint) {
            Some(controls) => {
                let controls = *controls;
                assert(self.channels@ =~= self.channels@.insert(endpoint, controls));
                controls
            },
            None => {
                let controls = ChannelControls::default();
                self.channels.insert(endpoint, controls);
                controls
            },
        }
    }

    /// Sets the sync delay of an endpoint, moved into the supported range.
    pub fn set_delay_ms(&mut self, endpoint: EndpointId, delay_ms: Scalar)
        ensures
            final(self).channels@ == old(self).channels@.insert(
                endpoint,
                ChannelControls {
                    delay_ms: delay_ms.clamped(
                        Scalar { bits: 0 },
                        Scalar { bits: MAX_DELAY_MS },
                    ),
                    ..old(self).channel_of(endpoint)
                },
            ),
            final(self).stream_rate == old(self).stream_rate,
            final(self).buffer_frames == old(self).buffer_frames,
            final(self).endpoints == old(self).endpoints,
    {
        let mut controls = self.channel(endpoint);
        controls.delay_ms = delay_ms.clamp(Scalar::zero(), Scalar::from_bits(MAX_DELAY_MS));
        self.channels.insert(endpoint, controls);
        assert(self.channels@ =~= old(self).channels@.insert(endpoint, controls));
    }

    /// Sets the channel mode of an endpoint.
    pub fn set_channel_mode(&mut self, endpoint: EndpointId, mode: ChannelMode)
        ensures
            final(self).channels@ == old(self).channels@.insert(
                endpoint,
                ChannelControls { mode, ..old(self).channel_of(endpoint) },
            ),
            final(self).stream_rate == old(self).stream_rate,
            final(self).buffer_frames == old(self).buffer_frames,
            final(self).endpoints == old(self).endpoints,
    {
        let mut controls = self.channel(endpoint);
        controls.mode = mode;
        self.channels.insert(endpoint, controls);
        assert(self.channels@ =~= old(self).channels@.insert(endpoint, controls));
    }

    /// Sets the equalizer gains of an endpoint.
    pub fn set_eq_db(
        &mut self,
        endpoint: EndpointId,
        low_db: Scalar,
        mid_db: Scalar,
        high_db: Scalar,
    )
        ensures
            final(self).channels@ == old(self).channels@.insert(
                endpoint,
                ChannelControls {
                    eq_low_db: low_db,
                    eq_mid_db: mid_db,
                    eq_high_db: high_db,
                    ..old(self).channel_of(endpoint)
                },
            ),
            final(self).stream_rate == old(self).stream_rate,
            final(self).buffer_frames == old(self).buffer_frames,
            final(self).endpoints == old(self).endpoints,
    {
        let mut controls = self.channel(endpoint);
        controls.eq_low_db = low_db;
        controls.eq_mid_db = mid_db;
        controls.eq_high_db = high_db;
        self.channels.insert(endpoint, controls);
        assert(self.channels@ =~= old(self).channels@.insert(endpoint, controls));
    }
}

/// What was set for an endpoint is what its streams follow; where nothing was
/// set, the strip is audible and centered at unity gain, and the channel
/// processing neither delays nor filters nor remaps.
pub proof fn law_settings_are_followed_or_at_rest(hub: ControlHub, endpoint: EndpointId)
    ensures
        hub.endpoints@.contains_key(endpoint) ==> {
            let set = hub.endpoints@[endpoint];
            &&& hub.strip_of(endpoint).gain == set.gain_setting().amount()
            &&& hub.strip_of(endpoint).muted == set.mute_setting()
            &&& hub.strip_of(endpoint).balance == set.balance_setting().amount()
        },
        !hub.endpoints@.contains_key(endpoint) ==> {
            &&& hub.strip_of(endpoint).gain.bits == 0
            &&& !hub.strip_of(endpoint).muted
            &&& hub.strip_of(endpoint).balance.bits == 0
        },
        hub.channels@.contains_key(endpoint) ==> hub.channel_of(endpoint)
            == hub.channels@[endpoint],
        !hub.channels@.contains_key(endpoint) ==> {
            &&& hub.channel_of(endpoint).delay_ms.bits == 0
            &&& hub.channel_of(endpoint).eq_low_db.bits == 0
            &&& hub.channel_of(endpoint).eq_mid_db.bits == 0
            &&& hub.channel_of(endpoint).eq_high_db.bits == 0
            &&& hub.channel_of(endpoint).mode == ChannelMode::Auto
        },
        hub.at_rest() ==> {
            &&& hub.stream_rate == 48_000
            &&& hub.buffer_frames == 512
            &&& !hub.endpoints@.contains_key(endpoint)
            &&& !hub.channels@.contains_key(endpoint)
        },
{
}

/// What nobody has set is flat, without delay, at unity, audible and in the
/// middle, and takes the mode by itself.
pub proof fn law_what_is_not_set_is_plain()
    ensures
        plain_channel().delay_ms.bits == 0,
        plain_channel().eq_low_db.bits == 0,
        plain_channel().eq_mid_db.bits == 0,
        plain_channel().eq_high_db.bits == 0,
        plain_channel().mode == ChannelMode::Auto,
        plain_strip().gain.bits == 0,
        !plain_strip().muted,
        plain_strip().balance.bits == 0,
{
}

} // verus!
