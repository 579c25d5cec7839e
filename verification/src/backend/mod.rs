//! What the engine and its backends say to each other.
use vstd::prelude::*;

use self::applications::Platform;
use self::cpal_backend::CpalBackend;
use self::pipewire::PipeWireBackend;
use crate::domain::capability::BackendCapabilities;
use crate::domain::controls::{ChannelMode, GainDb, NormalizedBalance};
use crate::domain::endpoint::AudioEndpoint;
use crate::domain::error::AudioError;
use crate::domain::event::MeterFrame;
use crate::domain::ids::{CommandId, EndpointId, RouteId, VirtualDeviceId};
use crate::domain::route::AudioRoute;
use crate::scalar::Scalar;

pub mod applications;
pub mod cpal_backend;
pub mod driver;
pub mod fake;
pub mod pipewire;
pub mod polled;
pub mod properties;
pub mod registry;
pub mod runtimes;
pub mod session;
pub mod streams;
pub mod virtual_nodes;

verus! {

/// The backend of a platform.
#[derive(Clone, Copy, Debug)]
pub enum PlatformBackend {
    PipeWire(PipeWireBackend),
    Cpal(CpalBackend),
}

/// The backend of a platform: PipeWire on Linux, which alone knows virtual
/// devices and the graph, and cpal elsewhere.
pub fn default_backend(platform: Platform) -> (backend: PlatformBackend)
    ensures
        backend is PipeWire == (platform is Linux),
{
    match platform {
        Platform::Linux => PlatformBackend::PipeWire(PipeWireBackend),
        _ => PlatformBackend::Cpal(CpalBackend),
    }
}

#[derive(Clone, Copy, Debug, PartialEq, Eq, Structural)]
pub enum BackendStatus {
    Starting,
    Running,
    Stopping,
    Stopped,
}

#[derive(Debug)]
pub enum BackendCommand {
    SetVolume { command_id: CommandId, endpoint_id: EndpointId, gain: GainDb },
    SetMute { command_id: CommandId, endpoint_id: EndpointId, muted: bool },
    SetBalance { command_id: CommandId, endpoint_id: EndpointId, balance: NormalizedBalance },
    Connect { command_id: CommandId, route: AudioRoute },
    Disconnect { command_id: CommandId, route_id: RouteId },
    CreateVirtual {
        command_id: CommandId,
        virtual_device_id: VirtualDeviceId,
        endpoint: Box<AudioEndpoint>,
    },
    DeleteVirtual { command_id: CommandId, virtual_device_id: VirtualDeviceId },
    SetStreamTuning { command_id: CommandId, stream_rate: u32, buffer_frames: u32 },
    SetDelay { command_id: CommandId, endpoint_id: EndpointId, delay_ms: Scalar },
    SetEq {
        command_id: CommandId,
        endpoint_id: EndpointId,
        low_db: Scalar,
        mid_db: Scalar,
        high_db: Scalar,
    },
    SetChannelMode { command_id: CommandId, endpoint_id: EndpointId, mode: ChannelMode },
    Shutdown { command_id: CommandId },
}

#[derive(Debug)]
pub enum BackendEvent {
    Status { status: BackendStatus },
    /// Reported once, before the backend runs.
    Capabilities { capabilities: BackendCapabilities },
    EndpointAdded { endpoint: AudioEndpoint },
    EndpointUpdated { endpoint: AudioEndpoint },
    EndpointRemoved { endpoint_id: EndpointId },
    RouteAdded { route: AudioRoute },
    RouteUpdated { route: AudioRoute },
    RouteRemoved { route_id: RouteId },
    Meter { frame: MeterFrame },
    /// The clock of the audio graph.
    AudioSettings { rate: u32, quantum: u32, min_quantum: u32, max_quantum: u32 },
    CommandCompleted { command_id: CommandId },
    CommandFailed { command_id: CommandId, error: AudioError },
    Error { error: AudioError },
    ShutdownComplete { command_id: CommandId },
}

/// One setting of an endpoint.
#[derive(Clone, Copy, Debug, PartialEq, Eq, Structural)]
pub enum EndpointChange {
    Gain { gain: GainDb },
    Muted { muted: bool },
    Balance { balance: NormalizedBalance },
}

impl EndpointChange {
    /// The endpoint with the setting made.
    pub open spec fn applied(self, endpoint: AudioEndpoint) -> AudioEndpoint {
        match self {
            EndpointChange::Gain { gain } => AudioEndpoint { gain, ..endpoint },
            EndpointChange::Muted { muted } => AudioEndpoint { muted, ..endpoint },
            EndpointChange::Balance { balance } => AudioEndpoint { balance, ..endpoint },
        }
    }

    /// Whether the endpoint already has the setting.
    pub open spec fn is_made(self, endpoint: AudioEndpoint) -> bool {
        match self {
            EndpointChange::Gain { gain } => endpoint.gain.amount().same_value_as(gain.amount()),
            EndpointChange::Muted { muted } => endpoint.muted == muted,
            EndpointChange::Balance { balance } => endpoint.balance.amount().same_value_as(
                balance.amount(),
            ),
        }
    }

    /// Makes the setting.
    pub fn apply(self, endpoint: &mut AudioEndpoint)
        ensures
            *final(endpoint) == self.applied(*old(endpoint)),
    {
        match self {
            EndpointChange::Gain { gain } => {
                endpoint.gain = gain;
            },
            EndpointChange::Muted { muted } => {
                endpoint.muted = muted;
            },
            EndpointChange::Balance { balance } => {
                endpoint.balance = balance;
            },
        }
    }

    /// Whether the endpoint already has the setting.
    pub fn made(self, endpoint: &AudioEndpoint) -> (result: bool)
        ensures
            result == self.is_made(*endpoint),
    {
        match self {
            EndpointChange::Gain { gain } => endpoint.gain.same_value(gain),
            EndpointChange::Muted { muted } => endpoint.muted == muted,
            EndpointChange::Balance { balance } => endpoint.balance.same_value(balance),
        }
    }
}

/// What a backend answers to a command: the events to send, in order, and
/// whether it goes on afterwards. A backend also stops where an event can no
/// longer be sent.
#[derive(Debug)]
pub struct Reply {
    pub events: Vec<BackendEvent>,
    pub running: bool,
}

/// A setting makes itself and nothing else: an endpoint has the new value and
/// keeps every other field, and it counts as made exactly where the endpoint
/// has that value.
pub proof fn law_a_setting_changes_itself_alone(change: EndpointChange, endpoint: AudioEndpoint)
    ensures
        change matches EndpointChange::Gain { gain } ==> {
            let after = change.applied(endpoint);
            &&& after.gain == gain
            &&& after == (AudioEndpoint { gain: after.gain, ..endpoint })
            &&& change.is_made(endpoint) <==> !gain.amount().nan() && !endpoint.gain.amount().nan()
                && endpoint.gain.amount().rank() == gain.amount().rank()
        },
        change matches EndpointChange::Muted { muted } ==> {
            let after = change.applied(endpoint);
            &&& after.muted == muted
            &&& after == (AudioEndpoint { muted: after.muted, ..endpoint })
            &&& change.is_made(endpoint) <==> endpoint.muted == muted
        },
        change matches EndpointChange::Balance { balance } ==> {
            let after = change.applied(endpoint);
            &&& after.balance == balance
            &&& after == (AudioEndpoint { balance: after.balance, ..endpoint })
            &&& change.is_made(endpoint) <==> !balance.amount().nan()
                && !endpoint.balance.amount().nan() && endpoint.balance.amount().rank()
                == balance.amount().rank()
        },
{
}

} // verus!
