//! Commands to the engine.
use vstd::prelude::*;

use super::controls::{ChannelMode, GainDb, NormalizedBalance};
use super::endpoint::AudioEndpoint;
use super::ids::{CommandId, EndpointId, RouteId, VirtualDeviceId};
use super::ids;
use crate::scalar::Scalar;

verus! {

#[derive(Debug)]
pub struct EngineCommand {
    pub id: CommandId,
    pub kind: EngineCommandKind,
}

impl EngineCommand {
    /// A command under a new random identifier.
    pub fn new(kind: EngineCommandKind) -> (command: Self)
        ensures
            command.kind == kind,
            ids::nibble(command.id.value, 12) == 4,
    {
        EngineCommand { id: CommandId::new(), kind }
    }

    pub fn shutdown() -> (command: Self)
        ensures
            command.kind == EngineCommandKind::Shutdown,
            ids::nibble(command.id.value, 12) == 4,
    {
        EngineCommand::new(EngineCommandKind::Shutdown)
    }
}

#[derive(Debug)]
pub enum EngineCommandKind {
    SetVolume { endpoint_id: EndpointId, gain: GainDb },
    SetMute { endpoint_id: EndpointId, muted: bool },
    SetBalance { endpoint_id: EndpointId, balance: NormalizedBalance },
    Connect { route_id: RouteId, source: EndpointId, destination: EndpointId },
    Disconnect { route_id: RouteId },
    CreateVirtual { virtual_device_id: VirtualDeviceId, endpoint: Box<AudioEndpoint> },
    DeleteVirtual { virtual_device_id: VirtualDeviceId },
    /// Sample rate and latency hint of the route streams.
    SetStreamTuning { stream_rate: u32, buffer_frames: u32 },
    /// A sync delay in milliseconds: on a source it delays every route that
    /// the source feeds, on an output every route that plays into it.
    SetDelay { endpoint_id: EndpointId, delay_ms: Scalar },
    /// The gains of the three equalizer bands, in decibels.
    SetEq { endpoint_id: EndpointId, low_db: Scalar, mid_db: Scalar, high_db: Scalar },
    /// How the channels of the endpoint map into the mix.
    SetChannelMode { endpoint_id: EndpointId, mode: ChannelMode },
    Shutdown,
}

} // verus!
