//! Events from the engine.
use vstd::prelude::*;

use super::capability::BackendCapabilities;
use super::controls::MeterLevel;
use super::endpoint::AudioEndpoint;
use super::error::AudioError;
use super::graph::AudioGraph;
use super::ids::{ChannelId, CommandId, EndpointId, RouteId};
use super::route::AudioRoute;
use crate::table::Table;

verus! {

#[derive(Clone, Copy, Debug, PartialEq, Eq, Structural)]
pub enum EngineStatus {
    Starting,
    Running,
    Stopping,
    Stopped,
}

#[derive(Debug)]
pub enum GraphDelta {
    EndpointAdded { endpoint: AudioEndpoint },
    EndpointUpdated { endpoint: AudioEndpoint },
    EndpointRemoved { endpoint_id: EndpointId },
    RouteAdded { route: AudioRoute },
    RouteUpdated { route: AudioRoute },
    RouteRemoved { route_id: RouteId },
}

/// The levels of the channels of one endpoint.
#[derive(Debug)]
pub struct MeterFrame {
    pub endpoint_id: EndpointId,
    pub sequence: u64,
    pub levels: Table<ChannelId, MeterLevel>,
}

#[allow(inconsistent_fields)]
#[derive(Debug)]
pub enum EngineEvent {
    Snapshot { graph: AudioGraph },
    Delta { delta: Box<GraphDelta> },
    Status { status: EngineStatus },
    Capabilities { capabilities: BackendCapabilities },
    Meter { frame: MeterFrame },
    /// The clock that the backend reports.
    AudioSettings { rate: u32, quantum: u32, min_quantum: u32, max_quantum: u32 },
    CommandCompleted { command_id: CommandId },
    Error { command_id: Option<CommandId>, error: AudioError },
}

/// The event that carries a change of the graph.
pub open spec fn delta_event(delta: GraphDelta) -> EngineEvent {
    EngineEvent::Delta { delta: Box::new(delta) }
}

} // verus!
