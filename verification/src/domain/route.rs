//! Connections between endpoints.
use vstd::prelude::*;

use super::ids::{EndpointId, RouteId};

verus! {

#[derive(Clone, Copy, Debug, PartialEq, Eq, Structural)]
pub enum RouteState {
    Connecting,
    Active,
    Disconnecting,
    Disconnected,
    Failed,
}

#[derive(Clone, Copy, Debug, PartialEq, Eq, Structural)]
pub struct AudioRoute {
    pub id: RouteId,
    pub source: EndpointId,
    pub destination: EndpointId,
    pub state: RouteState,
}

impl AudioRoute {
    /// Whether the route starts or ends at `endpoint`.
    pub open spec fn touches(self, endpoint: EndpointId) -> bool {
        self.source == endpoint || self.destination == endpoint
    }

    /// Whether the route starts or ends at `endpoint`.
    pub fn touches_endpoint(&self, endpoint: EndpointId) -> (result: bool)
        ensures
            result == self.touches(endpoint),
    {
        self.source == endpoint || self.destination == endpoint
    }

    /// The route in another state.
    pub open spec fn in_state(self, state: RouteState) -> AudioRoute {
        AudioRoute { state, ..self }
    }
}

} // verus!
