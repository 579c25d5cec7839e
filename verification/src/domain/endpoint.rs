//! Audio endpoints.
use std::sync::Arc;

use vstd::prelude::*;

use super::controls::{GainDb, NormalizedBalance};
use super::ids::{ChannelId, DeviceId, EndpointId, VirtualDeviceId};
use crate::text::copied_text;

verus! {

/// How a backend describes the device behind an endpoint.
#[derive(Debug)]
pub struct EndpointIdentity {
    pub backend: String,
    pub serial: Option<String>,
    pub bus: Option<String>,
    pub vendor: Option<String>,
    pub product: Option<String>,
    pub device_name: Option<String>,
    pub node_name: Option<String>,
    pub profile: Option<String>,
    pub media_class: Option<String>,
    pub alsa_path: Option<String>,
}

impl EndpointIdentity {
    /// An identity of which only the backend is known.
    pub fn new(backend: &str) -> (identity: Self)
        ensures
            identity.backend@ == backend@,
            identity.serial is None,
            identity.bus is None,
            identity.vendor is None,
            identity.product is None,
            identity.device_name is None,
            identity.node_name is None,
            identity.profile is None,
            identity.media_class is None,
            identity.alsa_path is None,
    {
        EndpointIdentity {
            backend: backend.to_owned(),
            serial: None,
            bus: None,
            vendor: None,
            product: None,
            device_name: None,
            node_name: None,
            profile: None,
            media_class: None,
            alsa_path: None,
        }
    }
}

impl Clone for EndpointIdentity {
    fn clone(&self) -> (copy: Self)
        ensures
            copy == *self,
    {
        EndpointIdentity {
            backend: self.backend.clone(),
            serial: copied_text(&self.serial),
            bus: copied_text(&self.bus),
            vendor: copied_text(&self.vendor),
            product: copied_text(&self.product),
            device_name: copied_text(&self.device_name),
            node_name: copied_text(&self.node_name),
            profile: copied_text(&self.profile),
            media_class: copied_text(&self.media_class),
            alsa_path: copied_text(&self.alsa_path),
        }
    }
}

#[derive(Clone, Copy, Debug, PartialEq, Eq, Structural)]
pub enum EndpointType {
    PhysicalInput,
    PhysicalOutput,
    ApplicationInput,
    ApplicationOutput,
    VirtualInput,
    VirtualOutput,
    InternalBus,
}

/// Whether an endpoint of this type can feed a route.
pub open spec fn sources_audio(kind: EndpointType) -> bool {
    kind is PhysicalInput || kind is ApplicationOutput || kind is VirtualInput
        || kind is InternalBus
}

/// Whether an endpoint of this type can end a route.
pub open spec fn receives_audio(kind: EndpointType) -> bool {
    kind is PhysicalOutput || kind is ApplicationInput || kind is VirtualOutput
        || kind is InternalBus
}

/// The name of a type as it stands in messages.
pub open spec fn kind_name(kind: EndpointType) -> Seq<char> {
    match kind {
        EndpointType::PhysicalInput => "PhysicalInput"@,
        EndpointType::PhysicalOutput => "PhysicalOutput"@,
        EndpointType::ApplicationInput => "ApplicationInput"@,
        EndpointType::ApplicationOutput => "ApplicationOutput"@,
        EndpointType::VirtualInput => "VirtualInput"@,
        EndpointType::VirtualOutput => "VirtualOutput"@,
        EndpointType::InternalBus => "InternalBus"@,
    }
}

impl EndpointType {
    pub fn can_source(self) -> (result: bool)
        ensures
            result == sources_audio(self),
    {
        match self {
            EndpointType::PhysicalInput
            | EndpointType::ApplicationOutput
            | EndpointType::VirtualInput
            | EndpointType::InternalBus => true,
            _ => false,
        }
    }

    pub fn can_receive(self) -> (result: bool)
        ensures
            result == receives_audio(self),
    {
        match self {
            EndpointType::PhysicalOutput
            | EndpointType::ApplicationInput
            | EndpointType::VirtualOutput
            | EndpointType::InternalBus => true,
            _ => false,
        }
    }

    /// The name as it stands in messages.
    pub fn name(self) -> (name: &'static str)
        ensures
            name@ == kind_name(self),
    {
        match self {
            EndpointType::PhysicalInput => "PhysicalInput",
            EndpointType::PhysicalOutput => "PhysicalOutput",
            EndpointType::ApplicationInput => "ApplicationInput",
            EndpointType::ApplicationOutput => "ApplicationOutput",
            EndpointType::VirtualInput => "VirtualInput",
            EndpointType::VirtualOutput => "VirtualOutput",
            EndpointType::InternalBus => "InternalBus",
        }
    }
}

/// Only an internal bus both feeds and ends routes.
pub proof fn law_one_direction_but_for_buses(kind: EndpointType)
    ensures
        sources_audio(kind) || receives_audio(kind),
        sources_audio(kind) && receives_audio(kind) <==> kind is InternalBus,
{
}

#[derive(Clone, Copy, Debug, PartialEq, Eq, Structural)]
pub enum EndpointState {
    Available,
    Suspended,
    Idle,
    Running,
    Disconnected,
    Error,
}

/// One audio endpoint. The list of its channels is shared between copies.
#[derive(Debug)]
pub struct AudioEndpoint {
    pub id: EndpointId,
    pub runtime_id: Option<u32>,
    pub device_id: Option<DeviceId>,
    pub virtual_device_id: Option<VirtualDeviceId>,
    pub identity: EndpointIdentity,
    pub name: String,
    pub description: String,
    pub endpoint_type: EndpointType,
    pub state: EndpointState,
    pub channel_count: u32,
    pub sample_rate: Option<u32>,
    pub is_default: bool,
    pub channels: Arc<Vec<ChannelId>>,
    pub gain: GainDb,
    pub muted: bool,
    pub balance: NormalizedBalance,
}

impl AudioEndpoint {
    /// The endpoint in another state.
    pub open spec fn in_state(self, state: EndpointState) -> AudioEndpoint {
        AudioEndpoint { state, ..self }
    }
}

impl Clone for AudioEndpoint {
    fn clone(&self) -> (copy: Self)
        ensures
            copy == *self,
    {
        AudioEndpoint {
            id: self.id,
            runtime_id: self.runtime_id,
            device_id: self.device_id,
            virtual_device_id: self.virtual_device_id,
            identity: self.identity.clone(),
            name: self.name.clone(),
            description: self.description.clone(),
            endpoint_type: self.endpoint_type,
            state: self.state,
            channel_count: self.channel_count,
            sample_rate: self.sample_rate,
            is_default: self.is_default,
            channels: self.channels.clone(),
            gain: self.gain,
            muted: self.muted,
            balance: self.balance,
        }
    }
}

/// Recorders, playing applications and virtual inputs feed routes; players,
/// recording applications and virtual outputs end them. Every kind is named
/// after itself.
pub proof fn law_kinds_have_directions_and_names()
    ensures
        sources_audio(EndpointType::PhysicalInput),
        sources_audio(EndpointType::ApplicationOutput),
        sources_audio(EndpointType::VirtualInput),
        receives_audio(EndpointType::PhysicalOutput),
        receives_audio(EndpointType::ApplicationInput),
        receives_audio(EndpointType::VirtualOutput),
        kind_name(EndpointType::PhysicalInput) == "PhysicalInput"@,
        kind_name(EndpointType::PhysicalOutput) == "PhysicalOutput"@,
        kind_name(EndpointType::ApplicationInput) == "ApplicationInput"@,
        kind_name(EndpointType::ApplicationOutput) == "ApplicationOutput"@,
        kind_name(EndpointType::VirtualInput) == "VirtualInput"@,
        kind_name(EndpointType::VirtualOutput) == "VirtualOutput"@,
        kind_name(EndpointType::InternalBus) == "InternalBus"@,
{
}

} // verus!
