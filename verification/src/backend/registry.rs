//! The objects that the PipeWire server has announced.
use vstd::prelude::*;

use super::pipewire::{
    apply_default, default_node_name, endpoint_from_global, endpoint_state,
    update_endpoint_properties, virtual_error, virtual_id_from_name, DefaultEndpoints, GraphClock,
    NodeState, DEFAULT_VIRTUAL_INPUT_ID, DEFAULT_VIRTUAL_OUTPUT_ID,
};
use super::pipewire;
use super::properties::{parse_property, property_is, property_is_true, Properties};
use super::properties;
use super::BackendEvent;
use crate::domain::endpoint::{AudioEndpoint, EndpointType};
use crate::domain::endpoint;
use crate::domain::error::{AudioError, ErrorModel, ErrorSeverity};
use crate::domain::ids::{uuid_of_text, EndpointId, VirtualDeviceId};
use crate::domain::ids;
use crate::json;
use crate::table::Table;
use crate::table;
use crate::text::{joined, joined3, same_text};
use crate::text;

verus! {

/// What the server says of a port.
#[derive(Debug)]
pub struct PortRecord {
    pub node_id: Option<u32>,
    pub direction: Option<String>,
    pub channel: Option<String>,
    pub monitor: bool,
}

/// What the server says of a link.
#[derive(Clone, Copy, Debug, PartialEq, Eq, Structural)]
pub struct LinkRecord {
    pub output_node: Option<u32>,
    pub output_port: Option<u32>,
    pub input_node: Option<u32>,
    pub input_port: Option<u32>,
}

/// The kind of an announced object.
#[derive(Clone, Copy, Debug, PartialEq, Eq, Structural)]
pub enum ObjectKind {
    Node,
    Device,
    Port,
    Link,
    Factory,
    Metadata,
    Other,
}

/// An object that the server announces.
#[derive(Debug)]
pub struct GlobalObject {
    pub id: u32,
    pub kind: ObjectKind,
    pub props: Option<Properties>,
}

/// What is left to do for an announced object.
#[derive(Debug)]
pub enum GlobalStep {
    Nothing,
    /// Report the endpoint, then listen to the node.
    ListenToNode { event: BackendEvent },
    /// Listen to the default devices.
    ListenToDefaults,
    /// Listen to the clock settings.
    ListenToSettings,
}

/// Everything that is known of the server.
#[derive(Debug)]
pub struct RegistryState {
    pub endpoints: Table<u32, AudioEndpoint>,
    pub metadata_bindings: Table<u32, bool>,
    pub devices: Table<u32, Properties>,
    pub ports: Table<u32, PortRecord>,
    pub links: Table<u32, LinkRecord>,
    pub factories: Table<u32, String>,
    /// The virtual devices that this program created, with their directions.
    pub managed_virtuals: Table<VirtualDeviceId, EndpointType>,
    /// The hidden nodes that feed virtual outputs.
    pub virtual_ingresses: Table<VirtualDeviceId, u32>,
    pub defaults: DefaultEndpoints,
    pub graph_clock: GraphClock,
}

/// Whether `at` is the first place of the endpoint with an identifier.
pub open spec fn first_with_id(
    entries: Seq<(u32, AudioEndpoint)>,
    id: EndpointId,
    at: int,
) -> bool {
    &&& 0 <= at < entries.len()
    &&& entries[at].1.id == id
    &&& forall|i: int| 0 <= i < at ==> (#[trigger] entries[i]).1.id != id
}

/// Whether an endpoint is announced.
pub open spec fn announces(entries: Seq<(u32, AudioEndpoint)>, id: EndpointId) -> bool {
    exists|at: int| first_with_id(entries, id, at)
}

/// The endpoint with an identifier.
pub open spec fn announced(entries: Seq<(u32, AudioEndpoint)>, id: EndpointId) -> AudioEndpoint {
    entries[choose|at: int| first_with_id(entries, id, at)].1
}

/// Whether `at` is the first place of an ingress node.
pub open spec fn first_ingress(entries: Seq<(VirtualDeviceId, u32)>, node: u32, at: int) -> bool {
    &&& 0 <= at < entries.len()
    &&& entries[at].1 == node
    &&& forall|i: int| 0 <= i < at ==> (#[trigger] entries[i]).1 != node
}

/// The virtual device that an ingress node feeds.
pub open spec fn ingress_device(
    entries: Seq<(VirtualDeviceId, u32)>,
    node: u32,
) -> Option<VirtualDeviceId> {
    if exists|at: int| first_ingress(entries, node, at) {
        Some(entries[choose|at: int| first_ingress(entries, node, at)].0)
    } else {
        None
    }
}

/// Whether an endpoint of this virtual device and direction is announced.
pub open spec fn has_virtual_endpoint(
    entries: Seq<(u32, AudioEndpoint)>,
    device: VirtualDeviceId,
    kind: EndpointType,
) -> bool {
    exists|i: int|
        0 <= i < entries.len() && (#[trigger] entries[i]).1.virtual_device_id == Some(device)
            && entries[i].1.endpoint_type == kind
}

/// The updates for the endpoints whose default mark changes, in order.
pub open spec fn default_updates(
    entries: Seq<(u32, AudioEndpoint)>,
    defaults: DefaultEndpoints,
) -> Seq<BackendEvent>
    decreases entries.len(),
{
    if entries.len() == 0 {
        Seq::empty()
    } else {
        let rest = default_updates(entries.drop_last(), defaults);
        let endpoint = pipewire::marked(entries.last().1, defaults);
        if endpoint.is_default != entries.last().1.is_default {
            rest.push(BackendEvent::EndpointUpdated { endpoint })
        } else {
            rest
        }
    }
}

/// The entries with every default mark set.
pub open spec fn marked_entries(
    entries: Seq<(u32, AudioEndpoint)>,
    defaults: DefaultEndpoints,
) -> Seq<(u32, AudioEndpoint)> {
    Seq::new(
        entries.len(),
        |i: int| (entries[i].0, pipewire::marked(entries[i].1, defaults)),
    )
}

/// After the defaults are set, every endpoint is still there under its number, a
/// sink is marked exactly where it has the name of the default sink, a source
/// exactly where it has that of the default source, and an endpoint whose mark
/// changed is reported as it is now.
pub proof fn law_defaults_are_marked_and_reported(
    entries: Seq<(u32, AudioEndpoint)>,
    defaults: DefaultEndpoints,
    at: int,
)
    requires
        0 <= at < entries.len(),
    ensures
        ({
            let before = entries[at].1;
            let after = marked_entries(entries, defaults)[at].1;
            let node = properties::held(before.identity.node_name);
            &&& marked_entries(entries, defaults).len() == entries.len()
            &&& marked_entries(entries, defaults)[at].0 == entries[at].0
            &&& after == (AudioEndpoint { is_default: after.is_default, ..before })
            &&& before.endpoint_type == EndpointType::PhysicalOutput || before.endpoint_type
                == EndpointType::VirtualInput ==> after.is_default == (properties::held(
                defaults.sink,
            ) == node)
            &&& before.endpoint_type == EndpointType::PhysicalInput || before.endpoint_type
                == EndpointType::VirtualOutput ==> after.is_default == (properties::held(
                defaults.source,
            ) == node)
            &&& after.is_default != before.is_default ==> default_updates(
                entries,
                defaults,
            ).contains(BackendEvent::EndpointUpdated { endpoint: after })
        }),
        forall|i: int|
            0 <= i < default_updates(entries, defaults).len() ==> exists|k: int|
                0 <= k < entries.len() && #[trigger] default_updates(entries, defaults)[i] == (
                BackendEvent::EndpointUpdated {
                    endpoint: (#[trigger] marked_entries(entries, defaults)[k]).1,
                }) && marked_entries(entries, defaults)[k].1.is_default
                    != entries[k].1.is_default,
        default_updates(entries, defaults).len() <= entries.len(),
    decreases entries.len(),
{
    let rest = entries.drop_last();
    let last = entries.len() - 1;
    let marks = marked_entries(entries, defaults);
    let before = default_updates(rest, defaults);
    let after = default_updates(entries, defaults);
    assert(marks[last] == (entries[last].0, pipewire::marked(entries[last].1, defaults)));
    if rest.len() > 0 {
        law_defaults_are_marked_and_reported(
            rest,
            defaults,
            if at < last {
                at
            } else {
                0
            },
        );
    }
    if at < last {
        assert(marked_entries(rest, defaults)[at] == marks[at]);
        let event = BackendEvent::EndpointUpdated { endpoint: marks[at].1 };
        if marks[at].1.is_default != entries[at].1.is_default {
            let i = choose|i: int| 0 <= i < before.len() && before[i] == event;
            assert(after[i] == event);
        }
    } else if marks[at].1.is_default != entries[at].1.is_default {
        assert(after[before.len() as int] == (BackendEvent::EndpointUpdated {
            endpoint: marks[at].1,
        }));
    }
    assert forall|i: int| 0 <= i < after.len() implies exists|k: int|
        0 <= k < entries.len() && #[trigger] after[i] == (BackendEvent::EndpointUpdated {
            endpoint: (#[trigger] marks[k]).1,
        }) && marks[k].1.is_default != entries[k].1.is_default by {
        if i < before.len() {
            assert(before[i] == after[i]);
            let k = choose|k: int|
                0 <= k < rest.len() && before[i] == (BackendEvent::EndpointUpdated {
                    endpoint: (#[trigger] marked_entries(rest, defaults)[k]).1,
                }) && marked_entries(rest, defaults)[k].1.is_default != rest[k].1.is_default;
            assert(marked_entries(rest, defaults)[k] == marks[k]);
        } else {
            assert(marks[last].1.is_default != entries[last].1.is_default);
        }
    }
}

/// How many managed virtual devices have a direction.
pub open spec fn count_of_type(entries: Seq<(VirtualDeviceId, EndpointType)>, kind: EndpointType) -> nat
    decreases entries.len(),
{
    if entries.len() == 0 {
        0
    } else {
        count_of_type(entries.drop_last(), kind) + if entries.last().1 == kind {
            1nat
        } else {
            0nat
        }
    }
}

proof fn lemma_two_of_a_type(
    entries: Seq<(VirtualDeviceId, EndpointType)>,
    kind: EndpointType,
    one: int,
)
    requires
        table::distinct_keys(entries),
        0 <= one < entries.len(),
        entries[one].1 == kind,
        count_of_type(entries, kind) > 1,
    ensures
        exists|i: int| 0 <= i < entries.len() && i != one && (#[trigger] entries[i]).1 == kind,
    decreases entries.len(),
{
    let last = entries.len() - 1;
    if entries[last].1 == kind {
        if one != last {
            assert(entries[last].1 == kind);
        } else {
            lemma_some_of_a_type(entries.drop_last(), kind);
            let i = choose|i: int|
                0 <= i < entries.drop_last().len() && (#[trigger] entries.drop_last()[i]).1 == kind;
            assert(entries[i].1 == kind);
        }
    } else {
        assert(table::distinct_keys(entries.drop_last())) by {
            assert forall|i: int, j: int| 0 <= i < j < entries.drop_last().len() implies (
            #[trigger] entries.drop_last()[i]).0 != (#[trigger] entries.drop_last()[j]).0 by {
                assert(entries[i].0 != entries[j].0);
            }
        }
        assert(entries.drop_last()[one] == entries[one]);
        lemma_two_of_a_type(entries.drop_last(), kind, one);
        let i = choose|i: int|
            0 <= i < entries.drop_last().len() && i != one && (
            #[trigger] entries.drop_last()[i]).1 == kind;
        assert(entries[i].1 == kind);
    }
}

proof fn lemma_some_of_a_type(entries: Seq<(VirtualDeviceId, EndpointType)>, kind: EndpointType)
    requires
        count_of_type(entries, kind) > 0,
    ensures
        exists|i: int| 0 <= i < entries.len() && (#[trigger] entries[i]).1 == kind,
    decreases entries.len(),
{
    let last = entries.len() - 1;
    if entries[last].1 == kind {
        assert(entries[last].1 == kind);
    } else {
        lemma_some_of_a_type(entries.drop_last(), kind);
        let i = choose|i: int|
            0 <= i < entries.drop_last().len() && (#[trigger] entries.drop_last()[i]).1 == kind;
        assert(entries[i].1 == kind);
    }
}

/// The virtual device of an ingress node: by its property, or by its name.
pub open spec fn ingress_of(props: Seq<(Seq<char>, Seq<char>)>) -> Option<VirtualDeviceId> {
    let stated = pipewire::virtual_in(properties::property(props, "orion.virtual-device-id"@));
    if stated is Some {
        stated
    } else {
        match properties::property(props, "node.name"@) {
            Some(name) => pipewire::virtual_in(
                text::without_prefix(name, "orion.virtual-output-ingress."@),
            ),
            None => None,
        }
    }
}

/// Whether a node is kept back as the ingress of a virtual output.
pub open spec fn is_ingress(props: Seq<(Seq<char>, Seq<char>)>) -> bool {
    properties::property(props, "orion.virtual-device-role"@) == Some("output-ingress"@)
        || ingress_of(props) is Some
}

fn ingress_device_of(props: &Properties) -> (id: Option<VirtualDeviceId>)
    ensures
        id == ingress_of(props@),
{
    let stated = match props.get("orion.virtual-device-id") {
        Some(value) => match uuid_of_text(value) {
            Some(value) => Some(VirtualDeviceId::from_uuid(value)),
            None => None,
        },
        None => None,
    };
    match stated {
        Some(id) => Some(id),
        None => match props.get("node.name") {
            Some(name) => virtual_id_from_name(name, "orion.virtual-output-ingress."),
            None => None,
        },
    }
}

/// What is to be done so that a virtual device exists.
#[derive(Clone, Copy, Debug, PartialEq, Eq, Structural)]
pub enum VirtualStep {
    /// It is there already.
    AlreadyLive,
    /// Create it; `stale` where what is left of an earlier one is destroyed
    /// first.
    Create { stale: bool },
}

/// A virtual device that is created by default.
#[derive(Debug)]
pub struct VirtualSpec {
    pub id: VirtualDeviceId,
    pub endpoint_type: EndpointType,
    pub name: String,
}

/// Whether this is the virtual input that is always there.
pub open spec fn default_input(spec: VirtualSpec) -> bool {
    &&& spec.id.value == DEFAULT_VIRTUAL_INPUT_ID
    &&& spec.endpoint_type == EndpointType::VirtualInput
    &&& spec.name@ == "Orion Virtual Input 1"@
}

/// Whether this is the virtual output that is always there.
pub open spec fn default_output(spec: VirtualSpec) -> bool {
    &&& spec.id.value == DEFAULT_VIRTUAL_OUTPUT_ID
    &&& spec.endpoint_type == EndpointType::VirtualOutput
    &&& spec.name@ == "Orion Virtual Output 1"@
}

/// The virtual devices that there always are: one for each direction.
pub fn default_virtual_specs() -> (specs: Vec<VirtualSpec>)
    ensures
        specs@.len() == 2,
        default_input(specs@[0]),
        default_output(specs@[1]),
{
    vec![
        VirtualSpec {
            id: VirtualDeviceId::from_uuid(DEFAULT_VIRTUAL_INPUT_ID),
            endpoint_type: EndpointType::VirtualInput,
            name: "Orion Virtual Input 1".to_owned(),
        },
        VirtualSpec {
            id: VirtualDeviceId::from_uuid(DEFAULT_VIRTUAL_OUTPUT_ID),
            endpoint_type: EndpointType::VirtualOutput,
            name: "Orion Virtual Output 1".to_owned(),
        },
    ]
}

/// The same error as a warning that may pass by itself.
pub fn as_warning(error: AudioError) -> (warning: AudioError)
    ensures
        warning == (AudioError { severity: ErrorSeverity::Warning, retryable: true, ..error }),
{
    AudioError {
        code: error.code,
        severity: ErrorSeverity::Warning,
        retryable: true,
        user_message: error.user_message,
        technical_message: error.technical_message,
    }
}

impl RegistryState {
    pub fn new() -> (state: Self)
        ensures
            state.endpoints@ == Map::<u32, AudioEndpoint>::empty(),
            state.managed_virtuals@ == Map::<VirtualDeviceId, EndpointType>::empty(),
            state.virtual_ingresses@ == Map::<VirtualDeviceId, u32>::empty(),
            state.metadata_bindings@ == Map::<u32, bool>::empty(),
            state.devices@ == Map::<u32, Properties>::empty(),
            state.ports@ == Map::<u32, PortRecord>::empty(),
            state.links@ == Map::<u32, LinkRecord>::empty(),
            state.factories@ == Map::<u32, String>::empty(),
            state.defaults.source is None,
            state.defaults.sink is None,
            state.graph_clock.rate is None,
            state.graph_clock.quantum is None,
            state.graph_clock.min_quantum is None,
            state.graph_clock.max_quantum is None,
    {
        RegistryState {
            endpoints: Table::new(),
            metadata_bindings: Table::new(),
            devices: Table::new(),
            ports: Table::new(),
            links: Table::new(),
            factories: Table::new(),
            managed_virtuals: Table::new(),
            virtual_ingresses: Table::new(),
            defaults: DefaultEndpoints { source: None, sink: None },
            graph_clock: GraphClock::unknown(),
        }
    }

    /// The place of the endpoint with an identifier.
    pub fn find_endpoint(&self, id: EndpointId) -> (found: Option<usize>)
        ensures
            match found {
                Some(at) => first_with_id(self.endpoints.entries(), id, at as int) && announced(
                    self.endpoints.entries(),
                    id,
                ) == self.endpoints.entries()[at as int].1,
                None => !announces(self.endpoints.entries(), id),
            },
    {
        let mut at: usize = 0;
        while at < self.endpoints.len()
            invariant
                at <= self.endpoints.entries().len(),
                forall|i: int| 0 <= i < at ==> (#[trigger] self.endpoints.entries()[i]).1.id != id,
            decreases self.endpoints.entries().len() - at,
        {
            if self.endpoints.value_at(at).id == id {
                proof {
                    let entries = self.endpoints.entries();
                    assert(first_with_id(entries, id, at as int));
                    let chosen = choose|k: int| first_with_id(entries, id, k);
                    assert(chosen == at) by {
                        if chosen < at {
                            assert(entries[chosen].1.id != id);
                        }
                        if at < chosen {
                            assert(entries[at as int].1.id != id);
                        }
                    }
                }
                return Some(at);
            }
            at = at + 1;
        }
        None
    }

    /// The endpoint with an identifier.
    pub fn endpoint(&self, id: EndpointId) -> (found: Option<AudioEndpoint>)
        ensures
            match found {
                Some(endpoint) => announces(self.endpoints.entries(), id) && endpoint == announced(
                    self.endpoints.entries(),
                    id,
                ) && endpoint.id == id,
                None => !announces(self.endpoints.entries(), id),
            },
    {
        match self.find_endpoint(id) {
            Some(at) => Some(self.endpoints.value_at(at).clone()),
            None => None,
        }
    }

    /// Takes an announced object in.
    pub fn handle_global(&mut self, global: GlobalObject) -> (step: GlobalStep)
        ensures
            old(self).took_global(global, *final(self), step),
    {
        let GlobalObject { id, kind, props } = global;
        match (kind, props) {
            (ObjectKind::Node, Some(props)) => self.handle_node(id, &props),
            (ObjectKind::Device, Some(props)) => {
                self.devices.insert(id, props);
                GlobalStep::Nothing
            },
            (ObjectKind::Port, Some(props)) => {
                let port = PortRecord {
                    node_id: parse_property(props.get("node.id")),
                    direction: props.get_owned("port.direction"),
                    channel: props.get_owned("audio.channel"),
                    monitor: property_is_true(props.get("port.monitor")),
                };
                self.ports.insert(id, port);
                GlobalStep::Nothing
            },
            (ObjectKind::Link, Some(props)) => {
                let link = LinkRecord {
                    output_node: parse_property(props.get("link.output.node")),
                    output_port: parse_property(props.get("link.output.port")),
                    input_node: parse_property(props.get("link.input.node")),
                    input_port: parse_property(props.get("link.input.port")),
                };
                self.links.insert(id, link);
                GlobalStep::Nothing
            },
            (ObjectKind::Factory, Some(props)) => {
                if let Some(name) = props.get_owned("factory.name") {
                    self.factories.insert(id, name);
                }
                GlobalStep::Nothing
            },
            (ObjectKind::Metadata, Some(props)) => {
                if property_is(props.get("metadata.name"), "settings") {
                    GlobalStep::ListenToSettings
                } else if property_is(props.get("metadata.name"), "default") {
                    GlobalStep::ListenToDefaults
                } else {
                    GlobalStep::Nothing
                }
            },
            _ => GlobalStep::Nothing,
        }
    }

    /// What an announced object means: nodes become endpoints or ingresses,
    /// other objects are noted, and metadata is listened to.
    pub open spec fn took_global(self, global: GlobalObject, after: Self, step: GlobalStep) -> bool {
        match (global.kind, global.props) {
            (ObjectKind::Node, Some(props)) => self.took_node(global.id, props@, after, step),
            (ObjectKind::Device, Some(props)) => {
                &&& step is Nothing
                &&& after == (RegistryState { devices: after.devices, ..self })
                &&& after.devices@ == self.devices@.insert(global.id, props)
            },
            (ObjectKind::Port, Some(props)) => {
                &&& step is Nothing
                &&& after == (RegistryState { ports: after.ports, ..self })
                &&& after.ports@ == self.ports@.insert(global.id, after.ports@[global.id])
                &&& port_of(after.ports@[global.id], props@)
            },
            (ObjectKind::Link, Some(props)) => {
                &&& step is Nothing
                &&& after == (RegistryState { links: after.links, ..self })
                &&& after.links@ == self.links@.insert(global.id, link_of(props@))
            },
            (ObjectKind::Factory, Some(props)) => {
                &&& step is Nothing
                &&& match properties::property(props@, "factory.name"@) {
                    Some(name) => {
                        &&& after == (RegistryState { factories: after.factories, ..self })
                        &&& after.factories@ == self.factories@.insert(
                            global.id,
                            after.factories@[global.id],
                        )
                        &&& after.factories@[global.id]@ == name
                    },
                    None => after == self,
                }
            },
            (ObjectKind::Metadata, props) => after == self && step == metadata_step(props),
            _ => after == self && step is Nothing,
        }
    }

    /// What an announced node means: an ingress is remembered, an endpoint is
    /// entered with its default mark and reported, and other nodes are
    /// ignored.
    pub open spec fn took_node(
        self,
        id: u32,
        props: Seq<(Seq<char>, Seq<char>)>,
        after: Self,
        step: GlobalStep,
    ) -> bool {
        if is_ingress(props) {
            &&& step is Nothing
            &&& match ingress_of(props) {
                Some(device) => {
                    &&& after == (RegistryState {
                        virtual_ingresses: after.virtual_ingresses,
                        ..self
                    })
                    &&& after.virtual_ingresses@ == self.virtual_ingresses@.insert(device, id)
                },
                None => after == self,
            }
        } else if pipewire::offered_type(props) is None {
            step is Nothing && after == self
        } else {
            exists|found: AudioEndpoint| #[trigger] self.entered(found, id, props, after, step)
        }
    }

    /// Whether the endpoint `found` was entered under `id` and reported.
    pub open spec fn entered(
        self,
        found: AudioEndpoint,
        id: u32,
        props: Seq<(Seq<char>, Seq<char>)>,
        after: Self,
        step: GlobalStep,
    ) -> bool {
        let endpoint = pipewire::marked(found, self.defaults);
        &&& pipewire::describes(found, id, props)
        &&& after == (RegistryState { endpoints: after.endpoints, ..self })
        &&& after.endpoints@ == self.endpoints@.insert(id, endpoint)
        &&& step == (GlobalStep::ListenToNode { event: BackendEvent::EndpointAdded { endpoint } })
    }

    fn handle_node(&mut self, id: u32, props: &Properties) -> (step: GlobalStep)
        ensures
            old(self).took_node(id, props@, *final(self), step),
    {
        let ingress = ingress_device_of(props);
        if property_is(props.get("orion.virtual-device-role"), "output-ingress")
            || ingress.is_some() {
            if let Some(device) = ingress {
                self.virtual_ingresses.insert(device, id);
            }
            return GlobalStep::Nothing;
        }
        match endpoint_from_global(id, props) {
            None => GlobalStep::Nothing,
            Some(found) => {
                let mut endpoint = found.clone();
                apply_default(&mut endpoint, &self.defaults);
                self.endpoints.insert(id, endpoint.clone());
                let step = GlobalStep::ListenToNode {
                    event: BackendEvent::EndpointAdded { endpoint },
                };
                assert(old(self).entered(found, id, props@, *self, step));
                step
            },
        }
    }

    /// Remembers that a metadata object is listened to.
    pub fn metadata_bound(&mut self, id: u32)
        ensures
            final(self).metadata_bindings@ == old(self).metadata_bindings@.insert(id, true),
            *final(self) == (RegistryState {
                metadata_bindings: final(self).metadata_bindings,
                ..*old(self)
            }),
    {
        self.metadata_bindings.insert(id, true);
    }

    /// Takes a report of a node over into its endpoint, where there is one.
    pub fn node_info(&mut self, id: u32, state: NodeState, props: Option<&Properties>) -> (event:
        Option<BackendEvent>)
        ensures
            match event {
                None => !old(self).endpoints@.contains_key(id) && *final(self) == *old(self),
                Some(event) => {
                    &&& old(self).endpoints@.contains_key(id)
                    &&& final(self).endpoints@.contains_key(id)
                    &&& event == (BackendEvent::EndpointUpdated {
                        endpoint: final(self).endpoints@[id],
                    })
                    &&& final(self).endpoints@ == old(self).endpoints@.insert(
                        id,
                        final(self).endpoints@[id],
                    )
                    &&& match props {
                        Some(props) => pipewire::follows_properties(
                            old(self).endpoints@[id].in_state(pipewire::state_of_node(state)),
                            final(self).endpoints@[id],
                            props@,
                        ),
                        None => final(self).endpoints@[id] == old(self).endpoints@[id].in_state(
                            pipewire::state_of_node(state),
                        ),
                    }
                },
            },
            *final(self) == (RegistryState { endpoints: final(self).endpoints, ..*old(self) }),
    {
        let mut endpoint = match self.endpoints.get(&id) {
            Some(endpoint) => endpoint.clone(),
            None => {
                return None;
            },
        };
        endpoint.state = endpoint_state(state);
        if let Some(props) = props {
            update_endpoint_properties(&mut endpoint, props);
        }
        self.endpoints.insert(id, endpoint.clone());
        Some(BackendEvent::EndpointUpdated { endpoint })
    }

    /// Takes a change of the default devices in: one of them is named anew, or
    /// all are cleared.
    pub fn default_metadata(&mut self, key: Option<&str>, value: Option<&str>) -> (events: Vec<
        BackendEvent,
    >)
        ensures
            match key {
                None => {
                    &&& final(self).defaults.source is None
                    &&& final(self).defaults.sink is None
                },
                Some(key) => if key@ == "default.audio.source"@ {
                    &&& properties::held(final(self).defaults.source) == pipewire::default_name(
                        properties::shown(value),
                    )
                    &&& final(self).defaults.sink == old(self).defaults.sink
                } else if key@ == "default.audio.sink"@ {
                    &&& properties::held(final(self).defaults.sink) == pipewire::default_name(
                        properties::shown(value),
                    )
                    &&& final(self).defaults.source == old(self).defaults.source
                } else {
                    *final(self) == *old(self) && events@.len() == 0
                },
            },
            key is None || key->0@ == "default.audio.source"@ || key->0@ == "default.audio.sink"@
                ==> {
                &&& final(self).endpoints.entries() == marked_entries(
                    old(self).endpoints.entries(),
                    final(self).defaults,
                )
                &&& events@ == default_updates(
                    old(self).endpoints.entries(),
                    final(self).defaults,
                )
            },
            *final(self) == (RegistryState {
                endpoints: final(self).endpoints,
                defaults: final(self).defaults,
                ..*old(self)
            }),
            key is Some && key->0@ == "default.audio.sink"@ && value is Some ==> forall|i: int|
                0 <= i < old(self).endpoints.entries().len() && (old(
                    self).endpoints.entries()[i].1.endpoint_type == EndpointType::PhysicalOutput
                    || old(self).endpoints.entries()[i].1.endpoint_type
                    == EndpointType::VirtualInput) ==> (#[trigger] final(
                    self).endpoints.entries()[i]).1.is_default == (json::json_text_under(
                    value->0@,
                    "name"@,
                ) == properties::held(old(self).endpoints.entries()[i].1.identity.node_name)),
            key is Some && key->0@ == "default.audio.source"@ && value is Some ==> forall|i: int|
                0 <= i < old(self).endpoints.entries().len() && (old(
                    self).endpoints.entries()[i].1.endpoint_type == EndpointType::PhysicalInput
                    || old(self).endpoints.entries()[i].1.endpoint_type
                    == EndpointType::VirtualOutput) ==> (#[trigger] final(
                    self).endpoints.entries()[i]).1.is_default == (json::json_text_under(
                    value->0@,
                    "name"@,
                ) == properties::held(old(self).endpoints.entries()[i].1.identity.node_name)),
    {
        proof {
            reveal_strlit("default.audio.source");
            reveal_strlit("default.audio.sink");
            assert("default.audio.source"@.len() != "default.audio.sink"@.len());
        }
        match key {
            Some(key) => {
                if same_text(key, "default.audio.source") {
                    self.defaults.source = default_node_name(value);
                } else if same_text(key, "default.audio.sink") {
                    self.defaults.sink = default_node_name(value);
                } else {
                    return Vec::new();
                }
            },
            None => {
                self.defaults = DefaultEndpoints { source: None, sink: None };
            },
        }
        self.refresh_defaults()
    }

    /// Sets every default mark anew and reports the endpoints that changed.
    fn refresh_defaults(&mut self) -> (events: Vec<BackendEvent>)
        ensures
            final(self).endpoints.entries() == marked_entries(
                old(self).endpoints.entries(),
                old(self).defaults,
            ),
            final(self).endpoints@.dom() == old(self).endpoints@.dom(),
            events@ == default_updates(old(self).endpoints.entries(), old(self).defaults),
            *final(self) == (RegistryState { endpoints: final(self).endpoints, ..*old(self) }),
    {
        let ghost before = self.endpoints.entries();
        let ghost domain = self.endpoints@.dom();
        let mut events: Vec<BackendEvent> = Vec::new();
        let mut at: usize = 0;
        assert(before.take(0) =~= Seq::<(u32, AudioEndpoint)>::empty());
        while at < self.endpoints.len()
            invariant
                at <= self.endpoints.entries().len() == before.len(),
                before == old(self).endpoints.entries(),
                domain == old(self).endpoints@.dom(),
                self.endpoints@.dom() == domain,
                *self == (RegistryState { endpoints: self.endpoints, ..*old(self) }),
                forall|i: int|
                    0 <= i < at ==> #[trigger] self.endpoints.entries()[i] == (
                        before[i].0,
                        pipewire::marked(before[i].1, old(self).defaults),
                    ),
                forall|i: int|
                    at <= i < before.len() ==> #[trigger] self.endpoints.entries()[i] == before[i],
                events@ == default_updates(before.take(at as int), old(self).defaults),
            decreases before.len() - at,
        {
            let key = self.endpoints.key_at(at);
            let mut endpoint = self.endpoints.value_at(at).clone();
            let was_default = endpoint.is_default;
            apply_default(&mut endpoint, &self.defaults);
            let changed = endpoint.is_default != was_default;
            self.endpoints.set_at(at, endpoint.clone());
            assert(self.endpoints@.dom() =~= domain);
            if changed {
                events.push(BackendEvent::EndpointUpdated { endpoint });
            }
            at = at + 1;
            proof {
                assert(before.take(at as int).drop_last() =~= before.take(at - 1));
                assert(before.take(at as int).last() == before[at - 1]);
            }
        }
        assert(before.take(at as int) =~= before);
        assert(self.endpoints.entries() =~= marked_entries(before, old(self).defaults));
        events
    }

    /// Takes a clock setting in. Reports the clock once it is known.
    pub fn settings_metadata(&mut self, key: Option<&str>, value: Option<&str>) -> (event: Option<
        BackendEvent,
    >)
        ensures
            *final(self) == (RegistryState { graph_clock: final(self).graph_clock, ..*old(self) }),
            final(self).graph_clock == clock_after(
                old(self).graph_clock,
                properties::shown(key),
                properties::parsed_property(properties::shown(value)),
            ),
            event == (if names_clock(properties::shown(key)) {
                clock_event(final(self).graph_clock)
            } else {
                None
            }),
    {
        let key = match key {
            Some(key) => key,
            None => {
                return None;
            },
        };
        if same_text(key, "clock.rate") {
            self.graph_clock.rate = parse_property(value);
        } else if same_text(key, "clock.quantum") {
            self.graph_clock.quantum = parse_property(value);
        } else if same_text(key, "clock.min-quantum") {
            self.graph_clock.min_quantum = parse_property(value);
        } else if same_text(key, "clock.max-quantum") {
            self.graph_clock.max_quantum = parse_property(value);
        } else {
            return None;
        }
        match self.graph_clock.complete() {
            Some((rate, quantum, min_quantum, max_quantum)) => Some(
                BackendEvent::AudioSettings { rate, quantum, min_quantum, max_quantum },
            ),
            None => None,
        }
    }

    fn find_ingress(&self, node: u32) -> (device: Option<VirtualDeviceId>)
        ensures
            device == ingress_device(self.virtual_ingresses.entries(), node),
    {
        let mut at: usize = 0;
        while at < self.virtual_ingresses.len()
            invariant
                at <= self.virtual_ingresses.entries().len(),
                forall|i: int|
                    0 <= i < at ==> (#[trigger] self.virtual_ingresses.entries()[i]).1 != node,
            decreases self.virtual_ingresses.entries().len() - at,
        {
            if *self.virtual_ingresses.value_at(at) == node {
                proof {
                    let entries = self.virtual_ingresses.entries();
                    assert(first_ingress(entries, node, at as int));
                    let chosen = choose|k: int| first_ingress(entries, node, k);
                    assert(chosen == at) by {
                        if chosen < at {
                            assert(entries[chosen].1 != node);
                        }
                        if at < chosen {
                            assert(entries[at as int].1 != node);
                        }
                    }
                }
                return Some(self.virtual_ingresses.key_at(at));
            }
            at = at + 1;
        }
        None
    }

    /// Takes it in that an object is gone. Returns what is reported, and the
    /// virtual device whose remains are to be destroyed.
    pub fn handle_global_remove(&mut self, id: u32) -> (result: (
        Vec<BackendEvent>,
        Option<VirtualDeviceId>,
    ))
        ensures
            final(self).endpoints@.dom() == old(self).endpoints@.dom().remove(id),
            !old(self).metadata_bindings@.contains_key(id) ==> {
                &&& final(self).endpoints@ == old(self).endpoints@.remove(id)
                &&& final(self).defaults == old(self).defaults
                &&& result.0@ == removal_events(old(self).endpoints@, id)
            },
            old(self).metadata_bindings@.contains_key(id) ==> {
                let cleared = DefaultEndpoints { source: None, sink: None };
                &&& final(self).defaults == cleared
                &&& result.0@ == default_updates(old(self).endpoints.entries(), cleared)
                    + removal_events(old(self).endpoints@, id)
                &&& forall|key: u32| #[trigger]
                    final(self).endpoints@.contains_key(key) ==> final(self).endpoints@[key]
                        == pipewire::marked(old(self).endpoints@[key], cleared)
            },
            final(self).metadata_bindings@ == old(self).metadata_bindings@.remove(id),
            final(self).devices@ == old(self).devices@.remove(id),
            final(self).ports@ == old(self).ports@.remove(id),
            final(self).links@ == old(self).links@.remove(id),
            final(self).factories@ == old(self).factories@.remove(id),
            final(self).graph_clock == old(self).graph_clock,
            final(self).virtual_ingresses@ == (match ingress_device(
                old(self).virtual_ingresses.entries(),
                id,
            ) {
                Some(device) => old(self).virtual_ingresses@.remove(device),
                None => old(self).virtual_ingresses@,
            }),
            ({
                let device = gone_device(*old(self), id);
                match device {
                    Some(device) => {
                        &&& final(self).managed_virtuals@ == old(self).managed_virtuals@.remove(
                            device,
                        )
                        &&& result.1 == (if old(self).managed_virtuals@.contains_key(device) {
                            Some(device)
                        } else {
                            None
                        })
                    },
                    None => {
                        &&& final(self).managed_virtuals == old(self).managed_virtuals
                        &&& result.1 is None
                    },
                }
            }),
    {
        let ghost before = *self;
        self.endpoints.show_entries();
        let _device = self.devices.remove(&id);
        let _port = self.ports.remove(&id);
        let _link = self.links.remove(&id);
        let _factory = self.factories.remove(&id);
        let removed_ingress = self.find_ingress(id);
        if let Some(device) = removed_ingress {
            let _ingress = self.virtual_ingresses.remove(&device);
        }
        let mut events: Vec<BackendEvent> = Vec::new();
        let bound = self.metadata_bindings.remove(&id).is_some();
        if bound {
            self.defaults = DefaultEndpoints { source: None, sink: None };
            events = self.refresh_defaults();
        }
        self.endpoints.show_entries();
        proof {
            if bound {
                let cleared = DefaultEndpoints { source: None, sink: None };
                assert(self.defaults == cleared);
                assert forall|key: u32| #[trigger] self.endpoints@.contains_key(key) implies
                    self.endpoints@[key] == pipewire::marked(
                    before.endpoints@[key],
                    cleared,
                ) by {
                    let i = table::place_of(self.endpoints.entries(), key);
                    assert(self.endpoints.entries()[i].0 == key);
                    assert(before.endpoints.entries()[i].0 == key);
                }
            }
        }
        let ghost middle = self.endpoints@;
        let removed = self.endpoints.remove(&id);
        let mut device = removed_ingress;
        if let Some(endpoint) = &removed {
            if let Some(own) = endpoint.virtual_device_id {
                device = Some(own);
            }
            events.push(BackendEvent::EndpointRemoved { endpoint_id: endpoint.id });
        }
        proof {
            if before.endpoints@.contains_key(id) {
                assert(middle.dom().contains(id));
                assert(middle.contains_key(id));
            } else {
                assert(!middle.dom().contains(id));
            }
            assert(self.endpoints@.dom() =~= before.endpoints@.dom().remove(id));
            assert(events@ =~= (if bound {
                default_updates(
                    before.endpoints.entries(),
                    DefaultEndpoints { source: None, sink: None },
                )
            } else {
                Seq::empty()
            }) + removal_events(before.endpoints@, id));
        }
        let stale = match device {
            Some(device) => if self.managed_virtuals.remove(&device).is_some() {
                Some(device)
            } else {
                None
            },
            None => None,
        };
        (events, stale)
    }

    /// Whether a virtual device is there, with its ingress where it is an
    /// output.
    pub open spec fn is_live(self, device: VirtualDeviceId, kind: EndpointType) -> bool {
        match kind {
            EndpointType::VirtualOutput => has_virtual_endpoint(
                self.endpoints.entries(),
                device,
                kind,
            ) && self.virtual_ingresses@.contains_key(device),
            EndpointType::VirtualInput => has_virtual_endpoint(
                self.endpoints.entries(),
                device,
                kind,
            ),
            _ => false,
        }
    }

    /// Whether a virtual device is there, with its ingress where it is an
    /// output.
    pub fn virtual_is_live(&self, device: VirtualDeviceId, kind: EndpointType) -> (live: bool)
        ensures
            live == self.is_live(device, kind),
    {
        let mut has_endpoint = false;
        let mut at: usize = 0;
        while at < self.endpoints.len()
            invariant
                at <= self.endpoints.entries().len(),
                has_endpoint == (exists|i: int|
                    0 <= i < at && (#[trigger] self.endpoints.entries()[i]).1.virtual_device_id
                        == Some(device) && self.endpoints.entries()[i].1.endpoint_type == kind),
            decreases self.endpoints.entries().len() - at,
        {
            let endpoint = self.endpoints.value_at(at);
            let ghost current = self.endpoints.entries()[at as int];
            assert(current.1 == *endpoint);
            let own = match endpoint.virtual_device_id {
                Some(id) => id == device,
                None => false,
            };
            if own && endpoint.endpoint_type == kind {
                has_endpoint = true;
            }
            at = at + 1;
        }
        match kind {
            EndpointType::VirtualOutput => has_endpoint && self.virtual_ingresses.contains_key(
                &device,
            ),
            EndpointType::VirtualInput => has_endpoint,
            _ => false,
        }
    }

    /// Decides how a virtual device comes to exist, and forgets what is left
    /// of an earlier one.
    pub fn prepare_virtual_node(&mut self, device: VirtualDeviceId, kind: EndpointType) -> (result:
        Result<VirtualStep, AudioError>)
        ensures
            match result {
                Err(error) => {
                    &&& kind != EndpointType::VirtualInput && kind != EndpointType::VirtualOutput
                    &&& error@ == pipewire::virtual_fault(
                        "Only virtual input and output devices can be created."@,
                        "invalid virtual endpoint type "@ + endpoint::kind_name(kind),
                    )
                    &&& *final(self) == *old(self)
                },
                Ok(VirtualStep::AlreadyLive) => {
                    &&& old(self).is_live(device, kind)
                    &&& *final(self) == *old(self)
                },
                Ok(VirtualStep::Create { stale }) => {
                    &&& kind == EndpointType::VirtualInput || kind == EndpointType::VirtualOutput
                    &&& !old(self).is_live(device, kind)
                    &&& stale == old(self).managed_virtuals@.contains_key(device)
                    &&& final(self).managed_virtuals@ == old(self).managed_virtuals@.remove(device)
                    &&& final(self).virtual_ingresses@ == (if stale {
                        old(self).virtual_ingresses@.remove(device)
                    } else {
                        old(self).virtual_ingresses@
                    })
                    &&& *final(self) == (RegistryState {
                        managed_virtuals: final(self).managed_virtuals,
                        virtual_ingresses: final(self).virtual_ingresses,
                        ..*old(self)
                    })
                },
            },
    {
        if kind != EndpointType::VirtualInput && kind != EndpointType::VirtualOutput {
            return Err(
                virtual_error(
                    "Only virtual input and output devices can be created.",
                    joined("invalid virtual endpoint type ", kind.name()).as_str(),
                ),
            );
        }
        if self.virtual_is_live(device, kind) {
            return Ok(VirtualStep::AlreadyLive);
        }
        let stale = self.managed_virtuals.remove(&device).is_some();
        if stale {
            let _ingress = self.virtual_ingresses.remove(&device);
        }
        Ok(VirtualStep::Create { stale })
    }

    /// Remembers a virtual device that was created.
    pub fn virtual_node_created(&mut self, device: VirtualDeviceId, kind: EndpointType)
        ensures
            final(self).managed_virtuals@ == old(self).managed_virtuals@.insert(device, kind),
            *final(self) == (RegistryState {
                managed_virtuals: final(self).managed_virtuals,
                ..*old(self)
            }),
    {
        self.managed_virtuals.insert(device, kind);
    }

    fn count_type(&self, kind: EndpointType) -> (count: usize)
        ensures
            count == count_of_type(self.managed_virtuals.entries(), kind),
    {
        let ghost entries = self.managed_virtuals.entries();
        let mut count: usize = 0;
        let mut at: usize = 0;
        assert(entries.take(0) =~= Seq::<(VirtualDeviceId, EndpointType)>::empty());
        while at < self.managed_virtuals.len()
            invariant
                entries == self.managed_virtuals.entries(),
                at <= entries.len(),
                count <= at,
                count == count_of_type(entries.take(at as int), kind),
            decreases entries.len() - at,
        {
            assert(entries.take(at + 1).drop_last() =~= entries.take(at as int));
            assert(entries.take(at + 1).last() == entries[at as int]);
            if *self.managed_virtuals.value_at(at) == kind {
                count = count + 1;
            }
            at = at + 1;
        }
        assert(entries.take(at as int) =~= entries);
        count
    }

    /// Why a virtual device is not deleted: it is not managed here, or it is the
    /// last of its direction.
    pub open spec fn delete_fault(self, device: VirtualDeviceId) -> Option<ErrorModel> {
        if !self.managed_virtuals@.contains_key(device) {
            Some(
                pipewire::virtual_fault(
                    "The virtual device no longer exists."@,
                    "managed virtual "@ + ids::hyphenated(device.value) + " not found"@,
                ),
            )
        } else if count_of_type(
            self.managed_virtuals.entries(),
            self.managed_virtuals@[device],
        ) <= 1 {
            Some(
                pipewire::virtual_fault(
                    "Orion needs at least one virtual device of each type."@,
                    "refused to delete last required "@ + endpoint::kind_name(
                        self.managed_virtuals@[device],
                    ),
                ),
            )
        } else {
            None
        }
    }

    /// Forgets a virtual device, unless it is the last of its direction.
    pub fn delete_virtual_node(&mut self, device: VirtualDeviceId) -> (result: Result<
        (),
        AudioError,
    >)
        ensures
            match old(self).delete_fault(device) {
                None => {
                    &&& result is Ok
                    &&& final(self).managed_virtuals@ == old(self).managed_virtuals@.remove(device)
                    &&& final(self).virtual_ingresses@ == old(self).virtual_ingresses@.remove(device)
                    &&& exists|other: VirtualDeviceId| #[trigger]
                        final(self).managed_virtuals@.contains_key(other) && final(
                            self).managed_virtuals@[other] == old(self).managed_virtuals@[device]
                    &&& *final(self) == (RegistryState {
                        managed_virtuals: final(self).managed_virtuals,
                        virtual_ingresses: final(self).virtual_ingresses,
                        ..*old(self)
                    })
                },
                Some(fault) => {
                    &&& result is Err
                    &&& result->Err_0@ == fault
                    &&& *final(self) == *old(self)
                },
            },
    {
        let at = match self.managed_virtuals.find(&device) {
            Some(at) => at,
            None => {
                let device_text = device.to_text();
                return Err(
                    virtual_error(
                        "The virtual device no longer exists.",
                        joined3("managed virtual ", device_text.as_str(), " not found").as_str(),
                    ),
                );
            },
        };
        self.managed_virtuals.show_entries();
        let kind = *self.managed_virtuals.value_at(at);
        if self.count_type(kind) <= 1 {
            return Err(
                virtual_error(
                    "Orion needs at least one virtual device of each type.",
                    joined("refused to delete last required ", kind.name()).as_str(),
                ),
            );
        }
        let ghost entries = self.managed_virtuals.entries();
        let _ingress = self.virtual_ingresses.remove(&device);
        let _managed = self.managed_virtuals.remove_at(at);
        proof {
            lemma_two_of_a_type(entries, kind, at as int);
            let i = choose|i: int|
                0 <= i < entries.len() && i != at && (#[trigger] entries[i]).1 == kind;
            let other = entries[i].0;
            assert(old(self).managed_virtuals@.contains_key(other));
            if i < at {
                assert(entries[i].0 != entries[at as int].0);
            } else {
                assert(entries[at as int].0 != entries[i].0);
            }
            assert(self.managed_virtuals@.contains_key(other));
        }
        Ok(())
    }

    /// Forgets every virtual device. Returns those that are to be destroyed.
    pub fn forget_virtuals(&mut self) -> (devices: Vec<VirtualDeviceId>)
        ensures
            devices@.len() == old(self).managed_virtuals.entries().len(),
            forall|i: int|
                0 <= i < devices@.len() ==> #[trigger] devices@[i] == old(
                    self).managed_virtuals.entries()[i].0,
            final(self).managed_virtuals@ == Map::<VirtualDeviceId, EndpointType>::empty(),
            final(self).virtual_ingresses@ == Map::<VirtualDeviceId, u32>::empty(),
            *final(self) == (RegistryState {
                managed_virtuals: final(self).managed_virtuals,
                virtual_ingresses: final(self).virtual_ingresses,
                ..*old(self)
            }),
    {
        let mut devices: Vec<VirtualDeviceId> = Vec::new();
        let mut at: usize = 0;
        while at < self.managed_virtuals.len()
            invariant
                *self == *old(self),
                at <= self.managed_virtuals.entries().len(),
                devices@.len() == at,
                forall|i: int|
                    0 <= i < at ==> #[trigger] devices@[i] == self.managed_virtuals.entries()[i].0,
            decreases self.managed_virtuals.entries().len() - at,
        {
            devices.push(self.managed_virtuals.key_at(at));
            at = at + 1;
        }
        self.managed_virtuals = Table::new();
        self.virtual_ingresses = Table::new();
        devices
    }
}

/// What is to be listened to on a metadata object.
pub open spec fn metadata_step(props: Option<Properties>) -> GlobalStep {
    match props {
        None => GlobalStep::Nothing,
        Some(props) => {
            let name = properties::property(props@, "metadata.name"@);
            if name == Some("settings"@) {
                GlobalStep::ListenToSettings
            } else if name == Some("default"@) {
                GlobalStep::ListenToDefaults
            } else {
                GlobalStep::Nothing
            }
        },
    }
}

/// Whether a record holds what the properties say of a port.
pub open spec fn port_of(port: PortRecord, props: Seq<(Seq<char>, Seq<char>)>) -> bool {
    &&& port.node_id == properties::parsed_property(properties::property(props, "node.id"@))
    &&& properties::held(port.direction) == properties::property(props, "port.direction"@)
    &&& properties::held(port.channel) == properties::property(props, "audio.channel"@)
    &&& port.monitor == properties::says_yes(properties::property(props, "port.monitor"@))
}

/// What the properties say of a link.
pub open spec fn link_of(props: Seq<(Seq<char>, Seq<char>)>) -> LinkRecord {
    LinkRecord {
        output_node: properties::parsed_property(properties::property(props, "link.output.node"@)),
        output_port: properties::parsed_property(properties::property(props, "link.output.port"@)),
        input_node: properties::parsed_property(properties::property(props, "link.input.node"@)),
        input_port: properties::parsed_property(properties::property(props, "link.input.port"@)),
    }
}

/// Whether a setting belongs to the clock.
pub open spec fn names_clock(key: Option<Seq<char>>) -> bool {
    key == Some("clock.rate"@) || key == Some("clock.quantum"@) || key == Some(
        "clock.min-quantum"@,
    ) || key == Some("clock.max-quantum"@)
}

/// The clock after a setting.
pub open spec fn clock_after(
    clock: GraphClock,
    key: Option<Seq<char>>,
    value: Option<u32>,
) -> GraphClock {
    if key == Some("clock.rate"@) {
        GraphClock { rate: value, ..clock }
    } else if key == Some("clock.quantum"@) {
        GraphClock { quantum: value, ..clock }
    } else if key == Some("clock.min-quantum"@) {
        GraphClock { min_quantum: value, ..clock }
    } else if key == Some("clock.max-quantum"@) {
        GraphClock { max_quantum: value, ..clock }
    } else {
        clock
    }
}

/// The report of a clock, once it is known.
pub open spec fn clock_event(clock: GraphClock) -> Option<BackendEvent> {
    match clock.told() {
        Some((rate, quantum, min_quantum, max_quantum)) => Some(
            BackendEvent::AudioSettings { rate, quantum, min_quantum, max_quantum },
        ),
        None => None,
    }
}

/// The report of an endpoint that is gone, where there was one.
pub open spec fn removal_events(endpoints: Map<u32, AudioEndpoint>, id: u32) -> Seq<BackendEvent> {
    if endpoints.contains_key(id) {
        seq![BackendEvent::EndpointRemoved { endpoint_id: endpoints[id].id }]
    } else {
        Seq::empty()
    }
}

/// The virtual device to which a gone object belonged.
pub open spec fn gone_device(state: RegistryState, id: u32) -> Option<VirtualDeviceId> {
    let own = if state.endpoints@.contains_key(id) {
        state.endpoints@[id].virtual_device_id
    } else {
        None
    };
    if own is Some {
        own
    } else {
        ingress_device(state.virtual_ingresses.entries(), id)
    }
}

/// An endpoint that stands somewhere in the list is announced, and what is
/// announced of it is the first entry with its identifier.
pub proof fn lemma_announced_somewhere(
    entries: Seq<(u32, AudioEndpoint)>,
    id: EndpointId,
    at: int,
)
    requires
        0 <= at < entries.len(),
        entries[at].1.id == id,
    ensures
        announces(entries, id),
        announced(entries, id).id == id,
        (forall|i: int| 0 <= i < at ==> (#[trigger] entries[i]).1.id != id) ==> announced(
            entries,
            id,
        ) == entries[at].1,
    decreases at,
{
    if exists|i: int| 0 <= i < at && (#[trigger] entries[i]).1.id == id {
        let i = choose|i: int| 0 <= i < at && (#[trigger] entries[i]).1.id == id;
        lemma_announced_somewhere(entries, id, i);
    } else {
        assert(first_with_id(entries, id, at));
        let chosen = choose|k: int| first_with_id(entries, id, k);
        assert(chosen == at) by {
            if chosen < at {
                assert(entries[chosen].1.id != id);
            }
            if at < chosen {
                assert(entries[at].1.id != id);
            }
        }
    }
}

/// Each setting of the clock is entered in its own place and leaves the other
/// three alone; a setting of something else changes nothing. The report holds
/// the four values in their order.
pub proof fn law_clock_settings_are_entered(
    clock: GraphClock,
    key: Option<Seq<char>>,
    value: Option<u32>,
)
    ensures
        key == Some("clock.rate"@) ==> clock_after(clock, key, value) == (GraphClock {
            rate: value,
            ..clock
        }),
        key == Some("clock.quantum"@) ==> clock_after(clock, key, value) == (GraphClock {
            quantum: value,
            ..clock
        }),
        key == Some("clock.min-quantum"@) ==> clock_after(clock, key, value) == (GraphClock {
            min_quantum: value,
            ..clock
        }),
        key == Some("clock.max-quantum"@) ==> clock_after(clock, key, value) == (GraphClock {
            max_quantum: value,
            ..clock
        }),
        names_clock(key) <==> key == Some("clock.rate"@) || key == Some("clock.quantum"@) || key
            == Some("clock.min-quantum"@) || key == Some("clock.max-quantum"@),
        !names_clock(key) ==> clock_after(clock, key, value) == clock,
        clock_event(clock) is Some <==> clock.rate is Some && clock.quantum is Some,
        clock_event(clock) matches Some(event) ==> {
            &&& event is AudioSettings
            &&& Some(event->rate) == clock.rate
            &&& Some(event->quantum) == clock.quantum
            &&& event->min_quantum == (if clock.min_quantum is Some {
                clock.min_quantum->0
            } else {
                32
            })
            &&& event->max_quantum == (if clock.max_quantum is Some {
                clock.max_quantum->0
            } else {
                8192
            })
        },
{
    reveal_strlit("clock.rate");
    reveal_strlit("clock.quantum");
    reveal_strlit("clock.min-quantum");
    reveal_strlit("clock.max-quantum");
    assert("clock.rate"@.len() == 10 && "clock.quantum"@.len() == 13);
    assert("clock.min-quantum"@.len() == 17 && "clock.max-quantum"@.len() == 17);
    assert("clock.min-quantum"@[7] == 'i' && "clock.max-quantum"@[7] == 'a');
}

/// Ports and links are noted as the server describes them, each side of a link
/// under its own key.
pub proof fn law_ports_and_links_are_noted(
    port: PortRecord,
    props: Seq<(Seq<char>, Seq<char>)>,
)
    requires
        port_of(port, props),
    ensures
        port.node_id == properties::parsed_property(properties::property(props, "node.id"@)),
        properties::held(port.direction) == properties::property(props, "port.direction"@),
        properties::held(port.channel) == properties::property(props, "audio.channel"@),
        port.monitor == properties::says_yes(properties::property(props, "port.monitor"@)),
        link_of(props).output_node == properties::parsed_property(
            properties::property(props, "link.output.node"@),
        ),
        link_of(props).output_port == properties::parsed_property(
            properties::property(props, "link.output.port"@),
        ),
        link_of(props).input_node == properties::parsed_property(
            properties::property(props, "link.input.node"@),
        ),
        link_of(props).input_port == properties::parsed_property(
            properties::property(props, "link.input.port"@),
        ),
{
}

/// The metadata named after the settings is listened to for the clock, the one
/// named after the defaults for the default devices, and no other.
pub proof fn law_two_kinds_of_metadata_are_heard(props: Properties)
    ensures
        ({
            let name = properties::property(props@, "metadata.name"@);
            let step = metadata_step(Some(props));
            &&& step is ListenToSettings <==> name == Some("settings"@)
            &&& step is ListenToDefaults <==> name == Some("default"@)
            &&& step is Nothing <==> name != Some("settings"@) && name != Some("default"@)
        }),
        metadata_step(None) is Nothing,
{
    reveal_strlit("settings");
    reveal_strlit("default");
    assert("settings"@.len() == 8 && "default"@.len() == 7);
}

/// What the server announces is noted where it belongs and nowhere else: a
/// node of a virtual output's ingress under its device, any other node that is
/// offered as an endpoint under its number, and every other object in its own
/// list.
pub proof fn law_announcements_are_noted_in_place(
    before: RegistryState,
    global: GlobalObject,
    after: RegistryState,
    step: GlobalStep,
    other: u32,
)
    requires
        before.took_global(global, after, step),
        other != global.id,
    ensures
        after.defaults == before.defaults,
        after.graph_clock == before.graph_clock,
        after.managed_virtuals == before.managed_virtuals,
        after.metadata_bindings == before.metadata_bindings,
        after.endpoints@.contains_key(other) == before.endpoints@.contains_key(other),
        before.endpoints@.contains_key(other) ==> after.endpoints@[other]
            == before.endpoints@[other],
        global.kind != ObjectKind::Node ==> after.endpoints == before.endpoints
            && after.virtual_ingresses == before.virtual_ingresses,
        global.kind != ObjectKind::Link ==> after.links == before.links,
        global.kind != ObjectKind::Port ==> after.ports == before.ports,
        global.kind != ObjectKind::Device ==> after.devices == before.devices,
        global.kind != ObjectKind::Factory ==> after.factories == before.factories,
        global.kind == ObjectKind::Link && global.props is Some ==> after.links@.contains_key(
            global.id,
        ),
        global.kind == ObjectKind::Device && global.props is Some
            ==> after.devices@.contains_key(global.id) && after.devices@[global.id]
            == global.props->0,
        step is ListenToNode ==> {
            &&& global.kind == ObjectKind::Node
            &&& after.endpoints@.contains_key(global.id)
            &&& after.endpoints@[global.id].runtime_id == Some(global.id)
            &&& step->event is EndpointAdded
            &&& step->event->EndpointAdded_endpoint == after.endpoints@[global.id]
            &&& after.virtual_ingresses == before.virtual_ingresses
        },
        global.kind == ObjectKind::Node && !(step is ListenToNode) ==> after.endpoints
            == before.endpoints,
{
}

/// The ingress of a virtual output is known by its property or by its name,
/// and is never offered as an endpoint.
pub proof fn law_an_ingress_is_kept_back(
    before: RegistryState,
    id: u32,
    props: Seq<(Seq<char>, Seq<char>)>,
    after: RegistryState,
    step: GlobalStep,
    device: VirtualDeviceId,
)
    requires
        before.took_node(id, props, after, step),
        properties::property(props, "orion.virtual-device-role"@) == Some("output-ingress"@) || (
        properties::property(props, "orion.virtual-device-id"@) is Some && ids::uuid_in_text(
            properties::property(props, "orion.virtual-device-id"@)->0,
        ) is Some),
    ensures
        step is Nothing,
        after.endpoints == before.endpoints,
        properties::property(props, "orion.virtual-device-id"@) is Some && ids::uuid_in_text(
            properties::property(props, "orion.virtual-device-id"@)->0,
        ) == Some(device.value) ==> {
            &&& after.virtual_ingresses@.contains_key(device)
            &&& after.virtual_ingresses@[device] == id
        },
{
}

/// An object that is gone is reported as an endpoint only where it was one,
/// under the identifier of that endpoint.
pub proof fn law_a_gone_node_is_reported(endpoints: Map<u32, AudioEndpoint>, id: u32)
    ensures
        endpoints.contains_key(id) ==> {
            &&& removal_events(endpoints, id).len() == 1
            &&& removal_events(endpoints, id)[0] is EndpointRemoved
            &&& removal_events(endpoints, id)[0]->endpoint_id == endpoints[id].id
        },
        !endpoints.contains_key(id) ==> removal_events(endpoints, id).len() == 0,
{
}

/// A virtual input is live where an endpoint of it is announced, a virtual
/// output where its ingress is there besides.
pub proof fn law_a_virtual_output_needs_its_ingress(
    state: RegistryState,
    device: VirtualDeviceId,
)
    ensures
        state.is_live(device, EndpointType::VirtualInput) <==> exists|i: int|
            0 <= i < state.endpoints.entries().len() && (
            #[trigger] state.endpoints.entries()[i]).1.virtual_device_id == Some(device)
                && state.endpoints.entries()[i].1.endpoint_type is VirtualInput,
        state.is_live(device, EndpointType::VirtualOutput) <==> {
            &&& state.virtual_ingresses@.contains_key(device)
            &&& exists|i: int|
                0 <= i < state.endpoints.entries().len() && (
                #[trigger] state.endpoints.entries()[i]).1.virtual_device_id == Some(device)
                    && state.endpoints.entries()[i].1.endpoint_type is VirtualOutput
        },
        !state.is_live(device, EndpointType::PhysicalInput),
        !state.is_live(device, EndpointType::PhysicalOutput),
{
}

/// A virtual device is deleted exactly where it is managed and another of its
/// direction is left.
pub proof fn law_one_of_each_direction_stays(
    state: RegistryState,
    device: VirtualDeviceId,
    at: int,
)
    requires
        table::distinct_keys(state.managed_virtuals.entries()),
        0 <= at < state.managed_virtuals.entries().len(),
        state.managed_virtuals.entries()[at].0 == device,
    ensures
        state.delete_fault(device) is None <==> exists|i: int|
            0 <= i < state.managed_virtuals.entries().len() && i != at && (
            #[trigger] state.managed_virtuals.entries()[i]).1
                == state.managed_virtuals.entries()[at].1,
{
    let entries = state.managed_virtuals.entries();
    let kind = entries[at].1;
    table::law_the_map_is_what_the_entries_say(entries, at, device);
    lemma_counted(entries, kind, at);
    if count_of_type(entries, kind) > 1 {
        lemma_two_of_a_type(entries, kind, at);
    }
    if exists|i: int| 0 <= i < entries.len() && i != at && (#[trigger] entries[i]).1 == kind {
        let i = choose|i: int|
            0 <= i < entries.len() && i != at && (#[trigger] entries[i]).1 == kind;
        lemma_counted_twice(entries, kind, at, i);
    }
}

proof fn lemma_counted(
    entries: Seq<(VirtualDeviceId, EndpointType)>,
    kind: EndpointType,
    at: int,
)
    requires
        0 <= at < entries.len(),
        entries[at].1 == kind,
    ensures
        count_of_type(entries, kind) >= 1,
    decreases entries.len(),
{
    if at < entries.len() - 1 {
        lemma_counted(entries.drop_last(), kind, at);
    }
}

proof fn lemma_counted_twice(
    entries: Seq<(VirtualDeviceId, EndpointType)>,
    kind: EndpointType,
    one: int,
    other: int,
)
    requires
        0 <= one < entries.len(),
        0 <= other < entries.len(),
        one != other,
        entries[one].1 == kind,
        entries[other].1 == kind,
    ensures
        count_of_type(entries, kind) >= 2,
    decreases entries.len(),
{
    let last = entries.len() - 1;
    if one == last {
        lemma_counted(entries.drop_last(), kind, other);
    } else if other == last {
        lemma_counted(entries.drop_last(), kind, one);
    } else {
        lemma_counted_twice(entries.drop_last(), kind, one, other);
    }
}

/// The virtual devices that there always are: one input and one output, each
/// under its own identifier and name.
pub proof fn law_the_default_virtual_devices(input: VirtualSpec, output: VirtualSpec)
    requires
        default_input(input),
        default_output(output),
    ensures
        input.endpoint_type is VirtualInput,
        output.endpoint_type is VirtualOutput,
        input.name@ == "Orion Virtual Input 1"@,
        output.name@ == "Orion Virtual Output 1"@,
        input.id != output.id,
{
}

/// The kinds of devices are counted one by one.
pub proof fn law_devices_are_counted_by_kind(
    entries: Seq<(VirtualDeviceId, EndpointType)>,
    kind: EndpointType,
)
    ensures
        count_of_type(entries, kind) == entries.filter(
            |entry: (VirtualDeviceId, EndpointType)| entry.1 == kind,
        ).len(),
    decreases entries.len(),
{
    reveal(Seq::filter);
    if entries.len() > 0 {
        law_devices_are_counted_by_kind(entries.drop_last(), kind);
    }
}

/// An ingress says which device it feeds, or its name does; a node that says that
/// it has that role is one in any case.
pub proof fn law_an_ingress_names_its_device(props: Seq<(Seq<char>, Seq<char>)>)
    ensures
        ({
            let stated = pipewire::virtual_in(
                properties::property(props, "orion.virtual-device-id"@),
            );
            let name = properties::property(props, "node.name"@);
            &&& stated is Some ==> ingress_of(props) == stated
            &&& stated is None && name is None ==> ingress_of(props) is None
            &&& stated is None && name is Some ==> ingress_of(props) == pipewire::virtual_in(
                text::without_prefix(name->0, "orion.virtual-output-ingress."@),
            )
            &&& is_ingress(props) <==> ingress_of(props) is Some || properties::property(
                props,
                "orion.virtual-device-role"@,
            ) == Some("output-ingress"@)
        }),
{
}

/// A node that is announced stands under its number with its default mark, and
/// nothing else changes.
pub proof fn law_an_announced_node_is_entered(
    before: RegistryState,
    found: AudioEndpoint,
    id: u32,
    props: Seq<(Seq<char>, Seq<char>)>,
    after: RegistryState,
    step: GlobalStep,
    other: u32,
)
    requires
        before.entered(found, id, props, after, step),
        other != id,
    ensures
        after.endpoints@.contains_key(id),
        after.endpoints@[id].id == found.id,
        after.endpoints@[id] == pipewire::marked(found, before.defaults),
        after.endpoints@.contains_key(other) == before.endpoints@.contains_key(other),
        before.endpoints@.contains_key(other) ==> after.endpoints@[other]
            == before.endpoints@[other],
        after == (RegistryState { endpoints: after.endpoints, ..before }),
        step is ListenToNode,
        step->event is EndpointAdded,
        step->event->EndpointAdded_endpoint == after.endpoints@[id],
{
}

/// The device that an ingress feeds is the first that is noted for its node; a
/// node that is noted for none feeds none.
pub proof fn law_the_first_ingress_of_a_node_counts(
    entries: Seq<(VirtualDeviceId, u32)>,
    node: u32,
    at: int,
)
    requires
        0 <= at <= entries.len(),
        at < entries.len() ==> entries[at].1 == node,
        forall|i: int| 0 <= i < at ==> (#[trigger] entries[i]).1 != node,
    ensures
        at < entries.len() ==> ingress_device(entries, node) == Some(entries[at].0),
        at == entries.len() ==> ingress_device(entries, node) is None,
{
    if at < entries.len() {
        assert(first_ingress(entries, node, at));
        let found = choose|k: int| first_ingress(entries, node, k);
        assert(found == at) by {
            if found < at {
                assert(entries[found].1 != node);
            } else if at < found {
                assert(entries[at].1 != node);
            }
        }
    } else {
        assert(forall|k: int|
            #[trigger] first_ingress(entries, node, k) ==> entries[k].1 == node);
    }
}

} // verus!
