//! The coordinator between the application and the audio backend.
//!
//! It owns the graph. Commands go through it to the backend, backend events
//! go through it to the application; threads and channels are outside.
use vstd::prelude::*;

use crate::backend::driver::CommandStep;
use crate::backend::registry;
use crate::backend::session::Session;
use crate::backend::{BackendCommand, BackendEvent, BackendStatus};
use crate::domain::command::{EngineCommand, EngineCommandKind};
use crate::domain::endpoint::{AudioEndpoint, EndpointState};
use crate::domain::error::{AudioError, ErrorCode, ErrorModel};
use crate::domain::event::{EngineEvent, EngineStatus, GraphDelta, MeterFrame};
use crate::domain::event;
use crate::domain::graph::AudioGraph;
use crate::domain::graph;
use crate::domain::ids::{CommandId, EndpointId, RouteId};
use crate::domain::ids;
use crate::domain::route::{AudioRoute, RouteState};
use crate::realtime::controls::MAX_DELAY_MS;
use crate::scalar::Scalar;
use crate::table::Table;

verus! {

/// How many commands may wait.
pub const COMMAND_CAPACITY: usize = 64;

/// How many events may wait before meter frames are held back.
pub const EVENT_CAPACITY: usize = 256;

/// The engine status for a backend status.
pub open spec fn engine_status(status: BackendStatus) -> EngineStatus {
    match status {
        BackendStatus::Starting => EngineStatus::Starting,
        BackendStatus::Running => EngineStatus::Running,
        BackendStatus::Stopping => EngineStatus::Stopping,
        BackendStatus::Stopped => EngineStatus::Stopped,
    }
}

pub fn map_status(status: BackendStatus) -> (mapped: EngineStatus)
    ensures
        mapped == engine_status(status),
{
    match status {
        BackendStatus::Starting => EngineStatus::Starting,
        BackendStatus::Running => EngineStatus::Running,
        BackendStatus::Stopping => EngineStatus::Stopping,
        BackendStatus::Stopped => EngineStatus::Stopped,
    }
}

/// What a panic said, where it said something in words.
pub fn panic_detail(message: Option<&str>) -> (detail: String)
    ensures
        detail@ == (match message {
            Some(message) => message@,
            None => "unknown panic"@,
        }),
{
    match message {
        Some(message) => message.to_owned(),
        None => "unknown panic".to_owned(),
    }
}

/// The route that a connect command asks for.
pub open spec fn requested_route(
    route_id: RouteId,
    source: EndpointId,
    destination: EndpointId,
) -> AudioRoute {
    AudioRoute { id: route_id, source, destination, state: RouteState::Connecting }
}

/// The backend command for an engine command. Every command has one; whether
/// a connect is refused is decided against the graph.
pub open spec fn backend_command(command: EngineCommand) -> BackendCommand {
    let command_id = command.id;
    match command.kind {
        EngineCommandKind::SetVolume { endpoint_id, gain } => BackendCommand::SetVolume {
            command_id,
            endpoint_id,
            gain,
        },
        EngineCommandKind::SetMute { endpoint_id, muted } => BackendCommand::SetMute {
            command_id,
            endpoint_id,
            muted,
        },
        EngineCommandKind::SetBalance { endpoint_id, balance } => BackendCommand::SetBalance {
            command_id,
            endpoint_id,
            balance,
        },
        EngineCommandKind::Connect { route_id, source, destination } => BackendCommand::Connect {
            command_id,
            route: requested_route(route_id, source, destination),
        },
        EngineCommandKind::Disconnect { route_id } => BackendCommand::Disconnect {
            command_id,
            route_id,
        },
        EngineCommandKind::CreateVirtual { virtual_device_id, endpoint } =>
            BackendCommand::CreateVirtual { command_id, virtual_device_id, endpoint },
        EngineCommandKind::DeleteVirtual { virtual_device_id } => BackendCommand::DeleteVirtual {
            command_id,
            virtual_device_id,
        },
        EngineCommandKind::SetStreamTuning { stream_rate, buffer_frames } =>
            BackendCommand::SetStreamTuning { command_id, stream_rate, buffer_frames },
        EngineCommandKind::SetDelay { endpoint_id, delay_ms } => BackendCommand::SetDelay {
            command_id,
            endpoint_id,
            delay_ms,
        },
        EngineCommandKind::SetEq { endpoint_id, low_db, mid_db, high_db } =>
            BackendCommand::SetEq { command_id, endpoint_id, low_db, mid_db, high_db },
        EngineCommandKind::SetChannelMode { endpoint_id, mode } => BackendCommand::SetChannelMode {
            command_id,
            endpoint_id,
            mode,
        },
        EngineCommandKind::Shutdown => BackendCommand::Shutdown { command_id },
    }
}

/// Why the coordinator refuses a command, if it does: only a connect that the
/// graph does not take.
pub open spec fn command_fault(graph: AudioGraph, command: EngineCommand) -> Option<ErrorModel> {
    match command.kind {
        EngineCommandKind::Connect { route_id, source, destination } => graph::add_fault(
            graph,
            requested_route(route_id, source, destination),
        ),
        _ => None,
    }
}

/// The routes right after a command was accepted: a connect is entered at
/// once, so that later commands see it, and a disconnect is forgotten at once,
/// so that the two endpoints can be joined again.
pub open spec fn routes_after_command(
    routes: Map<RouteId, AudioRoute>,
    kind: EngineCommandKind,
) -> Map<RouteId, AudioRoute> {
    match kind {
        EngineCommandKind::Connect { route_id, source, destination } => routes.insert(
            route_id,
            requested_route(route_id, source, destination),
        ),
        EngineCommandKind::Disconnect { route_id } => routes.remove(route_id),
        _ => routes,
    }
}

/// Turns an engine command into the command for the backend.
pub fn into_backend_command(command: EngineCommand, graph: &mut AudioGraph) -> (result: Result<
    BackendCommand,
    AudioError,
>)
    ensures
        match command_fault(*old(graph), command) {
            None => {
                &&& result == Ok::<BackendCommand, AudioError>(backend_command(command))
                &&& final(graph).routes@ == routes_after_command(old(graph).routes@, command.kind)
                &&& final(graph).endpoints == old(graph).endpoints
            },
            Some(fault) => {
                &&& result is Err
                &&& result->Err_0@ == fault
                &&& *final(graph) == *old(graph)
            },
        },
        old(graph).wf() ==> final(graph).wf(),
        command.kind is SetVolume && result is Ok ==> {
            let forwarded = result->Ok_0;
            &&& forwarded is SetVolume
            &&& forwarded->SetVolume_command_id == command.id
            &&& forwarded->SetVolume_endpoint_id == command.kind->SetVolume_endpoint_id
            &&& forwarded->gain == command.kind->gain
        },
        command.kind is SetMute && result is Ok ==> {
            let forwarded = result->Ok_0;
            &&& forwarded is SetMute
            &&& forwarded->SetMute_command_id == command.id
            &&& forwarded->SetMute_endpoint_id == command.kind->SetMute_endpoint_id
            &&& forwarded->muted == command.kind->muted
        },
        command.kind is SetBalance && result is Ok ==> {
            let forwarded = result->Ok_0;
            &&& forwarded is SetBalance
            &&& forwarded->SetBalance_command_id == command.id
            &&& forwarded->SetBalance_endpoint_id == command.kind->SetBalance_endpoint_id
            &&& forwarded->balance == command.kind->balance
        },
        command.kind is Connect && result is Ok ==> {
            let forwarded = result->Ok_0;
            &&& forwarded is Connect
            &&& forwarded->Connect_command_id == command.id
            &&& forwarded->route.id == command.kind->Connect_route_id
            &&& forwarded->route.source == command.kind->source
            &&& forwarded->route.destination == command.kind->destination
            &&& forwarded->route.state == RouteState::Connecting
        },
        command.kind is SetStreamTuning && result is Ok ==> {
            let forwarded = result->Ok_0;
            &&& forwarded is SetStreamTuning
            &&& forwarded->SetStreamTuning_command_id == command.id
            &&& forwarded->stream_rate == command.kind->stream_rate
            &&& forwarded->buffer_frames == command.kind->buffer_frames
        },
        command.kind is SetDelay && result is Ok ==> {
            let forwarded = result->Ok_0;
            &&& forwarded is SetDelay
            &&& forwarded->SetDelay_command_id == command.id
            &&& forwarded->SetDelay_endpoint_id == command.kind->SetDelay_endpoint_id
            &&& forwarded->delay_ms == command.kind->delay_ms
        },
        command.kind is SetEq && result is Ok ==> {
            let forwarded = result->Ok_0;
            &&& forwarded is SetEq
            &&& forwarded->SetEq_command_id == command.id
            &&& forwarded->SetEq_endpoint_id == command.kind->SetEq_endpoint_id
            &&& forwarded->low_db == command.kind->low_db
            &&& forwarded->mid_db == command.kind->mid_db
            &&& forwarded->high_db == command.kind->high_db
        },
        command.kind is SetChannelMode && result is Ok ==> {
            let forwarded = result->Ok_0;
            &&& forwarded is SetChannelMode
            &&& forwarded->SetChannelMode_command_id == command.id
            &&& forwarded->SetChannelMode_endpoint_id == command.kind->SetChannelMode_endpoint_id
            &&& forwarded->mode == command.kind->mode
        },
{
    let command_id = command.id;
    match command.kind {
        EngineCommandKind::SetVolume { endpoint_id, gain } => Ok(
            BackendCommand::SetVolume { command_id, endpoint_id, gain },
        ),
        EngineCommandKind::SetMute { endpoint_id, muted } => Ok(
            BackendCommand::SetMute { command_id, endpoint_id, muted },
        ),
        EngineCommandKind::SetBalance { endpoint_id, balance } => Ok(
            BackendCommand::SetBalance { command_id, endpoint_id, balance },
        ),
        EngineCommandKind::Connect { route_id, source, destination } => {
            let route = AudioRoute {
                id: route_id,
                source,
                destination,
                state: RouteState::Connecting,
            };
            match graph.add_route(route) {
                Ok(()) => Ok(BackendCommand::Connect { command_id, route }),
                Err(error) => Err(error),
            }
        },
        EngineCommandKind::Disconnect { route_id } => {
            let _forgotten = graph.routes.remove(&route_id);
            Ok(BackendCommand::Disconnect { command_id, route_id })
        },
        EngineCommandKind::CreateVirtual { virtual_device_id, endpoint } => Ok(
            BackendCommand::CreateVirtual { command_id, virtual_device_id, endpoint },
        ),
        EngineCommandKind::DeleteVirtual { virtual_device_id } => Ok(
            BackendCommand::DeleteVirtual { command_id, virtual_device_id },
        ),
        EngineCommandKind::Shutdown => Ok(BackendCommand::Shutdown { command_id }),
        EngineCommandKind::SetStreamTuning { stream_rate, buffer_frames } => Ok(
            BackendCommand::SetStreamTuning { command_id, stream_rate, buffer_frames },
        ),
        EngineCommandKind::SetDelay { endpoint_id, delay_ms } => Ok(
            BackendCommand::SetDelay { command_id, endpoint_id, delay_ms },
        ),
        EngineCommandKind::SetEq { endpoint_id, low_db, mid_db, high_db } => Ok(
            BackendCommand::SetEq { command_id, endpoint_id, low_db, mid_db, high_db },
        ),
        EngineCommandKind::SetChannelMode { endpoint_id, mode } => Ok(
            BackendCommand::SetChannelMode { command_id, endpoint_id, mode },
        ),
    }
}

/// What becomes of an engine command.
#[derive(Debug)]
pub enum CommandOutcome {
    /// It goes to the backend; `shutdown` where it ends the engine.
    Forward { command: BackendCommand, shutdown: bool },
    /// It is refused with this event.
    Refused { event: EngineEvent },
}

/// The connects that wait for the backend, after a command was accepted.
pub open spec fn pending_after_command(
    pending: Map<CommandId, RouteId>,
    command: EngineCommand,
) -> Map<CommandId, RouteId> {
    match command.kind {
        EngineCommandKind::Connect { route_id, .. } => pending.insert(command.id, route_id),
        _ => pending,
    }
}

/// Takes an engine command in: refuses it, or enters it into the graph and
/// hands it on.
pub fn handle_engine_command(
    command: EngineCommand,
    graph: &mut AudioGraph,
    pending_connect_routes: &mut Table<CommandId, RouteId>,
) -> (outcome: CommandOutcome)
    ensures
        match command_fault(*old(graph), command) {
            None => {
                &&& outcome == (CommandOutcome::Forward {
                    command: backend_command(command),
                    shutdown: command.kind is Shutdown,
                })
                &&& final(graph).routes@ == routes_after_command(old(graph).routes@, command.kind)
                &&& final(graph).endpoints == old(graph).endpoints
                &&& final(pending_connect_routes)@ == pending_after_command(
                    old(pending_connect_routes)@,
                    command,
                )
            },
            Some(fault) => {
                &&& outcome is Refused
                &&& outcome->event is Error
                &&& outcome->event->Error_command_id == Some(command.id)
                &&& outcome->event->Error_error@ == fault
                &&& *final(graph) == *old(graph)
                &&& *final(pending_connect_routes) == *old(pending_connect_routes)
            },
        },
        old(graph).wf() ==> final(graph).wf(),
{
    let command_id = command.id;
    let command_route = match &command.kind {
        EngineCommandKind::Connect { route_id, .. } => Some(*route_id),
        _ => None,
    };
    match into_backend_command(command, graph) {
        Err(error) => CommandOutcome::Refused {
            event: EngineEvent::Error { command_id: Some(command_id), error },
        },
        Ok(command) => {
            let shutdown = match &command {
                BackendCommand::Shutdown { .. } => true,
                _ => false,
            };
            if let Some(route_id) = command_route {
                pending_connect_routes.insert(command_id, route_id);
            }
            CommandOutcome::Forward { command, shutdown }
        },
    }
}

/// The updates for the routes that start or end at an endpoint, in order.
pub open spec fn route_updates(
    entries: Seq<(RouteId, AudioRoute)>,
    endpoint: EndpointId,
) -> Seq<EngineEvent>
    decreases entries.len(),
{
    if entries.len() == 0 {
        Seq::empty()
    } else {
        let rest = route_updates(entries.drop_last(), endpoint);
        if entries.last().1.touches(endpoint) {
            rest.push(event::delta_event(GraphDelta::RouteUpdated { route: entries.last().1 }))
        } else {
            rest
        }
    }
}

/// Whether `events` is one error without a command, for this reason.
pub open spec fn one_error(events: Seq<EngineEvent>, reason: ErrorModel) -> bool {
    &&& events.len() == 1
    &&& events[0] is Error
    &&& events[0]->Error_command_id is None
    &&& events[0]->Error_error@ == reason
}

/// What an endpoint that went away does to the graph, and what is told of it.
/// A virtual device of the router is forgotten with its routes; every other
/// endpoint stays, marked as disconnected.
pub open spec fn endpoint_went(
    before: AudioGraph,
    endpoint_id: EndpointId,
    after: AudioGraph,
    outgoing: Seq<EngineEvent>,
) -> bool {
    if !before.endpoints@.contains_key(endpoint_id) {
        &&& after == before
        &&& one_error(
            outgoing,
            graph::graph_fault(
                ErrorCode::EndpointNotFound,
                "That device is no longer available."@,
                "endpoint "@ + ids::hyphenated(endpoint_id.value) + " not found"@,
            ),
        )
    } else if before.endpoints@[endpoint_id].virtual_device_id is Some {
        &&& after.endpoints@ == before.endpoints@.remove(endpoint_id)
        &&& after.routes@ == graph::routes_apart_from(before.routes@, endpoint_id)
        &&& outgoing =~= seq![
            event::delta_event(GraphDelta::EndpointRemoved { endpoint_id }),
        ]
    } else {
        let endpoint = before.endpoints@[endpoint_id].in_state(EndpointState::Disconnected);
        &&& after.endpoints@ == before.endpoints@.insert(endpoint_id, endpoint)
        &&& after.routes@ == before.routes@.map_values(
            |route: AudioRoute| graph::route_after_disconnect(route, endpoint_id),
        )
        &&& outgoing =~= seq![
            event::delta_event(GraphDelta::EndpointUpdated { endpoint }),
        ] + route_updates(after.routes.entries(), endpoint_id)
    }
}

/// What a route from the backend does to the graph, and what is told of it.
pub open spec fn route_came(
    before: AudioGraph,
    route: AudioRoute,
    after: AudioGraph,
    outgoing: Seq<EngineEvent>,
) -> bool {
    match graph::upsert_fault(before, route) {
        Some(fault) => after == before && one_error(outgoing, fault),
        None => {
            &&& after.endpoints == before.endpoints
            &&& after.routes@ == before.routes@.insert(route.id, route)
            &&& outgoing =~= seq![
                event::delta_event(
                    if before.routes@.contains_key(route.id) {
                        GraphDelta::RouteUpdated { route }
                    } else {
                        GraphDelta::RouteAdded { route }
                    },
                ),
            ]
        },
    }
}

/// What a backend event does to the graph, what is told to the application,
/// and whether the backend is done.
pub open spec fn reduced(
    before: AudioGraph,
    event: BackendEvent,
    after: AudioGraph,
    outgoing: Seq<EngineEvent>,
    complete: bool,
) -> bool {
    &&& complete == (event is ShutdownComplete)
    &&& match event {
        BackendEvent::Status { status } => {
            &&& after == before
            &&& outgoing.len() == (if status is Running {
                2int
            } else {
                1
            })
            &&& outgoing[0] == (EngineEvent::Status { status: engine_status(status) })
            &&& status is Running ==> {
                &&& outgoing[1] is Snapshot
                &&& outgoing[1]->graph.endpoints@ == before.endpoints@
                &&& outgoing[1]->graph.routes@ == before.routes@
            }
        },
        BackendEvent::Capabilities { capabilities } => after == before && outgoing =~= seq![
            EngineEvent::Capabilities { capabilities },
        ],
        BackendEvent::EndpointAdded { endpoint } => {
            &&& after.routes == before.routes
            &&& after.endpoints@ == before.endpoints@.insert(endpoint.id, endpoint)
            &&& outgoing =~= seq![
                event::delta_event(
                    if before.endpoints@.contains_key(endpoint.id) {
                        GraphDelta::EndpointUpdated { endpoint }
                    } else {
                        GraphDelta::EndpointAdded { endpoint }
                    },
                ),
            ]
        },
        BackendEvent::EndpointUpdated { endpoint } => {
            &&& after.routes == before.routes
            &&& after.endpoints@ == before.endpoints@.insert(endpoint.id, endpoint)
            &&& outgoing =~= seq![event::delta_event(GraphDelta::EndpointUpdated { endpoint })]
        },
        BackendEvent::EndpointRemoved { endpoint_id } => endpoint_went(
            before,
            endpoint_id,
            after,
            outgoing,
        ),
        BackendEvent::RouteAdded { route } | BackendEvent::RouteUpdated { route } => route_came(
            before,
            route,
            after,
            outgoing,
        ),
        BackendEvent::RouteRemoved { route_id } => {
            &&& after.endpoints == before.endpoints
            &&& after.routes@ == before.routes@.remove(route_id)
            &&& outgoing =~= seq![event::delta_event(GraphDelta::RouteRemoved { route_id })]
        },
        BackendEvent::Meter { frame } => after == before && outgoing =~= seq![
            EngineEvent::Meter { frame },
        ],
        BackendEvent::AudioSettings { rate, quantum, min_quantum, max_quantum } => after == before
            && outgoing =~= seq![
            EngineEvent::AudioSettings { rate, quantum, min_quantum, max_quantum },
        ],
        BackendEvent::CommandCompleted { command_id } => after == before && outgoing =~= seq![
            EngineEvent::CommandCompleted { command_id },
        ],
        BackendEvent::CommandFailed { command_id, error } => after == before && outgoing =~= seq![
            EngineEvent::Error { command_id: Some(command_id), error },
        ],
        BackendEvent::Error { error } => after == before && outgoing =~= seq![
            EngineEvent::Error { command_id: None, error },
        ],
        BackendEvent::ShutdownComplete { command_id } => after == before && outgoing =~= seq![
            EngineEvent::CommandCompleted { command_id },
        ],
    }
}

fn push_route_updates(graph: &AudioGraph, endpoint_id: EndpointId, outgoing: &mut Vec<EngineEvent>)
    ensures
        final(outgoing)@ == old(outgoing)@ + route_updates(graph.routes.entries(), endpoint_id),
{
    let mut at: usize = 0;
    assert(graph.routes.entries().take(0) =~= Seq::<(RouteId, AudioRoute)>::empty());
    while at < graph.routes.len()
        invariant
            at <= graph.routes.entries().len(),
            outgoing@ =~= old(outgoing)@ + route_updates(
                graph.routes.entries().take(at as int),
                endpoint_id,
            ),
        decreases graph.routes.entries().len() - at,
    {
        let route = *graph.routes.value_at(at);
        if route.touches_endpoint(endpoint_id) {
            outgoing.push(
                EngineEvent::Delta { delta: Box::new(GraphDelta::RouteUpdated { route }) },
            );
        }
        at = at + 1;
        proof {
            let entries = graph.routes.entries();
            assert(entries.take(at as int).drop_last() =~= entries.take(at - 1));
            assert(entries.take(at as int).last() == entries[at - 1]);
        }
    }
    assert(graph.routes.entries().take(at as int) =~= graph.routes.entries());
}

fn reduce_endpoint_removed(graph: &mut AudioGraph, endpoint_id: EndpointId) -> (outgoing: Vec<
    EngineEvent,
>)
    ensures
        endpoint_went(*old(graph), endpoint_id, *final(graph), outgoing@),
        old(graph).wf() ==> final(graph).wf(),
{
    let mut outgoing: Vec<EngineEvent> = Vec::new();
    let is_managed_virtual = match graph.endpoints.get(&endpoint_id) {
        Some(endpoint) => endpoint.virtual_device_id.is_some(),
        None => false,
    };
    if is_managed_virtual {
        let _gone = graph.endpoints.remove(&endpoint_id);
        graph.remove_routes_of(endpoint_id);
        outgoing.push(
            EngineEvent::Delta { delta: Box::new(GraphDelta::EndpointRemoved { endpoint_id }) },
        );
    } else {
        match graph.disconnect_endpoint(endpoint_id) {
            Err(error) => {
                outgoing.push(EngineEvent::Error { command_id: None, error });
            },
            Ok(()) => {
                if let Some(endpoint) = graph.endpoints.get(&endpoint_id) {
                    let endpoint = endpoint.clone();
                    outgoing.push(
                        EngineEvent::Delta {
                            delta: Box::new(GraphDelta::EndpointUpdated { endpoint }),
                        },
                    );
                }
                push_route_updates(graph, endpoint_id, &mut outgoing);
            },
        }
    }
    outgoing
}

fn reduce_route(graph: &mut AudioGraph, route: AudioRoute) -> (outgoing: Vec<EngineEvent>)
    ensures
        route_came(*old(graph), route, *final(graph), outgoing@),
        old(graph).wf() ==> final(graph).wf(),
{
    let mut outgoing: Vec<EngineEvent> = Vec::new();
    let is_new = !graph.routes.contains_key(&route.id);
    match graph.upsert_route(route) {
        Ok(()) => {
            let delta = if is_new {
                GraphDelta::RouteAdded { route }
            } else {
                GraphDelta::RouteUpdated { route }
            };
            outgoing.push(EngineEvent::Delta { delta: Box::new(delta) });
        },
        Err(error) => {
            outgoing.push(EngineEvent::Error { command_id: None, error });
        },
    }
    outgoing
}

/// Enters a backend event into the graph. Returns what is told to the
/// application, in order, and whether the backend is done.
pub fn reduce_backend_event(graph: &mut AudioGraph, event: BackendEvent) -> (result: (
    Vec<EngineEvent>,
    bool,
))
    ensures
        reduced(*old(graph), event, *final(graph), result.0@, result.1),
        old(graph).wf() ==> final(graph).wf(),
{
    let mut outgoing: Vec<EngineEvent> = Vec::new();
    let mut shutdown_complete = false;
    match event {
        BackendEvent::Status { status } => {
            outgoing.push(EngineEvent::Status { status: map_status(status) });
            if status == BackendStatus::Running {
                outgoing.push(EngineEvent::Snapshot { graph: graph.clone() });
            }
        },
        BackendEvent::Capabilities { capabilities } => {
            outgoing.push(EngineEvent::Capabilities { capabilities });
        },
        BackendEvent::EndpointAdded { endpoint } => {
            let delta = if graph.endpoints.contains_key(&endpoint.id) {
                GraphDelta::EndpointUpdated { endpoint: endpoint.clone() }
            } else {
                GraphDelta::EndpointAdded { endpoint: endpoint.clone() }
            };
            graph.upsert_endpoint(endpoint);
            outgoing.push(EngineEvent::Delta { delta: Box::new(delta) });
        },
        BackendEvent::EndpointUpdated { endpoint } => {
            graph.upsert_endpoint(endpoint.clone());
            outgoing.push(
                EngineEvent::Delta { delta: Box::new(GraphDelta::EndpointUpdated { endpoint }) },
            );
        },
        BackendEvent::EndpointRemoved { endpoint_id } => {
            outgoing = reduce_endpoint_removed(graph, endpoint_id);
        },
        BackendEvent::RouteAdded { route } => {
            outgoing = reduce_route(graph, route);
        },
        BackendEvent::RouteUpdated { route } => {
            outgoing = reduce_route(graph, route);
        },
        BackendEvent::RouteRemoved { route_id } => {
            let _gone = graph.routes.remove(&route_id);
            outgoing.push(
                EngineEvent::Delta { delta: Box::new(GraphDelta::RouteRemoved { route_id }) },
            );
        },
        BackendEvent::Meter { frame } => {
            outgoing.push(EngineEvent::Meter { frame });
        },
        BackendEvent::AudioSettings { rate, quantum, min_quantum, max_quantum } => {
            outgoing.push(EngineEvent::AudioSettings { rate, quantum, min_quantum, max_quantum });
        },
        BackendEvent::CommandCompleted { command_id } => {
            outgoing.push(EngineEvent::CommandCompleted { command_id });
        },
        BackendEvent::CommandFailed { command_id, error } => {
            outgoing.push(EngineEvent::Error { command_id: Some(command_id), error });
        },
        BackendEvent::Error { error } => {
            outgoing.push(EngineEvent::Error { command_id: None, error });
        },
        BackendEvent::ShutdownComplete { command_id } => {
            outgoing.push(EngineEvent::CommandCompleted { command_id });
            shutdown_complete = true;
        },
    }
    (outgoing, shutdown_complete)
}

/// The connects that still wait for the backend after an event.
pub open spec fn pending_after_event(
    pending: Map<CommandId, RouteId>,
    event: BackendEvent,
) -> Map<CommandId, RouteId> {
    match event {
        BackendEvent::CommandFailed { command_id, .. } => pending.remove(command_id),
        BackendEvent::CommandCompleted { command_id } => pending.remove(command_id),
        BackendEvent::RouteAdded { route } | BackendEvent::RouteUpdated { route } => Map::new(
            |id: CommandId| pending.contains_key(id) && pending[id] != route.id,
            |id: CommandId| pending[id],
        ),
        _ => pending,
    }
}

/// The routes after the entry of a connect that failed was taken back.
pub open spec fn routes_after_rollback(
    routes: Map<RouteId, AudioRoute>,
    pending: Map<CommandId, RouteId>,
    event: BackendEvent,
) -> Map<RouteId, AudioRoute> {
    match event {
        BackendEvent::CommandFailed { command_id, .. } => if pending.contains_key(command_id) {
            routes.remove(pending[command_id])
        } else {
            routes
        },
        _ => routes,
    }
}

/// The state of the coordinator.
#[derive(Debug)]
pub struct Coordinator {
    pub graph: AudioGraph,
    /// Connects that stand in the graph but were not confirmed yet.
    pub pending_connect_routes: Table<CommandId, RouteId>,
    /// Meter frames that were held back, the newest for each endpoint.
    pub pending_meters: Table<EndpointId, MeterFrame>,
    pub shutdown_requested: bool,
}

fn forget_confirmed(pending: &mut Table<CommandId, RouteId>, confirmed: RouteId)
    ensures
        final(pending)@ == Map::new(
            |id: CommandId| old(pending)@.contains_key(id) && old(pending)@[id] != confirmed,
            |id: CommandId| old(pending)@[id],
        ),
{
    let ghost before = pending@;
    let mut at: usize = 0;
    while at < pending.len()
        invariant
            at <= pending.entries().len(),
            before == old(pending)@,
            pending@.submap_of(before),
            forall|key: CommandId| #[trigger]
                before.contains_key(key) && before[key] != confirmed ==> pending@.contains_key(key),
            forall|i: int| 0 <= i < at ==> (#[trigger] pending.entries()[i]).1 != confirmed,
        decreases pending.entries().len() - at,
    {
        if *pending.value_at(at) == confirmed {
            let ghost entries = pending.entries();
            let _confirmed = pending.remove_at(at);
            proof {
                assert forall|i: int| 0 <= i < at implies (#[trigger] pending.entries()[i]).1
                    != confirmed by {
                    assert(pending.entries()[i] == entries[i]);
                }
            }
        } else {
            at = at + 1;
        }
    }
    pending.show_entries();
    proof {
        let kept = Map::new(
            |id: CommandId| before.contains_key(id) && before[id] != confirmed,
            |id: CommandId| before[id],
        );
        assert forall|key: CommandId| #[trigger] pending@.contains_key(key) implies
            kept.contains_key(key) by {
            let i = crate::table::place_of(pending.entries(), key);
            assert(pending.entries()[i].0 == key);
            assert(pending@[key] == pending.entries()[i].1);
            assert(before.contains_key(key));
            assert(before[key] == pending@[key]);
        }
        assert(pending@ =~= kept);
    }
}

impl Coordinator {
    pub fn new() -> (coordinator: Self)
        ensures
            coordinator.graph.wf(),
            coordinator.graph.endpoints@ == Map::<EndpointId, AudioEndpoint>::empty(),
            coordinator.graph.routes@ == Map::<RouteId, AudioRoute>::empty(),
            coordinator.pending_connect_routes@ == Map::<CommandId, RouteId>::empty(),
            coordinator.pending_meters@ == Map::<EndpointId, MeterFrame>::empty(),
            !coordinator.shutdown_requested,
    {
        Coordinator {
            graph: AudioGraph::default(),
            pending_connect_routes: Table::new(),
            pending_meters: Table::new(),
            shutdown_requested: false,
        }
    }

    /// Takes a command of the application in.
    pub fn on_command(&mut self, command: EngineCommand) -> (outcome: CommandOutcome)
        ensures
            match command_fault(old(self).graph, command) {
                None => {
                    &&& outcome == (CommandOutcome::Forward {
                        command: backend_command(command),
                        shutdown: command.kind is Shutdown,
                    })
                    &&& final(self).graph.routes@ == routes_after_command(
                        old(self).graph.routes@,
                        command.kind,
                    )
                    &&& final(self).graph.endpoints == old(self).graph.endpoints
                    &&& final(self).pending_connect_routes@ == pending_after_command(
                        old(self).pending_connect_routes@,
                        command,
                    )
                    &&& final(self).shutdown_requested == (old(self).shutdown_requested
                        || command.kind is Shutdown)
                },
                Some(fault) => {
                    &&& outcome is Refused
                    &&& outcome->event is Error
                    &&& outcome->event->Error_command_id == Some(command.id)
                    &&& outcome->event->Error_error@ == fault
                    &&& final(self).graph == old(self).graph
                    &&& final(self).pending_connect_routes == old(self).pending_connect_routes
                    &&& final(self).shutdown_requested == old(self).shutdown_requested
                },
            },
            final(self).pending_meters == old(self).pending_meters,
            old(self).graph.wf() ==> final(self).graph.wf(),
    {
        let outcome = handle_engine_command(
            command,
            &mut self.graph,
            &mut self.pending_connect_routes,
        );
        if let CommandOutcome::Forward { shutdown: true, .. } = &outcome {
            self.shutdown_requested = true;
        }
        outcome
    }

    /// The application went away. The backend is told to shut down, once.
    pub fn on_commands_closed(&mut self) -> (command: Option<BackendCommand>)
        ensures
            command is Some <==> !old(self).shutdown_requested,
            command matches Some(command) ==> command is Shutdown,
            final(self).shutdown_requested,
            final(self).graph == old(self).graph,
            final(self).pending_connect_routes == old(self).pending_connect_routes,
            final(self).pending_meters == old(self).pending_meters,
    {
        if self.shutdown_requested {
            None
        } else {
            self.shutdown_requested = true;
            Some(BackendCommand::Shutdown { command_id: CommandId::new() })
        }
    }

    /// Takes an event of the backend in. Returns what is told to the
    /// application, in order, and whether the backend is done.
    pub fn on_backend_event(&mut self, event: BackendEvent) -> (result: (Vec<EngineEvent>, bool))
        ensures
            exists|settled: AudioGraph|
                {
                    &&& settled.endpoints == old(self).graph.endpoints
                    &&& settled.routes@ == routes_after_rollback(
                        old(self).graph.routes@,
                        old(self).pending_connect_routes@,
                        event,
                    )
                    &&& !(event is CommandFailed) ==> settled == old(self).graph
                    &&& #[trigger] reduced(settled, event, final(self).graph, result.0@, result.1)
                },
            final(self).pending_connect_routes@ == pending_after_event(
                old(self).pending_connect_routes@,
                event,
            ),
            final(self).pending_meters == old(self).pending_meters,
            final(self).shutdown_requested == old(self).shutdown_requested,
            old(self).graph.wf() ==> final(self).graph.wf(),
    {
        match &event {
            BackendEvent::CommandFailed { command_id, .. } => {
                if let Some(route_id) = self.pending_connect_routes.remove(command_id) {
                    let _rolled_back = self.graph.routes.remove(&route_id);
                }
            },
            BackendEvent::CommandCompleted { command_id } => {
                let _settled = self.pending_connect_routes.remove(command_id);
            },
            BackendEvent::RouteAdded { route } => {
                forget_confirmed(&mut self.pending_connect_routes, route.id);
            },
            BackendEvent::RouteUpdated { route } => {
                forget_confirmed(&mut self.pending_connect_routes, route.id);
            },
            _ => {},
        }
        let ghost settled = self.graph;
        let result = reduce_backend_event(&mut self.graph, event);
        assert(reduced(settled, event, self.graph, result.0@, result.1));
        result
    }

    /// Decides what is sent now, where `queued` events wait already. Under
    /// backpressure only the newest meter frame of an endpoint is kept; every
    /// other event is sent at once.
    pub fn publish_event(&mut self, event: EngineEvent, queued: usize) -> (sent: Option<
        EngineEvent,
    >)
        ensures
            match event {
                EngineEvent::Meter { frame } => if queued >= EVENT_CAPACITY {
                    &&& sent is None
                    &&& final(self).pending_meters@ == old(self).pending_meters@.insert(
                        frame.endpoint_id,
                        frame,
                    )
                } else {
                    &&& sent == Some(event)
                    &&& final(self).pending_meters@ == old(self).pending_meters@.remove(
                        frame.endpoint_id,
                    )
                },
                _ => sent == Some(event) && final(self).pending_meters == old(self).pending_meters,
            },
            final(self).graph == old(self).graph,
            final(self).pending_connect_routes == old(self).pending_connect_routes,
            final(self).shutdown_requested == old(self).shutdown_requested,
    {
        match event {
            EngineEvent::Meter { frame } => {
                if queued >= EVENT_CAPACITY {
                    self.pending_meters.insert(frame.endpoint_id, frame);
                    None
                } else {
                    let _older = self.pending_meters.remove(&frame.endpoint_id);
                    Some(EngineEvent::Meter { frame })
                }
            },
            event => Some(event),
        }
    }

    /// The next meter frame that was held back, once there is room.
    pub fn next_pending_meter(&mut self, queued: usize) -> (event: Option<EngineEvent>)
        ensures
            match event {
                Some(event) => {
                    &&& queued < EVENT_CAPACITY
                    &&& old(self).pending_meters.entries().len() > 0
                    &&& event == (EngineEvent::Meter {
                        frame: old(self).pending_meters.entries()[0].1,
                    })
                    &&& final(self).pending_meters.entries() == old(
                        self).pending_meters.entries().remove(0)
                    &&& final(self).pending_meters@ == old(self).pending_meters@.remove(
                        old(self).pending_meters.entries()[0].0,
                    )
                },
                None => {
                    &&& queued >= EVENT_CAPACITY || old(self).pending_meters.entries().len() == 0
                    &&& final(self).pending_meters == old(self).pending_meters
                },
            },
            final(self).graph == old(self).graph,
            final(self).pending_connect_routes == old(self).pending_connect_routes,
            final(self).shutdown_requested == old(self).shutdown_requested,
    {
        if queued >= EVENT_CAPACITY || self.pending_meters.len() == 0 {
            None
        } else {
            let (_endpoint_id, frame) = self.pending_meters.remove_at(0);
            Some(EngineEvent::Meter { frame })
        }
    }
}

/// A command reaches the backend as it was given: as the same kind of command,
/// under the same identifier, for the same endpoint, route or device, and with
/// exactly its values.
pub proof fn law_a_command_reaches_the_backend_as_it_was_given(command: EngineCommand)
    ensures
        command.kind is SetVolume ==> {
            let forwarded = backend_command(command);
            &&& forwarded is SetVolume
            &&& forwarded->SetVolume_command_id == command.id
            &&& forwarded->SetVolume_endpoint_id == command.kind->SetVolume_endpoint_id
            &&& forwarded->gain == command.kind->gain
        },
        command.kind is SetMute ==> {
            let forwarded = backend_command(command);
            &&& forwarded is SetMute
            &&& forwarded->SetMute_command_id == command.id
            &&& forwarded->SetMute_endpoint_id == command.kind->SetMute_endpoint_id
            &&& forwarded->muted == command.kind->muted
        },
        command.kind is SetBalance ==> {
            let forwarded = backend_command(command);
            &&& forwarded is SetBalance
            &&& forwarded->SetBalance_command_id == command.id
            &&& forwarded->SetBalance_endpoint_id == command.kind->SetBalance_endpoint_id
            &&& forwarded->balance == command.kind->balance
        },
        command.kind is Connect ==> {
            let forwarded = backend_command(command);
            &&& forwarded is Connect
            &&& forwarded->Connect_command_id == command.id
            &&& forwarded->route.id == command.kind->Connect_route_id
            &&& forwarded->route.source == command.kind->source
            &&& forwarded->route.destination == command.kind->destination
            &&& forwarded->route.state == RouteState::Connecting
        },
        command.kind is Disconnect ==> {
            let forwarded = backend_command(command);
            &&& forwarded is Disconnect
            &&& forwarded->Disconnect_command_id == command.id
            &&& forwarded->Disconnect_route_id == command.kind->Disconnect_route_id
        },
        command.kind is CreateVirtual ==> {
            let forwarded = backend_command(command);
            &&& forwarded is CreateVirtual
            &&& forwarded->CreateVirtual_command_id == command.id
            &&& forwarded->CreateVirtual_virtual_device_id
                == command.kind->CreateVirtual_virtual_device_id
            &&& forwarded->endpoint == command.kind->endpoint
        },
        command.kind is DeleteVirtual ==> {
            let forwarded = backend_command(command);
            &&& forwarded is DeleteVirtual
            &&& forwarded->DeleteVirtual_command_id == command.id
            &&& forwarded->DeleteVirtual_virtual_device_id
                == command.kind->DeleteVirtual_virtual_device_id
        },
        command.kind is SetStreamTuning ==> {
            let forwarded = backend_command(command);
            &&& forwarded is SetStreamTuning
            &&& forwarded->SetStreamTuning_command_id == command.id
            &&& forwarded->stream_rate == command.kind->stream_rate
            &&& forwarded->buffer_frames == command.kind->buffer_frames
        },
        command.kind is SetDelay ==> {
            let forwarded = backend_command(command);
            &&& forwarded is SetDelay
            &&& forwarded->SetDelay_command_id == command.id
            &&& forwarded->SetDelay_endpoint_id == command.kind->SetDelay_endpoint_id
            &&& forwarded->delay_ms == command.kind->delay_ms
        },
        command.kind is SetEq ==> {
            let forwarded = backend_command(command);
            &&& forwarded is SetEq
            &&& forwarded->SetEq_command_id == command.id
            &&& forwarded->SetEq_endpoint_id == command.kind->SetEq_endpoint_id
            &&& forwarded->low_db == command.kind->low_db
            &&& forwarded->mid_db == command.kind->mid_db
            &&& forwarded->high_db == command.kind->high_db
        },
        command.kind is SetChannelMode ==> {
            let forwarded = backend_command(command);
            &&& forwarded is SetChannelMode
            &&& forwarded->SetChannelMode_command_id == command.id
            &&& forwarded->SetChannelMode_endpoint_id == command.kind->SetChannelMode_endpoint_id
            &&& forwarded->mode == command.kind->mode
        },
        command.kind is Shutdown ==> {
            let forwarded = backend_command(command);
            &&& forwarded is Shutdown
            &&& forwarded->Shutdown_command_id == command.id
        },
{
}

/// A control that the user sets is the one that the streams follow: after a
/// command has gone through the coordinator and the session, the controls of its
/// endpoint have exactly its value, its other controls and those of every other
/// endpoint are as they were, and the endpoint shows the value.
pub proof fn law_streams_follow_the_command(
    command: EngineCommand,
    before: Session,
    now: u64,
    after: Session,
    step: CommandStep,
    endpoint_id: EndpointId,
    other: EndpointId,
)
    requires
        before.commanded(backend_command(command), now, after, step),
        registry::announces(before.registry.endpoints.entries(), endpoint_id),
        other != endpoint_id,
    ensures
        command.kind matches EngineCommandKind::SetMute { endpoint_id: target, muted } ==> target
            == endpoint_id ==> {
            &&& after.hub.endpoints@.contains_key(endpoint_id)
            &&& after.hub.endpoints@[endpoint_id].mute_setting() == muted
            &&& after.hub.strip_of(endpoint_id).gain == before.hub.strip_of(endpoint_id).gain
            &&& after.hub.strip_of(endpoint_id).balance == before.hub.strip_of(
                endpoint_id,
            ).balance
            &&& after.hub.strip_of(other) == before.hub.strip_of(other)
            &&& after.hub.channels == before.hub.channels
        },
        command.kind matches EngineCommandKind::SetVolume { endpoint_id: target, gain } ==> target
            == endpoint_id ==> {
            &&& after.hub.endpoints@.contains_key(endpoint_id)
            &&& after.hub.endpoints@[endpoint_id].gain_setting().amount() == gain.amount()
            &&& after.hub.strip_of(endpoint_id).muted == before.hub.strip_of(endpoint_id).muted
            &&& after.hub.strip_of(endpoint_id).balance == before.hub.strip_of(
                endpoint_id,
            ).balance
            &&& after.hub.strip_of(other) == before.hub.strip_of(other)
            &&& after.hub.channels == before.hub.channels
        },
        command.kind matches EngineCommandKind::SetBalance { endpoint_id: target, balance } ==> target
            == endpoint_id ==> {
            &&& after.hub.endpoints@.contains_key(endpoint_id)
            &&& after.hub.endpoints@[endpoint_id].balance_setting().amount() == balance.amount()
            &&& after.hub.strip_of(endpoint_id).muted == before.hub.strip_of(endpoint_id).muted
            &&& after.hub.strip_of(endpoint_id).gain == before.hub.strip_of(endpoint_id).gain
            &&& after.hub.strip_of(other) == before.hub.strip_of(other)
            &&& after.hub.channels == before.hub.channels
        },
        command.kind matches EngineCommandKind::SetEq {
            endpoint_id: target,
            low_db,
            mid_db,
            high_db,
        } ==> target
            == endpoint_id ==> {
            &&& after.hub.channels@.contains_key(endpoint_id)
            &&& after.hub.channels@[endpoint_id].eq_low_db == low_db
            &&& after.hub.channels@[endpoint_id].eq_mid_db == mid_db
            &&& after.hub.channels@[endpoint_id].eq_high_db == high_db
            &&& after.hub.channels@[endpoint_id].mode == before.hub.channel_of(endpoint_id).mode
            &&& after.hub.channels@[endpoint_id].delay_ms == before.hub.channel_of(
                endpoint_id,
            ).delay_ms
            &&& after.hub.channel_of(other) == before.hub.channel_of(other)
            &&& after.hub.endpoints == before.hub.endpoints
        },
        command.kind matches EngineCommandKind::SetChannelMode { endpoint_id: target, mode } ==> target
            == endpoint_id ==> {
            &&& after.hub.channels@.contains_key(endpoint_id)
            &&& after.hub.channels@[endpoint_id].mode == mode
            &&& after.hub.channels@[endpoint_id].delay_ms == before.hub.channel_of(
                endpoint_id,
            ).delay_ms
            &&& after.hub.channel_of(other) == before.hub.channel_of(other)
            &&& after.hub.endpoints == before.hub.endpoints
        },
        command.kind matches EngineCommandKind::SetDelay { endpoint_id: target, delay_ms } ==> target
            == endpoint_id ==> {
            let zero = Scalar { bits: 0 };
            let longest = Scalar { bits: MAX_DELAY_MS };
            let set = after.hub.channels@[endpoint_id].delay_ms;
            &&& after.hub.channels@.contains_key(endpoint_id)
            &&& zero.le(delay_ms) && delay_ms.le(longest) ==> set == delay_ms
            &&& delay_ms.lt(zero) ==> set == zero
            &&& longest.lt(delay_ms) ==> set == longest
            &&& after.hub.channels@[endpoint_id].mode == before.hub.channel_of(endpoint_id).mode
            &&& after.hub.channel_of(other) == before.hub.channel_of(other)
            &&& after.hub.endpoints == before.hub.endpoints
        },
        command.kind matches EngineCommandKind::SetStreamTuning { stream_rate, buffer_frames }
            ==> {
            &&& after.hub.stream_rate == stream_rate
            &&& after.hub.buffer_frames == buffer_frames
            &&& after.hub.endpoints == before.hub.endpoints
            &&& after.hub.channels == before.hub.channels
        },
        !(command.kind is SetMute) && !(command.kind is SetVolume) && !(
        command.kind is SetBalance) && !(command.kind is SetEq) && !(
        command.kind is SetChannelMode) && !(command.kind is SetDelay) && !(
        command.kind is SetStreamTuning) ==> after.hub == before.hub,
{
}

/// A connect that the backend fails leaves the routes as they were before it.
pub proof fn law_failed_connect_is_rolled_back(
    graph: AudioGraph,
    pending: Map<CommandId, RouteId>,
    command: EngineCommand,
    error: AudioError,
)
    requires
        command.kind is Connect,
        command_fault(graph, command) is None,
    ensures
        routes_after_rollback(
            routes_after_command(graph.routes@, command.kind),
            pending_after_command(pending, command),
            BackendEvent::CommandFailed { command_id: command.id, error },
        ) == graph.routes@,
{
    assert(routes_after_rollback(
        routes_after_command(graph.routes@, command.kind),
        pending_after_command(pending, command),
        BackendEvent::CommandFailed { command_id: command.id, error },
    ) =~= graph.routes@);
}

/// A route that was confirmed survives the failure of another command, also
/// one with the identifier of the connect that created it.
pub proof fn law_confirmed_route_is_kept(
    routes: Map<RouteId, AudioRoute>,
    pending: Map<CommandId, RouteId>,
    route: AudioRoute,
    later: BackendEvent,
)
    requires
        routes.contains_key(route.id),
        later is CommandFailed,
    ensures
        routes_after_rollback(
            routes,
            pending_after_event(pending, BackendEvent::RouteAdded { route }),
            later,
        ).contains_key(route.id),
{
}

/// Two endpoints that were joined can be joined again right after a
/// disconnect command, before the backend has answered.
pub proof fn law_disconnect_frees_the_pair(
    before: AudioGraph,
    after: AudioGraph,
    gone: RouteId,
    again: EngineCommand,
    route_id: RouteId,
)
    requires
        before.wf(),
        before.routes@.contains_key(gone),
        graph::route_fault(before.endpoints@, before.routes@[gone]) is None,
        after.endpoints == before.endpoints,
        after.routes@ == routes_after_command(
            before.routes@,
            EngineCommandKind::Disconnect { route_id: gone },
        ),
        again.kind == (EngineCommandKind::Connect {
            route_id,
            source: before.routes@[gone].source,
            destination: before.routes@[gone].destination,
        }),
        !after.routes@.contains_key(route_id),
    ensures
        command_fault(after, again) is None,
{
    let route = requested_route(
        route_id,
        before.routes@[gone].source,
        before.routes@[gone].destination,
    );
    assert(graph::route_fault(before.endpoints@, route) is None);
    graph::law_pair_is_free_after_removal(before, after, gone, route);
}

/// A meter frame is never lost to a full queue: it is sent, or it is the frame
/// that waits for its endpoint. Once it is sent no older frame waits.
pub proof fn law_newest_meter_frame_wins(
    before: Map<EndpointId, MeterFrame>,
    frame: MeterFrame,
    queued: usize,
    after: Map<EndpointId, MeterFrame>,
)
    requires
        after == (if queued >= EVENT_CAPACITY {
            before.insert(frame.endpoint_id, frame)
        } else {
            before.remove(frame.endpoint_id)
        }),
    ensures
        after.contains_key(frame.endpoint_id) ==> after[frame.endpoint_id] == frame,
        queued >= EVENT_CAPACITY ==> after.contains_key(frame.endpoint_id),
        forall|other: EndpointId|
            other != frame.endpoint_id ==> (#[trigger] after.contains_key(other)
                <==> before.contains_key(other)),
{
}

/// What the backend says of its status, capabilities, clock, meters and
/// commands reaches the application under the same name and with the same
/// values, and leaves the graph as it is. A running backend is shown the whole
/// graph too, and only the end of a shutdown ends the engine.
pub proof fn law_backend_messages_are_passed_on(
    before: AudioGraph,
    event: BackendEvent,
    after: AudioGraph,
    outgoing: Seq<EngineEvent>,
    complete: bool,
)
    requires
        reduced(before, event, after, outgoing, complete),
    ensures
        complete <==> event is ShutdownComplete,
        event is Status || event is Capabilities || event is Meter || event is AudioSettings
            || event is CommandCompleted || event is CommandFailed || event is Error
            || event is ShutdownComplete ==> after == before,
        event matches BackendEvent::Status { status } ==> {
            &&& outgoing[0] is Status
            &&& outgoing[0]->status is Starting <==> status is Starting
            &&& outgoing[0]->status is Running <==> status is Running
            &&& outgoing[0]->status is Stopping <==> status is Stopping
            &&& outgoing[0]->status is Stopped <==> status is Stopped
            &&& status is Running ==> {
                &&& outgoing.len() == 2
                &&& outgoing[1] is Snapshot
                &&& outgoing[1]->graph.endpoints@ == before.endpoints@
                &&& outgoing[1]->graph.routes@ == before.routes@
            }
            &&& !(status is Running) ==> outgoing.len() == 1
        },
        event matches BackendEvent::Capabilities { capabilities } ==> {
            &&& outgoing.len() == 1
            &&& outgoing[0] is Capabilities
            &&& outgoing[0]->capabilities == capabilities
        },
        event matches BackendEvent::Meter { frame } ==> {
            &&& outgoing.len() == 1
            &&& outgoing[0] is Meter
            &&& outgoing[0]->frame == frame
        },
        event matches BackendEvent::AudioSettings { rate, quantum, min_quantum, max_quantum } ==> {
            &&& outgoing.len() == 1
            &&& outgoing[0] is AudioSettings
            &&& outgoing[0]->rate == rate
            &&& outgoing[0]->quantum == quantum
            &&& outgoing[0]->min_quantum == min_quantum
            &&& outgoing[0]->max_quantum == max_quantum
        },
        event matches BackendEvent::CommandCompleted { command_id } ==> {
            &&& outgoing.len() == 1
            &&& outgoing[0] is CommandCompleted
            &&& outgoing[0]->CommandCompleted_command_id == command_id
        },
        event matches BackendEvent::ShutdownComplete { command_id } ==> {
            &&& outgoing.len() == 1
            &&& outgoing[0] is CommandCompleted
            &&& outgoing[0]->CommandCompleted_command_id == command_id
        },
        event matches BackendEvent::CommandFailed { command_id, error } ==> {
            &&& outgoing.len() == 1
            &&& outgoing[0] is Error
            &&& outgoing[0]->Error_command_id == Some(command_id)
            &&& outgoing[0]->Error_error == error
        },
        event matches BackendEvent::Error { error } ==> {
            &&& outgoing.len() == 1
            &&& outgoing[0] is Error
            &&& outgoing[0]->Error_command_id is None
            &&& outgoing[0]->Error_error == error
        },
{
}

/// An endpoint from the backend stands in the graph as it came, nothing else
/// changes, and the application hears of it: as new where it was unknown. A
/// change of a known one is never told as a new one.
pub proof fn law_endpoints_enter_the_graph(
    before: AudioGraph,
    event: BackendEvent,
    after: AudioGraph,
    outgoing: Seq<EngineEvent>,
    complete: bool,
    came: AudioEndpoint,
    other: EndpointId,
)
    requires
        reduced(before, event, after, outgoing, complete),
        event == (BackendEvent::EndpointAdded { endpoint: came }) || event == (
        BackendEvent::EndpointUpdated { endpoint: came }),
        other != came.id,
    ensures
        after.endpoints@.contains_key(came.id),
        after.endpoints@[came.id] == came,
        after.endpoints@.contains_key(other) == before.endpoints@.contains_key(other),
        before.endpoints@.contains_key(other) ==> after.endpoints@[other]
            == before.endpoints@[other],
        after.routes == before.routes,
        outgoing.len() == 1,
        outgoing[0] is Delta,
        event is EndpointAdded && !before.endpoints@.contains_key(came.id) ==> {
            &&& *outgoing[0]->delta is EndpointAdded
            &&& (*outgoing[0]->delta)->EndpointAdded_endpoint == came
        },
        event is EndpointUpdated || before.endpoints@.contains_key(came.id) ==> {
            &&& *outgoing[0]->delta is EndpointUpdated
            &&& (*outgoing[0]->delta)->EndpointUpdated_endpoint == came
        },
{
}

/// An endpoint that goes away: one of the router's own is forgotten with the
/// routes at either end of it, any other stays with its settings, marked as
/// disconnected as its routes are. The other endpoints and routes are untouched.
pub proof fn law_endpoints_leave_the_graph(
    before: AudioGraph,
    gone: EndpointId,
    after: AudioGraph,
    outgoing: Seq<EngineEvent>,
    complete: bool,
    other: EndpointId,
    route_id: RouteId,
)
    requires
        reduced(
            before,
            BackendEvent::EndpointRemoved { endpoint_id: gone },
            after,
            outgoing,
            complete,
        ),
        other != gone,
    ensures
        after.endpoints@.contains_key(other) == before.endpoints@.contains_key(other),
        before.endpoints@.contains_key(other) ==> after.endpoints@[other]
            == before.endpoints@[other],
        !before.endpoints@.contains_key(gone) ==> {
            &&& after == before
            &&& outgoing.len() == 1
            &&& outgoing[0] is Error
            &&& outgoing[0]->Error_command_id is None
            &&& outgoing[0]->Error_error.code == ErrorCode::EndpointNotFound
        },
        before.endpoints@.contains_key(gone) && before.endpoints@[gone].virtual_device_id is Some
            ==> {
            &&& !after.endpoints@.contains_key(gone)
            &&& after.routes@.contains_key(route_id) <==> before.routes@.contains_key(route_id)
                && before.routes@[route_id].source != gone && before.routes@[route_id].destination
                != gone
            &&& after.routes@.contains_key(route_id) ==> after.routes@[route_id]
                == before.routes@[route_id]
            &&& outgoing.len() == 1
            &&& outgoing[0] is Delta
            &&& *outgoing[0]->delta is EndpointRemoved
            &&& (*outgoing[0]->delta)->endpoint_id == gone
        },
        before.endpoints@.contains_key(gone) && before.endpoints@[gone].virtual_device_id is None
            ==> {
            let kept = after.endpoints@[gone];
            &&& after.endpoints@.contains_key(gone)
            &&& kept.state == EndpointState::Disconnected
            &&& kept == (AudioEndpoint { state: kept.state, ..before.endpoints@[gone] })
            &&& after.routes@.contains_key(route_id) == before.routes@.contains_key(route_id)
            &&& before.routes@.contains_key(route_id) ==> {
                let was = before.routes@[route_id];
                let is = after.routes@[route_id];
                &&& is.id == was.id && is.source == was.source && is.destination == was.destination
                &&& was.source == gone || was.destination == gone ==> is.state
                    == RouteState::Disconnected
                &&& was.source != gone && was.destination != gone ==> is.state == was.state
            }
            &&& outgoing.len() >= 1
            &&& outgoing[0] is Delta
            &&& *outgoing[0]->delta is EndpointUpdated
            &&& (*outgoing[0]->delta)->EndpointUpdated_endpoint == kept
        },
{
}

/// After an endpoint went away, the routes that are told of are exactly those
/// at either end of it, each once and in the order of the graph.
pub proof fn law_lost_routes_are_told_of(
    entries: Seq<(RouteId, AudioRoute)>,
    gone: EndpointId,
)
    ensures
        route_updates(entries, gone) == entries.filter(
            |entry: (RouteId, AudioRoute)| entry.1.source == gone || entry.1.destination == gone,
        ).map_values(
            |entry: (RouteId, AudioRoute)|
                EngineEvent::Delta {
                    delta: Box::new(GraphDelta::RouteUpdated { route: entry.1 }),
                },
        ),
    decreases entries.len(),
{
    reveal(Seq::filter);
    let touched = |entry: (RouteId, AudioRoute)|
        entry.1.source == gone || entry.1.destination == gone;
    let told = |entry: (RouteId, AudioRoute)|
        EngineEvent::Delta { delta: Box::new(GraphDelta::RouteUpdated { route: entry.1 }) };
    if entries.len() > 0 {
        law_lost_routes_are_told_of(entries.drop_last(), gone);
        let rest = entries.drop_last().filter(touched);
        if touched(entries.last()) {
            assert(entries.filter(touched) == rest.push(entries.last()));
            assert(rest.push(entries.last()).map_values(told) =~= rest.map_values(told).push(
                told(entries.last()),
            ));
        } else {
            assert(entries.filter(touched) == rest);
        }
    }
    assert(route_updates(entries, gone) =~= entries.filter(touched).map_values(told));
}

/// A route from the backend either stands in the graph as it came, told as new
/// where its identifier was, or changes nothing and is told as an error. A
/// route that is removed goes alone.
pub proof fn law_routes_enter_and_leave_the_graph(
    before: AudioGraph,
    event: BackendEvent,
    after: AudioGraph,
    outgoing: Seq<EngineEvent>,
    complete: bool,
    other: RouteId,
)
    requires
        reduced(before, event, after, outgoing, complete),
    ensures
        event is RouteAdded || event is RouteUpdated ==> {
            let route = if event is RouteAdded {
                event->RouteAdded_route
            } else {
                event->RouteUpdated_route
            };
            &&& outgoing.len() == 1
            &&& after.endpoints == before.endpoints
            &&& if outgoing[0] is Error {
                &&& after == before
                &&& outgoing[0]->Error_command_id is None
            } else {
                &&& outgoing[0] is Delta
                &&& after.routes@.contains_key(route.id)
                &&& after.routes@[route.id] == route
                &&& other != route.id ==> after.routes@.contains_key(other)
                    == before.routes@.contains_key(other)
                &&& other != route.id && before.routes@.contains_key(other)
                    ==> after.routes@[other] == before.routes@[other]
                &&& if before.routes@.contains_key(route.id) {
                    &&& *outgoing[0]->delta is RouteUpdated
                    &&& (*outgoing[0]->delta)->RouteUpdated_route == route
                } else {
                    &&& *outgoing[0]->delta is RouteAdded
                    &&& (*outgoing[0]->delta)->RouteAdded_route == route
                }
            }
            &&& before.wf() && before.endpoints@.contains_key(route.source)
                && before.endpoints@.contains_key(route.destination)
                && before.endpoints@[route.source].endpoint_type is PhysicalInput
                && before.endpoints@[route.destination].endpoint_type is PhysicalOutput
                && before.routes@.contains_key(route.id) && before.routes@[route.id].source
                == route.source && before.routes@[route.id].destination == route.destination
                ==> outgoing[0] is Delta
        },
        event matches BackendEvent::RouteRemoved { route_id } ==> {
            &&& after.endpoints == before.endpoints
            &&& !after.routes@.contains_key(route_id)
            &&& other != route_id ==> after.routes@.contains_key(other)
                == before.routes@.contains_key(other)
            &&& other != route_id && before.routes@.contains_key(other) ==> after.routes@[other]
                == before.routes@[other]
            &&& outgoing.len() == 1
            &&& outgoing[0] is Delta
            &&& *outgoing[0]->delta is RouteRemoved
            &&& (*outgoing[0]->delta)->route_id == route_id
        },
{
    if event is RouteAdded || event is RouteUpdated {
        let route = if event is RouteAdded {
            event->RouteAdded_route
        } else {
            event->RouteUpdated_route
        };
        assert(route_came(before, route, after, outgoing));
        graph::law_a_route_may_replace_itself(before, route);
    }
}

/// A connect enters its route between its two ends, a disconnect takes its route
/// out, and no other command touches the routes; the other routes stay as they
/// are in any case.
pub proof fn law_commands_change_their_own_route(
    routes: Map<RouteId, AudioRoute>,
    kind: EngineCommandKind,
    other: RouteId,
)
    ensures
        kind matches EngineCommandKind::Connect { route_id, source, destination } ==> {
            let after = routes_after_command(routes, kind);
            &&& after.contains_key(route_id)
            &&& after[route_id].id == route_id
            &&& after[route_id].source == source
            &&& after[route_id].destination == destination
            &&& after[route_id].state == RouteState::Connecting
            &&& other != route_id ==> after.contains_key(other) == routes.contains_key(other)
            &&& other != route_id && routes.contains_key(other) ==> after[other]
                == routes[other]
        },
        kind matches EngineCommandKind::Disconnect { route_id } ==> {
            let after = routes_after_command(routes, kind);
            &&& !after.contains_key(route_id)
            &&& other != route_id ==> after.contains_key(other) == routes.contains_key(other)
            &&& other != route_id && routes.contains_key(other) ==> after[other]
                == routes[other]
        },
        !(kind is Connect) && !(kind is Disconnect) ==> routes_after_command(routes, kind)
            == routes,
{
}

/// A connect waits under its own command until that command is answered or its
/// route is confirmed; what waits under other commands for other routes goes on
/// waiting.
pub proof fn law_a_connect_waits_until_it_is_answered(
    pending: Map<CommandId, RouteId>,
    command: EngineCommand,
    event: BackendEvent,
    other: CommandId,
)
    ensures
        command.kind matches EngineCommandKind::Connect { route_id, .. } ==> {
            let after = pending_after_command(pending, command);
            &&& after.contains_key(command.id)
            &&& after[command.id] == route_id
            &&& other != command.id ==> after.contains_key(other) == pending.contains_key(other)
            &&& other != command.id && pending.contains_key(other) ==> after[other]
                == pending[other]
        },
        !(command.kind is Connect) ==> pending_after_command(pending, command) == pending,
        pending_after_event(pending, event).contains_key(other) <==> {
            &&& pending.contains_key(other)
            &&& event matches BackendEvent::CommandFailed { command_id, .. } ==> command_id
                != other
            &&& event matches BackendEvent::CommandCompleted { command_id } ==> command_id != other
            &&& event matches BackendEvent::RouteAdded { route } ==> pending[other] != route.id
            &&& event matches BackendEvent::RouteUpdated { route } ==> pending[other] != route.id
        },
        pending_after_event(pending, event).contains_key(other) ==> pending_after_event(
            pending,
            event,
        )[other] == pending[other],
{
}

/// Only the failure of a connect that waits takes a route back, and only that
/// one.
pub proof fn law_a_failure_takes_back_its_own_route(
    routes: Map<RouteId, AudioRoute>,
    pending: Map<CommandId, RouteId>,
    event: BackendEvent,
    other: RouteId,
)
    ensures
        !(event is CommandFailed) ==> routes_after_rollback(routes, pending, event) == routes,
        event matches BackendEvent::CommandFailed { command_id, .. } ==> {
            let after = routes_after_rollback(routes, pending, event);
            &&& !pending.contains_key(command_id) ==> after == routes
            &&& pending.contains_key(command_id) ==> !after.contains_key(pending[command_id])
            &&& !(pending.contains_key(command_id) && pending[command_id] == other)
                ==> after.contains_key(other) == routes.contains_key(other)
            &&& after.contains_key(other) ==> after[other] == routes[other]
        },
{
}

/// The coordinator refuses no command but a connect that the graph does not take.
pub proof fn law_only_connects_are_refused(graph: AudioGraph, command: EngineCommand)
    ensures
        !(command.kind is Connect) ==> command_fault(graph, command) is None,
        command.kind matches EngineCommandKind::Connect { route_id, source, destination } ==> {
            let route = AudioRoute {
                id: route_id,
                source,
                destination,
                state: RouteState::Connecting,
            };
            command_fault(graph, command) == graph::add_fault(graph, route)
        },
{
}

} // verus!
