//! The decisions of the PipeWire backend: what each command and each tick of
//! its loop means for the server, the streams and the engine.
//!
//! Times are in milliseconds on a clock that does not run backwards.
use vstd::prelude::*;

use super::pipewire::route_command_error;
use super::pipewire;
use super::registry::RegistryState;
use super::registry;
use super::runtimes::{LinkPlan, Runtimes};
use super::runtimes;
use super::{BackendEvent, EndpointChange};
use crate::domain::controls::MeterLevel;
use crate::domain::endpoint::{AudioEndpoint, EndpointType};
use crate::domain::endpoint;
use crate::domain::error::{AudioError, ErrorCode, ErrorModel};
use crate::domain::event::MeterFrame;
use crate::domain::ids::{ChannelId, CommandId, EndpointId, RouteId};
use crate::domain::ids;
use crate::domain::route::{AudioRoute, RouteState};
use crate::realtime::controls::{ControlHub, StripSettings};
use crate::scalar::Scalar;
use crate::table::Table;
use crate::text::{contains_text, joined3};
use crate::text;

verus! {

/// How long a connect waits before it is tried again.
pub const CONNECT_RETRY_INTERVAL: u64 = 500;

/// How often a connect is tried again before it fails.
pub const CONNECT_RETRY_LIMIT: u8 = 10;

/// How often a stalled stream is built anew in a row.
pub const MAX_REBUILD_ATTEMPTS: u8 = 3;

/// How long a stream rests before it is built anew again.
pub const REBUILD_COOLDOWN: u64 = 30_000;

/// How often levels are reported.
pub const METER_INTERVAL: u64 = 33;

/// How often the default virtual devices are looked after.
pub const VIRTUAL_RECONCILE_INTERVAL: u64 = 1_000;

/// A connect that waits for the ingress of a virtual output.
#[derive(Clone, Copy, Debug, PartialEq, Eq, Structural)]
pub struct PendingConnect {
    pub command_id: CommandId,
    pub route: AudioRoute,
    pub attempts: u8,
    pub last_attempt: u64,
}

/// How often a stream was built anew, and when last.
#[derive(Clone, Copy, Debug, PartialEq, Eq, Structural)]
pub struct RebuildBudget {
    pub attempts: u8,
    pub last: u64,
}

/// The state of the backend.
#[derive(Debug)]
pub struct Session {
    pub registry: RegistryState,
    pub runtimes: Runtimes,
    pub pending_connects: Vec<PendingConnect>,
    pub rebuild_budget: Table<EndpointId, RebuildBudget>,
    pub hub: ControlHub,
}

/// Whether an interval has passed.
pub open spec fn passed(now: u64, last: u64, interval: u64) -> bool {
    now - last >= interval
}

/// Whether an error says that the ingress of a virtual output is not there
/// yet.
pub open spec fn waits_for_ingress(error: AudioError) -> bool {
    error.retryable && text::holds_part(error.technical_message@, "ingress"@)
}

/// Whether an error says that the ingress of a virtual output is not there
/// yet.
pub fn ingress_pending(error: &AudioError) -> (result: bool)
    ensures
        result == waits_for_ingress(*error),
{
    error.retryable && contains_text(error.technical_message.as_str(), "ingress")
}

/// Why the two ends of a route cannot be found on the server, if they cannot.
pub open spec fn resolve_fault(state: RegistryState, route: AudioRoute) -> Option<ErrorModel> {
    let entries = state.endpoints.entries();
    if !registry::announces(entries, route.source) {
        Some(
            pipewire::route_fault(
                ErrorCode::EndpointNotFound,
                "The connection source is no longer available."@,
                "source endpoint "@ + ids::hyphenated(route.source.value)
                    + " not found in PipeWire registry"@,
            ),
        )
    } else if !registry::announces(entries, route.destination) {
        Some(
            pipewire::route_fault(
                ErrorCode::EndpointNotFound,
                "The connection destination is no longer available."@,
                "destination endpoint "@ + ids::hyphenated(route.destination.value)
                    + " not found in PipeWire registry"@,
            ),
        )
    } else {
        let destination = registry::announced(entries, route.destination);
        if destination.endpoint_type != EndpointType::VirtualOutput {
            None
        } else if destination.virtual_device_id is None {
            Some(
                pipewire::route_fault(
                    ErrorCode::InvalidRoute,
                    "The virtual output is missing its identity."@,
                    "virtual output "@ + ids::hyphenated(destination.id.value)
                        + " has no virtual device id"@,
                ),
            )
        } else if !state.virtual_ingresses@.contains_key(destination.virtual_device_id->0) {
            Some(
                pipewire::route_fault(
                    ErrorCode::EndpointNotFound,
                    "The virtual output is still starting up \u{2014} try again in a moment."@,
                    "virtual output ingress "@ + ids::hyphenated(
                        destination.virtual_device_id->0.value,
                    ) + " is unavailable"@,
                ),
            )
        } else {
            None
        }
    }
}

/// The end of a route, with the ingress of a virtual output in place of the
/// output itself.
pub open spec fn resolved_destination(state: RegistryState, route: AudioRoute) -> AudioEndpoint {
    let destination = registry::announced(state.endpoints.entries(), route.destination);
    if destination.endpoint_type == EndpointType::VirtualOutput {
        AudioEndpoint {
            runtime_id: Some(state.virtual_ingresses@[destination.virtual_device_id->0]),
            ..destination
        }
    } else {
        destination
    }
}

/// Finds the two ends of a route on the server.
pub fn resolve_route_endpoints(state: &RegistryState, route: &AudioRoute) -> (result: Result<
    (AudioEndpoint, AudioEndpoint),
    AudioError,
>)
    ensures
        match resolve_fault(*state, *route) {
            Some(fault) => result is Err && result->Err_0@ == fault,
            None => {
                &&& result is Ok
                &&& result->Ok_0.0 == registry::announced(state.endpoints.entries(), route.source)
                &&& result->Ok_0.0.id == route.source
                &&& result->Ok_0.1 == resolved_destination(*state, *route)
                &&& result->Ok_0.1.id == route.destination
            },
        },
{
    let source = match state.endpoint(route.source) {
        Some(source) => source,
        None => {
            let id = route.source.to_text();
            return Err(
                route_command_error(
                    ErrorCode::EndpointNotFound,
                    "The connection source is no longer available.",
                    joined3(
                        "source endpoint ",
                        id.as_str(),
                        " not found in PipeWire registry",
                    ).as_str(),
                ),
            );
        },
    };
    let mut destination = match state.endpoint(route.destination) {
        Some(destination) => destination,
        None => {
            let id = route.destination.to_text();
            return Err(
                route_command_error(
                    ErrorCode::EndpointNotFound,
                    "The connection destination is no longer available.",
                    joined3(
                        "destination endpoint ",
                        id.as_str(),
                        " not found in PipeWire registry",
                    ).as_str(),
                ),
            );
        },
    };
    if destination.endpoint_type == EndpointType::VirtualOutput {
        let device = match destination.virtual_device_id {
            Some(device) => device,
            None => {
                let id = destination.id.to_text();
                return Err(
                    route_command_error(
                        ErrorCode::InvalidRoute,
                        "The virtual output is missing its identity.",
                        joined3(
                            "virtual output ",
                            id.as_str(),
                            " has no virtual device id",
                        ).as_str(),
                    ),
                );
            },
        };
        match state.virtual_ingresses.get(&device) {
            Some(node) => {
                destination.runtime_id = Some(*node);
            },
            None => {
                let id = device.to_text();
                return Err(
                    route_command_error(
                        ErrorCode::EndpointNotFound,
                        "The virtual output is still starting up \u{2014} try again in a moment.",
                        joined3("virtual output ingress ", id.as_str(), " is unavailable").as_str(),
                    ),
                );
            },
        }
    }
    Ok((source, destination))
}

/// Why a route cannot be linked, if it cannot.
pub open spec fn link_fault(state: RegistryState, route: AudioRoute) -> Option<ErrorModel> {
    if resolve_fault(state, route) is Some {
        resolve_fault(state, route)
    } else {
        let source = registry::announced(state.endpoints.entries(), route.source);
        let destination = resolved_destination(state, route);
        if !endpoint::sources_audio(source.endpoint_type) || !endpoint::receives_audio(
            destination.endpoint_type,
        ) {
            Some(
                pipewire::route_fault(
                    ErrorCode::InvalidRoute,
                    "Those devices cannot be connected."@,
                    "invalid PipeWire route direction from "@ + endpoint::kind_name(
                        source.endpoint_type,
                    ) + " to "@ + endpoint::kind_name(destination.endpoint_type),
                ),
            )
        } else {
            None
        }
    }
}

/// Why a connect is refused, if it is.
pub open spec fn connect_fault(
    state: RegistryState,
    running: Runtimes,
    route: AudioRoute,
) -> Option<ErrorModel> {
    if running.routes@.contains_key(route.id) {
        Some(
            pipewire::route_fault(
                ErrorCode::DuplicateRoute,
                "This audio route is already active."@,
                "route "@ + ids::hyphenated(route.id.value) + " already has a PipeWire link"@,
            ),
        )
    } else if runtimes::joins(
        running.routes.entries(),
        route.source,
        route.destination,
    ) is Some {
        Some(
            pipewire::route_fault(
                ErrorCode::DuplicateRoute,
                "Those devices are already connected."@,
                "duplicate PipeWire route from "@ + ids::hyphenated(route.source.value) + " to "@
                    + ids::hyphenated(route.destination.value),
            ),
        )
    } else {
        link_fault(state, route)
    }
}

/// What is needed to link a route.
pub open spec fn planned(
    state: RegistryState,
    running: Runtimes,
    route: AudioRoute,
    plan: LinkPlan,
) -> bool {
    &&& plan.route == route
    &&& plan.source == registry::announced(state.endpoints.entries(), route.source)
    &&& plan.source.id == route.source
    &&& plan.destination == resolved_destination(state, route)
    &&& plan.destination.id == route.destination
    &&& plan.open_capture == !running.captures@.contains_key(route.source)
    &&& plan.open_bus == !running.buses@.contains_key(route.destination)
}

/// Decides what is needed to link a route, also one that is linked anew after
/// its stream was rebuilt.
pub fn plan_link(state: &RegistryState, running: &Runtimes, route: AudioRoute) -> (result: Result<
    LinkPlan,
    AudioError,
>)
    ensures
        match link_fault(*state, route) {
            Some(fault) => result is Err && result->Err_0@ == fault,
            None => result is Ok && planned(*state, *running, route, result->Ok_0),
        },
{
    let (source, destination) = match resolve_route_endpoints(state, &route) {
        Ok(ends) => ends,
        Err(error) => {
            return Err(error);
        },
    };
    if !source.endpoint_type.can_source() || !destination.endpoint_type.can_receive() {
        let mut technical = joined3(
            "invalid PipeWire route direction from ",
            source.endpoint_type.name(),
            " to ",
        );
        technical.append(destination.endpoint_type.name());
        return Err(
            route_command_error(
                ErrorCode::InvalidRoute,
                "Those devices cannot be connected.",
                technical.as_str(),
            ),
        );
    }
    let open_capture = !running.captures.contains_key(&source.id);
    let open_bus = !running.buses.contains_key(&destination.id);
    Ok(LinkPlan { route, source, destination, open_capture, open_bus })
}

/// Decides what is needed to connect a new route.
pub fn plan_connect(state: &RegistryState, running: &Runtimes, route: AudioRoute) -> (result:
    Result<LinkPlan, AudioError>)
    ensures
        match connect_fault(*state, *running, route) {
            Some(fault) => result is Err && result->Err_0@ == fault,
            None => result is Ok && planned(
                *state,
                *running,
                route.in_state(RouteState::Connecting),
                result->Ok_0,
            ),
        },
{
    if running.routes.contains_key(&route.id) {
        let id = route.id.to_text();
        return Err(
            route_command_error(
                ErrorCode::DuplicateRoute,
                "This audio route is already active.",
                joined3("route ", id.as_str(), " already has a PipeWire link").as_str(),
            ),
        );
    }
    if running.route_between(route.source, route.destination).is_some() {
        let source = route.source.to_text();
        let destination = route.destination.to_text();
        let mut technical = joined3("duplicate PipeWire route from ", source.as_str(), " to ");
        technical.append(destination.as_str());
        return Err(
            route_command_error(
                ErrorCode::DuplicateRoute,
                "Those devices are already connected.",
                technical.as_str(),
            ),
        );
    }
    let mut route = route;
    route.state = RouteState::Connecting;
    plan_link(state, running, route)
}

/// Strip controls with one setting made.
pub open spec fn changed_strip(strip: StripSettings, change: EndpointChange) -> StripSettings {
    match change {
        EndpointChange::Gain { gain } => StripSettings { gain: gain.amount(), ..strip },
        EndpointChange::Muted { muted } => StripSettings { muted, ..strip },
        EndpointChange::Balance { balance } => StripSettings { balance: balance.amount(), ..strip },
    }
}

/// Whether `after` is `before` with one setting made for an endpoint.
pub open spec fn hub_changed(
    before: ControlHub,
    endpoint: EndpointId,
    change: EndpointChange,
    after: ControlHub,
) -> bool {
    &&& after == (ControlHub { endpoints: after.endpoints, ..before })
    &&& after.endpoints@ == before.endpoints@.insert(endpoint, after.endpoints@[endpoint])
    &&& after.endpoints@[endpoint]@ == changed_strip(before.strip_of(endpoint), change)
}

/// Makes one setting in the controls of an endpoint, as running streams see
/// them.
pub fn change_controls(hub: &mut ControlHub, endpoint: EndpointId, change: EndpointChange)
    ensures
        hub_changed(*old(hub), endpoint, change, *final(hub)),
{
    let mut controls = hub.endpoint(endpoint);
    match change {
        EndpointChange::Gain { gain } => {
            controls.set_gain(gain);
        },
        EndpointChange::Muted { muted } => {
            controls.set_muted(muted);
        },
        EndpointChange::Balance { balance } => {
            controls.set_balance(balance);
        },
    }
    hub.set_endpoint(endpoint, controls);
    assert(hub.endpoints@ =~= old(hub).endpoints@.insert(endpoint, controls));
}

/// What is answered to a command that set a control: an update where the
/// control had another value, and that the command is done.
pub open spec fn control_events(
    command_id: CommandId,
    updated: Option<AudioEndpoint>,
) -> Seq<BackendEvent> {
    match updated {
        Some(endpoint) => seq![
            BackendEvent::EndpointUpdated { endpoint },
            BackendEvent::CommandCompleted { command_id },
        ],
        None => seq![BackendEvent::CommandCompleted { command_id }],
    }
}

/// Whether the answer is the failure of a command, for this reason.
pub open spec fn failure(
    events: Seq<BackendEvent>,
    command_id: CommandId,
    reason: ErrorModel,
) -> bool {
    &&& events.len() == 1
    &&& events[0] is CommandFailed
    &&& events[0]->CommandFailed_command_id == command_id
    &&& events[0]->CommandFailed_error@ == reason
}

/// Answers a command that set a control.
pub fn finish_control_command(
    result: Result<Option<AudioEndpoint>, AudioError>,
    command_id: CommandId,
) -> (events: Vec<BackendEvent>)
    ensures
        match result {
            Ok(updated) => events@ == control_events(command_id, updated),
            Err(error) => events@ == seq![BackendEvent::CommandFailed { command_id, error }],
        },
{
    match result {
        Ok(Some(endpoint)) => vec![
            BackendEvent::EndpointUpdated { endpoint },
            BackendEvent::CommandCompleted { command_id },
        ],
        Ok(None) => vec![BackendEvent::CommandCompleted { command_id }],
        Err(error) => vec![BackendEvent::CommandFailed { command_id, error }],
    }
}

/// Sets a control of an endpoint, in the registry and for running streams.
/// Returns the endpoint only where something changed, so that a repeated
/// command is not echoed.
pub fn update_endpoint_control(
    state: &mut RegistryState,
    hub: &mut ControlHub,
    endpoint_id: EndpointId,
    change: EndpointChange,
) -> (result: Result<Option<AudioEndpoint>, AudioError>)
    ensures
        match result {
            Ok(updated) => {
                let before = registry::announced(old(state).endpoints.entries(), endpoint_id);
                &&& registry::announces(old(state).endpoints.entries(), endpoint_id)
                &&& updated == (if change.is_made(before) {
                    None
                } else {
                    Some(change.applied(before))
                })
                &&& exists|at: int|
                    {
                        let entry = old(state).endpoints.entries()[at];
                        &&& #[trigger] registry::first_with_id(
                            old(state).endpoints.entries(),
                            endpoint_id,
                            at,
                        )
                        &&& final(state).endpoints.entries()
                            == old(state).endpoints.entries().update(
                            at,
                            (entry.0, change.applied(entry.1)),
                        )
                    }
                &&& *final(state) == (RegistryState {
                    endpoints: final(state).endpoints,
                    ..*old(state)
                })
                &&& hub_changed(*old(hub), endpoint_id, change, *final(hub))
            },
            Err(error) => {
                &&& !registry::announces(old(state).endpoints.entries(), endpoint_id)
                &&& error@ == pipewire::route_fault(
                    ErrorCode::EndpointNotFound,
                    "That device is no longer available."@,
                    "endpoint "@ + ids::hyphenated(endpoint_id.value)
                        + " not found in PipeWire registry"@,
                )
                &&& *final(state) == *old(state)
                &&& *final(hub) == *old(hub)
            },
        },
{
    let at = match state.find_endpoint(endpoint_id) {
        Some(at) => at,
        None => {
            let id = endpoint_id.to_text();
            return Err(
                route_command_error(
                    ErrorCode::EndpointNotFound,
                    "That device is no longer available.",
                    joined3("endpoint ", id.as_str(), " not found in PipeWire registry").as_str(),
                ),
            );
        },
    };
    let mut endpoint = state.endpoints.value_at(at).clone();
    let changed = !change.made(&endpoint);
    change.apply(&mut endpoint);
    state.endpoints.set_at(at, endpoint.clone());
    change_controls(hub, endpoint_id, change);
    assert(registry::first_with_id(old(state).endpoints.entries(), endpoint_id, at as int));
    if changed {
        Ok(Some(endpoint))
    } else {
        Ok(None)
    }
}

/// The levels of the first channels, as far as there are peaks: each moved
/// into the range of the meter, and nothing where it is not a number.
pub open spec fn level_map(
    channels: Seq<ChannelId>,
    peaks: Seq<Scalar>,
    count: int,
) -> Map<ChannelId, Scalar>
    decreases count,
{
    if count <= 0 {
        Map::empty()
    } else {
        level_map(channels, peaks, count - 1).insert(channels[count - 1], shown_level(peaks[count - 1]))
    }
}

/// A peak as the meter shows it.
pub open spec fn shown_level(peak: Scalar) -> Scalar {
    if peak.nan() {
        Scalar { bits: 0 }
    } else {
        peak.clamped(Scalar { bits: MeterLevel::MIN }, Scalar { bits: MeterLevel::MAX })
    }
}

/// A peak as the meter shows it.
pub fn meter_level(peak: Scalar) -> (level: MeterLevel)
    ensures
        level.amount() == shown_level(peak),
{
    let clamped = peak.clamp(
        Scalar::from_bits(MeterLevel::MIN),
        Scalar::from_bits(MeterLevel::MAX),
    );
    match MeterLevel::new(clamped) {
        Ok(level) => level,
        Err(_) => MeterLevel::default(),
    }
}

/// The smaller of two counts.
pub open spec fn shorter(left: nat, right: nat) -> int {
    if left <= right {
        left as int
    } else {
        right as int
    }
}

/// The levels of an endpoint as a report, by the identifiers of its channels.
pub fn meter_frame(endpoint: &AudioEndpoint, peaks: &Vec<Scalar>, sequence: u64) -> (frame:
    MeterFrame)
    ensures
        frame.endpoint_id == endpoint.id,
        frame.sequence == sequence,
        frame.levels@.dom() == level_map(
            endpoint.channels@,
            peaks@,
            shorter(endpoint.channels@.len(), peaks@.len()),
        ).dom(),
        forall|channel: ChannelId| #[trigger]
            frame.levels@.contains_key(channel) ==> frame.levels@[channel].amount() == level_map(
                endpoint.channels@,
                peaks@,
                shorter(endpoint.channels@.len(), peaks@.len()),
            )[channel],
{
    let channels = &endpoint.channels;
    let mut levels: Table<ChannelId, MeterLevel> = Table::new();
    let mut at: usize = 0;
    assert(levels@.dom() =~= level_map(channels@, peaks@, 0).dom());
    while at < channels.len() && at < peaks.len()
        invariant
            channels == endpoint.channels,
            at <= channels@.len(),
            at <= peaks@.len(),
            levels@.dom() == level_map(channels@, peaks@, at as int).dom(),
            forall|channel: ChannelId| #[trigger]
                levels@.contains_key(channel) ==> levels@[channel].amount() == level_map(
                    channels@,
                    peaks@,
                    at as int,
                )[channel],
        decreases channels@.len() - at,
    {
        let ghost before = levels@;
        levels.insert(channels[at], meter_level(peaks[at]));
        at = at + 1;
        proof {
            let shown = level_map(channels@, peaks@, at as int);
            assert(levels@.dom() =~= shown.dom());
            assert forall|channel: ChannelId| #[trigger] levels@.contains_key(channel) implies
                levels@[channel].amount() == shown[channel] by {
                if channel != channels@[at - 1] {
                    assert(before.contains_key(channel));
                }
            }
        }
    }
    MeterFrame { endpoint_id: endpoint.id, sequence, levels }
}

/// A connect is planned for a new route only, between endpoints that no route
/// joins: links never stack on one pair.
pub proof fn law_a_connect_is_for_a_free_pair(
    state: RegistryState,
    running: Runtimes,
    route: AudioRoute,
    plan: LinkPlan,
)
    requires
        connect_fault(state, running, route) is None,
        planned(state, running, route.in_state(RouteState::Connecting), plan),
    ensures
        running.admits(plan),
{
    runtimes::lemma_unjoined(running.routes, route.source, route.destination);
}

/// A setting reaches the strip of an endpoint as it was given and leaves its
/// other settings alone.
pub proof fn law_a_strip_takes_one_setting(strip: StripSettings, change: EndpointChange)
    ensures
        change matches EndpointChange::Gain { gain } ==> {
            let after = changed_strip(strip, change);
            after.gain == gain.amount() && after.muted == strip.muted && after.balance
                == strip.balance
        },
        change matches EndpointChange::Muted { muted } ==> {
            let after = changed_strip(strip, change);
            after.muted == muted && after.gain == strip.gain && after.balance == strip.balance
        },
        change matches EndpointChange::Balance { balance } ==> {
            let after = changed_strip(strip, change);
            after.balance == balance.amount() && after.gain == strip.gain && after.muted
                == strip.muted
        },
{
}

/// A command that set a control ends with its own completion. Before that, the
/// endpoint is reported only where the control had another value.
pub proof fn law_a_control_is_answered(command_id: CommandId, updated: Option<AudioEndpoint>)
    ensures
        ({
            let events = control_events(command_id, updated);
            &&& events.len() == (if updated is Some {
                2int
            } else {
                1
            })
            &&& events.last() is CommandCompleted
            &&& events.last()->CommandCompleted_command_id == command_id
            &&& updated is Some ==> {
                &&& events[0] is EndpointUpdated
                &&& events[0]->EndpointUpdated_endpoint == updated->0
            }
        }),
{
}

/// A route is resolved exactly where both its ends are on the server and, for
/// a virtual output, its ingress is there too. What plays is the ingress; in
/// all else the end is as the server announces it.
pub proof fn law_virtual_outputs_are_fed_through_their_ingress(
    state: RegistryState,
    route: AudioRoute,
)
    ensures
        ({
            let entries = state.endpoints.entries();
            let destination = registry::announced(entries, route.destination);
            let resolved = resolved_destination(state, route);
            &&& resolve_fault(state, route) is None <==> {
                &&& exists|at: int|
                    0 <= at < entries.len() && (#[trigger] entries[at]).1.id == route.source
                &&& exists|at: int|
                    0 <= at < entries.len() && (#[trigger] entries[at]).1.id == route.destination
                &&& destination.endpoint_type is VirtualOutput ==> {
                    &&& destination.virtual_device_id is Some
                    &&& state.virtual_ingresses@.contains_key(destination.virtual_device_id->0)
                }
            }
            &&& resolve_fault(state, route) is None ==> {
                &&& destination.endpoint_type is VirtualOutput ==> resolved.runtime_id == Some(
                    state.virtual_ingresses@[destination.virtual_device_id->0],
                )
                &&& !(destination.endpoint_type is VirtualOutput) ==> resolved.runtime_id
                    == destination.runtime_id
                &&& resolved == (AudioEndpoint { runtime_id: resolved.runtime_id, ..destination })
                &&& destination.id == route.destination
            }
        }),
{
    let entries = state.endpoints.entries();
    if exists|at: int| 0 <= at < entries.len() && (#[trigger] entries[at]).1.id == route.source {
        let at = choose|at: int|
            0 <= at < entries.len() && (#[trigger] entries[at]).1.id == route.source;
        registry::lemma_announced_somewhere(entries, route.source, at);
    }
    if exists|at: int|
        0 <= at < entries.len() && (#[trigger] entries[at]).1.id == route.destination {
        let at = choose|at: int|
            0 <= at < entries.len() && (#[trigger] entries[at]).1.id == route.destination;
        registry::lemma_announced_somewhere(entries, route.destination, at);
    }
    if registry::announces(entries, route.source) {
        let at = choose|at: int| registry::first_with_id(entries, route.source, at);
        assert(entries[at].1.id == route.source);
    }
    if registry::announces(entries, route.destination) {
        let at = choose|at: int| registry::first_with_id(entries, route.destination, at);
        assert(entries[at].1.id == route.destination);
    }
}

/// A connect is refused where its identifier is in use or its two ends are
/// joined, by any route and in that direction; a new one between other ends is
/// judged by its ends alone.
pub proof fn law_links_do_not_stack(state: RegistryState, running: Runtimes, route: AudioRoute)
    ensures
        running.routes@.contains_key(route.id) ==> {
            &&& connect_fault(state, running, route) is Some
            &&& connect_fault(state, running, route)->0.code == ErrorCode::DuplicateRoute
        },
        forall|id: RouteId| #[trigger]
            running.routes@.contains_key(id) && running.routes@[id].source == route.source
                && running.routes@[id].destination == route.destination ==> {
                &&& connect_fault(state, running, route) is Some
                &&& connect_fault(state, running, route)->0.code == ErrorCode::DuplicateRoute
            },
        !running.routes@.contains_key(route.id) && (forall|i: int|
            0 <= i < running.routes.entries().len() ==> !((
            #[trigger] running.routes.entries()[i]).1.source == route.source
                && running.routes.entries()[i].1.destination == route.destination))
            ==> connect_fault(state, running, route) == link_fault(state, route),
        link_fault(state, route) is None ==> {
            let source = registry::announced(state.endpoints.entries(), route.source);
            let destination = registry::announced(state.endpoints.entries(), route.destination);
            &&& resolve_fault(state, route) is None
            &&& match source.endpoint_type {
                EndpointType::PhysicalInput
                | EndpointType::ApplicationOutput
                | EndpointType::VirtualInput
                | EndpointType::InternalBus => true,
                _ => false,
            }
            &&& match destination.endpoint_type {
                EndpointType::PhysicalOutput
                | EndpointType::ApplicationInput
                | EndpointType::VirtualOutput
                | EndpointType::InternalBus => true,
                _ => false,
            }
        },
{
    let entries = running.routes.entries();
    if runtimes::joins(entries, route.source, route.destination) is None {
        runtimes::lemma_unjoined(running.routes, route.source, route.destination);
    } else {
        let at = choose|at: int|
            runtimes::first_join(entries, route.source, route.destination, at);
        assert(runtimes::first_join(entries, route.source, route.destination, at));
        assert(entries[at].1.source == route.source);
    }
}

/// A plan opens a stream exactly where the endpoint has none, and keeps the
/// two ends of the route apart.
pub proof fn law_a_plan_opens_what_is_closed(
    state: RegistryState,
    running: Runtimes,
    route: AudioRoute,
    plan: LinkPlan,
)
    requires
        planned(state, running, route, plan),
    ensures
        plan.route == route,
        plan.source.id == route.source,
        plan.destination.id == route.destination,
        plan.open_capture <==> !running.captures@.contains_key(route.source),
        plan.open_bus <==> !running.buses@.contains_key(route.destination),
{
}

/// Each channel is reported with its own peak: as it is inside the range of
/// the meter, at the nearer end outside of it, and as nothing where it is no
/// number. There are as many levels as channels that have a peak.
pub proof fn law_every_channel_shows_its_own_peak(
    channels: Seq<ChannelId>,
    peaks: Seq<Scalar>,
    count: int,
    at: int,
)
    requires
        0 <= at < count <= channels.len(),
        count <= peaks.len(),
        channels.no_duplicates(),
    ensures
        level_map(channels, peaks, count).contains_key(channels[at]),
        ({
            let level = level_map(channels, peaks, count)[channels[at]];
            let low = Scalar { bits: MeterLevel::MIN };
            let high = Scalar { bits: MeterLevel::MAX };
            &&& low.le(peaks[at]) && peaks[at].le(high) ==> level == peaks[at]
            &&& peaks[at].lt(low) ==> level == low
            &&& high.lt(peaks[at]) ==> level == high
            &&& peaks[at].nan() ==> level.bits == 0
        }),
        forall|other: ChannelId| #[trigger]
            level_map(channels, peaks, count).contains_key(other) ==> channels.take(count).contains(
                other,
            ),
    decreases count,
{
    lemma_levels_are_of_channels(channels, peaks, count);
    if at < count - 1 {
        law_every_channel_shows_its_own_peak(channels, peaks, count - 1, at);
        assert(channels[at] != channels[count - 1]);
    }
}

proof fn lemma_levels_are_of_channels(channels: Seq<ChannelId>, peaks: Seq<Scalar>, count: int)
    requires
        0 <= count <= channels.len(),
        count <= peaks.len(),
    ensures
        forall|other: ChannelId| #[trigger]
            level_map(channels, peaks, count).contains_key(other) ==> channels.take(count).contains(
                other,
            ),
    decreases count,
{
    if count > 0 {
        lemma_levels_are_of_channels(channels, peaks, count - 1);
        assert forall|other: ChannelId| #[trigger]
            level_map(channels, peaks, count).contains_key(other) implies channels.take(
            count,
        ).contains(other) by {
            if other == channels[count - 1] {
                assert(channels.take(count)[count - 1] == other);
            } else {
                assert(level_map(channels, peaks, count - 1).contains_key(other));
                let first = channels.take(count - 1);
                let i = choose|i: int| 0 <= i < first.len() && first[i] == other;
                assert(channels.take(count)[i] == other);
            }
        }
    }
}

/// An interval has passed once the clock is that far on, and not before.
pub proof fn law_an_interval_passes_in_its_time(now: u64, last: u64, interval: u64)
    requires
        interval > 0,
    ensures
        passed(now, last, interval) <==> now >= last + interval,
        !passed(last, last, interval),
{
}

/// A connect waits for an ingress exactly where its error may be tried again and
/// names one; a changed setting is entered for its own endpoint alone.
pub proof fn law_a_setting_is_entered_for_its_endpoint(
    before: ControlHub,
    endpoint: EndpointId,
    change: EndpointChange,
    after: ControlHub,
    other: EndpointId,
    error: AudioError,
)
    ensures
        waits_for_ingress(error) <==> error.retryable && text::holds_part(
            error.technical_message@,
            "ingress"@,
        ),
        hub_changed(before, endpoint, change, after) ==> {
            &&& after.endpoints@.contains_key(endpoint)
            &&& after.endpoints@[endpoint]@ == changed_strip(before.strip_of(endpoint), change)
            &&& after.channels == before.channels
            &&& after.stream_rate == before.stream_rate
            &&& after.buffer_frames == before.buffer_frames
            &&& other != endpoint ==> after.endpoints@.contains_key(other)
                == before.endpoints@.contains_key(other)
            &&& other != endpoint && before.endpoints@.contains_key(other)
                ==> after.endpoints@[other] == before.endpoints@[other]
        },
{
}

/// A failure is told once, for the command that failed and with its reason.
pub proof fn law_a_failure_is_told_once(
    events: Seq<BackendEvent>,
    command_id: CommandId,
    reason: ErrorModel,
)
    requires
        failure(events, command_id, reason),
    ensures
        events.len() == 1,
        events[0] is CommandFailed,
        events[0]->CommandFailed_command_id == command_id,
        events[0]->CommandFailed_error@ == reason,
{
}

} // verus!
