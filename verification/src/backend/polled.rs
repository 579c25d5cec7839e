//! The state of the backend for polled devices, and what commands and polls
//! mean for it.
use vstd::prelude::*;

use super::driver::CommandStep;
use super::driver;
use super::pipewire::route_command_error;
use super::pipewire;
use super::runtimes::{LinkOutcome, LinkPlan, Runtimes, StreamAction, StreamState};
use super::runtimes;
use super::session::{change_controls, finish_control_command, METER_INTERVAL};
use super::session;
use super::{BackendCommand, BackendEvent, BackendStatus, EndpointChange};
use crate::domain::endpoint::AudioEndpoint;
use crate::domain::endpoint;
use crate::domain::error::{AudioError, ErrorCode, ErrorModel};
use crate::domain::ids::{CommandId, EndpointId, RouteId};
use crate::domain::ids;
use crate::domain::route::{AudioRoute, RouteState};
use crate::realtime::controls::{ChannelControls, ControlHub};
use crate::realtime::controls;
use crate::scalar::Scalar;
use crate::table::Table;
use crate::table;
use crate::text::{joined, joined3};

verus! {

/// Milliseconds between two looks at the devices.
pub const HOTPLUG_INTERVAL: u64 = 1_000;

/// What is due in a turn of the loop.
#[derive(Clone, Copy, Debug, PartialEq, Eq, Structural)]
pub struct PollDue {
    pub devices: bool,
    pub meters: bool,
}

/// When the regular tasks of the loop were last done.
#[derive(Clone, Copy, Debug, PartialEq, Eq, Structural)]
pub struct PollClock {
    pub last_hotplug: u64,
    pub last_meter: u64,
}

impl PollClock {
    pub fn new(now: u64) -> (clock: Self)
        ensures
            clock.last_hotplug == now,
            clock.last_meter == now,
    {
        PollClock { last_hotplug: now, last_meter: now }
    }

    /// Decides which regular tasks are due, and notes that they are done.
    pub fn tick(&mut self, now: u64) -> (due: PollDue)
        ensures
            due.devices == session::passed(now, old(self).last_hotplug, HOTPLUG_INTERVAL),
            due.meters == session::passed(now, old(self).last_meter, METER_INTERVAL),
            final(self).last_hotplug == (if due.devices {
                now
            } else {
                old(self).last_hotplug
            }),
            final(self).last_meter == (if due.meters {
                now
            } else {
                old(self).last_meter
            }),
    {
        let devices = now >= self.last_hotplug && now - self.last_hotplug >= HOTPLUG_INTERVAL;
        let meters = now >= self.last_meter && now - self.last_meter >= METER_INTERVAL;
        if devices {
            self.last_hotplug = now;
        }
        if meters {
            self.last_meter = now;
        }
        PollDue { devices, meters }
    }
}

/// The state of the backend for polled devices.
#[derive(Debug)]
pub struct PolledSession {
    pub known: Table<EndpointId, AudioEndpoint>,
    pub runtimes: Runtimes,
    pub hub: ControlHub,
}

/// Why a connect is refused, if it is.
pub open spec fn connect_fault(
    known: Map<EndpointId, AudioEndpoint>,
    running: Runtimes,
    route: AudioRoute,
) -> Option<ErrorModel> {
    if running.routes@.contains_key(route.id) || runtimes::joins(
        running.routes.entries(),
        route.source,
        route.destination,
    ) is Some {
        Some(
            pipewire::route_fault(
                ErrorCode::DuplicateRoute,
                "Those devices are already connected."@,
                "duplicate cpal route for "@ + ids::hyphenated(route.id.value),
            ),
        )
    } else if !known.contains_key(route.source) {
        Some(
            pipewire::route_fault(
                ErrorCode::EndpointNotFound,
                "The connection source is no longer available."@,
                "source endpoint "@ + ids::hyphenated(route.source.value) + " not found"@,
            ),
        )
    } else if !known.contains_key(route.destination) {
        Some(
            pipewire::route_fault(
                ErrorCode::EndpointNotFound,
                "The connection destination is no longer available."@,
                "destination endpoint "@ + ids::hyphenated(route.destination.value)
                    + " not found"@,
            ),
        )
    } else if !endpoint::sources_audio(known[route.source].endpoint_type)
        || !endpoint::receives_audio(known[route.destination].endpoint_type) {
        Some(
            pipewire::route_fault(
                ErrorCode::InvalidRoute,
                "Those devices cannot be connected."@,
                "invalid route direction from "@ + endpoint::kind_name(
                    known[route.source].endpoint_type,
                ) + " to "@ + endpoint::kind_name(known[route.destination].endpoint_type),
            ),
        )
    } else {
        None
    }
}

/// Whether the endpoint at a place of `known` is no longer among the current
/// ones.
pub open spec fn vanished(
    known: Seq<(EndpointId, AudioEndpoint)>,
    current: Map<EndpointId, AudioEndpoint>,
) -> Seq<EndpointId>
    decreases known.len(),
{
    if known.len() == 0 {
        Seq::empty()
    } else {
        let rest = vanished(known.drop_last(), current);
        if current.contains_key(known.last().0) {
            rest
        } else {
            rest.push(known.last().0)
        }
    }
}

/// The known endpoint with its default mark brought up to date.
pub open spec fn refreshed(known: AudioEndpoint, current: AudioEndpoint) -> AudioEndpoint {
    AudioEndpoint { is_default: current.is_default, ..known }
}

/// The endpoints that are known after a poll: those that are there now, each
/// as it was known before but for its default mark.
pub open spec fn known_after(
    known: Map<EndpointId, AudioEndpoint>,
    current: Map<EndpointId, AudioEndpoint>,
) -> Map<EndpointId, AudioEndpoint> {
    Map::new(
        |id: EndpointId| current.contains_key(id),
        |id: EndpointId|
            if known.contains_key(id) {
                refreshed(known[id], current[id])
            } else {
                current[id]
            },
    )
}

/// The reports of endpoints that are new or whose default mark changed, in
/// order.
pub open spec fn poll_updates(
    known: Map<EndpointId, AudioEndpoint>,
    current: Seq<(EndpointId, AudioEndpoint)>,
) -> Seq<BackendEvent>
    decreases current.len(),
{
    if current.len() == 0 {
        Seq::empty()
    } else {
        let rest = poll_updates(known, current.drop_last());
        let (id, endpoint) = current.last();
        if !known.contains_key(id) {
            rest.push(BackendEvent::EndpointAdded { endpoint })
        } else if known[id].is_default != endpoint.is_default {
            rest.push(BackendEvent::EndpointUpdated { endpoint: refreshed(known[id], endpoint) })
        } else {
            rest
        }
    }
}

/// Whether the routes of an endpoint that is gone were taken out, its streams
/// closed and its removal reported.
pub open spec fn endpoint_dropped(
    before: Runtimes,
    id: EndpointId,
    middle: Runtimes,
    first: Seq<StreamAction>,
    after: Runtimes,
    events: Seq<BackendEvent>,
    actions: Seq<StreamAction>,
) -> bool {
    let routes = driver::route_ids(runtimes::routes_at(before.routes.entries(), id, true, true));
    &&& before.takes_out_all(routes, true, middle, first)
    &&& after.routes == middle.routes
    &&& after.feeds == middle.feeds
    &&& after.draws == middle.draws
    &&& after.captures@ == runtimes::without_orphan(middle.captures@, middle.feeds@, id)
    &&& after.buses@ == runtimes::without_orphan(middle.buses@, middle.draws@, id)
    &&& events == runtimes::removals(routes).push(BackendEvent::EndpointRemoved { endpoint_id: id })
    &&& actions == first + runtimes::only_if(
        runtimes::orphaned(middle.captures@, middle.feeds@, id),
        StreamAction::CloseCapture { endpoint: id },
    ) + runtimes::only_if(
        runtimes::orphaned(middle.buses@, middle.draws@, id),
        StreamAction::CloseBus { endpoint: id },
    )
}

/// Whether one endpoint that is gone was dropped.
pub open spec fn dropped(
    before: Runtimes,
    id: EndpointId,
    after: Runtimes,
    events: Seq<BackendEvent>,
    actions: Seq<StreamAction>,
) -> bool {
    exists|middle: Runtimes, first: Seq<StreamAction>| #[trigger]
        endpoint_dropped(before, id, middle, first, after, events, actions)
}

/// Whether several endpoints that are gone were dropped in turn.
pub open spec fn dropped_all(
    before: Runtimes,
    ids: Seq<EndpointId>,
    after: Runtimes,
    events: Seq<BackendEvent>,
    actions: Seq<StreamAction>,
) -> bool
    decreases ids.len(),
{
    if ids.len() == 0 {
        after == before && events =~= Seq::<BackendEvent>::empty() && actions =~= Seq::<
            StreamAction,
        >::empty()
    } else {
        exists|middle: Runtimes, last_events: Seq<BackendEvent>, last_actions: Seq<StreamAction>|
            {
                &&& #[trigger] dropped(middle, ids.last(), after, last_events, last_actions)
                &&& last_events.len() <= events.len()
                &&& last_actions.len() <= actions.len()
                &&& events =~= events.take(events.len() - last_events.len()) + last_events
                &&& actions =~= actions.take(actions.len() - last_actions.len()) + last_actions
                &&& dropped_all(
                    before,
                    ids.drop_last(),
                    middle,
                    events.take(events.len() - last_events.len()),
                    actions.take(actions.len() - last_actions.len()),
                )
            }
    }
}

/// The updates for routes that become active: those that were connecting and
/// whose streams both run now.
pub open spec fn activations(
    entries: Seq<(RouteId, AudioRoute)>,
    captures: Map<EndpointId, StreamState>,
    buses: Map<EndpointId, StreamState>,
) -> Seq<BackendEvent>
    decreases entries.len(),
{
    if entries.len() == 0 {
        Seq::empty()
    } else {
        let rest = activations(entries.drop_last(), captures, buses);
        let route = entries.last().1;
        if becomes_active(route, captures, buses) {
            rest.push(BackendEvent::RouteUpdated { route: route.in_state(RouteState::Active) })
        } else {
            rest
        }
    }
}

/// Whether a connecting route becomes active.
pub open spec fn becomes_active(
    route: AudioRoute,
    captures: Map<EndpointId, StreamState>,
    buses: Map<EndpointId, StreamState>,
) -> bool {
    &&& route.state == RouteState::Connecting
    &&& captures.contains_key(route.source) && captures[route.source] == StreamState::Connected
    &&& buses.contains_key(route.destination) && buses[route.destination] == StreamState::Connected
}

fn runs(streams: &Table<EndpointId, StreamState>, endpoint: EndpointId) -> (result: bool)
    ensures
        result == (streams@.contains_key(endpoint) && streams@[endpoint] == StreamState::Connected),
{
    match streams.get(&endpoint) {
        Some(state) => *state == StreamState::Connected,
        None => false,
    }
}

fn answer(events: Vec<BackendEvent>) -> (step: CommandStep)
    ensures
        step is Answer,
        step->Answer_events@ == events@,
        step->Answer_actions@.len() == 0,
        step->destroy is None,
        !step->stop,
{
    CommandStep::Answer { events, actions: Vec::new(), destroy: None, stop: false }
}

/// The answer to a command with one failure.
pub open spec fn refused(step: CommandStep, command_id: CommandId, fault: ErrorModel) -> bool {
    &&& step is Answer
    &&& session::failure(step->Answer_events@, command_id, fault)
    &&& step->Answer_actions@.len() == 0
    &&& step->destroy is None
    &&& !step->stop
}

impl PolledSession {
    pub fn new(known: Table<EndpointId, AudioEndpoint>) -> (session: Self)
        ensures
            session.known == known,
            session.runtimes.steady(),
            session.runtimes.idle(),
            session.hub.at_rest(),
    {
        PolledSession { known, runtimes: Runtimes::new(), hub: ControlHub::default() }
    }

    /// The plan for a route between two known endpoints.
    pub open spec fn planned(self, route: AudioRoute, plan: LinkPlan) -> bool {
        &&& plan.route == route
        &&& plan.source == self.known@[route.source]
        &&& plan.destination == self.known@[route.destination]
        &&& plan.open_capture == !self.runtimes.captures@.contains_key(plan.source.id)
        &&& plan.open_bus == !self.runtimes.buses@.contains_key(plan.destination.id)
    }

    /// Decides what is needed to connect a route.
    pub fn plan_connect(&self, route: AudioRoute) -> (result: Result<LinkPlan, AudioError>)
        ensures
            match connect_fault(self.known@, self.runtimes, route) {
                Some(fault) => result is Err && result->Err_0@ == fault,
                None => result is Ok && self.planned(
                    route.in_state(RouteState::Connecting),
                    result->Ok_0,
                ),
            },
    {
        if self.runtimes.routes.contains_key(&route.id) || self.runtimes.route_between(
            route.source,
            route.destination,
        ).is_some() {
            let id = route.id.to_text();
            return Err(
                route_command_error(
                    ErrorCode::DuplicateRoute,
                    "Those devices are already connected.",
                    joined("duplicate cpal route for ", id.as_str()).as_str(),
                ),
            );
        }
        let source = match self.known.get(&route.source) {
            Some(source) => source.clone(),
            None => {
                let id = route.source.to_text();
                return Err(
                    route_command_error(
                        ErrorCode::EndpointNotFound,
                        "The connection source is no longer available.",
                        joined3("source endpoint ", id.as_str(), " not found").as_str(),
                    ),
                );
            },
        };
        let destination = match self.known.get(&route.destination) {
            Some(destination) => destination.clone(),
            None => {
                let id = route.destination.to_text();
                return Err(
                    route_command_error(
                        ErrorCode::EndpointNotFound,
                        "The connection destination is no longer available.",
                        joined3("destination endpoint ", id.as_str(), " not found").as_str(),
                    ),
                );
            },
        };
        if !source.endpoint_type.can_source() || !destination.endpoint_type.can_receive() {
            let mut technical = joined3(
                "invalid route direction from ",
                source.endpoint_type.name(),
                " to ",
            );
            technical.append(destination.endpoint_type.name());
            return Err(
                route_command_error(
                    ErrorCode::InvalidRoute,
                    "Those devices cannot be connected.",
                    technical.as_str(),
                ),
            );
        }
        let open_capture = !self.runtimes.captures.contains_key(&source.id);
        let open_bus = !self.runtimes.buses.contains_key(&destination.id);
        let mut route = route;
        route.state = RouteState::Connecting;
        Ok(LinkPlan { route, source, destination, open_capture, open_bus })
    }

    /// Whether a connect or a reconnect ended with `linked`.
    pub open spec fn connect_ended(
        self,
        plan: LinkPlan,
        outcome: LinkOutcome,
        linked: Result<AudioRoute, AudioError>,
        ended: Runtimes,
        after: Self,
        actions: Seq<StreamAction>,
    ) -> bool {
        &&& self.runtimes.link_ended(plan, outcome, ended, linked, actions)
        &&& match linked {
            Ok(route) => {
                &&& after.runtimes == (Runtimes { routes: after.runtimes.routes, ..ended })
                &&& after.runtimes.routes@ == self.runtimes.routes@.insert(route.id, route)
            },
            Err(_) => after.runtimes == ended,
        }
    }

    /// Takes the end of a connect in. Returns the route or why it failed, and
    /// what is done to the streams.
    pub fn finish_connect(&mut self, plan: &LinkPlan, outcome: LinkOutcome) -> (result: (
        Result<AudioRoute, AudioError>,
        Vec<StreamAction>,
    ))
        ensures
            exists|ended: Runtimes| #[trigger]
                old(self).connect_ended(
                    *plan,
                    outcome,
                    result.0,
                    ended,
                    *final(self),
                    result.1@,
                ),
            final(self).known == old(self).known,
            final(self).hub == old(self).hub,
            old(self).runtimes.steady() && old(self).runtimes.admits(*plan)
                ==> final(self).runtimes.steady(),
    {
        let (linked, actions) = self.runtimes.finish_link(plan, outcome);
        let ghost ended = self.runtimes;
        if let Ok(route) = &linked {
            let route = *route;
            self.runtimes.routes.insert(route.id, route);
        }
        let result = (linked, actions);
        proof {
            if old(self).runtimes.steady() && old(self).runtimes.admits(*plan) {
                old(self).runtimes.lemma_new_link_keeps_steady(
                    *plan,
                    outcome,
                    ended,
                    result.0,
                    result.1@,
                    self.runtimes,
                );
            }
        }
        assert(old(self).connect_ended(
            *plan,
            outcome,
            result.0,
            ended,
            *self,
            result.1@,
        ));
        result
    }

    /// The events for the end of a connect.
    pub fn connect_events(command_id: CommandId, linked: Result<AudioRoute, AudioError>) -> (events:
        Vec<BackendEvent>)
        ensures
            events@ == (match linked {
                Ok(route) => seq![
                    BackendEvent::RouteAdded { route },
                    BackendEvent::CommandCompleted { command_id },
                ],
                Err(error) => seq![BackendEvent::CommandFailed { command_id, error }],
            }),
    {
        match linked {
            Ok(route) => vec![
                BackendEvent::RouteAdded { route },
                BackendEvent::CommandCompleted { command_id },
            ],
            Err(error) => vec![BackendEvent::CommandFailed { command_id, error }],
        }
    }

    /// What a control command does.
    pub open spec fn control_set(
        self,
        command_id: CommandId,
        endpoint_id: EndpointId,
        change: EndpointChange,
        after: Self,
        step: CommandStep,
    ) -> bool {
        &&& after.runtimes == self.runtimes
        &&& if self.known@.contains_key(endpoint_id) {
            let before = self.known@[endpoint_id];
            &&& after.known@ == self.known@.insert(endpoint_id, change.applied(before))
            &&& step is Answer
            &&& step->Answer_events@ == session::control_events(
                command_id,
                if change.is_made(before) {
                    None
                } else {
                    Some(change.applied(before))
                },
            )
            &&& step->Answer_actions@.len() == 0
            &&& step->destroy is None
            &&& !step->stop
            &&& session::hub_changed(self.hub, endpoint_id, change, after.hub)
        } else {
            &&& after.known == self.known
            &&& after.hub == self.hub
            &&& refused(
                step,
                command_id,
                pipewire::route_fault(
                    ErrorCode::EndpointNotFound,
                    "That device is no longer available."@,
                    "endpoint "@ + ids::hyphenated(endpoint_id.value)
                        + " not found in cpal inventory"@,
                ),
            )
        }
    }

    fn set_control(&mut self, command_id: CommandId, endpoint_id: EndpointId, change: EndpointChange)
        -> (step: CommandStep)
        ensures
            old(self).control_set(command_id, endpoint_id, change, *final(self), step),
    {
        let result = match self.known.get(&endpoint_id) {
            None => {
                let id = endpoint_id.to_text();
                Err(
                    route_command_error(
                        ErrorCode::EndpointNotFound,
                        "That device is no longer available.",
                        joined3("endpoint ", id.as_str(), " not found in cpal inventory").as_str(),
                    ),
                )
            },
            Some(endpoint) => {
                let mut endpoint = endpoint.clone();
                let changed = !change.made(&endpoint);
                change.apply(&mut endpoint);
                self.known.insert(endpoint_id, endpoint.clone());
                change_controls(&mut self.hub, endpoint_id, change);
                if changed {
                    Ok(Some(endpoint))
                } else {
                    Ok(None)
                }
            },
        };
        answer(finish_control_command(result, command_id))
    }

    /// What a command means.
    pub open spec fn commanded(
        self,
        command: BackendCommand,
        after: Self,
        step: CommandStep,
    ) -> bool {
        match command {
            BackendCommand::Shutdown { command_id } => {
                &&& after == self
                &&& step is Answer
                &&& step->Answer_events@ == seq![
                    BackendEvent::Status { status: BackendStatus::Stopping },
                    BackendEvent::ShutdownComplete { command_id },
                ]
                &&& step->Answer_actions@.len() == 0
                &&& step->destroy is None
                &&& step->stop
            },
            BackendCommand::Connect { command_id, route } => {
                &&& after == self
                &&& match connect_fault(self.known@, self.runtimes, route) {
                    Some(fault) => refused(step, command_id, fault),
                    None => {
                        &&& step is Link
                        &&& step->Link_command_id == command_id
                        &&& step->Link_route == route
                        &&& step->Link_events@.len() == 0
                        &&& step->Link_actions@.len() == 0
                        &&& self.planned(route.in_state(RouteState::Connecting), step->plan)
                    },
                }
            },
            BackendCommand::Disconnect { command_id, route_id } => {
                &&& after.known == self.known
                &&& after.hub == self.hub
                &&& step is Answer
                &&& self.runtimes.takes_out(
                    route_id,
                    true,
                    after.runtimes,
                    step->Answer_actions@,
                )
                &&& step->Answer_events@ == seq![
                    BackendEvent::RouteRemoved { route_id },
                    BackendEvent::CommandCompleted { command_id },
                ]
                &&& step->destroy is None
                &&& !step->stop
            },
            BackendCommand::SetVolume { command_id, endpoint_id, gain } => self.control_set(
                command_id,
                endpoint_id,
                EndpointChange::Gain { gain },
                after,
                step,
            ),
            BackendCommand::SetMute { command_id, endpoint_id, muted } => self.control_set(
                command_id,
                endpoint_id,
                EndpointChange::Muted { muted },
                after,
                step,
            ),
            BackendCommand::SetBalance { command_id, endpoint_id, balance } => self.control_set(
                command_id,
                endpoint_id,
                EndpointChange::Balance { balance },
                after,
                step,
            ),
            BackendCommand::SetStreamTuning { command_id, stream_rate, buffer_frames } => {
                &&& after.known == self.known
                &&& after.hub == (ControlHub { stream_rate, buffer_frames, ..self.hub })
                &&& if self.hub.stream_rate == stream_rate && self.hub.buffer_frames
                    == buffer_frames {
                    after.runtimes == self.runtimes && driver::done(step, command_id)
                } else {
                    &&& after.runtimes.idle()
                    &&& step is Rebuild
                    &&& step->Rebuild_actions@ == self.runtimes.closings()
                    &&& step->Rebuild_command_id == command_id
                    &&& step->routes@.len() == self.runtimes.routes.entries().len()
                    &&& forall|i: int|
                        0 <= i < step->routes@.len() ==> #[trigger] step->routes@[i]
                            == self.runtimes.routes.entries()[i].1
                }
            },
            BackendCommand::SetDelay { command_id, endpoint_id, delay_ms } => {
                &&& after.known == self.known
                &&& after.runtimes == self.runtimes
                &&& after.hub.channels@ == self.hub.channels@.insert(
                    endpoint_id,
                    ChannelControls {
                        delay_ms: delay_ms.clamped(
                            Scalar { bits: 0 },
                            Scalar { bits: controls::MAX_DELAY_MS },
                        ),
                        ..self.hub.channel_of(endpoint_id)
                    },
                )
                &&& after.hub == (ControlHub { channels: after.hub.channels, ..self.hub })
                &&& driver::done(step, command_id)
            },
            BackendCommand::SetEq { command_id, endpoint_id, low_db, mid_db, high_db } => {
                &&& after.known == self.known
                &&& after.runtimes == self.runtimes
                &&& after.hub.channels@ == self.hub.channels@.insert(
                    endpoint_id,
                    ChannelControls {
                        eq_low_db: low_db,
                        eq_mid_db: mid_db,
                        eq_high_db: high_db,
                        ..self.hub.channel_of(endpoint_id)
                    },
                )
                &&& after.hub == (ControlHub { channels: after.hub.channels, ..self.hub })
                &&& driver::done(step, command_id)
            },
            BackendCommand::SetChannelMode { command_id, endpoint_id, mode } => {
                &&& after.known == self.known
                &&& after.runtimes == self.runtimes
                &&& after.hub.channels@ == self.hub.channels@.insert(
                    endpoint_id,
                    ChannelControls { mode, ..self.hub.channel_of(endpoint_id) },
                )
                &&& after.hub == (ControlHub { channels: after.hub.channels, ..self.hub })
                &&& driver::done(step, command_id)
            },
            BackendCommand::CreateVirtual { command_id, .. }
            | BackendCommand::DeleteVirtual { command_id, .. } => {
                &&& after == self
                &&& refused(
                    step,
                    command_id,
                    pipewire::route_fault(
                        ErrorCode::UnsupportedOperation,
                        "Virtual devices are not supported by this audio backend."@,
                        "CreateVirtual/DeleteVirtual on the cpal backend"@,
                    ),
                )
            },
        }
    }

    fn completed(command_id: CommandId) -> (step: CommandStep)
        ensures
            driver::done(step, command_id),
    {
        let events = vec![BackendEvent::CommandCompleted { command_id }];
        assert(events@ =~= seq![BackendEvent::CommandCompleted { command_id }]);
        answer(events)
    }

    fn no_virtuals(command_id: CommandId) -> (step: CommandStep)
        ensures
            refused(
                step,
                command_id,
                pipewire::route_fault(
                    ErrorCode::UnsupportedOperation,
                    "Virtual devices are not supported by this audio backend."@,
                    "CreateVirtual/DeleteVirtual on the cpal backend"@,
                ),
            ),
    {
        let error = route_command_error(
            ErrorCode::UnsupportedOperation,
            "Virtual devices are not supported by this audio backend.",
            "CreateVirtual/DeleteVirtual on the cpal backend",
        );
        answer(vec![BackendEvent::CommandFailed { command_id, error }])
    }

    /// Takes a command in.
    pub fn handle_command(&mut self, command: BackendCommand) -> (step: CommandStep)
        ensures
            old(self).commanded(command, *final(self), step),
            old(self).runtimes.wf() ==> final(self).runtimes.wf(),
            old(self).runtimes.steady() ==> final(self).runtimes.steady(),
    {
        match command {
            BackendCommand::Shutdown { command_id } => {
                let events = vec![
                    BackendEvent::Status { status: BackendStatus::Stopping },
                    BackendEvent::ShutdownComplete { command_id },
                ];
                CommandStep::Answer { events, actions: Vec::new(), destroy: None, stop: true }
            },
            BackendCommand::Connect { command_id, route } => match self.plan_connect(route) {
                Ok(plan) => CommandStep::Link {
                    command_id,
                    route,
                    plan,
                    events: Vec::new(),
                    actions: Vec::new(),
                },
                Err(error) => answer(vec![BackendEvent::CommandFailed { command_id, error }]),
            },
            BackendCommand::Disconnect { command_id, route_id } => {
                let actions = self.runtimes.disconnect_route(route_id);
                let events = vec![
                    BackendEvent::RouteRemoved { route_id },
                    BackendEvent::CommandCompleted { command_id },
                ];
                CommandStep::Answer { events, actions, destroy: None, stop: false }
            },
            BackendCommand::SetVolume { command_id, endpoint_id, gain } => self.set_control(
                command_id,
                endpoint_id,
                EndpointChange::Gain { gain },
            ),
            BackendCommand::SetMute { command_id, endpoint_id, muted } => self.set_control(
                command_id,
                endpoint_id,
                EndpointChange::Muted { muted },
            ),
            BackendCommand::SetBalance { command_id, endpoint_id, balance } => self.set_control(
                command_id,
                endpoint_id,
                EndpointChange::Balance { balance },
            ),
            BackendCommand::SetStreamTuning { command_id, stream_rate, buffer_frames } => {
                let rate_changed = self.hub.set_stream_rate(stream_rate);
                let buffer_changed = self.hub.set_buffer_frames(buffer_frames);
                if rate_changed || buffer_changed {
                    let routes = self.runtimes.all_routes();
                    let actions = self.runtimes.disconnect_all();
                    CommandStep::Rebuild { command_id, routes, actions }
                } else {
                    Self::completed(command_id)
                }
            },
            BackendCommand::SetDelay { command_id, endpoint_id, delay_ms } => {
                self.hub.set_delay_ms(endpoint_id, delay_ms);
                Self::completed(command_id)
            },
            BackendCommand::SetEq { command_id, endpoint_id, low_db, mid_db, high_db } => {
                self.hub.set_eq_db(endpoint_id, low_db, mid_db, high_db);
                Self::completed(command_id)
            },
            BackendCommand::SetChannelMode { command_id, endpoint_id, mode } => {
                self.hub.set_channel_mode(endpoint_id, mode);
                Self::completed(command_id)
            },
            BackendCommand::CreateVirtual { command_id, .. } => Self::no_virtuals(command_id),
            BackendCommand::DeleteVirtual { command_id, .. } => Self::no_virtuals(command_id),
        }
    }

    /// Routes become active once both their streams run. Returns what is
    /// reported.
    pub fn refresh_route_states(&mut self) -> (events: Vec<BackendEvent>)
        ensures
            events@ == activations(
                old(self).runtimes.routes.entries(),
                old(self).runtimes.captures@,
                old(self).runtimes.buses@,
            ),
            final(self).runtimes.routes.entries().len() == old(
                self).runtimes.routes.entries().len(),
            forall|i: int|
                0 <= i < old(self).runtimes.routes.entries().len() ==> (
                #[trigger] final(self).runtimes.routes.entries()[i]) == (
                    old(self).runtimes.routes.entries()[i].0,
                    if becomes_active(
                        old(self).runtimes.routes.entries()[i].1,
                        old(self).runtimes.captures@,
                        old(self).runtimes.buses@,
                    ) {
                        old(self).runtimes.routes.entries()[i].1.in_state(RouteState::Active)
                    } else {
                        old(self).runtimes.routes.entries()[i].1
                    },
                ),
            final(self).runtimes == (Runtimes {
                routes: final(self).runtimes.routes,
                ..old(self).runtimes
            }),
            final(self).known == old(self).known,
            final(self).hub == old(self).hub,
            old(self).runtimes.wf() ==> final(self).runtimes.wf(),
            old(self).runtimes.steady() ==> final(self).runtimes.steady(),
    {
        let ghost before = self.runtimes.routes.entries();
        let ghost captures = self.runtimes.captures@;
        let ghost buses = self.runtimes.buses@;
        let mut events: Vec<BackendEvent> = Vec::new();
        let mut at: usize = 0;
        assert(before.take(0) =~= Seq::<(RouteId, AudioRoute)>::empty());
        while at < self.runtimes.routes.len()
            invariant
                before == old(self).runtimes.routes.entries(),
                captures == old(self).runtimes.captures@,
                buses == old(self).runtimes.buses@,
                at <= self.runtimes.routes.entries().len() == before.len(),
                self.runtimes == (Runtimes { routes: self.runtimes.routes, ..old(self).runtimes }),
                self.known == old(self).known,
                self.hub == old(self).hub,
                old(self).runtimes.wf() ==> self.runtimes.wf(),
                old(self).runtimes.steady() ==> self.runtimes.steady(),
                events@ == activations(before.take(at as int), captures, buses),
                forall|i: int|
                    0 <= i < at ==> (#[trigger] self.runtimes.routes.entries()[i]) == (
                        before[i].0,
                        if becomes_active(before[i].1, captures, buses) {
                            before[i].1.in_state(RouteState::Active)
                        } else {
                            before[i].1
                        },
                    ),
                forall|i: int|
                    at <= i < before.len() ==> (#[trigger] self.runtimes.routes.entries()[i])
                        == before[i],
            decreases before.len() - at,
        {
            let mut route = *self.runtimes.routes.value_at(at);
            assert(before.take(at + 1).drop_last() =~= before.take(at as int));
            assert(before.take(at + 1).last() == before[at as int]);
            if route.state == RouteState::Connecting && runs(
                &self.runtimes.captures,
                route.source,
            ) && runs(&self.runtimes.buses, route.destination) {
                route.state = RouteState::Active;
                self.runtimes.routes.set_at(at, route);
                events.push(BackendEvent::RouteUpdated { route });
            }
            at = at + 1;
        }
        assert(before.take(at as int) =~= before);
        events
    }

    fn drop_endpoint(&mut self, id: EndpointId) -> (result: (Vec<BackendEvent>, Vec<StreamAction>))
        ensures
            dropped(old(self).runtimes, id, final(self).runtimes, result.0@, result.1@),
            final(self).known@ == old(self).known@.remove(id),
            final(self).hub == old(self).hub,
            old(self).runtimes.wf() ==> final(self).runtimes.wf(),
            old(self).runtimes.steady() ==> final(self).runtimes.steady(),
    {
        let _gone = self.known.remove(&id);
        let affected = self.runtimes.routes_of(id, true, true);
        let routes = driver::route_list(&affected);
        let (mut events, mut actions) = self.runtimes.take_out_all(&routes, true);
        let ghost middle = self.runtimes;
        let ghost first = actions@;
        self.runtimes.close_orphaned_capture(id, &mut actions);
        self.runtimes.close_orphaned_bus(id, &mut actions);
        events.push(BackendEvent::EndpointRemoved { endpoint_id: id });
        let result = (events, actions);
        proof {
            assert(endpoint_dropped(
                old(self).runtimes,
                id,
                middle,
                first,
                self.runtimes,
                result.0@,
                result.1@,
            ));
            if middle.wf() {
                assert(self.runtimes.captures@ =~= middle.captures@);
                assert(self.runtimes.buses@ =~= middle.buses@);
            }
        }
        result
    }

    fn vanished_ids(&self, current: &Table<EndpointId, AudioEndpoint>) -> (ids: Vec<EndpointId>)
        ensures
            ids@ == vanished(self.known.entries(), current@),
            forall|id: EndpointId| #[trigger]
                self.known@.contains_key(id) && !current@.contains_key(id) ==> ids@.contains(id),
            forall|i: int| 0 <= i < ids@.len() ==> !current@.contains_key(#[trigger] ids@[i]),
    {
        self.known.show_entries();
        let ghost entries = self.known.entries();
        let mut ids: Vec<EndpointId> = Vec::new();
        let mut at: usize = 0;
        assert(entries.take(0) =~= Seq::<(EndpointId, AudioEndpoint)>::empty());
        while at < self.known.len()
            invariant
                entries == self.known.entries(),
                at <= entries.len(),
                ids@ == vanished(entries.take(at as int), current@),
                forall|i: int|
                    0 <= i < at && !current@.contains_key((#[trigger] entries[i]).0)
                        ==> ids@.contains(entries[i].0),
                forall|i: int| 0 <= i < ids@.len() ==> !current@.contains_key(#[trigger] ids@[i]),
            decreases entries.len() - at,
        {
            let id = self.known.key_at(at);
            assert(entries.take(at + 1).drop_last() =~= entries.take(at as int));
            assert(entries.take(at + 1).last() == entries[at as int]);
            let ghost before = ids@;
            if !current.contains_key(&id) {
                ids.push(id);
                proof {
                    assert(ids@[ids@.len() - 1] == id);
                    assert forall|i: int|
                        0 <= i < at && !current@.contains_key((#[trigger] entries[i]).0) implies
                        ids@.contains(entries[i].0) by {
                        let k = choose|k: int| 0 <= k < before.len() && before[k] == entries[i].0;
                        assert(ids@[k] == entries[i].0);
                    }
                }
            }
            at = at + 1;
        }
        assert(entries.take(at as int) =~= entries);
        proof {
            assert forall|id: EndpointId| #[trigger]
                self.known@.contains_key(id) && !current@.contains_key(id) implies ids@.contains(
                id,
            ) by {
                let i = table::place_of(entries, id);
                assert(entries[i].0 == id);
            }
        }
        ids
    }

    /// Brings the known endpoints up to date after a poll. Endpoints that are
    /// gone take their routes with them; new ones and changed default marks
    /// are reported. Returns what is reported and what is done to the streams.
    pub fn refresh_endpoints(&mut self, current: &Table<EndpointId, AudioEndpoint>) -> (result: (
        Vec<BackendEvent>,
        Vec<StreamAction>,
    ))
        ensures
            final(self).known@ == known_after(old(self).known@, current@),
            exists|gone: Seq<BackendEvent>| #[trigger]
                dropped_all(
                    old(self).runtimes,
                    vanished(old(self).known.entries(), current@),
                    final(self).runtimes,
                    gone,
                    result.1@,
                ) && result.0@ =~= gone + poll_updates(old(self).known@, current.entries()),
            final(self).hub == old(self).hub,
            old(self).runtimes.wf() ==> final(self).runtimes.wf(),
            old(self).runtimes.steady() ==> final(self).runtimes.steady(),
    {
        let ghost known = self.known@;
        let removed = self.vanished_ids(current);
        let mut events: Vec<BackendEvent> = Vec::new();
        let mut actions: Vec<StreamAction> = Vec::new();
        let mut at: usize = 0;
        assert(removed@.take(0) =~= Seq::<EndpointId>::empty());
        while at < removed.len()
            invariant
                known == old(self).known@,
                removed@ == vanished(old(self).known.entries(), current@),
                at <= removed@.len(),
                dropped_all(
                    old(self).runtimes,
                    removed@.take(at as int),
                    self.runtimes,
                    events@,
                    actions@,
                ),
                forall|id: EndpointId| #[trigger]
                    self.known@.contains_key(id) <==> known.contains_key(id)
                        && !removed@.take(at as int).contains(id),
                forall|id: EndpointId| #[trigger]
                    self.known@.contains_key(id) ==> self.known@[id] == known[id],
                self.hub == old(self).hub,
                old(self).runtimes.wf() ==> self.runtimes.wf(),
                old(self).runtimes.steady() ==> self.runtimes.steady(),
            decreases removed@.len() - at,
        {
            let id = removed[at];
            let ghost middle = self.runtimes;
            let ghost first_events = events@;
            let ghost first_actions = actions@;
            let (mut last_events, mut last_actions) = self.drop_endpoint(id);
            let ghost new_events = last_events@;
            let ghost new_actions = last_actions@;
            events.append(&mut last_events);
            actions.append(&mut last_actions);
            at = at + 1;
            proof {
                let seen = removed@.take(at as int);
                assert(seen.drop_last() =~= removed@.take(at - 1));
                assert(seen.last() == id);
                assert(dropped(middle, seen.last(), self.runtimes, new_events, new_actions));
                assert(events@.take(events@.len() - new_events.len()) =~= first_events);
                assert(actions@.take(actions@.len() - new_actions.len()) =~= first_actions);
                assert(events@ =~= first_events + new_events);
                assert(actions@ =~= first_actions + new_actions);
                assert forall|other: EndpointId| #[trigger]
                    self.known@.contains_key(other) <==> known.contains_key(other)
                        && !seen.contains(other) by {
                    let earlier = removed@.take(at - 1);
                    assert(seen =~= earlier.push(id));
                    if earlier.contains(other) {
                        let k = choose|k: int| 0 <= k < earlier.len() && earlier[k] == other;
                        assert(seen[k] == other);
                    }
                    if seen.contains(other) && other != id {
                        let k = choose|k: int| 0 <= k < seen.len() && seen[k] == other;
                        assert(earlier[k] == other);
                    }
                    assert(seen[at - 1] == id);
                }
            }
        }
        assert(removed@.take(at as int) =~= removed@);
        let ghost gone = events@;
        let ghost kept = self.known@;
        let ghost settled = self.runtimes;
        proof {
            assert forall|id: EndpointId| #[trigger]
                kept.contains_key(id) <==> known.contains_key(id) && current@.contains_key(id) by {
                if removed@.contains(id) {
                    let k = choose|k: int| 0 <= k < removed@.len() && removed@[k] == id;
                    assert(!current@.contains_key(removed@[k]));
                }
            }
        }
        current.show_entries();
        let ghost entries = current.entries();
        let mut next: usize = 0;
        assert(entries.take(0) =~= Seq::<(EndpointId, AudioEndpoint)>::empty());
        while next < current.len()
            invariant
                known == old(self).known@,
                self.runtimes == settled,
                entries == current.entries(),
                next <= entries.len(),
                table::distinct_keys(entries),
                forall|i: int|
                    0 <= i < entries.len() ==> {
                        &&& current@.contains_key((#[trigger] entries[i]).0)
                        &&& current@[entries[i].0] == entries[i].1
                    },
                forall|id: EndpointId| #[trigger]
                    kept.contains_key(id) <==> known.contains_key(id) && current@.contains_key(id),
                forall|id: EndpointId| #[trigger] kept.contains_key(id) ==> kept[id] == known[id],
                forall|i: int|
                    0 <= i < next ==> {
                        &&& self.known@.contains_key((#[trigger] entries[i]).0)
                        &&& self.known@[entries[i].0] == known_after(known, current@)[entries[i].0]
                    },
                forall|i: int|
                    next <= i < entries.len() ==> {
                        &&& self.known@.contains_key((#[trigger] entries[i]).0)
                            <==> known.contains_key(entries[i].0)
                        &&& known.contains_key(entries[i].0) ==> self.known@[entries[i].0]
                            == known[entries[i].0]
                    },
                forall|id: EndpointId| #[trigger]
                    self.known@.contains_key(id) ==> current@.contains_key(id),
                events@ =~= gone + poll_updates(known, entries.take(next as int)),
                self.hub == old(self).hub,
            decreases entries.len() - next,
        {
            let id = current.key_at(next);
            let endpoint = current.value_at(next).clone();
            let ghost before = self.known@;
            assert(entries.take(next + 1).drop_last() =~= entries.take(next as int));
            assert(entries.take(next + 1).last() == entries[next as int]);
            assert(current@.contains_key(entries[next as int].0));
            match self.known.get(&id) {
                None => {
                    self.known.insert(id, endpoint.clone());
                    events.push(BackendEvent::EndpointAdded { endpoint });
                },
                Some(existing) => {
                    if existing.is_default != endpoint.is_default {
                        let mut updated = existing.clone();
                        updated.is_default = endpoint.is_default;
                        self.known.insert(id, updated.clone());
                        events.push(BackendEvent::EndpointUpdated { endpoint: updated });
                    }
                },
            }
            next = next + 1;
            proof {
                assert forall|i: int| 0 <= i < next implies {
                    &&& self.known@.contains_key((#[trigger] entries[i]).0)
                    &&& self.known@[entries[i].0] == known_after(known, current@)[entries[i].0]
                } by {
                    if i < next - 1 {
                        assert(entries[i].0 != entries[next - 1].0);
                    }
                }
                assert forall|i: int| next <= i < entries.len() implies {
                    &&& self.known@.contains_key((#[trigger] entries[i]).0) <==> known.contains_key(
                        entries[i].0,
                    )
                    &&& known.contains_key(entries[i].0) ==> self.known@[entries[i].0]
                        == known[entries[i].0]
                } by {
                    assert(entries[next - 1].0 != entries[i].0);
                }
            }
        }
        assert(entries.take(next as int) =~= entries);
        proof {
            let wanted = known_after(known, current@);
            assert forall|id: EndpointId| #[trigger] wanted.contains_key(id) implies
                self.known@.contains_key(id) && self.known@[id] == wanted[id] by {
                let i = table::place_of(entries, id);
                assert(table::holds_key(entries, id));
                assert(entries[i].0 == id);
            }
            assert(self.known@ =~= wanted);
        }
        let result = (events, actions);
        assert(dropped_all(
            old(self).runtimes,
            vanished(old(self).known.entries(), current@),
            self.runtimes,
            gone,
            result.1@,
        ));
        result
    }
}

/// A connect is planned for a new route only, between endpoints that no route
/// joins. The endpoints are known under their own identifiers.
pub proof fn law_a_connect_is_for_a_free_pair(
    session: PolledSession,
    route: AudioRoute,
    plan: LinkPlan,
)
    requires
        connect_fault(session.known@, session.runtimes, route) is None,
        session.planned(route.in_state(RouteState::Connecting), plan),
        session.known@[route.source].id == route.source,
        session.known@[route.destination].id == route.destination,
    ensures
        session.runtimes.admits(plan),
{
    runtimes::lemma_unjoined(session.runtimes.routes, route.source, route.destination);
}

/// After a poll the known endpoints are exactly those that are there now. One
/// that was known keeps everything but its default mark, which is brought up
/// to date; a new one is taken as it is.
pub proof fn law_a_poll_keeps_what_is_there(
    known: Map<EndpointId, AudioEndpoint>,
    current: Map<EndpointId, AudioEndpoint>,
    id: EndpointId,
)
    ensures
        known_after(known, current).contains_key(id) <==> current.contains_key(id),
        current.contains_key(id) && !known.contains_key(id) ==> known_after(known, current)[id]
            == current[id],
        current.contains_key(id) && known.contains_key(id) ==> {
            let after = known_after(known, current)[id];
            &&& after.is_default == current[id].is_default
            &&& after == (AudioEndpoint { is_default: after.is_default, ..known[id] })
        },
{
}

/// The endpoints that vanished are exactly those that were known and are not
/// there any more, in the order in which they became known.
pub proof fn law_vanished_endpoints_are_those_not_there(
    known: Seq<(EndpointId, AudioEndpoint)>,
    current: Map<EndpointId, AudioEndpoint>,
)
    ensures
        vanished(known, current) == known.filter(
            |entry: (EndpointId, AudioEndpoint)| !current.contains_key(entry.0),
        ).map_values(|entry: (EndpointId, AudioEndpoint)| entry.0),
    decreases known.len(),
{
    reveal(Seq::filter);
    let gone = |entry: (EndpointId, AudioEndpoint)| !current.contains_key(entry.0);
    let id = |entry: (EndpointId, AudioEndpoint)| entry.0;
    if known.len() > 0 {
        law_vanished_endpoints_are_those_not_there(known.drop_last(), current);
        let rest = known.drop_last().filter(gone);
        if gone(known.last()) {
            assert(known.filter(gone) == rest.push(known.last()));
            assert(rest.push(known.last()).map_values(id) =~= rest.map_values(id).push(
                known.last().0,
            ));
        } else {
            assert(known.filter(gone) == rest);
        }
    }
    assert(vanished(known, current) =~= known.filter(gone).map_values(id));
}

/// A poll reports the endpoints that are new, as new, and those whose default
/// mark changed, as they are known from now on; the others are not reported.
pub proof fn law_a_poll_reports_what_is_new(
    known: Map<EndpointId, AudioEndpoint>,
    current: Seq<(EndpointId, AudioEndpoint)>,
)
    ensures
        poll_updates(known, current) == current.filter(
            |entry: (EndpointId, AudioEndpoint)|
                !known.contains_key(entry.0) || known[entry.0].is_default != entry.1.is_default,
        ).map_values(
            |entry: (EndpointId, AudioEndpoint)|
                if known.contains_key(entry.0) {
                    BackendEvent::EndpointUpdated {
                        endpoint: AudioEndpoint {
                            is_default: entry.1.is_default,
                            ..known[entry.0]
                        },
                    }
                } else {
                    BackendEvent::EndpointAdded { endpoint: entry.1 }
                },
        ),
    decreases current.len(),
{
    reveal(Seq::filter);
    let newer = |entry: (EndpointId, AudioEndpoint)|
        !known.contains_key(entry.0) || known[entry.0].is_default != entry.1.is_default;
    let told = |entry: (EndpointId, AudioEndpoint)|
        if known.contains_key(entry.0) {
            BackendEvent::EndpointUpdated {
                endpoint: AudioEndpoint { is_default: entry.1.is_default, ..known[entry.0] },
            }
        } else {
            BackendEvent::EndpointAdded { endpoint: entry.1 }
        };
    if current.len() > 0 {
        law_a_poll_reports_what_is_new(known, current.drop_last());
        let rest = current.drop_last().filter(newer);
        if newer(current.last()) {
            assert(current.filter(newer) == rest.push(current.last()));
            assert(rest.push(current.last()).map_values(told) =~= rest.map_values(told).push(
                told(current.last()),
            ));
        } else {
            assert(current.filter(newer) == rest);
        }
    }
    assert(poll_updates(known, current) =~= current.filter(newer).map_values(told));
}

/// A route becomes active exactly where it was connecting and the stream of
/// its source and that of its destination both run; only such routes are told.
pub proof fn law_routes_wake_with_both_streams(
    entries: Seq<(RouteId, AudioRoute)>,
    captures: Map<EndpointId, StreamState>,
    buses: Map<EndpointId, StreamState>,
)
    ensures
        activations(entries, captures, buses) == entries.filter(
            |entry: (RouteId, AudioRoute)|
                entry.1.state == RouteState::Connecting && captures.contains_key(entry.1.source)
                    && captures[entry.1.source] == StreamState::Connected && buses.contains_key(
                    entry.1.destination,
                ) && buses[entry.1.destination] == StreamState::Connected,
        ).map_values(
            |entry: (RouteId, AudioRoute)|
                BackendEvent::RouteUpdated {
                    route: AudioRoute { state: RouteState::Active, ..entry.1 },
                },
        ),
        forall|i: int|
            0 <= i < entries.len() ==> #[trigger] becomes_active(entries[i].1, captures, buses)
                == (entries[i].1.state == RouteState::Connecting && captures.contains_key(
                entries[i].1.source,
            ) && captures[entries[i].1.source] == StreamState::Connected && buses.contains_key(
                entries[i].1.destination,
            ) && buses[entries[i].1.destination] == StreamState::Connected),
    decreases entries.len(),
{
    reveal(Seq::filter);
    let wakes = |entry: (RouteId, AudioRoute)|
        entry.1.state == RouteState::Connecting && captures.contains_key(entry.1.source)
            && captures[entry.1.source] == StreamState::Connected && buses.contains_key(
            entry.1.destination,
        ) && buses[entry.1.destination] == StreamState::Connected;
    let told = |entry: (RouteId, AudioRoute)|
        BackendEvent::RouteUpdated {
            route: AudioRoute { state: RouteState::Active, ..entry.1 },
        };
    if entries.len() > 0 {
        law_routes_wake_with_both_streams(entries.drop_last(), captures, buses);
        let rest = entries.drop_last().filter(wakes);
        if wakes(entries.last()) {
            assert(entries.filter(wakes) == rest.push(entries.last()));
            assert(rest.push(entries.last()).map_values(told) =~= rest.map_values(told).push(
                told(entries.last()),
            ));
        } else {
            assert(entries.filter(wakes) == rest);
        }
    }
    assert(activations(entries, captures, buses) =~= entries.filter(wakes).map_values(told));
}

/// An endpoint that is gone takes along every route at either end of it and no
/// other route, each reported before the endpoint itself.
pub proof fn law_a_gone_endpoint_takes_its_routes(
    before: Runtimes,
    gone: EndpointId,
    after: Runtimes,
    events: Seq<BackendEvent>,
    actions: Seq<StreamAction>,
    at: int,
)
    requires
        dropped(before, gone, after, events, actions),
        before.steady(),
        table::distinct_keys(before.routes.entries()),
        0 <= at < before.routes.entries().len(),
    ensures
        ({
            let (id, route) = before.routes.entries()[at];
            &&& after.routes@.contains_key(id) <==> route.source != gone && route.destination
                != gone
            &&& after.routes@.contains_key(id) ==> after.routes@[id] == route
            &&& route.source == gone || route.destination == gone ==> events.contains(
                BackendEvent::RouteRemoved { route_id: id },
            )
        }),
        events.len() > 0,
        events.last() == (BackendEvent::EndpointRemoved { endpoint_id: gone }),
{
    let entries = before.routes.entries();
    let (id, route) = entries[at];
    let listed = runtimes::routes_at(entries, gone, true, true);
    let routes = driver::route_ids(listed);
    let (middle, first) = choose|middle: Runtimes, first: Seq<StreamAction>| #[trigger]
        endpoint_dropped(before, gone, middle, first, after, events, actions);
    table::law_the_map_is_what_the_entries_say(entries, at, id);
    assert(before.routes@.contains_key(id));
    runtimes::law_routes_taken_out_are_gone(before, routes, middle, first, id);
    if route.source == gone || route.destination == gone {
        runtimes::lemma_route_is_listed(entries, gone, true, true, at);
        let i = choose|i: int| 0 <= i < listed.len() && listed[i] == route;
        assert(routes[i] == id);
        assert(events[i] == (BackendEvent::RouteRemoved { route_id: id }));
    } else if routes.contains(id) {
        let i = choose|i: int| 0 <= i < routes.len() && routes[i] == id;
        lemma_listed_routes_touch(before, gone, i);
        assert(before.routes@.contains_key(listed[i].id));
    }
}

proof fn lemma_listed_routes_touch(runtimes: Runtimes, endpoint: EndpointId, at: int)
    requires
        runtimes.steady(),
        table::distinct_keys(runtimes.routes.entries()),
        0 <= at < runtimes::routes_at(runtimes.routes.entries(), endpoint, true, true).len(),
    ensures
        ({
            let route = runtimes::routes_at(runtimes.routes.entries(), endpoint, true, true)[at];
            &&& route.source == endpoint || route.destination == endpoint
            &&& runtimes.routes@.contains_key(route.id)
            &&& runtimes.routes@[route.id] == route
        }),
{
    let entries = runtimes.routes.entries();
    lemma_listed_route_stands(entries, endpoint, at);
    let listed = runtimes::routes_at(entries, endpoint, true, true);
    let i = choose|i: int| 0 <= i < entries.len() && (#[trigger] entries[i]).1 == listed[at];
    table::law_the_map_is_what_the_entries_say(entries, i, entries[i].0);
    assert(runtimes.routes@.contains_key(entries[i].0));
}

proof fn lemma_listed_route_stands(
    entries: Seq<(RouteId, AudioRoute)>,
    endpoint: EndpointId,
    at: int,
)
    requires
        0 <= at < runtimes::routes_at(entries, endpoint, true, true).len(),
    ensures
        ({
            let route = runtimes::routes_at(entries, endpoint, true, true)[at];
            &&& route.source == endpoint || route.destination == endpoint
            &&& exists|i: int| 0 <= i < entries.len() && (#[trigger] entries[i]).1 == route
        }),
    decreases entries.len(),
{
    let rest = runtimes::routes_at(entries.drop_last(), endpoint, true, true);
    let all = runtimes::routes_at(entries, endpoint, true, true);
    if at < rest.len() {
        lemma_listed_route_stands(entries.drop_last(), endpoint, at);
        let i = choose|i: int|
            0 <= i < entries.drop_last().len() && (#[trigger] entries.drop_last()[i]).1 == rest[at];
        assert(entries[i].1 == all[at]);
    } else {
        assert(entries[entries.len() - 1].1 == all[at]);
    }
}

/// A control command for a known endpoint leaves it with exactly the value of
/// the command, in the list and in the controls that its streams follow, and
/// everything else as it was. The command is answered as done.
pub proof fn law_streams_follow_a_polled_command(
    before: PolledSession,
    command: BackendCommand,
    after: PolledSession,
    step: CommandStep,
    endpoint_id: EndpointId,
    other: EndpointId,
)
    requires
        before.commanded(command, after, step),
        before.known@.contains_key(endpoint_id),
        other != endpoint_id,
    ensures
        command matches BackendCommand::SetMute { command_id, endpoint_id: target, muted }
            ==> target == endpoint_id ==> {
            &&& after.known@[endpoint_id] == (AudioEndpoint { muted, ..before.known@[endpoint_id] })
            &&& after.known@.contains_key(other) == before.known@.contains_key(other)
            &&& before.known@.contains_key(other) ==> after.known@[other] == before.known@[other]
            &&& after.hub.endpoints@.contains_key(endpoint_id)
            &&& after.hub.endpoints@[endpoint_id].mute_setting() == muted
            &&& after.hub.strip_of(endpoint_id).gain == before.hub.strip_of(endpoint_id).gain
            &&& after.hub.strip_of(endpoint_id).balance == before.hub.strip_of(endpoint_id).balance
            &&& after.hub.strip_of(other) == before.hub.strip_of(other)
            &&& after.hub.channels == before.hub.channels
            &&& step->Answer_events@.last() == (BackendEvent::CommandCompleted { command_id })
            &&& step->Answer_events@.len() == (if before.known@[endpoint_id].muted == muted {
                1int
            } else {
                2
            })
        },
        command matches BackendCommand::SetVolume { command_id, endpoint_id: target, gain }
            ==> target == endpoint_id ==> {
            &&& after.known@[endpoint_id] == (AudioEndpoint { gain, ..before.known@[endpoint_id] })
            &&& before.known@.contains_key(other) ==> after.known@[other] == before.known@[other]
            &&& after.hub.endpoints@.contains_key(endpoint_id)
            &&& after.hub.endpoints@[endpoint_id].gain_setting().amount() == gain.amount()
            &&& after.hub.strip_of(endpoint_id).muted == before.hub.strip_of(endpoint_id).muted
            &&& after.hub.strip_of(endpoint_id).balance == before.hub.strip_of(endpoint_id).balance
            &&& after.hub.strip_of(other) == before.hub.strip_of(other)
            &&& step->Answer_events@.last() == (BackendEvent::CommandCompleted { command_id })
        },
        command matches BackendCommand::SetBalance { command_id, endpoint_id: target, balance }
            ==> target == endpoint_id ==> {
            &&& after.known@[endpoint_id] == (AudioEndpoint {
                balance,
                ..before.known@[endpoint_id]
            })
            &&& before.known@.contains_key(other) ==> after.known@[other] == before.known@[other]
            &&& after.hub.endpoints@.contains_key(endpoint_id)
            &&& after.hub.endpoints@[endpoint_id].balance_setting().amount() == balance.amount()
            &&& after.hub.strip_of(endpoint_id).muted == before.hub.strip_of(endpoint_id).muted
            &&& after.hub.strip_of(endpoint_id).gain == before.hub.strip_of(endpoint_id).gain
            &&& after.hub.strip_of(other) == before.hub.strip_of(other)
            &&& step->Answer_events@.last() == (BackendEvent::CommandCompleted { command_id })
        },
        command matches BackendCommand::SetEq {
            command_id,
            endpoint_id: target,
            low_db,
            mid_db,
            high_db,
        } ==> target == endpoint_id ==> {
            &&& after.hub.channels@.contains_key(endpoint_id)
            &&& after.hub.channels@[endpoint_id].eq_low_db == low_db
            &&& after.hub.channels@[endpoint_id].eq_mid_db == mid_db
            &&& after.hub.channels@[endpoint_id].eq_high_db == high_db
            &&& after.hub.channels@[endpoint_id].mode == before.hub.channel_of(endpoint_id).mode
            &&& after.hub.channels@[endpoint_id].delay_ms == before.hub.channel_of(
                endpoint_id,
            ).delay_ms
            &&& after.hub.channel_of(other) == before.hub.channel_of(other)
            &&& after.hub.endpoints == before.hub.endpoints
            &&& after.known == before.known
            &&& step->Answer_events@.last() == (BackendEvent::CommandCompleted { command_id })
        },
        command matches BackendCommand::SetChannelMode { command_id, endpoint_id: target, mode }
            ==> target == endpoint_id ==> {
            &&& after.hub.channels@.contains_key(endpoint_id)
            &&& after.hub.channels@[endpoint_id].mode == mode
            &&& after.hub.channels@[endpoint_id].delay_ms == before.hub.channel_of(
                endpoint_id,
            ).delay_ms
            &&& after.hub.channel_of(other) == before.hub.channel_of(other)
            &&& after.hub.endpoints == before.hub.endpoints
            &&& step->Answer_events@.last() == (BackendEvent::CommandCompleted { command_id })
        },
        command matches BackendCommand::SetDelay { command_id, endpoint_id: target, delay_ms }
            ==> target == endpoint_id ==> {
            let zero = Scalar { bits: 0 };
            let longest = Scalar { bits: controls::MAX_DELAY_MS };
            let set = after.hub.channels@[endpoint_id].delay_ms;
            &&& after.hub.channels@.contains_key(endpoint_id)
            &&& zero.le(delay_ms) && delay_ms.le(longest) ==> set == delay_ms
            &&& delay_ms.lt(zero) ==> set == zero
            &&& longest.lt(delay_ms) ==> set == longest
            &&& after.hub.channels@[endpoint_id].mode == before.hub.channel_of(endpoint_id).mode
            &&& after.hub.channel_of(other) == before.hub.channel_of(other)
            &&& after.hub.endpoints == before.hub.endpoints
            &&& step->Answer_events@.last() == (BackendEvent::CommandCompleted { command_id })
        },
        command matches BackendCommand::SetStreamTuning { stream_rate, buffer_frames, .. } ==> {
            &&& after.hub.stream_rate == stream_rate
            &&& after.hub.buffer_frames == buffer_frames
            &&& step is Rebuild <==> before.hub.stream_rate != stream_rate
                || before.hub.buffer_frames != buffer_frames
        },
        command matches BackendCommand::Disconnect { command_id, route_id } ==> {
            &&& !after.runtimes.routes@.contains_key(route_id)
            &&& step->Answer_events@.len() == 2
            &&& step->Answer_events@[0] == (BackendEvent::RouteRemoved { route_id })
            &&& step->Answer_events@[1] == (BackendEvent::CommandCompleted { command_id })
        },
        step is Answer && step->stop <==> command is Shutdown,
{
}

/// A polled device takes a connect exactly where its identifier is new, no
/// route leads from its source to its destination, both are known, the source
/// plays and the destination listens.
pub proof fn law_a_polled_connect_needs_fitting_ends(session: PolledSession, route: AudioRoute)
    ensures
        connect_fault(session.known@, session.runtimes, route) is None <==> {
            let known = session.known@;
            &&& !session.runtimes.routes@.contains_key(route.id)
            &&& forall|i: int|
                0 <= i < session.runtimes.routes.entries().len() ==> (
                #[trigger] session.runtimes.routes.entries()[i]).1.source != route.source
                    || session.runtimes.routes.entries()[i].1.destination != route.destination
            &&& known.contains_key(route.source)
            &&& known.contains_key(route.destination)
            &&& known[route.source].endpoint_type is PhysicalInput
                || known[route.source].endpoint_type is ApplicationOutput
                || known[route.source].endpoint_type is VirtualInput
                || known[route.source].endpoint_type is InternalBus
            &&& known[route.destination].endpoint_type is PhysicalOutput
                || known[route.destination].endpoint_type is ApplicationInput
                || known[route.destination].endpoint_type is VirtualOutput
                || known[route.destination].endpoint_type is InternalBus
        },
{
    let entries = session.runtimes.routes.entries();
    if runtimes::joins(entries, route.source, route.destination) is Some {
        let at = choose|at: int|
            runtimes::first_join(entries, route.source, route.destination, at);
        assert(runtimes::joins_at(entries, route.source, route.destination, at));
        assert(entries[at].1.source == route.source);
    } else {
        assert forall|i: int| 0 <= i < entries.len() implies (#[trigger] entries[i]).1.source
            != route.source || entries[i].1.destination != route.destination by {
            runtimes::law_joined_endpoints_are_found(
                entries,
                route.source,
                route.destination,
                i,
            );
        }
    }
}

/// A link that was made adds its route alone, and one that failed leaves what the
/// failure left; a refusal fails its own command and asks for nothing; and a poll
/// takes nothing but the default mark from what is known already.
pub proof fn law_polled_links_are_entered(
    before: PolledSession,
    plan: LinkPlan,
    outcome: LinkOutcome,
    linked: Result<AudioRoute, AudioError>,
    ended: Runtimes,
    after: PolledSession,
    actions: Seq<StreamAction>,
    other: RouteId,
)
    requires
        before.connect_ended(plan, outcome, linked, ended, after, actions),
    ensures
        linked matches Ok(made) ==> {
            &&& after.runtimes.routes@.contains_key(made.id)
            &&& after.runtimes.routes@[made.id] == made
            &&& other != made.id ==> after.runtimes.routes@.contains_key(other)
                == before.runtimes.routes@.contains_key(other)
            &&& other != made.id && before.runtimes.routes@.contains_key(other)
                ==> after.runtimes.routes@[other] == before.runtimes.routes@[other]
            &&& after.runtimes.captures == ended.captures
            &&& after.runtimes.buses == ended.buses
            &&& after.runtimes.feeds == ended.feeds
            &&& after.runtimes.draws == ended.draws
        },
        linked is Err ==> after.runtimes == ended,
{
}

/// A refusal fails its own command and asks for nothing more.
pub proof fn law_a_polled_refusal_fails_its_command(
    step: CommandStep,
    command_id: CommandId,
    fault: ErrorModel,
    known: AudioEndpoint,
    current: AudioEndpoint,
)
    ensures
        refused(step, command_id, fault) ==> {
            &&& step is Answer
            &&& session::failure(step->Answer_events@, command_id, fault)
            &&& step->Answer_actions@.len() == 0
            &&& step->destroy is None
            &&& !step->stop
        },
        refreshed(known, current).is_default == current.is_default,
        refreshed(known, current) == (AudioEndpoint {
            is_default: current.is_default,
            ..known
        }),
{
}

} // verus!
