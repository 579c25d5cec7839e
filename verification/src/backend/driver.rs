//! The loop of the PipeWire backend, cut into decisions.
use vstd::prelude::*;

use super::pipewire;
use super::registry::{RegistryState, VirtualStep};
use super::registry;
use super::runtimes::{LinkOutcome, LinkPlan, Runtimes, StreamAction};
use super::runtimes;
use super::session::{
    finish_control_command, ingress_pending, plan_connect, update_endpoint_control, PendingConnect,
    RebuildBudget, Session, CONNECT_RETRY_INTERVAL, CONNECT_RETRY_LIMIT, MAX_REBUILD_ATTEMPTS,
    METER_INTERVAL, REBUILD_COOLDOWN, VIRTUAL_RECONCILE_INTERVAL,
};
use super::session;
use super::{BackendCommand, BackendEvent, BackendStatus, EndpointChange};
use crate::domain::endpoint::{AudioEndpoint, EndpointState, EndpointType};
use crate::domain::error::{AudioError, ErrorCode, ErrorModel, ErrorSeverity};
use crate::domain::ids::{CommandId, EndpointId, RouteId, VirtualDeviceId};
use crate::domain::route::{AudioRoute, RouteState};
use crate::realtime::controls::ControlHub;
use crate::table::Table;
use crate::table;
use crate::text::{decimal_text, joined3, signed_text};
use crate::text;

verus! {

/// What is left to do for a command.
#[derive(Debug)]
pub enum CommandStep {
    /// Carry the actions out, destroy the virtual device where one is named,
    /// send the events, and stop where asked to.
    Answer {
        events: Vec<BackendEvent>,
        actions: Vec<StreamAction>,
        destroy: Option<VirtualDeviceId>,
        stop: bool,
    },
    /// Create a virtual device, then report with `virtual_created`.
    Create {
        command_id: CommandId,
        device: VirtualDeviceId,
        endpoint_type: EndpointType,
        name: String,
        stale: bool,
    },
    /// Carry the actions out, send the events, link the route, then report
    /// with `finish_connect`.
    Link {
        command_id: CommandId,
        route: AudioRoute,
        plan: LinkPlan,
        events: Vec<BackendEvent>,
        actions: Vec<StreamAction>,
    },
    /// Carry the actions out, connect every route again, each with
    /// `plan_connect` and `finish_rebuild`, then report the command as done.
    Rebuild { command_id: CommandId, routes: Vec<AudioRoute>, actions: Vec<StreamAction> },
}

/// The connects that do not join these two endpoints, in order.
pub open spec fn without_pair(
    pending: Seq<PendingConnect>,
    source: EndpointId,
    destination: EndpointId,
) -> Seq<PendingConnect>
    decreases pending.len(),
{
    if pending.len() == 0 {
        Seq::empty()
    } else {
        let rest = without_pair(pending.drop_last(), source, destination);
        let route = pending.last().route;
        if route.source == source && route.destination == destination {
            rest
        } else {
            rest.push(pending.last())
        }
    }
}

/// Whether an error of this content waits for an ingress.
pub open spec fn fault_waits(fault: ErrorModel) -> bool {
    fault.retryable && text::holds_part(fault.technical_message, "ingress"@)
}

/// What a failed connect leaves waiting, and what is reported: a connect that
/// waits for an ingress is tried again later, in place of any other for the
/// same endpoints; every other one fails.
pub open spec fn connect_failed(
    pending: Seq<PendingConnect>,
    command_id: CommandId,
    route: AudioRoute,
    fault: ErrorModel,
    now: u64,
    after: Seq<PendingConnect>,
    events: Seq<BackendEvent>,
) -> bool {
    if fault_waits(fault) {
        &&& after == without_pair(pending, route.source, route.destination).push(
            PendingConnect { command_id, route, attempts: 0, last_attempt: now },
        )
        &&& events == Seq::<BackendEvent>::empty()
    } else {
        &&& after == pending
        &&& session::failure(events, command_id, fault)
    }
}

/// The report of the route that a connect replaces.
pub open spec fn replaced(existing: Option<RouteId>) -> Seq<BackendEvent> {
    match existing {
        Some(route_id) => seq![BackendEvent::RouteRemoved { route_id }],
        None => Seq::empty(),
    }
}

/// What a control command does.
pub open spec fn control_set(
    before: Session,
    command_id: CommandId,
    endpoint_id: EndpointId,
    change: EndpointChange,
    after: Session,
    step: CommandStep,
) -> bool {
    let entries = before.registry.endpoints.entries();
    &&& after.runtimes == before.runtimes
    &&& after.pending_connects == before.pending_connects
    &&& after.rebuild_budget == before.rebuild_budget
    &&& step is Answer
    &&& step->Answer_actions@.len() == 0
    &&& step->destroy is None
    &&& !step->stop
    &&& if registry::announces(entries, endpoint_id) {
        let endpoint = registry::announced(entries, endpoint_id);
        &&& step->Answer_events@ == session::control_events(
            command_id,
            if change.is_made(endpoint) {
                None
            } else {
                Some(change.applied(endpoint))
            },
        )
        &&& exists|at: int|
            {
                &&& #[trigger] registry::first_with_id(entries, endpoint_id, at)
                &&& after.registry.endpoints.entries() == entries.update(
                    at,
                    (entries[at].0, change.applied(entries[at].1)),
                )
            }
        &&& after.registry == (RegistryState {
            endpoints: after.registry.endpoints,
            ..before.registry
        })
        &&& session::hub_changed(before.hub, endpoint_id, change, after.hub)
    } else {
        &&& after.registry == before.registry
        &&& after.hub == before.hub
        &&& session::failure(
            step->Answer_events@,
            command_id,
            pipewire::route_fault(
                ErrorCode::EndpointNotFound,
                "That device is no longer available."@,
                "endpoint "@ + crate::domain::ids::hyphenated(endpoint_id.value)
                    + " not found in PipeWire registry"@,
            ),
        )
    }
}

/// The answer that a command is done, with nothing more to do.
pub open spec fn done(step: CommandStep, command_id: CommandId) -> bool {
    &&& step is Answer
    &&& step->Answer_events@ == seq![BackendEvent::CommandCompleted { command_id }]
    &&& step->Answer_actions@.len() == 0
    &&& step->destroy is None
    &&& !step->stop
}

/// The routes of a virtual device whose endpoint is announced.
pub open spec fn routes_of_device(
    before: Session,
    device: VirtualDeviceId,
) -> Option<(EndpointId, Seq<RouteId>)> {
    match device_endpoint(before.registry.endpoints.entries(), device) {
        Some(endpoint) => Some(
            (
                endpoint,
                route_ids(
                    runtimes::routes_at(before.runtimes.routes.entries(), endpoint, true, true),
                ),
            ),
        ),
        None => None,
    }
}

/// The identifiers of routes.
pub open spec fn route_ids(routes: Seq<AudioRoute>) -> Seq<RouteId> {
    Seq::new(routes.len(), |i: int| routes[i].id)
}

/// Whether the entry at a place is the first of a virtual device.
pub open spec fn first_of_device(
    entries: Seq<(u32, AudioEndpoint)>,
    device: VirtualDeviceId,
    at: int,
) -> bool {
    &&& 0 <= at < entries.len()
    &&& entries[at].1.virtual_device_id == Some(device)
    &&& forall|i: int|
        0 <= i < at ==> (#[trigger] entries[i]).1.virtual_device_id != Some(device)
}

/// The endpoint of a virtual device.
pub open spec fn device_endpoint(
    entries: Seq<(u32, AudioEndpoint)>,
    device: VirtualDeviceId,
) -> Option<EndpointId> {
    if exists|at: int| first_of_device(entries, device, at) {
        Some(entries[choose|at: int| first_of_device(entries, device, at)].1.id)
    } else {
        None
    }
}

/// The identifiers of routes.
pub fn route_list(routes: &Vec<AudioRoute>) -> (ids: Vec<RouteId>)
    ensures
        ids@ == route_ids(routes@),
{
    let mut ids: Vec<RouteId> = Vec::new();
    let mut at: usize = 0;
    while at < routes.len()
        invariant
            at <= routes@.len(),
            ids@ =~= route_ids(routes@.take(at as int)),
        decreases routes@.len() - at,
    {
        ids.push(routes[at].id);
        at = at + 1;
    }
    assert(routes@.take(at as int) =~= routes@);
    ids
}

/// Whether a route has lost one of its endpoints.
pub open spec fn lost_end(entries: Seq<(u32, AudioEndpoint)>, route: AudioRoute) -> bool {
    !registry::announces(entries, route.source) || !registry::announces(entries, route.destination)
}

/// The routes that have lost one of their endpoints, in order.
pub open spec fn lost_routes(
    routes: Seq<(RouteId, AudioRoute)>,
    entries: Seq<(u32, AudioEndpoint)>,
) -> Seq<RouteId>
    decreases routes.len(),
{
    if routes.len() == 0 {
        Seq::empty()
    } else {
        let rest = lost_routes(routes.drop_last(), entries);
        if lost_end(entries, routes.last().1) {
            rest.push(routes.last().1.id)
        } else {
            rest
        }
    }
}

/// What is due in a turn of the loop.
#[derive(Clone, Copy, Debug, PartialEq, Eq, Structural)]
pub struct Due {
    pub meters: bool,
    pub virtuals: bool,
}

/// When the regular tasks of the loop were last done.
#[derive(Clone, Copy, Debug, PartialEq, Eq, Structural)]
pub struct LoopClock {
    pub last_meter: u64,
    pub last_reconcile: u64,
}

impl LoopClock {
    pub fn new(now: u64) -> (clock: Self)
        ensures
            clock.last_meter == now,
            clock.last_reconcile == now,
    {
        LoopClock { last_meter: now, last_reconcile: now }
    }

    /// Decides which regular tasks are due, and notes that they are done.
    pub fn tick(&mut self, now: u64) -> (due: Due)
        ensures
            due.meters == session::passed(now, old(self).last_meter, METER_INTERVAL),
            due.virtuals == session::passed(
                now,
                old(self).last_reconcile,
                VIRTUAL_RECONCILE_INTERVAL,
            ),
            final(self).last_meter == (if due.meters {
                now
            } else {
                old(self).last_meter
            }),
            final(self).last_reconcile == (if due.virtuals {
                now
            } else {
                old(self).last_reconcile
            }),
    {
        let meters = now >= self.last_meter && now - self.last_meter >= METER_INTERVAL;
        let virtuals = now >= self.last_reconcile && now - self.last_reconcile
            >= VIRTUAL_RECONCILE_INTERVAL;
        if meters {
            self.last_meter = now;
        }
        if virtuals {
            self.last_reconcile = now;
        }
        Due { meters, virtuals }
    }
}

/// The report of an error that the server sends. An error of the core object,
/// which has number zero, ends the backend.
pub fn core_error(object: u32, code: i32, message: &str) -> (result: (BackendEvent, bool))
    ensures
        result.1 == (object == 0),
        result.0 is Error,
        result.0->Error_error@ == (ErrorModel {
            code: ErrorCode::BackendUnavailable,
            severity: if object == 0 {
                ErrorSeverity::Error
            } else {
                ErrorSeverity::Warning
            },
            retryable: true,
            user_message: if object == 0 {
                "The connection to PipeWire was lost."@
            } else {
                "PipeWire reported an audio object error."@
            },
            technical_message: "PipeWire object "@ + text::decimal(object as nat) + " error ("@
                + text::signed_decimal(code as int) + "): "@ + message@,
        }),
{
    let fatal = object == 0;
    let number = decimal_text(object as u64);
    let mut technical = joined3("PipeWire object ", number.as_str(), " error (");
    let signed = signed_text(code);
    technical.append(signed.as_str());
    technical.append("): ");
    technical.append(message);
    let error = AudioError::new(
        ErrorCode::BackendUnavailable,
        if fatal {
            ErrorSeverity::Error
        } else {
            ErrorSeverity::Warning
        },
        true,
        if fatal {
            "The connection to PipeWire was lost."
        } else {
            "PipeWire reported an audio object error."
        },
        technical.as_str(),
    );
    (BackendEvent::Error { error }, fatal)
}

impl Session {
    pub fn new() -> (session: Self)
        ensures
            session.registry.endpoints@ == Map::<u32, AudioEndpoint>::empty(),
            session.runtimes.idle(),
            session.runtimes.steady(),
            session.pending_connects@.len() == 0,
            session.rebuild_budget@ == Map::<EndpointId, RebuildBudget>::empty(),
            session.hub.at_rest(),
    {
        Session {
            registry: RegistryState::new(),
            runtimes: Runtimes::new(),
            pending_connects: Vec::new(),
            rebuild_budget: Table::new(),
            hub: ControlHub::default(),
        }
    }

    fn queue_retry(&mut self, command_id: CommandId, route: AudioRoute, now: u64)
        ensures
            final(self).pending_connects@ == without_pair(
                old(self).pending_connects@,
                route.source,
                route.destination,
            ).push(PendingConnect { command_id, route, attempts: 0, last_attempt: now }),
            final(self).registry == old(self).registry,
            final(self).runtimes == old(self).runtimes,
            final(self).rebuild_budget == old(self).rebuild_budget,
            final(self).hub == old(self).hub,
    {
        let ghost before = self.pending_connects@;
        let mut kept: Vec<PendingConnect> = Vec::new();
        let mut at: usize = 0;
        assert(before.take(0) =~= Seq::<PendingConnect>::empty());
        while at < self.pending_connects.len()
            invariant
                *self == *old(self),
                before == self.pending_connects@,
                at <= before.len(),
                kept@ == without_pair(before.take(at as int), route.source, route.destination),
            decreases before.len() - at,
        {
            let pending = self.pending_connects[at];
            assert(before.take(at + 1).drop_last() =~= before.take(at as int));
            assert(before.take(at + 1).last() == before[at as int]);
            if !(pending.route.source == route.source && pending.route.destination
                == route.destination) {
                kept.push(pending);
            }
            at = at + 1;
        }
        assert(before.take(at as int) =~= before);
        kept.push(PendingConnect { command_id, route, attempts: 0, last_attempt: now });
        self.pending_connects = kept;
    }

    fn fail_connect(
        &mut self,
        command_id: CommandId,
        route: AudioRoute,
        error: AudioError,
        now: u64,
    ) -> (events: Vec<BackendEvent>)
        ensures
            connect_failed(
                old(self).pending_connects@,
                command_id,
                route,
                error@,
                now,
                final(self).pending_connects@,
                events@,
            ),
            final(self).registry == old(self).registry,
            final(self).runtimes == old(self).runtimes,
            final(self).rebuild_budget == old(self).rebuild_budget,
            final(self).hub == old(self).hub,
    {
        if ingress_pending(&error) {
            self.queue_retry(command_id, route, now);
            let events: Vec<BackendEvent> = Vec::new();
            assert(events@ =~= Seq::<BackendEvent>::empty());
            events
        } else {
            vec![BackendEvent::CommandFailed { command_id, error }]
        }
    }

    /// What a command means.
    pub open spec fn commanded(
        self,
        command: BackendCommand,
        now: u64,
        after: Self,
        step: CommandStep,
    ) -> bool {
        match command {
            BackendCommand::Shutdown { command_id } => {
                &&& after == self
                &&& step is Answer
                &&& step->Answer_events@ == seq![
                    BackendEvent::Status { status: BackendStatus::Stopping },
                    BackendEvent::ShutdownComplete { command_id },
                ]
                &&& step->Answer_actions@.len() == 0
                &&& step->destroy is None
                &&& step->stop
            },
            BackendCommand::CreateVirtual { command_id, virtual_device_id, endpoint } => {
                &&& after.runtimes == self.runtimes
                &&& after.pending_connects == self.pending_connects
                &&& after.rebuild_budget == self.rebuild_budget
                &&& after.hub == self.hub
                &&& self.virtual_requested(command_id, virtual_device_id, *endpoint, after, step)
            },
            BackendCommand::DeleteVirtual { command_id, virtual_device_id } => {
                &&& after.pending_connects == self.pending_connects
                &&& after.rebuild_budget == self.rebuild_budget
                &&& after.hub == self.hub
                &&& self.virtual_dropped(command_id, virtual_device_id, after, step)
            },
            BackendCommand::Connect { command_id, route } => {
                &&& after.registry == self.registry
                &&& after.rebuild_budget == self.rebuild_budget
                &&& after.hub == self.hub
                &&& self.connect_requested(command_id, route, now, after, step)
            },
            BackendCommand::Disconnect { command_id, route_id } => {
                &&& after.registry == self.registry
                &&& after.pending_connects == self.pending_connects
                &&& after.rebuild_budget == self.rebuild_budget
                &&& after.hub == self.hub
                &&& step is Answer
                &&& self.runtimes.takes_out(
                    route_id,
                    true,
                    after.runtimes,
                    step->Answer_actions@,
                )
                &&& step->Answer_events@ == seq![
                    BackendEvent::RouteRemoved { route_id },
                    BackendEvent::CommandCompleted { command_id },
                ]
                &&& step->destroy is None
                &&& !step->stop
            },
            BackendCommand::SetVolume { command_id, endpoint_id, gain } => control_set(
                self,
                command_id,
                endpoint_id,
                EndpointChange::Gain { gain },
                after,
                step,
            ),
            BackendCommand::SetMute { command_id, endpoint_id, muted } => control_set(
                self,
                command_id,
                endpoint_id,
                EndpointChange::Muted { muted },
                after,
                step,
            ),
            BackendCommand::SetBalance { command_id, endpoint_id, balance } => control_set(
                self,
                command_id,
                endpoint_id,
                EndpointChange::Balance { balance },
                after,
                step,
            ),
            BackendCommand::SetStreamTuning { command_id, stream_rate, buffer_frames } => {
                &&& after.registry == self.registry
                &&& after.pending_connects == self.pending_connects
                &&& after.rebuild_budget == self.rebuild_budget
                &&& after.hub == (ControlHub { stream_rate, buffer_frames, ..self.hub })
                &&& if self.hub.stream_rate == stream_rate && self.hub.buffer_frames
                    == buffer_frames {
                    after.runtimes == self.runtimes && done(step, command_id)
                } else {
                    &&& after.runtimes.idle()
                    &&& step is Rebuild
                    &&& step->Rebuild_actions@ == self.runtimes.closings()
                    &&& step->Rebuild_command_id == command_id
                    &&& step->routes@.len() == self.runtimes.routes.entries().len()
                    &&& forall|i: int|
                        0 <= i < step->routes@.len() ==> #[trigger] step->routes@[i]
                            == self.runtimes.routes.entries()[i].1
                }
            },
            BackendCommand::SetDelay { command_id, endpoint_id, delay_ms } => {
                &&& after.registry == self.registry
                &&& after.runtimes == self.runtimes
                &&& after.pending_connects == self.pending_connects
                &&& after.rebuild_budget == self.rebuild_budget
                &&& after.hub.channels@ == self.hub.channels@.insert(
                    endpoint_id,
                    crate::realtime::controls::ChannelControls {
                        delay_ms: delay_ms.clamped(
                            crate::scalar::Scalar { bits: 0 },
                            crate::scalar::Scalar {
                                bits: crate::realtime::controls::MAX_DELAY_MS,
                            },
                        ),
                        ..self.hub.channel_of(endpoint_id)
                    },
                )
                &&& after.hub == (ControlHub { channels: after.hub.channels, ..self.hub })
                &&& done(step, command_id)
            },
            BackendCommand::SetEq { command_id, endpoint_id, low_db, mid_db, high_db } => {
                &&& after.registry == self.registry
                &&& after.runtimes == self.runtimes
                &&& after.pending_connects == self.pending_connects
                &&& after.rebuild_budget == self.rebuild_budget
                &&& after.hub.channels@ == self.hub.channels@.insert(
                    endpoint_id,
                    crate::realtime::controls::ChannelControls {
                        eq_low_db: low_db,
                        eq_mid_db: mid_db,
                        eq_high_db: high_db,
                        ..self.hub.channel_of(endpoint_id)
                    },
                )
                &&& after.hub == (ControlHub { channels: after.hub.channels, ..self.hub })
                &&& done(step, command_id)
            },
            BackendCommand::SetChannelMode { command_id, endpoint_id, mode } => {
                &&& after.registry == self.registry
                &&& after.runtimes == self.runtimes
                &&& after.pending_connects == self.pending_connects
                &&& after.rebuild_budget == self.rebuild_budget
                &&& after.hub.channels@ == self.hub.channels@.insert(
                    endpoint_id,
                    crate::realtime::controls::ChannelControls {
                        mode,
                        ..self.hub.channel_of(endpoint_id)
                    },
                )
                &&& after.hub == (ControlHub { channels: after.hub.channels, ..self.hub })
                &&& done(step, command_id)
            },
        }
    }

    /// What a request for a virtual device means.
    pub open spec fn virtual_requested(
        self,
        command_id: CommandId,
        device: VirtualDeviceId,
        wanted: AudioEndpoint,
        after: Self,
        step: CommandStep,
    ) -> bool {
        let kind = wanted.endpoint_type;
        if kind != EndpointType::VirtualInput && kind != EndpointType::VirtualOutput {
            &&& after.registry == self.registry
            &&& step is Answer
            &&& session::failure(
                step->Answer_events@,
                command_id,
                pipewire::virtual_fault(
                    "Only virtual input and output devices can be created."@,
                    "invalid virtual endpoint type "@ + crate::domain::endpoint::kind_name(kind),
                ),
            )
            &&& step->Answer_actions@.len() == 0
            &&& step->destroy is None
            &&& !step->stop
        } else if self.registry.is_live(device, kind) {
            after.registry == self.registry && done(step, command_id)
        } else {
            &&& after.registry == (RegistryState {
                managed_virtuals: after.registry.managed_virtuals,
                virtual_ingresses: after.registry.virtual_ingresses,
                ..self.registry
            })
            &&& after.registry.managed_virtuals@ == self.registry.managed_virtuals@.remove(device)
            &&& after.registry.virtual_ingresses@ == (if step->stale {
                self.registry.virtual_ingresses@.remove(device)
            } else {
                self.registry.virtual_ingresses@
            })
            &&& step is Create
            &&& step->Create_command_id == command_id
            &&& step->device == device
            &&& step->endpoint_type == kind
            &&& step->name@ == wanted.name@
            &&& step->stale == self.registry.managed_virtuals@.contains_key(device)
        }
    }

    /// What the removal of a virtual device means: its routes go first, then
    /// the device itself, unless it is the last of its direction.
    pub open spec fn virtual_dropped(
        self,
        command_id: CommandId,
        device: VirtualDeviceId,
        after: Self,
        step: CommandStep,
    ) -> bool {
        let fault = self.registry.delete_fault(device);
        let gone = match routes_of_device(self, device) {
            Some((endpoint, routes)) => runtimes::removals(routes),
            None => Seq::empty(),
        };
        &&& step is Answer
        &&& !step->stop
        &&& step->Answer_events@.len() == gone.len() + 1
        &&& step->Answer_events@.drop_last() == gone
        &&& match fault {
            None => {
                &&& step->destroy == Some(device)
                &&& step->Answer_events@.last() == (BackendEvent::CommandCompleted { command_id })
                &&& after.registry == (RegistryState {
                    managed_virtuals: after.registry.managed_virtuals,
                    virtual_ingresses: after.registry.virtual_ingresses,
                    ..self.registry
                })
                &&& after.registry.managed_virtuals@ == self.registry.managed_virtuals@.remove(
                    device,
                )
                &&& after.registry.virtual_ingresses@ == self.registry.virtual_ingresses@.remove(
                    device,
                )
            },
            Some(fault) => {
                &&& step->destroy is None
                &&& step->Answer_events@.last() is CommandFailed
                &&& step->Answer_events@.last()->CommandFailed_command_id == command_id
                &&& step->Answer_events@.last()->CommandFailed_error@ == fault
                &&& after.registry == self.registry
            },
        }
        &&& routes_of_device(self, device) is None ==> after.runtimes == self.runtimes
            && step->Answer_actions@.len() == 0
        &&& routes_of_device(self, device) is Some ==> exists|
            middle: Runtimes,
            actions: Seq<StreamAction>,
        | #[trigger]
            self.device_routes_gone(
                (routes_of_device(self, device)->0).0,
                (routes_of_device(self, device)->0).1,
                middle,
                actions,
                after.runtimes,
                step->Answer_actions@,
            )
    }

    /// Whether the routes of a device were taken out, and its streams closed
    /// where no route runs through them any more.
    pub open spec fn device_routes_gone(
        self,
        endpoint: EndpointId,
        routes: Seq<RouteId>,
        middle: Runtimes,
        first: Seq<StreamAction>,
        after: Runtimes,
        actions: Seq<StreamAction>,
    ) -> bool {
        &&& self.runtimes.takes_out_all(routes, true, middle, first)
        &&& after.routes == middle.routes
        &&& after.feeds == middle.feeds
        &&& after.draws == middle.draws
        &&& after.captures@ == runtimes::without_orphan(
            middle.captures@,
            middle.feeds@,
            endpoint,
        )
        &&& after.buses@ == runtimes::without_orphan(middle.buses@, middle.draws@, endpoint)
        &&& actions == first + runtimes::only_if(
            runtimes::orphaned(middle.captures@, middle.feeds@, endpoint),
            StreamAction::CloseCapture { endpoint },
        ) + runtimes::only_if(
            runtimes::orphaned(middle.buses@, middle.draws@, endpoint),
            StreamAction::CloseBus { endpoint },
        )
    }

    /// What a connect means: a route between the same endpoints is replaced.
    pub open spec fn connect_requested(
        self,
        command_id: CommandId,
        route: AudioRoute,
        now: u64,
        after: Self,
        step: CommandStep,
    ) -> bool {
        let existing = runtimes::joins(
            self.runtimes.routes.entries(),
            route.source,
            route.destination,
        );
        let actions = match step {
            CommandStep::Answer { actions, .. } => actions@,
            CommandStep::Link { actions, .. } => actions@,
            _ => Seq::empty(),
        };
        &&& match existing {
            Some(existing) => self.runtimes.takes_out(existing, true, after.runtimes, actions),
            None => after.runtimes == self.runtimes && actions == Seq::<StreamAction>::empty(),
        }
        &&& match session::connect_fault(self.registry, after.runtimes, route) {
            None => {
                &&& after.pending_connects == self.pending_connects
                &&& step is Link
                &&& step->Link_command_id == command_id
                &&& step->Link_route == route
                &&& step->Link_events@ == replaced(existing)
                &&& session::planned(
                    self.registry,
                    after.runtimes,
                    route.in_state(RouteState::Connecting),
                    step->plan,
                )
            },
            Some(fault) => {
                &&& step is Answer
                &&& step->destroy is None
                &&& !step->stop
                &&& exists|last: Seq<BackendEvent>|
                    {
                        &&& step->Answer_events@ =~= replaced(existing) + last
                        &&& #[trigger] connect_failed(
                            self.pending_connects@,
                            command_id,
                            route,
                            fault,
                            now,
                            after.pending_connects@,
                            last,
                        )
                    }
            },
        }
    }

    /// Takes a command in.
    pub fn handle_command(&mut self, command: BackendCommand, now: u64) -> (step: CommandStep)
        ensures
            old(self).commanded(command, now, *final(self), step),
            old(self).runtimes.wf() ==> final(self).runtimes.wf(),
            old(self).runtimes.steady() ==> final(self).runtimes.steady(),
    {
        match command {
            BackendCommand::Shutdown { command_id } => CommandStep::Answer {
                events: vec![
                    BackendEvent::Status { status: BackendStatus::Stopping },
                    BackendEvent::ShutdownComplete { command_id },
                ],
                actions: Vec::new(),
                destroy: None,
                stop: true,
            },
            BackendCommand::CreateVirtual { command_id, virtual_device_id, endpoint } => {
                self.create_virtual(command_id, virtual_device_id, *endpoint)
            },
            BackendCommand::DeleteVirtual { command_id, virtual_device_id } => {
                self.delete_virtual(command_id, virtual_device_id)
            },
            BackendCommand::Connect { command_id, route } => self.connect(command_id, route, now),
            BackendCommand::Disconnect { command_id, route_id } => {
                let actions = self.runtimes.disconnect_route(route_id);
                CommandStep::Answer {
                    events: vec![
                        BackendEvent::RouteRemoved { route_id },
                        BackendEvent::CommandCompleted { command_id },
                    ],
                    actions,
                    destroy: None,
                    stop: false,
                }
            },
            BackendCommand::SetVolume { command_id, endpoint_id, gain } => self.set_control(
                command_id,
                endpoint_id,
                EndpointChange::Gain { gain },
            ),
            BackendCommand::SetMute { command_id, endpoint_id, muted } => self.set_control(
                command_id,
                endpoint_id,
                EndpointChange::Muted { muted },
            ),
            BackendCommand::SetBalance { command_id, endpoint_id, balance } => self.set_control(
                command_id,
                endpoint_id,
                EndpointChange::Balance { balance },
            ),
            BackendCommand::SetStreamTuning { command_id, stream_rate, buffer_frames } => {
                let rate_changed = self.hub.set_stream_rate(stream_rate);
                let buffer_changed = self.hub.set_buffer_frames(buffer_frames);
                if rate_changed || buffer_changed {
                    let routes = self.runtimes.all_routes();
                    let actions = self.runtimes.disconnect_all();
                    CommandStep::Rebuild { command_id, routes, actions }
                } else {
                    Self::completed(command_id)
                }
            },
            BackendCommand::SetDelay { command_id, endpoint_id, delay_ms } => {
                self.hub.set_delay_ms(endpoint_id, delay_ms);
                Self::completed(command_id)
            },
            BackendCommand::SetEq { command_id, endpoint_id, low_db, mid_db, high_db } => {
                self.hub.set_eq_db(endpoint_id, low_db, mid_db, high_db);
                Self::completed(command_id)
            },
            BackendCommand::SetChannelMode { command_id, endpoint_id, mode } => {
                self.hub.set_channel_mode(endpoint_id, mode);
                Self::completed(command_id)
            },
        }
    }

    fn completed(command_id: CommandId) -> (step: CommandStep)
        ensures
            done(step, command_id),
    {
        let events = vec![BackendEvent::CommandCompleted { command_id }];
        assert(events@ =~= seq![BackendEvent::CommandCompleted { command_id }]);
        CommandStep::Answer { events, actions: Vec::new(), destroy: None, stop: false }
    }

    fn set_control(&mut self, command_id: CommandId, endpoint_id: EndpointId, change: EndpointChange)
        -> (step: CommandStep)
        ensures
            control_set(*old(self), command_id, endpoint_id, change, *final(self), step),
    {
        let result = update_endpoint_control(
            &mut self.registry,
            &mut self.hub,
            endpoint_id,
            change,
        );
        let events = finish_control_command(result, command_id);
        CommandStep::Answer { events, actions: Vec::new(), destroy: None, stop: false }
    }

    fn create_virtual(
        &mut self,
        command_id: CommandId,
        device: VirtualDeviceId,
        wanted: AudioEndpoint,
    ) -> (step: CommandStep)
        ensures
            old(self).virtual_requested(command_id, device, wanted, *final(self), step),
            final(self).runtimes == old(self).runtimes,
            final(self).pending_connects == old(self).pending_connects,
            final(self).rebuild_budget == old(self).rebuild_budget,
            final(self).hub == old(self).hub,
    {
        let endpoint_type = wanted.endpoint_type;
        match self.registry.prepare_virtual_node(device, endpoint_type) {
            Err(error) => CommandStep::Answer {
                events: vec![BackendEvent::CommandFailed { command_id, error }],
                actions: Vec::new(),
                destroy: None,
                stop: false,
            },
            Ok(VirtualStep::AlreadyLive) => Self::completed(command_id),
            Ok(VirtualStep::Create { stale }) => CommandStep::Create {
                command_id,
                device,
                endpoint_type,
                name: wanted.name,
                stale,
            },
        }
    }

    /// Takes it in whether a virtual device could be created.
    pub fn virtual_created(
        &mut self,
        command_id: CommandId,
        device: VirtualDeviceId,
        endpoint_type: EndpointType,
        result: Result<(), AudioError>,
    ) -> (event: BackendEvent)
        ensures
            match result {
                Ok(()) => {
                    &&& event == (BackendEvent::CommandCompleted { command_id })
                    &&& final(self).registry == (RegistryState {
                        managed_virtuals: final(self).registry.managed_virtuals,
                        ..old(self).registry
                    })
                    &&& final(self).registry.managed_virtuals@
                        == old(self).registry.managed_virtuals@.insert(device, endpoint_type)
                },
                Err(error) => {
                    &&& event == (BackendEvent::CommandFailed { command_id, error })
                    &&& final(self).registry == old(self).registry
                },
            },
            final(self).runtimes == old(self).runtimes,
            final(self).pending_connects == old(self).pending_connects,
            final(self).rebuild_budget == old(self).rebuild_budget,
            final(self).hub == old(self).hub,
    {
        match result {
            Ok(()) => {
                self.registry.virtual_node_created(device, endpoint_type);
                BackendEvent::CommandCompleted { command_id }
            },
            Err(error) => BackendEvent::CommandFailed { command_id, error },
        }
    }

    fn find_device_endpoint(&self, device: VirtualDeviceId) -> (found: Option<EndpointId>)
        ensures
            found == device_endpoint(self.registry.endpoints.entries(), device),
    {
        let mut at: usize = 0;
        while at < self.registry.endpoints.len()
            invariant
                at <= self.registry.endpoints.entries().len(),
                forall|i: int|
                    0 <= i < at ==> (
                    #[trigger] self.registry.endpoints.entries()[i]).1.virtual_device_id != Some(
                        device,
                    ),
            decreases self.registry.endpoints.entries().len() - at,
        {
            let endpoint = self.registry.endpoints.value_at(at);
            let own = match endpoint.virtual_device_id {
                Some(id) => id == device,
                None => false,
            };
            if own {
                proof {
                    let entries = self.registry.endpoints.entries();
                    assert(first_of_device(entries, device, at as int));
                    let chosen = choose|k: int| first_of_device(entries, device, k);
                    assert(chosen == at) by {
                        if chosen < at {
                            assert(entries[chosen].1.virtual_device_id != Some(device));
                        }
                        if at < chosen {
                            assert(entries[at as int].1.virtual_device_id != Some(device));
                        }
                    }
                }
                return Some(endpoint.id);
            }
            at = at + 1;
        }
        None
    }

    fn delete_virtual(&mut self, command_id: CommandId, device: VirtualDeviceId) -> (step:
        CommandStep)
        ensures
            old(self).virtual_dropped(command_id, device, *final(self), step),
            final(self).pending_connects == old(self).pending_connects,
            final(self).rebuild_budget == old(self).rebuild_budget,
            final(self).hub == old(self).hub,
            old(self).runtimes.wf() ==> final(self).runtimes.wf(),
            old(self).runtimes.steady() ==> final(self).runtimes.steady(),
    {
        let mut events: Vec<BackendEvent> = Vec::new();
        let mut actions: Vec<StreamAction> = Vec::new();
        let found = self.find_device_endpoint(device);
        let ghost mut witness = (self.runtimes, actions@);
        if let Some(endpoint_id) = found {
            let affected = self.runtimes.routes_of(endpoint_id, true, true);
            let routes = route_list(&affected);
            let (removed, detached) = self.runtimes.take_out_all(&routes, true);
            let ghost middle = self.runtimes;
            let ghost first = detached@;
            events = removed;
            actions = detached;
            self.runtimes.close_orphaned_capture(endpoint_id, &mut actions);
            self.runtimes.close_orphaned_bus(endpoint_id, &mut actions);
            proof {
                witness = (middle, first);
                assert(old(self).device_routes_gone(
                    endpoint_id,
                    routes@,
                    middle,
                    first,
                    self.runtimes,
                    actions@,
                ));
                assert(routes_of_device(*old(self), device) == Some((endpoint_id, routes@)));
                if middle.wf() {
                    assert(self.runtimes.captures@ =~= middle.captures@);
                    assert(self.runtimes.buses@ =~= middle.buses@);
                }
            }
        }
        let ghost gone = events@;
        let destroy = match self.registry.delete_virtual_node(device) {
            Ok(()) => {
                events.push(BackendEvent::CommandCompleted { command_id });
                Some(device)
            },
            Err(error) => {
                events.push(BackendEvent::CommandFailed { command_id, error });
                None
            },
        };
        assert(events@.drop_last() =~= gone);
        let step = CommandStep::Answer { events, actions, destroy, stop: false };
        proof {
            let named = routes_of_device(*old(self), device);
            if named is Some {
                assert(old(self).device_routes_gone(
                    (named->0).0,
                    (named->0).1,
                    witness.0,
                    witness.1,
                    self.runtimes,
                    step->Answer_actions@,
                ));
            }
        }
        step
    }

    fn connect(&mut self, command_id: CommandId, route: AudioRoute, now: u64) -> (step: CommandStep)
        ensures
            old(self).connect_requested(command_id, route, now, *final(self), step),
            final(self).registry == old(self).registry,
            final(self).rebuild_budget == old(self).rebuild_budget,
            final(self).hub == old(self).hub,
            old(self).runtimes.wf() ==> final(self).runtimes.wf(),
            old(self).runtimes.steady() ==> final(self).runtimes.steady(),
    {
        let mut events: Vec<BackendEvent> = Vec::new();
        let mut actions: Vec<StreamAction> = Vec::new();
        let existing = self.runtimes.route_between(route.source, route.destination);
        if let Some(existing_id) = existing {
            actions = self.runtimes.disconnect_route(existing_id);
            events.push(BackendEvent::RouteRemoved { route_id: existing_id });
        } else {
            assert(actions@ =~= Seq::<StreamAction>::empty());
        }
        assert(events@ =~= replaced(existing));
        match plan_connect(&self.registry, &self.runtimes, route) {
            Ok(plan) => CommandStep::Link { command_id, route, plan, events, actions },
            Err(error) => {
                let ghost fault = error@;
                let mut last = self.fail_connect(command_id, route, error, now);
                let ghost reported = last@;
                assert(connect_failed(
                    old(self).pending_connects@,
                    command_id,
                    route,
                    fault,
                    now,
                    self.pending_connects@,
                    reported,
                ));
                events.append(&mut last);
                assert(events@ =~= replaced(existing) + reported);
                CommandStep::Answer { events, actions, destroy: None, stop: false }
            },
        }
    }

    /// Whether a connect ended with `linked`: the route is known and reported,
    /// or it failed.
    pub open spec fn connect_ended(
        self,
        command_id: CommandId,
        route: AudioRoute,
        plan: LinkPlan,
        outcome: LinkOutcome,
        now: u64,
        linked: Result<AudioRoute, AudioError>,
        ended: Runtimes,
        after: Self,
        events: Seq<BackendEvent>,
        actions: Seq<StreamAction>,
    ) -> bool {
        &&& self.runtimes.link_ended(plan, outcome, ended, linked, actions)
        &&& match linked {
            Ok(linked) => {
                &&& after.runtimes == (Runtimes { routes: after.runtimes.routes, ..ended })
                &&& after.runtimes.routes@ == self.runtimes.routes@.insert(linked.id, linked)
                &&& events =~= seq![
                    BackendEvent::RouteAdded { route: linked },
                    BackendEvent::CommandCompleted { command_id },
                ]
                &&& after.pending_connects == self.pending_connects
            },
            Err(error) => {
                &&& after.runtimes == ended
                &&& connect_failed(
                    self.pending_connects@,
                    command_id,
                    route,
                    error@,
                    now,
                    after.pending_connects@,
                    events,
                )
            },
        }
    }

    /// Takes the end of a connect in. Returns what is reported and what is
    /// done to the streams.
    pub fn finish_connect(
        &mut self,
        command_id: CommandId,
        route: AudioRoute,
        plan: &LinkPlan,
        outcome: LinkOutcome,
        now: u64,
    ) -> (result: (Vec<BackendEvent>, Vec<StreamAction>))
        ensures
            exists|linked: Result<AudioRoute, AudioError>, ended: Runtimes| #[trigger]
                old(self).connect_ended(
                    command_id,
                    route,
                    *plan,
                    outcome,
                    now,
                    linked,
                    ended,
                    *final(self),
                    result.0@,
                    result.1@,
                ),
            final(self).registry == old(self).registry,
            final(self).hub == old(self).hub,
            final(self).rebuild_budget == old(self).rebuild_budget,
            old(self).runtimes.steady() && old(self).runtimes.admits(*plan)
                ==> final(self).runtimes.steady(),
    {
        let (linked, actions) = self.runtimes.finish_link(plan, outcome);
        let ghost ended = self.runtimes;
        let ghost ending = linked;
        let events = match linked {
            Ok(linked) => {
                self.runtimes.routes.insert(linked.id, linked);
                vec![
                    BackendEvent::RouteAdded { route: linked },
                    BackendEvent::CommandCompleted { command_id },
                ]
            },
            Err(error) => self.fail_connect(command_id, route, error, now),
        };
        let result = (events, actions);
        assert(old(self).connect_ended(
            command_id,
            route,
            *plan,
            outcome,
            now,
            ending,
            ended,
            *self,
            result.0@,
            result.1@,
        ));
        proof {
            if old(self).runtimes.steady() && old(self).runtimes.admits(*plan) {
                old(self).runtimes.lemma_new_link_keeps_steady(
                    *plan,
                    outcome,
                    ended,
                    ending,
                    result.1@,
                    self.runtimes,
                );
            }
        }
        result
    }

    /// Whether the server has put an endpoint to sleep.
    pub open spec fn suspended(self, endpoint: EndpointId) -> bool {
        registry::announces(self.registry.endpoints.entries(), endpoint) && registry::announced(
            self.registry.endpoints.entries(),
            endpoint,
        ).state == EndpointState::Suspended
    }

    /// The budget of an endpoint right before a rebuild is decided.
    pub open spec fn budget_at(self, endpoint: EndpointId, now: u64) -> RebuildBudget {
        let budget = if self.rebuild_budget@.contains_key(endpoint) {
            self.rebuild_budget@[endpoint]
        } else {
            RebuildBudget { attempts: 0, last: now }
        };
        if session::passed(now, budget.last, REBUILD_COOLDOWN) {
            RebuildBudget { attempts: 0, ..budget }
        } else {
            budget
        }
    }

    /// Decides whether a stalled stream is built anew: not while its endpoint
    /// sleeps, and only a few times until it has rested.
    pub fn rebuild_due(&mut self, endpoint: EndpointId, now: u64) -> (due: bool)
        ensures
            due == (!old(self).suspended(endpoint) && old(self).budget_at(endpoint, now).attempts
                < MAX_REBUILD_ATTEMPTS),
            old(self).suspended(endpoint) ==> *final(self) == *old(self),
            !old(self).suspended(endpoint) ==> final(self).rebuild_budget@
                == old(self).rebuild_budget@.insert(
                endpoint,
                if due {
                    RebuildBudget {
                        attempts: (old(self).budget_at(endpoint, now).attempts + 1) as u8,
                        last: now,
                    }
                } else {
                    old(self).budget_at(endpoint, now)
                },
            ),
            final(self).registry == old(self).registry,
            final(self).runtimes == old(self).runtimes,
            final(self).pending_connects == old(self).pending_connects,
            final(self).hub == old(self).hub,
    {
        if let Some(found) = self.registry.endpoint(endpoint) {
            if found.state == EndpointState::Suspended {
                return false;
            }
        }
        let mut budget = match self.rebuild_budget.get(&endpoint) {
            Some(budget) => *budget,
            None => RebuildBudget { attempts: 0, last: now },
        };
        if now >= budget.last && now - budget.last >= REBUILD_COOLDOWN {
            budget.attempts = 0;
        }
        let due = budget.attempts < MAX_REBUILD_ATTEMPTS;
        if due {
            budget.attempts = budget.attempts + 1;
            budget.last = now;
        }
        self.rebuild_budget.insert(endpoint, budget);
        due
    }

    /// Whether the routes of a stream were unlinked and the stream closed.
    pub open spec fn stream_dropped(
        self,
        endpoint: EndpointId,
        is_capture: bool,
        routes: Seq<AudioRoute>,
        middle: Runtimes,
        first: Seq<StreamAction>,
        after: Runtimes,
        actions: Seq<StreamAction>,
    ) -> bool {
        &&& self.runtimes.takes_out_all(route_ids(routes), false, middle, first)
        &&& after == (Runtimes { captures: after.captures, buses: after.buses, ..middle })
        &&& after.captures@ == (if is_capture {
            middle.captures@.remove(endpoint)
        } else {
            middle.captures@
        })
        &&& after.buses@ == (if is_capture {
            middle.buses@
        } else {
            middle.buses@.remove(endpoint)
        })
        &&& actions == first + runtimes::only_if(
            is_capture && middle.captures@.contains_key(endpoint),
            StreamAction::CloseCapture { endpoint },
        ) + runtimes::only_if(
            !is_capture && middle.buses@.contains_key(endpoint),
            StreamAction::CloseBus { endpoint },
        )
    }

    /// Once the routes of a stream are unlinked, the stream is closed.
    proof fn lemma_unlinked_stream_is_closed(
        self,
        endpoint: EndpointId,
        is_capture: bool,
        routes: Seq<AudioRoute>,
        middle: Runtimes,
    )
        requires
            self.runtimes.steady(),
            middle.steady(),
            middle.routes == self.runtimes.routes,
            routes == runtimes::routes_at(
                self.runtimes.routes.entries(),
                endpoint,
                is_capture,
                !is_capture,
            ),
            forall|i: int|
                0 <= i < routes.len() ==> {
                    &&& !middle.feeds@.contains_key((#[trigger] routes[i]).id)
                    &&& !middle.draws@.contains_key(routes[i].id)
                },
        ensures
            is_capture ==> !middle.captures@.contains_key(endpoint),
            !is_capture ==> !middle.buses@.contains_key(endpoint),
    {
        let entries = self.runtimes.routes.entries();
        let links = if is_capture {
            middle.feeds@
        } else {
            middle.draws@
        };
        if (is_capture && middle.captures@.contains_key(endpoint)) || (!is_capture
            && middle.buses@.contains_key(endpoint)) {
            assert(runtimes::in_use(links, endpoint));
            let route = choose|route: RouteId| #[trigger]
                links.contains_key(route) && links[route] == endpoint;
            assert(middle.routes@.contains_key(route));
            let at = table::place_of(entries, route);
            assert(table::holds_key(entries, route));
            assert(entries[at].1 == middle.routes@[route]);
            runtimes::lemma_route_is_listed(entries, endpoint, is_capture, !is_capture, at);
            let k = choose|k: int| 0 <= k < routes.len() && routes[k] == entries[at].1;
            assert(routes[k].id == route);
        }
    }

    /// Drops the stream of an endpoint so that it can be built anew. Returns
    /// the routes that are to be linked again, what is reported, and what is
    /// done to the streams. The routes stay known.
    pub fn begin_rebuild(&mut self, endpoint: EndpointId, is_capture: bool) -> (result: (
        Vec<AudioRoute>,
        Vec<BackendEvent>,
        Vec<StreamAction>,
    ))
        ensures
            result.0@ == runtimes::routes_at(
                old(self).runtimes.routes.entries(),
                endpoint,
                is_capture,
                !is_capture,
            ),
            result.1@ == runtimes::removals(route_ids(result.0@)),
            exists|middle: Runtimes, first: Seq<StreamAction>| #[trigger]
                old(self).stream_dropped(
                    endpoint,
                    is_capture,
                    result.0@,
                    middle,
                    first,
                    final(self).runtimes,
                    result.2@,
                ),
            final(self).registry == old(self).registry,
            final(self).pending_connects == old(self).pending_connects,
            final(self).rebuild_budget == old(self).rebuild_budget,
            final(self).hub == old(self).hub,
            old(self).runtimes.steady() ==> {
                &&& final(self).runtimes.steady()
                &&& forall|i: int|
                    0 <= i < result.0@.len() ==> {
                        &&& !final(self).runtimes.feeds@.contains_key((#[trigger] result.0@[i]).id)
                        &&& !final(self).runtimes.draws@.contains_key(result.0@[i].id)
                    }
            },
    {
        let affected = self.runtimes.routes_of(endpoint, is_capture, !is_capture);
        let routes = route_list(&affected);
        let (events, mut actions) = self.runtimes.take_out_all(&routes, false);
        let ghost middle = self.runtimes;
        let ghost first = actions@;
        proof {
            if old(self).runtimes.steady() {
                assert forall|i: int| 0 <= i < affected@.len() implies {
                    &&& !middle.feeds@.contains_key((#[trigger] affected@[i]).id)
                    &&& !middle.draws@.contains_key(affected@[i].id)
                } by {
                    assert(routes@[i] == affected@[i].id);
                }
                old(self).lemma_unlinked_stream_is_closed(
                    endpoint,
                    is_capture,
                    affected@,
                    middle,
                );
            }
        }
        if is_capture {
            if self.runtimes.captures.remove(&endpoint).is_some() {
                actions.push(StreamAction::CloseCapture { endpoint });
            }
        } else if self.runtimes.buses.remove(&endpoint).is_some() {
            actions.push(StreamAction::CloseBus { endpoint });
        }
        proof {
            if old(self).runtimes.steady() {
                assert(self.runtimes.captures@ =~= middle.captures@);
                assert(self.runtimes.buses@ =~= middle.buses@);
                assert(self.runtimes.steady());
            }
        }
        let result = (affected, events, actions);
        proof {
            assert(result.2@ =~= first + runtimes::only_if(
                is_capture && middle.captures@.contains_key(endpoint),
                StreamAction::CloseCapture { endpoint },
            ) + runtimes::only_if(
                !is_capture && middle.buses@.contains_key(endpoint),
                StreamAction::CloseBus { endpoint },
            ));
            assert(old(self).stream_dropped(
                endpoint,
                is_capture,
                result.0@,
                middle,
                first,
                self.runtimes,
                result.2@,
            ));
        }
        result
    }

    /// Takes in how a route was linked again after its stream was built anew.
    /// Returns what is reported and what is done to the streams.
    pub fn finish_relink(&mut self, plan: &LinkPlan, outcome: LinkOutcome) -> (result: (
        BackendEvent,
        Vec<StreamAction>,
    ))
        ensures
            exists|linked: Result<AudioRoute, AudioError>| #[trigger]
                old(self).runtimes.link_ended(
                    *plan,
                    outcome,
                    final(self).runtimes,
                    linked,
                    result.1@,
                ) && result.0 == (match linked {
                    Ok(route) => BackendEvent::RouteAdded { route },
                    Err(error) => BackendEvent::Error { error },
                }),
            final(self).registry == old(self).registry,
            final(self).pending_connects == old(self).pending_connects,
            final(self).hub == old(self).hub,
            final(self).rebuild_budget == old(self).rebuild_budget,
            old(self).runtimes.steady() && old(self).runtimes.readmits(*plan)
                ==> final(self).runtimes.steady(),
    {
        let (linked, actions) = self.runtimes.finish_link(plan, outcome);
        let ghost ending = linked;
        let event = match linked {
            Ok(route) => BackendEvent::RouteAdded { route },
            Err(error) => BackendEvent::Error { error },
        };
        let result = (event, actions);
        assert(old(self).runtimes.link_ended(*plan, outcome, self.runtimes, ending, result.1@));
        proof {
            if old(self).runtimes.steady() && old(self).runtimes.readmits(*plan) {
                old(self).runtimes.lemma_relink_keeps_steady(
                    *plan,
                    outcome,
                    self.runtimes,
                    ending,
                    result.1@,
                );
            }
        }
        result
    }

    /// Takes in how a route was connected again after every stream was built
    /// anew. Returns what is reported and what is done to the streams.
    pub fn finish_rebuild(&mut self, plan: &LinkPlan, outcome: LinkOutcome) -> (result: (
        BackendEvent,
        Vec<StreamAction>,
    ))
        ensures
            exists|linked: Result<AudioRoute, AudioError>, ended: Runtimes| #[trigger]
                old(self).runtimes.link_ended(*plan, outcome, ended, linked, result.1@)
                    && match linked {
                    Ok(route) => {
                        &&& result.0 == (BackendEvent::RouteAdded { route })
                        &&& final(self).runtimes == (Runtimes {
                            routes: final(self).runtimes.routes,
                            ..ended
                        })
                        &&& final(self).runtimes.routes@ == old(self).runtimes.routes@.insert(
                            route.id,
                            route,
                        )
                    },
                    Err(error) => result.0 == (BackendEvent::Error { error }) && final(
                        self).runtimes == ended,
                },
            final(self).registry == old(self).registry,
            final(self).pending_connects == old(self).pending_connects,
            final(self).hub == old(self).hub,
            old(self).runtimes.steady() && old(self).runtimes.admits(*plan)
                ==> final(self).runtimes.steady(),
            final(self).rebuild_budget == old(self).rebuild_budget,
    {
        let (linked, actions) = self.runtimes.finish_link(plan, outcome);
        let ghost ending = linked;
        let ghost ended = self.runtimes;
        let event = match linked {
            Ok(route) => {
                self.runtimes.routes.insert(route.id, route);
                BackendEvent::RouteAdded { route }
            },
            Err(error) => BackendEvent::Error { error },
        };
        let result = (event, actions);
        assert(old(self).runtimes.link_ended(*plan, outcome, ended, ending, result.1@));
        proof {
            if old(self).runtimes.steady() && old(self).runtimes.admits(*plan) {
                old(self).runtimes.lemma_new_link_keeps_steady(
                    *plan,
                    outcome,
                    ended,
                    ending,
                    result.1@,
                    self.runtimes,
                );
            }
        }
        result
    }

    /// The first connect from `from` on that is due to be tried again.
    pub fn due_retry(&self, from: usize, now: u64) -> (found: Option<usize>)
        ensures
            match found {
                Some(at) => {
                    &&& from <= at < self.pending_connects@.len()
                    &&& session::passed(
                        now,
                        self.pending_connects@[at as int].last_attempt,
                        CONNECT_RETRY_INTERVAL,
                    )
                    &&& forall|i: int|
                        from <= i < at ==> !session::passed(
                            now,
                            (#[trigger] self.pending_connects@[i]).last_attempt,
                            CONNECT_RETRY_INTERVAL,
                        )
                },
                None => forall|i: int|
                    from <= i < self.pending_connects@.len() ==> !session::passed(
                        now,
                        (#[trigger] self.pending_connects@[i]).last_attempt,
                        CONNECT_RETRY_INTERVAL,
                    ),
            },
    {
        let mut at: usize = from;
        while at < self.pending_connects.len()
            invariant
                from <= at,
                forall|i: int|
                    from <= i < at && i < self.pending_connects@.len() ==> !session::passed(
                        now,
                        (#[trigger] self.pending_connects@[i]).last_attempt,
                        CONNECT_RETRY_INTERVAL,
                    ),
            decreases self.pending_connects@.len() - at,
        {
            let last = self.pending_connects[at].last_attempt;
            if now >= last && now - last >= CONNECT_RETRY_INTERVAL {
                return Some(at);
            }
            at = at + 1;
        }
        None
    }

    /// What another try of a connect leaves waiting and what is reported.
    pub open spec fn retried(
        pending: Seq<PendingConnect>,
        at: int,
        failed: Option<ErrorModel>,
        route: AudioRoute,
        now: u64,
        after: Seq<PendingConnect>,
        events: Seq<BackendEvent>,
    ) -> bool {
        let tried = pending[at];
        match failed {
            None => {
                &&& after == pending.remove(at)
                &&& events =~= seq![
                    BackendEvent::RouteAdded { route },
                    BackendEvent::CommandCompleted { command_id: tried.command_id },
                ]
            },
            Some(fault) => if fault_waits(fault) && tried.attempts + 1 < CONNECT_RETRY_LIMIT {
                &&& after == pending.update(
                    at,
                    PendingConnect {
                        attempts: (tried.attempts + 1) as u8,
                        last_attempt: now,
                        ..tried
                    },
                )
                &&& events =~= Seq::<BackendEvent>::empty()
            } else {
                &&& after == pending.remove(at)
                &&& session::failure(events, tried.command_id, fault)
            },
        }
    }

    /// Takes in how another try of a connect went.
    pub fn retry_ended(&mut self, at: usize, result: Result<AudioRoute, AudioError>, now: u64) -> (
    events: Vec<BackendEvent>)
        requires
            at < old(self).pending_connects@.len(),
            old(self).pending_connects@[at as int].attempts < u8::MAX,
        ensures
            Self::retried(
                old(self).pending_connects@,
                at as int,
                match result {
                    Ok(_) => None,
                    Err(error) => Some(error@),
                },
                result->Ok_0,
                now,
                final(self).pending_connects@,
                events@,
            ),
            final(self).registry == old(self).registry,
            final(self).runtimes == old(self).runtimes,
            final(self).rebuild_budget == old(self).rebuild_budget,
            final(self).hub == old(self).hub,
    {
        let mut pending = self.pending_connects[at];
        let command_id = pending.command_id;
        match result {
            Ok(route) => {
                let _done = self.pending_connects.remove(at);
                vec![
                    BackendEvent::RouteAdded { route },
                    BackendEvent::CommandCompleted { command_id },
                ]
            },
            Err(error) => {
                if ingress_pending(&error) {
                    pending.attempts = pending.attempts + 1;
                    pending.last_attempt = now;
                    if pending.attempts < CONNECT_RETRY_LIMIT {
                        self.pending_connects.set(at, pending);
                        return Vec::new();
                    }
                }
                let _failed = self.pending_connects.remove(at);
                vec![BackendEvent::CommandFailed { command_id, error }]
            },
        }
    }

    /// Reports how the linking of a connect that was tried again ended.
    pub fn finish_retry(&mut self, at: usize, plan: &LinkPlan, outcome: LinkOutcome, now: u64) -> (
    result: (Vec<BackendEvent>, Vec<StreamAction>))
        requires
            at < old(self).pending_connects@.len(),
            old(self).pending_connects@[at as int].attempts < u8::MAX,
        ensures
            exists|linked: Result<AudioRoute, AudioError>, ended: Runtimes|
                {
                    &&& #[trigger] old(self).runtimes.link_ended(
                        *plan,
                        outcome,
                        ended,
                        linked,
                        result.1@,
                    )
                    &&& Self::retried(
                        old(self).pending_connects@,
                        at as int,
                        match linked {
                            Ok(_) => None,
                            Err(error) => Some(error@),
                        },
                        linked->Ok_0,
                        now,
                        final(self).pending_connects@,
                        result.0@,
                    )
                    &&& match linked {
                        Ok(route) => {
                            &&& final(self).runtimes == (Runtimes {
                                routes: final(self).runtimes.routes,
                                ..ended
                            })
                            &&& final(self).runtimes.routes@ == old(self).runtimes.routes@.insert(
                                route.id,
                                route,
                            )
                        },
                        Err(_) => final(self).runtimes == ended,
                    }
                },
            final(self).registry == old(self).registry,
            final(self).rebuild_budget == old(self).rebuild_budget,
            final(self).hub == old(self).hub,
            old(self).runtimes.steady() && old(self).runtimes.admits(*plan)
                ==> final(self).runtimes.steady(),
    {
        let (linked, actions) = self.runtimes.finish_link(plan, outcome);
        let ghost ending = linked;
        let ghost ended = self.runtimes;
        if let Ok(route) = &linked {
            self.runtimes.routes.insert(route.id, *route);
        }
        let events = self.retry_ended(at, linked, now);
        let result = (events, actions);
        assert(old(self).runtimes.link_ended(*plan, outcome, ended, ending, result.1@));
        proof {
            if old(self).runtimes.steady() && old(self).runtimes.admits(*plan) {
                old(self).runtimes.lemma_new_link_keeps_steady(
                    *plan,
                    outcome,
                    ended,
                    ending,
                    result.1@,
                    self.runtimes,
                );
            }
        }
        result
    }

    /// Disconnects every route that has lost one of its endpoints. Returns
    /// what is reported and what is done to the streams.
    pub fn prune_unavailable_routes(&mut self) -> (result: (Vec<BackendEvent>, Vec<StreamAction>))
        ensures
            ({
                let lost = lost_routes(
                    old(self).runtimes.routes.entries(),
                    old(self).registry.endpoints.entries(),
                );
                &&& result.0@ == runtimes::removals(lost)
                &&& old(self).runtimes.takes_out_all(lost, true, final(self).runtimes, result.1@)
            }),
            final(self).registry == old(self).registry,
            final(self).pending_connects == old(self).pending_connects,
            final(self).rebuild_budget == old(self).rebuild_budget,
            final(self).hub == old(self).hub,
            old(self).runtimes.wf() ==> final(self).runtimes.wf(),
            old(self).runtimes.steady() ==> final(self).runtimes.steady(),
    {
        let ghost entries = self.runtimes.routes.entries();
        let ghost announced = self.registry.endpoints.entries();
        let mut lost: Vec<RouteId> = Vec::new();
        let mut at: usize = 0;
        assert(entries.take(0) =~= Seq::<(RouteId, AudioRoute)>::empty());
        while at < self.runtimes.routes.len()
            invariant
                *self == *old(self),
                entries == self.runtimes.routes.entries(),
                announced == self.registry.endpoints.entries(),
                at <= entries.len(),
                lost@ == lost_routes(entries.take(at as int), announced),
            decreases entries.len() - at,
        {
            let route = *self.runtimes.routes.value_at(at);
            assert(entries.take(at + 1).drop_last() =~= entries.take(at as int));
            assert(entries.take(at + 1).last() == entries[at as int]);
            if self.registry.find_endpoint(route.source).is_none() || self.registry.find_endpoint(
                route.destination,
            ).is_none() {
                lost.push(route.id);
            }
            at = at + 1;
        }
        assert(entries.take(at as int) =~= entries);
        self.runtimes.take_out_all(&lost, true)
    }

    /// The default virtual devices that are not there.
    pub fn lapsed_virtuals(&self) -> (lapsed: Vec<super::registry::VirtualSpec>)
        ensures
            ({
                let input = !self.registry.is_live(
                    VirtualDeviceId { value: pipewire::DEFAULT_VIRTUAL_INPUT_ID },
                    EndpointType::VirtualInput,
                );
                let output = !self.registry.is_live(
                    VirtualDeviceId { value: pipewire::DEFAULT_VIRTUAL_OUTPUT_ID },
                    EndpointType::VirtualOutput,
                );
                &&& lapsed@.len() == (if input {
                    1int
                } else {
                    0
                }) + (if output {
                    1int
                } else {
                    0
                })
                &&& input ==> registry::default_input(lapsed@[0])
                &&& output ==> registry::default_output(lapsed@.last())
            }),
    {
        let mut specs = super::registry::default_virtual_specs();
        let mut lapsed: Vec<super::registry::VirtualSpec> = Vec::new();
        let output = specs.pop();
        let input = specs.pop();
        if let Some(input) = input {
            if !self.registry.virtual_is_live(input.id, input.endpoint_type) {
                lapsed.push(input);
            }
        }
        if let Some(output) = output {
            if !self.registry.virtual_is_live(output.id, output.endpoint_type) {
                lapsed.push(output);
                assert(lapsed@[lapsed@.len() - 1].id.value == pipewire::DEFAULT_VIRTUAL_OUTPUT_ID);
            }
        }
        lapsed
    }
}

/// A control command that is repeated reports nothing but its completion: once
/// a setting is made, it counts as made.
pub proof fn law_repeated_control_is_silent(endpoint: AudioEndpoint, change: EndpointChange)
    requires
        change matches EndpointChange::Gain { gain } ==> !gain.amount().nan(),
        change matches EndpointChange::Balance { balance } ==> !balance.amount().nan(),
    ensures
        change.is_made(change.applied(endpoint)),
        change.applied(change.applied(endpoint)) == change.applied(endpoint),
{
}

/// The connects for other pairs of endpoints keep waiting, in their order, and
/// those for the pair are gone.
pub proof fn law_one_connect_waits_for_a_pair(
    pending: Seq<PendingConnect>,
    source: EndpointId,
    destination: EndpointId,
)
    ensures
        without_pair(pending, source, destination) == pending.filter(
            |waiting: PendingConnect|
                waiting.route.source != source || waiting.route.destination != destination,
        ),
    decreases pending.len(),
{
    reveal(Seq::filter);
    if pending.len() > 0 {
        law_one_connect_waits_for_a_pair(pending.drop_last(), source, destination);
    }
}

/// A connect that fails for want of an ingress is kept for later, with no try
/// made and as of now, and nothing is said; any other failure is told under
/// the command, and what waits is left alone.
pub proof fn law_only_a_missing_ingress_is_waited_for(
    pending: Seq<PendingConnect>,
    command_id: CommandId,
    route: AudioRoute,
    fault: ErrorModel,
    now: u64,
    after: Seq<PendingConnect>,
    events: Seq<BackendEvent>,
)
    requires
        connect_failed(pending, command_id, route, fault, now, after, events),
    ensures
        fault.retryable && text::holds_part(fault.technical_message, "ingress"@) ==> {
            &&& events.len() == 0
            &&& after.len() > 0
            &&& after.last().command_id == command_id
            &&& after.last().route == route
            &&& after.last().attempts == 0
            &&& after.last().last_attempt == now
        },
        !fault.retryable || !text::holds_part(fault.technical_message, "ingress"@) ==> {
            &&& after == pending
            &&& events.len() == 1
            &&& events[0] is CommandFailed
            &&& events[0]->CommandFailed_command_id == command_id
            &&& events[0]->CommandFailed_error@ == fault
        },
{
}

/// A connect that is tried again and succeeds is told and waits no longer. One
/// that still lacks its ingress waits on with one more try, up to ten; then,
/// and on any other failure, it is told as failed. The others wait on.
pub proof fn law_a_connect_is_retried_ten_times(
    pending: Seq<PendingConnect>,
    at: int,
    failed: Option<ErrorModel>,
    route: AudioRoute,
    now: u64,
    after: Seq<PendingConnect>,
    events: Seq<BackendEvent>,
)
    requires
        0 <= at < pending.len(),
        pending[at].attempts < u8::MAX,
        Session::retried(pending, at, failed, route, now, after, events),
    ensures
        ({
            let lacks = failed is Some && failed->0.retryable && text::holds_part(
                failed->0.technical_message,
                "ingress"@,
            );
            &&& lacks && pending[at].attempts < 9 ==> {
                &&& events.len() == 0
                &&& after.len() == pending.len()
                &&& after[at].attempts == pending[at].attempts + 1
                &&& after[at].last_attempt == now
                &&& after[at].command_id == pending[at].command_id
                &&& after[at].route == pending[at].route
                &&& forall|i: int|
                    0 <= i < pending.len() && i != at ==> (#[trigger] after[i]) == pending[i]
            }
            &&& !lacks || pending[at].attempts >= 9 ==> {
                &&& after.len() == pending.len() - 1
                &&& forall|i: int| 0 <= i < at ==> (#[trigger] after[i]) == pending[i]
                &&& forall|i: int|
                    at <= i < after.len() ==> (#[trigger] after[i]) == pending[i + 1]
            }
            &&& failed is None ==> {
                &&& events.len() == 2
                &&& events[0] is RouteAdded
                &&& events[0]->RouteAdded_route == route
                &&& events[1] is CommandCompleted
                &&& events[1]->CommandCompleted_command_id == pending[at].command_id
            }
            &&& failed is Some && (!lacks || pending[at].attempts >= 9) ==> {
                &&& events.len() == 1
                &&& events[0] is CommandFailed
                &&& events[0]->CommandFailed_command_id == pending[at].command_id
                &&& events[0]->CommandFailed_error@ == failed->0
            }
        }),
{
}

/// A control command for an endpoint of the server leaves the endpoint with
/// the value, and no other field, endpoint or part of the session changed
/// beside the controls. The endpoint is reported where it had another value,
/// and the command is always answered: as done, or as failed for an endpoint
/// that is not there.
pub proof fn law_a_control_command_is_entered_and_answered(
    before: Session,
    command_id: CommandId,
    endpoint_id: EndpointId,
    change: EndpointChange,
    after: Session,
    step: CommandStep,
    at: int,
)
    requires
        control_set(before, command_id, endpoint_id, change, after, step),
        0 <= at < before.registry.endpoints.entries().len(),
        before.registry.endpoints.entries()[at].1.id == endpoint_id,
        forall|i: int|
            0 <= i < at ==> (#[trigger] before.registry.endpoints.entries()[i]).1.id
                != endpoint_id,
    ensures
        ({
            let was = before.registry.endpoints.entries();
            let is = after.registry.endpoints.entries();
            let events = step->Answer_events@;
            &&& step is Answer
            &&& !step->stop
            &&& is.len() == was.len()
            &&& is[at].0 == was[at].0
            &&& forall|i: int| 0 <= i < was.len() && i != at ==> (#[trigger] is[i]) == was[i]
            &&& change matches EndpointChange::Muted { muted } ==> {
                is[at].1 == (AudioEndpoint { muted, ..was[at].1 })
            }
            &&& change matches EndpointChange::Gain { gain } ==> {
                is[at].1 == (AudioEndpoint { gain, ..was[at].1 })
            }
            &&& change matches EndpointChange::Balance { balance } ==> {
                is[at].1 == (AudioEndpoint { balance, ..was[at].1 })
            }
            &&& events.last() == (BackendEvent::CommandCompleted { command_id })
            &&& events.len() == 2 ==> events[0] == (BackendEvent::EndpointUpdated {
                endpoint: is[at].1,
            })
            &&& change matches EndpointChange::Muted { muted } ==> {
                events.len() == (if was[at].1.muted == muted {
                    1int
                } else {
                    2
                })
            }
            &&& after.runtimes == before.runtimes
            &&& after.pending_connects == before.pending_connects
            &&& after.rebuild_budget == before.rebuild_budget
        }),
{
    let was = before.registry.endpoints.entries();
    registry::lemma_announced_somewhere(was, endpoint_id, at);
    assert forall|k: int| registry::first_with_id(was, endpoint_id, k) implies k == at by {
        if k < at {
            assert(was[k].1.id != endpoint_id);
        }
        if at < k {
            assert(was[at].1.id != endpoint_id);
        }
    }
    super::law_a_setting_changes_itself_alone(change, was[at].1);
}

/// A control command for an endpoint that the server does not have changes
/// nothing and is told as failed.
pub proof fn law_a_control_command_for_no_endpoint_fails(
    before: Session,
    command_id: CommandId,
    endpoint_id: EndpointId,
    change: EndpointChange,
    after: Session,
    step: CommandStep,
)
    requires
        control_set(before, command_id, endpoint_id, change, after, step),
        forall|i: int|
            0 <= i < before.registry.endpoints.entries().len() ==> (
            #[trigger] before.registry.endpoints.entries()[i]).1.id != endpoint_id,
    ensures
        after == before,
        step is Answer,
        !step->stop,
        step->Answer_events@.len() == 1,
        step->Answer_events@[0] is CommandFailed,
        step->Answer_events@[0]->CommandFailed_command_id == command_id,
        step->Answer_events@[0]->CommandFailed_error.code == ErrorCode::EndpointNotFound,
        step->Answer_events@[0]->CommandFailed_error.user_message@
            == "That device is no longer available."@,
{
    let was = before.registry.endpoints.entries();
    if registry::announces(was, endpoint_id) {
        let at = choose|at: int| registry::first_with_id(was, endpoint_id, at);
        assert(was[at].1.id == endpoint_id);
    }
}

/// A disconnect names its own route, whether or not there is one, and is done;
/// a shutdown stops the backend after saying so; nothing else stops it.
pub proof fn law_disconnects_and_shutdowns_are_answered(
    before: Session,
    command: BackendCommand,
    now: u64,
    after: Session,
    step: CommandStep,
)
    requires
        before.commanded(command, now, after, step),
    ensures
        step is Answer && step->stop <==> command is Shutdown,
        command matches BackendCommand::Disconnect { command_id, route_id } ==> {
            &&& step is Answer
            &&& step->Answer_events@.len() == 2
            &&& step->Answer_events@[0] is RouteRemoved
            &&& step->Answer_events@[0]->route_id == route_id
            &&& step->Answer_events@[1] is CommandCompleted
            &&& step->Answer_events@[1]->CommandCompleted_command_id == command_id
            &&& !after.runtimes.routes@.contains_key(route_id)
            &&& after.registry == before.registry
        },
        command matches BackendCommand::Shutdown { command_id } ==> {
            &&& after == before
            &&& step->Answer_events@.len() == 2
            &&& step->Answer_events@[0] is Status
            &&& step->Answer_events@[0]->status == BackendStatus::Stopping
            &&& step->Answer_events@[1] is ShutdownComplete
            &&& step->Answer_events@[1]->ShutdownComplete_command_id == command_id
        },
        command matches BackendCommand::SetStreamTuning {
            command_id,
            stream_rate,
            buffer_frames,
        } ==> {
            &&& step is Rebuild <==> before.hub.stream_rate != stream_rate
                || before.hub.buffer_frames != buffer_frames
            &&& step is Rebuild ==> {
                &&& step->Rebuild_command_id == command_id
                &&& step->routes@.len() == before.runtimes.routes.entries().len()
                &&& forall|i: int|
                    0 <= i < step->routes@.len() ==> #[trigger] step->routes@[i]
                        == before.runtimes.routes.entries()[i].1
                &&& forall|id: RouteId| !(#[trigger] after.runtimes.routes@.contains_key(id))
            }
            &&& !(step is Rebuild) ==> {
                &&& step is Answer
                &&& step->Answer_events@.len() == 1
                &&& step->Answer_events@[0] == (BackendEvent::CommandCompleted { command_id })
                &&& after.runtimes == before.runtimes
            }
        },
{
}

/// A connect replaces the route that joins its two ends, if there is one, and
/// leaves every other route alone. It is linked under its own command where
/// nothing stands against it.
pub proof fn law_a_connect_replaces_its_pair(
    before: Session,
    command_id: CommandId,
    route: AudioRoute,
    now: u64,
    after: Session,
    step: CommandStep,
    other: RouteId,
)
    requires
        before.runtimes.steady(),
        table::distinct_keys(before.runtimes.routes.entries()),
        before.connect_requested(command_id, route, now, after, step),
        before.runtimes.routes@.contains_key(other),
    ensures
        before.runtimes.routes@[other].source == route.source
            && before.runtimes.routes@[other].destination == route.destination ==> {
            &&& !after.runtimes.routes@.contains_key(other)
            &&& step is Link ==> {
                &&& step->Link_events@.len() == 1
                &&& step->Link_events@[0] is RouteRemoved
                &&& step->Link_events@[0]->route_id == other
            }
        },
        before.runtimes.routes@[other].source != route.source
            || before.runtimes.routes@[other].destination != route.destination ==> {
            &&& after.runtimes.routes@.contains_key(other)
            &&& after.runtimes.routes@[other] == before.runtimes.routes@[other]
        },
        step is Link ==> {
            &&& step->Link_command_id == command_id
            &&& step->Link_route == route
            &&& step->plan.route.id == route.id
            &&& step->plan.route.source == route.source
            &&& step->plan.route.destination == route.destination
            &&& step->plan.route.state == RouteState::Connecting
            &&& step->plan.source.id == route.source
            &&& step->plan.destination.id == route.destination
        },
        step is Link || step is Answer,
{
    let entries = before.runtimes.routes.entries();
    let existing = runtimes::joins(entries, route.source, route.destination);
    assert(table::holds_key(entries, other));
    let at = table::place_of(entries, other);
    runtimes::law_joined_endpoints_are_found(entries, route.source, route.destination, at);
    if existing is Some {
        let found = choose|k: int|
            runtimes::first_join(entries, route.source, route.destination, k);
        assert(runtimes::joins_at(entries, route.source, route.destination, found));
        table::law_the_map_is_what_the_entries_say(entries, found, entries[found].0);
        assert(before.runtimes.routes@.contains_key(entries[found].0));
    }
}

/// A stream is built anew at most three times in a row; after thirty seconds
/// of rest the count starts over, and an endpoint that sleeps is left alone.
pub proof fn law_a_stalled_stream_is_rebuilt_three_times(
    session: Session,
    endpoint: EndpointId,
    now: u64,
)
    ensures
        ({
            let budget = session.budget_at(endpoint, now);
            let known = session.rebuild_budget@.contains_key(endpoint);
            let spent = session.rebuild_budget@[endpoint];
            &&& !known ==> budget.attempts == 0
            &&& known && now >= spent.last + 30_000 ==> budget.attempts == 0
            &&& known && now < spent.last + 30_000 ==> budget.attempts == spent.attempts
            &&& known ==> budget.last == spent.last
        }),
        MAX_REBUILD_ATTEMPTS == 3,
{
}

/// The routes that are pruned are exactly those one of whose ends is no longer
/// on the server, in the order of the routes.
pub proof fn law_routes_without_an_end_are_pruned(
    routes: Seq<(RouteId, AudioRoute)>,
    entries: Seq<(u32, AudioEndpoint)>,
)
    ensures
        lost_routes(routes, entries) == routes.filter(
            |entry: (RouteId, AudioRoute)|
                !registry::announces(entries, entry.1.source) || !registry::announces(
                    entries,
                    entry.1.destination,
                ),
        ).map_values(|entry: (RouteId, AudioRoute)| entry.1.id),
    decreases routes.len(),
{
    reveal(Seq::filter);
    let lost = |entry: (RouteId, AudioRoute)|
        !registry::announces(entries, entry.1.source) || !registry::announces(
            entries,
            entry.1.destination,
        );
    let id = |entry: (RouteId, AudioRoute)| entry.1.id;
    if routes.len() > 0 {
        law_routes_without_an_end_are_pruned(routes.drop_last(), entries);
        let rest = routes.drop_last().filter(lost);
        if lost(routes.last()) {
            assert(routes.filter(lost) == rest.push(routes.last()));
            assert(rest.push(routes.last()).map_values(id) =~= rest.map_values(id).push(
                routes.last().1.id,
            ));
        } else {
            assert(routes.filter(lost) == rest);
        }
    }
    assert(lost_routes(routes, entries) =~= routes.filter(lost).map_values(id));
}

/// A virtual device is made only of one of the two virtual kinds, once: one
/// that is live is done at once, any other is made under its own name and
/// kind, and what was left of it is cleared away first.
pub proof fn law_a_virtual_device_is_made_once(
    before: Session,
    command_id: CommandId,
    device: VirtualDeviceId,
    wanted: AudioEndpoint,
    after: Session,
    step: CommandStep,
    other: VirtualDeviceId,
)
    requires
        before.virtual_requested(command_id, device, wanted, after, step),
        other != device,
    ensures
        step is Create ==> {
            &&& wanted.endpoint_type is VirtualInput || wanted.endpoint_type is VirtualOutput
            &&& !before.registry.is_live(device, wanted.endpoint_type)
            &&& step->Create_command_id == command_id
            &&& step->device == device
            &&& step->endpoint_type == wanted.endpoint_type
            &&& step->name@ == wanted.name@
            &&& step->stale <==> before.registry.managed_virtuals@.contains_key(device)
            &&& !after.registry.managed_virtuals@.contains_key(device)
            &&& step->stale ==> !after.registry.virtual_ingresses@.contains_key(device)
        },
        !(step is Create) ==> {
            &&& step is Answer
            &&& step->Answer_events@.len() == 1
            &&& after.registry == before.registry
            &&& if wanted.endpoint_type is VirtualInput || wanted.endpoint_type is VirtualOutput {
                &&& before.registry.is_live(device, wanted.endpoint_type)
                &&& step->Answer_events@[0] == (BackendEvent::CommandCompleted { command_id })
            } else {
                &&& step->Answer_events@[0] is CommandFailed
                &&& step->Answer_events@[0]->CommandFailed_command_id == command_id
            }
        },
        after.registry.managed_virtuals@.contains_key(other)
            == before.registry.managed_virtuals@.contains_key(other),
        before.registry.managed_virtuals@.contains_key(other)
            ==> after.registry.managed_virtuals@[other] == before.registry.managed_virtuals@[other],
        after.registry.virtual_ingresses@.contains_key(other)
            == before.registry.virtual_ingresses@.contains_key(other),
{
}

/// A virtual device that is deleted is forgotten with its ingress and no other
/// is; one that must stay is kept, and the command fails.
pub proof fn law_a_virtual_device_is_deleted_alone(
    before: Session,
    command_id: CommandId,
    device: VirtualDeviceId,
    after: Session,
    step: CommandStep,
    other: VirtualDeviceId,
)
    requires
        before.virtual_dropped(command_id, device, after, step),
        other != device,
    ensures
        step is Answer,
        !step->stop,
        step->Answer_events@.len() >= 1,
        step->destroy == Some(device) || step->destroy is None,
        step->destroy is Some ==> {
            &&& !after.registry.managed_virtuals@.contains_key(device)
            &&& !after.registry.virtual_ingresses@.contains_key(device)
            &&& step->Answer_events@.last() == (BackendEvent::CommandCompleted { command_id })
        },
        step->destroy is None ==> {
            &&& after.registry == before.registry
            &&& step->Answer_events@.last() is CommandFailed
            &&& step->Answer_events@.last()->CommandFailed_command_id == command_id
        },
        after.registry.managed_virtuals@.contains_key(other)
            == before.registry.managed_virtuals@.contains_key(other),
        before.registry.managed_virtuals@.contains_key(other)
            ==> after.registry.managed_virtuals@[other] == before.registry.managed_virtuals@[other],
        after.registry.virtual_ingresses@.contains_key(other)
            == before.registry.virtual_ingresses@.contains_key(other),
{
}

/// A connect that was linked adds its route and is answered as done; one that
/// failed leaves the routes of the plan alone and nothing is answered as done.
pub proof fn law_a_link_is_answered(
    before: Session,
    command_id: CommandId,
    route: AudioRoute,
    plan: LinkPlan,
    outcome: LinkOutcome,
    now: u64,
    linked: Result<AudioRoute, AudioError>,
    ended: Runtimes,
    after: Session,
    events: Seq<BackendEvent>,
    actions: Seq<StreamAction>,
    other: RouteId,
)
    requires
        before.connect_ended(
            command_id,
            route,
            plan,
            outcome,
            now,
            linked,
            ended,
            after,
            events,
            actions,
        ),
    ensures
        linked matches Ok(made) ==> {
            &&& after.runtimes.routes@.contains_key(made.id)
            &&& after.runtimes.routes@[made.id] == made
            &&& other != made.id ==> after.runtimes.routes@.contains_key(other)
                == before.runtimes.routes@.contains_key(other)
            &&& other != made.id && before.runtimes.routes@.contains_key(other)
                ==> after.runtimes.routes@[other] == before.runtimes.routes@[other]
            &&& after.runtimes.captures == ended.captures
            &&& after.runtimes.buses == ended.buses
            &&& after.runtimes.feeds == ended.feeds
            &&& after.runtimes.draws == ended.draws
            &&& after.pending_connects == before.pending_connects
            &&& events.len() == 2
            &&& events[0] is RouteAdded
            &&& events[0]->RouteAdded_route == made
            &&& events[1] is CommandCompleted
            &&& events[1]->CommandCompleted_command_id == command_id
        },
        linked is Err ==> after.runtimes == ended,
{
}

/// A stream that is dropped is closed on its own side alone, after the routes at
/// it were taken out.
pub proof fn law_a_dropped_stream_is_closed_on_its_side(
    before: Session,
    endpoint: EndpointId,
    is_capture: bool,
    routes: Seq<AudioRoute>,
    middle: Runtimes,
    first: Seq<StreamAction>,
    after: Runtimes,
    actions: Seq<StreamAction>,
)
    requires
        before.stream_dropped(endpoint, is_capture, routes, middle, first, after, actions),
    ensures
        is_capture ==> !after.captures@.contains_key(endpoint) && after.buses@ == middle.buses@,
        !is_capture ==> !after.buses@.contains_key(endpoint) && after.captures@
            == middle.captures@,
        after.routes == middle.routes,
        after.feeds == middle.feeds,
        after.draws == middle.draws,
        is_capture && middle.captures@.contains_key(endpoint) ==> actions == first.push(
            StreamAction::CloseCapture { endpoint },
        ),
        !is_capture && middle.buses@.contains_key(endpoint) ==> actions == first.push(
            StreamAction::CloseBus { endpoint },
        ),
        is_capture && !middle.captures@.contains_key(endpoint) || !is_capture
            && !middle.buses@.contains_key(endpoint) ==> actions == first,
{
    assert(first + Seq::<StreamAction>::empty() =~= first);
    assert(first + seq![StreamAction::CloseCapture { endpoint }] =~= first.push(
        StreamAction::CloseCapture { endpoint },
    ));
    assert(first + seq![StreamAction::CloseBus { endpoint }] =~= first.push(
        StreamAction::CloseBus { endpoint },
    ));
}

/// A command that is done is answered under its own identifier and asks for
/// nothing more; a route that makes way is told of; a route has lost an end where
/// either end is not announced; and an endpoint sleeps where it is announced so.
pub proof fn law_small_answers(
    session: Session,
    step: CommandStep,
    command_id: CommandId,
    existing: Option<RouteId>,
    route: AudioRoute,
    fault: ErrorModel,
    entries: Seq<(u32, AudioEndpoint)>,
    routes: Seq<AudioRoute>,
    at: int,
)
    ensures
        done(step, command_id) ==> {
            &&& step->Answer_events@.len() == 1
            &&& step->Answer_events@[0] is CommandCompleted
            &&& step->Answer_events@[0]->CommandCompleted_command_id == command_id
            &&& step->Answer_actions@.len() == 0
            &&& step->destroy is None
            &&& !step->stop
        },
        existing is None ==> replaced(existing).len() == 0,
        existing matches Some(gone) ==> {
            &&& replaced(existing).len() == 1
            &&& replaced(existing)[0] is RouteRemoved
            &&& replaced(existing)[0]->route_id == gone
        },
        lost_end(entries, route) <==> !registry::announces(entries, route.source)
            || !registry::announces(entries, route.destination),
        fault_waits(fault) <==> fault.retryable && text::holds_part(
            fault.technical_message,
            "ingress"@,
        ),
        route_ids(routes).len() == routes.len(),
        0 <= at < routes.len() ==> route_ids(routes)[at] == routes[at].id,
{
}

/// The endpoint of a virtual device is the first that says it is of the device.
pub proof fn law_the_endpoint_of_a_device_is_its_first(
    entries: Seq<(u32, AudioEndpoint)>,
    device: VirtualDeviceId,
    at: int,
)
    requires
        0 <= at <= entries.len(),
        at < entries.len() ==> entries[at].1.virtual_device_id == Some(device),
        forall|i: int|
            0 <= i < at ==> (#[trigger] entries[i]).1.virtual_device_id != Some(device),
    ensures
        at < entries.len() ==> device_endpoint(entries, device) == Some(entries[at].1.id),
        at == entries.len() ==> device_endpoint(entries, device) is None,
{
    if at < entries.len() {
        assert(first_of_device(entries, device, at));
        let found = choose|k: int| first_of_device(entries, device, k);
        assert(found == at) by {
            if found < at {
                assert(entries[found].1.virtual_device_id != Some(device));
            } else if at < found {
                assert(entries[at].1.virtual_device_id != Some(device));
            }
        }
    } else {
        assert(forall|k: int|
            #[trigger] first_of_device(entries, device, k) ==> entries[k].1.virtual_device_id
                == Some(device));
    }
}

/// Where a virtual device goes, its stream is closed on each side on which no
/// route uses it any more, and left open where one does.
pub proof fn law_a_device_that_goes_closes_its_streams(
    before: Session,
    endpoint: EndpointId,
    routes: Seq<RouteId>,
    middle: Runtimes,
    first: Seq<StreamAction>,
    after: Runtimes,
    actions: Seq<StreamAction>,
)
    requires
        before.device_routes_gone(endpoint, routes, middle, first, after, actions),
        forall|id: RouteId| middle.feeds@.contains_key(id) ==> #[trigger] middle.feeds@[id]
            != endpoint,
        forall|id: RouteId| middle.draws@.contains_key(id) ==> #[trigger] middle.draws@[id]
            != endpoint,
    ensures
        after.captures@ == middle.captures@.remove(endpoint),
        after.buses@ == middle.buses@.remove(endpoint),
        after.routes == middle.routes,
        after.feeds == middle.feeds,
        after.draws == middle.draws,
        middle.captures@.contains_key(endpoint) ==> actions.contains(
            StreamAction::CloseCapture { endpoint },
        ),
        middle.buses@.contains_key(endpoint) ==> actions.contains(
            StreamAction::CloseBus { endpoint },
        ),
        !middle.captures@.contains_key(endpoint) && !middle.buses@.contains_key(endpoint)
            ==> actions == first,
{
    if middle.captures@.contains_key(endpoint) {
        assert(actions[first.len() as int] == (StreamAction::CloseCapture { endpoint }));
    }
    if middle.buses@.contains_key(endpoint) {
        assert(actions.last() == (StreamAction::CloseBus { endpoint }));
        assert(actions[actions.len() - 1] == (StreamAction::CloseBus { endpoint }));
    }
    if !middle.captures@.contains_key(endpoint) && !middle.buses@.contains_key(endpoint) {
        assert(actions =~= first);
    }
}

/// No command but a connect touches the connects that wait, and none touches the
/// count of rebuilt streams; only virtual devices and levels change what is
/// announced; and only routes, devices and the clock change the routes.
pub proof fn law_a_command_leaves_the_rest_alone(
    before: Session,
    command: BackendCommand,
    now: u64,
    after: Session,
    step: CommandStep,
)
    requires
        before.commanded(command, now, after, step),
    ensures
        command is Shutdown ==> after == before,
        command is CreateVirtual || command is DeleteVirtual || command is Disconnect || command
            is SetStreamTuning || command is SetDelay || command is SetEq || command
            is SetChannelMode ==> after.pending_connects == before.pending_connects,
        command is CreateVirtual || command is DeleteVirtual || command is Connect || command
            is Disconnect || command is SetStreamTuning || command is SetDelay || command is SetEq
            || command is SetChannelMode ==> after.rebuild_budget == before.rebuild_budget,
        command is Connect || command is Disconnect || command is SetStreamTuning || command
            is SetDelay || command is SetEq || command is SetChannelMode ==> after.registry
            == before.registry,
        command is CreateVirtual || command is SetDelay || command is SetEq || command
            is SetChannelMode ==> after.runtimes == before.runtimes,
        command matches BackendCommand::SetStreamTuning {
            command_id,
            stream_rate,
            buffer_frames,
        } ==> {
            let same = before.hub.stream_rate == stream_rate && before.hub.buffer_frames
                == buffer_frames;
            &&& same ==> after.runtimes == before.runtimes && done(step, command_id)
            &&& !same ==> {
                &&& step is Rebuild
                &&& step->Rebuild_command_id == command_id
                &&& after.runtimes.routes@.dom() =~= Set::<RouteId>::empty()
                &&& after.runtimes.captures@.dom() =~= Set::<EndpointId>::empty()
                &&& after.runtimes.buses@.dom() =~= Set::<EndpointId>::empty()
                &&& step->routes@.len() == before.runtimes.routes.entries().len()
                &&& forall|i: int|
                    0 <= i < step->routes@.len() ==> #[trigger] step->routes@[i]
                        == before.runtimes.routes.entries()[i].1
            }
        },
{
}

} // verus!
