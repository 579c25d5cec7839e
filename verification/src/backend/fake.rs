//! A backend without hardware: it keeps lists of endpoints and routes and
//! answers every command from them.
use vstd::prelude::*;

use super::{BackendCommand, BackendEvent, BackendStatus, EndpointChange, Reply};
use crate::domain::capability::BackendCapabilities;
use crate::domain::endpoint::{AudioEndpoint, EndpointState};
use crate::domain::error::{AudioError, ErrorCode, ErrorModel, ErrorSeverity};
use crate::domain::ids::{CommandId, EndpointId, RouteId, VirtualDeviceId};
use crate::domain::ids;
use crate::domain::route::{AudioRoute, RouteState};
use crate::text::joined3;

verus! {

#[derive(Debug)]
pub struct FakeBackend {
    pub endpoints: Vec<AudioEndpoint>,
    pub routes: Vec<AudioRoute>,
    pub capabilities: BackendCapabilities,
}

/// Whether `at` is the first place of an endpoint with this identifier.
pub open spec fn first_endpoint(endpoints: Seq<AudioEndpoint>, id: EndpointId, at: int) -> bool {
    &&& 0 <= at < endpoints.len()
    &&& endpoints[at].id == id
    &&& forall|i: int| 0 <= i < at ==> (#[trigger] endpoints[i]).id != id
}

/// Whether an endpoint with this identifier is listed.
pub open spec fn lists_endpoint(endpoints: Seq<AudioEndpoint>, id: EndpointId) -> bool {
    exists|at: int| first_endpoint(endpoints, id, at)
}

/// Whether `at` is the first place of a route with this identifier.
pub open spec fn first_route(routes: Seq<AudioRoute>, id: RouteId, at: int) -> bool {
    &&& 0 <= at < routes.len()
    &&& routes[at].id == id
    &&& forall|i: int| 0 <= i < at ==> (#[trigger] routes[i]).id != id
}

/// Whether a route with this identifier is listed.
pub open spec fn lists_route(routes: Seq<AudioRoute>, id: RouteId) -> bool {
    exists|at: int| first_route(routes, id, at)
}

/// What is said of an endpoint that is not listed.
pub open spec fn missing_endpoint(id: EndpointId) -> ErrorModel {
    ErrorModel {
        code: ErrorCode::EndpointNotFound,
        severity: ErrorSeverity::Error,
        retryable: false,
        user_message: "That device is unavailable."@,
        technical_message: "fake backend endpoint "@ + ids::hyphenated(id.value) + " not found"@,
    }
}

/// What is said of a route that is not listed.
pub open spec fn missing_route(id: RouteId) -> ErrorModel {
    ErrorModel {
        code: ErrorCode::RouteNotFound,
        severity: ErrorSeverity::Error,
        retryable: false,
        user_message: "The audio route no longer exists."@,
        technical_message: "fake backend route "@ + ids::hyphenated(id.value) + " not found"@,
    }
}

/// The endpoints that do not belong to a virtual device, in order.
pub open spec fn without_virtual(
    endpoints: Seq<AudioEndpoint>,
    virtual_device_id: VirtualDeviceId,
) -> Seq<AudioEndpoint>
    decreases endpoints.len(),
{
    if endpoints.len() == 0 {
        Seq::empty()
    } else {
        let rest = without_virtual(endpoints.drop_last(), virtual_device_id);
        if endpoints.last().virtual_device_id == Some(virtual_device_id) {
            rest
        } else {
            rest.push(endpoints.last())
        }
    }
}

/// The events that tell of the endpoints of a virtual device, in order.
pub open spec fn virtual_removals(
    endpoints: Seq<AudioEndpoint>,
    virtual_device_id: VirtualDeviceId,
) -> Seq<BackendEvent>
    decreases endpoints.len(),
{
    if endpoints.len() == 0 {
        Seq::empty()
    } else {
        let rest = virtual_removals(endpoints.drop_last(), virtual_device_id);
        if endpoints.last().virtual_device_id == Some(virtual_device_id) {
            rest.push(BackendEvent::EndpointRemoved { endpoint_id: endpoints.last().id })
        } else {
            rest
        }
    }
}

/// The endpoint as it is listed when it is created for a virtual device.
pub open spec fn created_virtual(
    endpoint: AudioEndpoint,
    virtual_device_id: VirtualDeviceId,
) -> AudioEndpoint {
    AudioEndpoint {
        virtual_device_id: Some(virtual_device_id),
        state: EndpointState::Available,
        ..endpoint
    }
}

/// What a changed endpoint means for the list and the answer.
pub open spec fn endpoint_changed(
    before: FakeBackend,
    after: FakeBackend,
    reply: Reply,
    command_id: CommandId,
    endpoint_id: EndpointId,
    change: EndpointChange,
) -> bool {
    &&& after.routes@ == before.routes@
    &&& after.capabilities == before.capabilities
    &&& reply.running
    &&& if lists_endpoint(before.endpoints@, endpoint_id) {
        exists|at: int|
            {
                let changed = change.applied(before.endpoints@[at]);
                &&& #[trigger] first_endpoint(before.endpoints@, endpoint_id, at)
                &&& after.endpoints@ == before.endpoints@.update(at, changed)
                &&& reply.events@ =~= seq![
                    BackendEvent::EndpointUpdated { endpoint: changed },
                    BackendEvent::CommandCompleted { command_id },
                ]
            }
    } else {
        &&& after.endpoints@ == before.endpoints@
        &&& failed_with(reply.events@, command_id, missing_endpoint(endpoint_id))
    }
}

/// Whether the answer is the failure of a command, for this reason.
pub open spec fn failed_with(
    events: Seq<BackendEvent>,
    command_id: CommandId,
    reason: ErrorModel,
) -> bool {
    &&& events.len() == 1
    &&& events[0] is CommandFailed
    &&& events[0]->CommandFailed_command_id == command_id
    &&& events[0]->CommandFailed_error@ == reason
}

/// What each command does to the lists and what is answered.
pub open spec fn answered(
    before: FakeBackend,
    command: BackendCommand,
    after: FakeBackend,
    reply: Reply,
) -> bool {
    let kept = after.endpoints@ == before.endpoints@ && after.routes@ == before.routes@
        && after.capabilities == before.capabilities;
    match command {
        BackendCommand::SetVolume { command_id, endpoint_id, gain } => endpoint_changed(
            before,
            after,
            reply,
            command_id,
            endpoint_id,
            EndpointChange::Gain { gain },
        ),
        BackendCommand::SetMute { command_id, endpoint_id, muted } => endpoint_changed(
            before,
            after,
            reply,
            command_id,
            endpoint_id,
            EndpointChange::Muted { muted },
        ),
        BackendCommand::SetBalance { command_id, endpoint_id, balance } => endpoint_changed(
            before,
            after,
            reply,
            command_id,
            endpoint_id,
            EndpointChange::Balance { balance },
        ),
        BackendCommand::Connect { command_id, route } => {
            &&& after.endpoints@ == before.endpoints@
            &&& after.capabilities == before.capabilities
            &&& after.routes@ == before.routes@.push(route)
            &&& reply.running
            &&& reply.events@ =~= seq![
                BackendEvent::RouteAdded { route },
                BackendEvent::CommandCompleted { command_id },
            ]
        },
        BackendCommand::Disconnect { command_id, route_id } => {
            &&& after.endpoints@ == before.endpoints@
            &&& after.capabilities == before.capabilities
            &&& reply.running
            &&& if lists_route(before.routes@, route_id) {
                exists|at: int|
                    {
                        let gone = before.routes@[at].in_state(RouteState::Disconnected);
                        &&& #[trigger] first_route(before.routes@, route_id, at)
                        &&& after.routes@ == before.routes@.update(at, gone)
                        &&& reply.events@ =~= seq![
                            BackendEvent::RouteUpdated { route: gone },
                            BackendEvent::CommandCompleted { command_id },
                        ]
                    }
            } else {
                &&& after.routes@ == before.routes@
                &&& failed_with(reply.events@, command_id, missing_route(route_id))
            }
        },
        BackendCommand::CreateVirtual { command_id, virtual_device_id, endpoint } => {
            let created = created_virtual(*endpoint, virtual_device_id);
            &&& after.endpoints@ == before.endpoints@.push(created)
            &&& after.routes@ == before.routes@
            &&& after.capabilities == before.capabilities
            &&& reply.running
            &&& reply.events@ =~= seq![
                BackendEvent::EndpointAdded { endpoint: created },
                BackendEvent::CommandCompleted { command_id },
            ]
        },
        BackendCommand::DeleteVirtual { command_id, virtual_device_id } => {
            &&& after.endpoints@ == without_virtual(before.endpoints@, virtual_device_id)
            &&& after.routes@ == before.routes@
            &&& after.capabilities == before.capabilities
            &&& reply.running
            &&& reply.events@ =~= virtual_removals(before.endpoints@, virtual_device_id).push(
                BackendEvent::CommandCompleted { command_id },
            )
        },
        BackendCommand::SetStreamTuning { command_id, .. }
        | BackendCommand::SetDelay { command_id, .. }
        | BackendCommand::SetEq { command_id, .. }
        | BackendCommand::SetChannelMode { command_id, .. } => {
            &&& kept
            &&& reply.running
            &&& reply.events@ =~= seq![BackendEvent::CommandCompleted { command_id }]
        },
        BackendCommand::Shutdown { command_id } => {
            &&& kept
            &&& !reply.running
            &&& reply.events@ =~= seq![
                BackendEvent::Status { status: BackendStatus::Stopping },
                BackendEvent::Status { status: BackendStatus::Stopped },
                BackendEvent::ShutdownComplete { command_id },
            ]
        },
    }
}

/// The events that list `endpoints`.
pub open spec fn additions(endpoints: Seq<AudioEndpoint>) -> Seq<BackendEvent> {
    Seq::new(
        endpoints.len(),
        |i: int| BackendEvent::EndpointAdded { endpoint: endpoints[i] },
    )
}

impl Default for FakeBackend {
    fn default() -> (backend: Self)
        ensures
            backend.endpoints@.len() == 0,
            backend.routes@.len() == 0,
            backend.capabilities.virtual_devices,
            !backend.capabilities.application_sources,
    {
        FakeBackend::new(Vec::new())
    }
}

impl FakeBackend {
    pub fn new(endpoints: Vec<AudioEndpoint>) -> (backend: Self)
        ensures
            backend.endpoints == endpoints,
            backend.routes@.len() == 0,
            backend.capabilities.virtual_devices,
            !backend.capabilities.application_sources,
    {
        FakeBackend {
            endpoints,
            routes: Vec::new(),
            capabilities: BackendCapabilities { virtual_devices: true, application_sources: false },
        }
    }

    fn completed(command_id: CommandId) -> (event: BackendEvent)
        ensures
            event == (BackendEvent::CommandCompleted { command_id }),
    {
        BackendEvent::CommandCompleted { command_id }
    }

    fn endpoint_error(id: EndpointId) -> (error: AudioError)
        ensures
            error@ == missing_endpoint(id),
    {
        let id_text = id.to_text();
        AudioError::new(
            ErrorCode::EndpointNotFound,
            ErrorSeverity::Error,
            false,
            "That device is unavailable.",
            joined3("fake backend endpoint ", id_text.as_str(), " not found").as_str(),
        )
    }

    fn route_error(id: RouteId) -> (error: AudioError)
        ensures
            error@ == missing_route(id),
    {
        let id_text = id.to_text();
        AudioError::new(
            ErrorCode::RouteNotFound,
            ErrorSeverity::Error,
            false,
            "The audio route no longer exists.",
            joined3("fake backend route ", id_text.as_str(), " not found").as_str(),
        )
    }

    /// What the backend reports when it starts: its status, its endpoints and
    /// what it can do, and then that it runs.
    pub fn startup_events(&self) -> (events: Vec<BackendEvent>)
        ensures
            events@ == seq![BackendEvent::Status { status: BackendStatus::Starting }] + additions(
                self.endpoints@,
            ) + seq![
                BackendEvent::Capabilities { capabilities: self.capabilities },
                BackendEvent::Status { status: BackendStatus::Running },
            ],
    {
        let mut events: Vec<BackendEvent> = Vec::new();
        events.push(BackendEvent::Status { status: BackendStatus::Starting });
        let ghost first = events@;
        let mut at: usize = 0;
        while at < self.endpoints.len()
            invariant
                at <= self.endpoints@.len(),
                first.len() == 1,
                events@ == first + additions(self.endpoints@.take(at as int)),
            decreases self.endpoints@.len() - at,
        {
            let endpoint = self.endpoints[at].clone();
            events.push(BackendEvent::EndpointAdded { endpoint });
            at = at + 1;
            assert(events@ =~= first + additions(self.endpoints@.take(at as int)));
        }
        assert(self.endpoints@.take(at as int) =~= self.endpoints@);
        events.push(BackendEvent::Capabilities { capabilities: self.capabilities });
        events.push(BackendEvent::Status { status: BackendStatus::Running });
        assert(events@ =~= seq![BackendEvent::Status { status: BackendStatus::Starting }]
            + additions(self.endpoints@) + seq![
            BackendEvent::Capabilities { capabilities: self.capabilities },
            BackendEvent::Status { status: BackendStatus::Running },
        ]);
        events
    }

    /// What the backend reports when no more commands can come.
    pub fn closing_event(&self) -> (event: BackendEvent)
        ensures
            event == (BackendEvent::Status { status: BackendStatus::Stopped }),
    {
        BackendEvent::Status { status: BackendStatus::Stopped }
    }

    /// Carries a command out.
    pub fn handle_command(&mut self, command: BackendCommand) -> (reply: Reply)
        ensures
            answered(*old(self), command, *final(self), reply),
    {
        match command {
            BackendCommand::SetVolume { command_id, endpoint_id, gain } => self.update_endpoint(
                command_id,
                endpoint_id,
                EndpointChange::Gain { gain },
            ),
            BackendCommand::SetMute { command_id, endpoint_id, muted } => self.update_endpoint(
                command_id,
                endpoint_id,
                EndpointChange::Muted { muted },
            ),
            BackendCommand::SetBalance { command_id, endpoint_id, balance } => self.update_endpoint(
                command_id,
                endpoint_id,
                EndpointChange::Balance { balance },
            ),
            BackendCommand::Connect { command_id, route } => {
                self.routes.push(route);
                let events = vec![BackendEvent::RouteAdded { route }, Self::completed(command_id)];
                Reply { events, running: true }
            },
            BackendCommand::Disconnect { command_id, route_id } => self.disconnect(
                command_id,
                route_id,
            ),
            BackendCommand::CreateVirtual { command_id, virtual_device_id, endpoint } => {
                let mut endpoint = *endpoint;
                endpoint.virtual_device_id = Some(virtual_device_id);
                endpoint.state = EndpointState::Available;
                self.endpoints.push(endpoint.clone());
                let events = vec![
                    BackendEvent::EndpointAdded { endpoint },
                    Self::completed(command_id),
                ];
                Reply { events, running: true }
            },
            BackendCommand::DeleteVirtual { command_id, virtual_device_id } => {
                let mut events = self.remove_virtual(virtual_device_id);
                events.push(Self::completed(command_id));
                Reply { events, running: true }
            },
            BackendCommand::SetStreamTuning { command_id, .. } => {
                Reply { events: vec![Self::completed(command_id)], running: true }
            },
            BackendCommand::SetDelay { command_id, .. } => {
                Reply { events: vec![Self::completed(command_id)], running: true }
            },
            BackendCommand::SetEq { command_id, .. } => {
                Reply { events: vec![Self::completed(command_id)], running: true }
            },
            BackendCommand::SetChannelMode { command_id, .. } => {
                Reply { events: vec![Self::completed(command_id)], running: true }
            },
            BackendCommand::Shutdown { command_id } => {
                let events = vec![
                    BackendEvent::Status { status: BackendStatus::Stopping },
                    BackendEvent::Status { status: BackendStatus::Stopped },
                    BackendEvent::ShutdownComplete { command_id },
                ];
                Reply { events, running: false }
            },
        }
    }

    fn disconnect(&mut self, command_id: CommandId, route_id: RouteId) -> (reply: Reply)
        ensures
            answered(
                *old(self),
                BackendCommand::Disconnect { command_id, route_id },
                *final(self),
                reply,
            ),
    {
        let mut at: usize = 0;
        while at < self.routes.len()
            invariant
                at <= self.routes@.len(),
                *self == *old(self),
                forall|i: int| 0 <= i < at ==> (#[trigger] self.routes@[i]).id != route_id,
            decreases self.routes@.len() - at,
        {
            if self.routes[at].id == route_id {
                let mut route = self.routes[at];
                route.state = RouteState::Disconnected;
                assert(first_route(old(self).routes@, route_id, at as int));
                self.routes.set(at, route);
                let events = vec![BackendEvent::RouteUpdated { route }, Self::completed(command_id)];
                return Reply { events, running: true };
            }
            at = at + 1;
        }
        let error = Self::route_error(route_id);
        Reply { events: vec![BackendEvent::CommandFailed { command_id, error }], running: true }
    }

    fn remove_virtual(&mut self, virtual_device_id: VirtualDeviceId) -> (events: Vec<BackendEvent>)
        ensures
            final(self).endpoints@ == without_virtual(old(self).endpoints@, virtual_device_id),
            events@ == virtual_removals(old(self).endpoints@, virtual_device_id),
            final(self).routes == old(self).routes,
            final(self).capabilities == old(self).capabilities,
    {
        let ghost before = self.endpoints@;
        let mut events: Vec<BackendEvent> = Vec::new();
        let mut at: usize = 0;
        let ghost mut seen: int = 0;
        assert(before.skip(0) =~= before);
        assert(before.take(0) =~= Seq::<AudioEndpoint>::empty());
        while at < self.endpoints.len()
            invariant
                before == old(self).endpoints@,
                self.routes == old(self).routes,
                self.capabilities == old(self).capabilities,
                0 <= seen <= before.len(),
                at <= self.endpoints@.len(),
                self.endpoints@.len() - at == before.len() - seen,
                self.endpoints@.skip(at as int) =~= before.skip(seen),
                self.endpoints@.take(at as int) =~= without_virtual(
                    before.take(seen),
                    virtual_device_id,
                ),
                events@ == virtual_removals(before.take(seen), virtual_device_id),
            decreases self.endpoints@.len() - at,
        {
            let ghost current = self.endpoints@;
            assert(before.take(seen + 1).drop_last() =~= before.take(seen));
            assert(before.take(seen + 1).last() == before.skip(seen)[0]);
            assert(current.skip(at as int)[0] == current[at as int]);
            let matching = match self.endpoints[at].virtual_device_id {
                Some(id) => id == virtual_device_id,
                None => false,
            };
            if matching {
                let removed = self.endpoints.remove(at);
                events.push(BackendEvent::EndpointRemoved { endpoint_id: removed.id });
                assert(self.endpoints@.skip(at as int) =~= current.skip(at + 1));
                assert(self.endpoints@.take(at as int) =~= current.take(at as int));
            } else {
                at = at + 1;
                assert(current.take(at as int) =~= current.take(at - 1).push(current[at - 1]));
            }
            proof {
                assert(before.skip(seen + 1) =~= before.skip(seen).skip(1));
                assert(current.skip(at as int).len() >= 0);
                seen = seen + 1;
            }
        }
        assert(before.take(seen) =~= before);
        assert(self.endpoints@.take(at as int) =~= self.endpoints@);
        events
    }

    fn update_endpoint(
        &mut self,
        command_id: CommandId,
        endpoint_id: EndpointId,
        change: EndpointChange,
    ) -> (reply: Reply)
        ensures
            endpoint_changed(*old(self), *final(self), reply, command_id, endpoint_id, change),
    {
        let mut at: usize = 0;
        while at < self.endpoints.len()
            invariant
                at <= self.endpoints@.len(),
                *self == *old(self),
                forall|i: int| 0 <= i < at ==> (#[trigger] self.endpoints@[i]).id != endpoint_id,
            decreases self.endpoints@.len() - at,
        {
            if self.endpoints[at].id == endpoint_id {
                let mut endpoint = self.endpoints[at].clone();
                change.apply(&mut endpoint);
                assert(first_endpoint(old(self).endpoints@, endpoint_id, at as int));
                self.endpoints.set(at, endpoint.clone());
                let events = vec![
                    BackendEvent::EndpointUpdated { endpoint },
                    Self::completed(command_id),
                ];
                return Reply { events, running: true };
            }
            at = at + 1;
        }
        let error = Self::endpoint_error(endpoint_id);
        Reply { events: vec![BackendEvent::CommandFailed { command_id, error }], running: true }
    }
}

/// A control command sets exactly its own value on exactly its own endpoint,
/// which is reported as it is now, before the command is done.
pub proof fn law_a_listed_endpoint_takes_the_value(
    before: FakeBackend,
    command: BackendCommand,
    after: FakeBackend,
    reply: Reply,
    at: int,
)
    requires
        answered(before, command, after, reply),
        0 <= at < before.endpoints@.len(),
        forall|i: int|
            0 <= i < at ==> (#[trigger] before.endpoints@[i]).id != before.endpoints@[at].id,
    ensures
        command matches BackendCommand::SetMute { command_id, endpoint_id, muted }
            ==> before.endpoints@[at].id == endpoint_id ==> {
            let changed = AudioEndpoint { muted, ..before.endpoints@[at] };
            &&& after.endpoints@ == before.endpoints@.update(at, changed)
            &&& reply.events@.len() == 2
            &&& reply.events@[0] == (BackendEvent::EndpointUpdated { endpoint: changed })
            &&& reply.events@[1] == (BackendEvent::CommandCompleted { command_id })
        },
        command matches BackendCommand::SetVolume { command_id, endpoint_id, gain }
            ==> before.endpoints@[at].id == endpoint_id ==> {
            let changed = AudioEndpoint { gain, ..before.endpoints@[at] };
            &&& after.endpoints@ == before.endpoints@.update(at, changed)
            &&& reply.events@.len() == 2
            &&& reply.events@[0] == (BackendEvent::EndpointUpdated { endpoint: changed })
            &&& reply.events@[1] == (BackendEvent::CommandCompleted { command_id })
        },
        command matches BackendCommand::SetBalance { command_id, endpoint_id, balance }
            ==> before.endpoints@[at].id == endpoint_id ==> {
            let changed = AudioEndpoint { balance, ..before.endpoints@[at] };
            &&& after.endpoints@ == before.endpoints@.update(at, changed)
            &&& reply.events@.len() == 2
            &&& reply.events@[0] == (BackendEvent::EndpointUpdated { endpoint: changed })
            &&& reply.events@[1] == (BackendEvent::CommandCompleted { command_id })
        },
{
    let id = before.endpoints@[at].id;
    assert(first_endpoint(before.endpoints@, id, at));
    assert forall|k: int| first_endpoint(before.endpoints@, id, k) implies k == at by {
        if k < at {
            assert(before.endpoints@[k].id != id);
        }
        if at < k {
            assert(before.endpoints@[at].id != id);
        }
    }
}

/// Every command is answered under its own identifier, and only a shutdown
/// stops the backend. What is not listed fails and changes nothing; a connect
/// is listed and reported as it came; a virtual device comes under its
/// identifier, ready for use.
pub proof fn law_fake_commands_are_answered(
    before: FakeBackend,
    command: BackendCommand,
    after: FakeBackend,
    reply: Reply,
)
    requires
        answered(before, command, after, reply),
    ensures
        reply.running <==> !(command is Shutdown),
        reply.events@.len() > 0,
        command matches BackendCommand::Connect { command_id, route } ==> {
            &&& after.routes@ == before.routes@.push(route)
            &&& after.endpoints@ == before.endpoints@
            &&& reply.events@.len() == 2
            &&& reply.events@[0] == (BackendEvent::RouteAdded { route })
            &&& reply.events@[1] == (BackendEvent::CommandCompleted { command_id })
        },
        command matches BackendCommand::Disconnect { command_id, route_id } ==> {
            &&& after.endpoints@ == before.endpoints@
            &&& (forall|i: int| 0 <= i < before.routes@.len() ==> (#[trigger] before.routes@[i]).id
                != route_id) ==> {
                &&& after.routes@ == before.routes@
                &&& reply.events@.len() == 1
                &&& reply.events@[0] is CommandFailed
                &&& reply.events@[0]->CommandFailed_command_id == command_id
                &&& reply.events@[0]->CommandFailed_error.code == ErrorCode::RouteNotFound
            }
        },
        command matches BackendCommand::CreateVirtual { command_id, virtual_device_id, endpoint }
            ==> {
            let created = after.endpoints@.last();
            &&& after.endpoints@.len() == before.endpoints@.len() + 1
            &&& after.endpoints@.drop_last() == before.endpoints@
            &&& created.virtual_device_id == Some(virtual_device_id)
            &&& created.state == EndpointState::Available
            &&& created == (AudioEndpoint {
                virtual_device_id: created.virtual_device_id,
                state: created.state,
                ..*endpoint
            })
            &&& reply.events@.len() == 2
            &&& reply.events@[0] == (BackendEvent::EndpointAdded { endpoint: created })
            &&& reply.events@[1] == (BackendEvent::CommandCompleted { command_id })
        },
        command matches BackendCommand::Shutdown { command_id } ==> {
            &&& reply.events@.len() == 3
            &&& reply.events@[0] == (BackendEvent::Status { status: BackendStatus::Stopping })
            &&& reply.events@[1] == (BackendEvent::Status { status: BackendStatus::Stopped })
            &&& reply.events@[2] == (BackendEvent::ShutdownComplete { command_id })
        },
        command matches BackendCommand::SetMute { command_id, endpoint_id, .. } ==> {
            (forall|i: int|
                0 <= i < before.endpoints@.len() ==> (#[trigger] before.endpoints@[i]).id
                    != endpoint_id) ==> {
                &&& after.endpoints@ == before.endpoints@
                &&& reply.events@.len() == 1
                &&& reply.events@[0] is CommandFailed
                &&& reply.events@[0]->CommandFailed_command_id == command_id
                &&& reply.events@[0]->CommandFailed_error.code == ErrorCode::EndpointNotFound
            }
        },
{
    if let BackendCommand::Disconnect { route_id, .. } = command {
        if lists_route(before.routes@, route_id) {
            let at = choose|at: int| first_route(before.routes@, route_id, at);
            assert(before.routes@[at].id == route_id);
        }
    }
    if let BackendCommand::SetMute { endpoint_id, .. } = command {
        if lists_endpoint(before.endpoints@, endpoint_id) {
            let at = choose|at: int| first_endpoint(before.endpoints@, endpoint_id, at);
            assert(before.endpoints@[at].id == endpoint_id);
        }
    }
}

/// A route that is disconnected stays listed, marked as such and otherwise as
/// it was, and the other routes are untouched.
pub proof fn law_a_listed_route_is_marked(
    before: FakeBackend,
    command_id: CommandId,
    after: FakeBackend,
    reply: Reply,
    at: int,
)
    requires
        0 <= at < before.routes@.len(),
        forall|i: int| 0 <= i < at ==> (#[trigger] before.routes@[i]).id != before.routes@[at].id,
        answered(
            before,
            BackendCommand::Disconnect { command_id, route_id: before.routes@[at].id },
            after,
            reply,
        ),
    ensures
        ({
            let marked = AudioRoute { state: RouteState::Disconnected, ..before.routes@[at] };
            &&& after.routes@ == before.routes@.update(at, marked)
            &&& reply.events@.len() == 2
            &&& reply.events@[0] == (BackendEvent::RouteUpdated { route: marked })
            &&& reply.events@[1] == (BackendEvent::CommandCompleted { command_id })
        }),
{
    let id = before.routes@[at].id;
    assert(first_route(before.routes@, id, at));
    assert forall|k: int| first_route(before.routes@, id, k) implies k == at by {
        if k < at {
            assert(before.routes@[k].id != id);
        }
        if at < k {
            assert(before.routes@[at].id != id);
        }
    }
}

/// A virtual device that is deleted goes with all its endpoints, each of which
/// is reported, and no other endpoint goes.
pub proof fn law_a_virtual_device_goes_with_its_endpoints(
    endpoints: Seq<AudioEndpoint>,
    device: VirtualDeviceId,
)
    ensures
        without_virtual(endpoints, device) == endpoints.filter(
            |endpoint: AudioEndpoint| endpoint.virtual_device_id != Some(device),
        ),
        virtual_removals(endpoints, device) == endpoints.filter(
            |endpoint: AudioEndpoint| endpoint.virtual_device_id == Some(device),
        ).map_values(
            |endpoint: AudioEndpoint| BackendEvent::EndpointRemoved { endpoint_id: endpoint.id },
        ),
    decreases endpoints.len(),
{
    reveal(Seq::filter);
    let own = |endpoint: AudioEndpoint| endpoint.virtual_device_id == Some(device);
    let told = |endpoint: AudioEndpoint|
        BackendEvent::EndpointRemoved { endpoint_id: endpoint.id };
    if endpoints.len() > 0 {
        law_a_virtual_device_goes_with_its_endpoints(endpoints.drop_last(), device);
        let rest = endpoints.drop_last().filter(own);
        if own(endpoints.last()) {
            assert(endpoints.filter(own) == rest.push(endpoints.last()));
            assert(rest.push(endpoints.last()).map_values(told) =~= rest.map_values(told).push(
                told(endpoints.last()),
            ));
        } else {
            assert(endpoints.filter(own) == rest);
        }
    }
    assert(virtual_removals(endpoints, device) =~= endpoints.filter(own).map_values(told));
}

/// A virtual device stands there available and under its own identifier, and is
/// otherwise as it was asked for; a listing tells of every endpoint in order.
pub proof fn law_a_fake_device_is_as_it_was_asked_for(
    endpoint: AudioEndpoint,
    virtual_device_id: VirtualDeviceId,
    endpoints: Seq<AudioEndpoint>,
    at: int,
)
    ensures
        created_virtual(endpoint, virtual_device_id).virtual_device_id == Some(virtual_device_id),
        created_virtual(endpoint, virtual_device_id).state == EndpointState::Available,
        created_virtual(endpoint, virtual_device_id).id == endpoint.id,
        created_virtual(endpoint, virtual_device_id) == (AudioEndpoint {
            virtual_device_id: Some(virtual_device_id),
            state: EndpointState::Available,
            ..endpoint
        }),
        additions(endpoints).len() == endpoints.len(),
        0 <= at < endpoints.len() ==> {
            &&& additions(endpoints)[at] is EndpointAdded
            &&& additions(endpoints)[at]->EndpointAdded_endpoint == endpoints[at]
        },
{
}

/// What is missing is named by its own identifier, and is no reason to try again.
pub proof fn law_what_is_missing_is_named(
    endpoint: EndpointId,
    route: RouteId,
    events: Seq<BackendEvent>,
    command_id: CommandId,
    reason: ErrorModel,
)
    ensures
        missing_endpoint(endpoint).code == ErrorCode::EndpointNotFound,
        !missing_endpoint(endpoint).retryable,
        missing_endpoint(endpoint).user_message == "That device is unavailable."@,
        missing_endpoint(endpoint).technical_message == "fake backend endpoint "@
            + ids::hyphenated(endpoint.value) + " not found"@,
        missing_route(route).code == ErrorCode::RouteNotFound,
        !missing_route(route).retryable,
        missing_route(route).user_message == "The audio route no longer exists."@,
        missing_route(route).technical_message == "fake backend route "@ + ids::hyphenated(
            route.value,
        ) + " not found"@,
        failed_with(events, command_id, reason) ==> {
            &&& events.len() == 1
            &&& events[0] is CommandFailed
            &&& events[0]->CommandFailed_command_id == command_id
            &&& events[0]->CommandFailed_error@ == reason
        },
{
}

/// A change of an endpoint that is not listed fails, and nothing changes by it.
pub proof fn law_an_unlisted_endpoint_is_refused(
    before: FakeBackend,
    after: FakeBackend,
    reply: Reply,
    command_id: CommandId,
    endpoint_id: EndpointId,
    change: EndpointChange,
)
    requires
        endpoint_changed(before, after, reply, command_id, endpoint_id, change),
        forall|i: int|
            0 <= i < before.endpoints@.len() ==> (#[trigger] before.endpoints@[i]).id
                != endpoint_id,
    ensures
        after.endpoints@ == before.endpoints@,
        after.routes@ == before.routes@,
        after.capabilities == before.capabilities,
        reply.running,
        reply.events@.len() == 1,
        reply.events@[0] is CommandFailed,
        reply.events@[0]->CommandFailed_command_id == command_id,
        reply.events@[0]->CommandFailed_error@.code == ErrorCode::EndpointNotFound,
{
    assert(forall|at: int|
        #[trigger] first_endpoint(before.endpoints@, endpoint_id, at)
            ==> before.endpoints@[at].id == endpoint_id);
}

} // verus!
