//! Which streams are open and which routes run through them.
//!
//! There is one capture stream for each source endpoint and one playback
//! stream for each destination endpoint. Routes are links between the two; a
//! stream is closed when its last route leaves. Opening and closing streams is
//! outside: the functions here say what is to be opened and closed.
use vstd::prelude::*;

use super::pipewire::route_command_error;
use super::pipewire;
use super::BackendEvent;
use crate::domain::endpoint::AudioEndpoint;
use crate::domain::error::{AudioError, ErrorCode};
use crate::domain::ids::{EndpointId, RouteId};
use crate::domain::ids;
use crate::domain::route::{AudioRoute, RouteState};
use crate::table::Table;
use crate::table;
use crate::text::joined3;

verus! {

/// The state of a stream.
#[derive(Clone, Copy, Debug, PartialEq, Eq, Structural)]
pub enum StreamState {
    Connecting,
    Connected,
    Failed,
    Disconnected,
}

/// Something that is to be done to a stream.
#[derive(Clone, Copy, Debug, PartialEq, Eq, Structural)]
pub enum StreamAction {
    /// Take the route out of the capture stream of the endpoint.
    DetachFeed { route: RouteId, endpoint: EndpointId },
    /// Take the route out of the playback stream of the endpoint.
    DetachDraw { route: RouteId, endpoint: EndpointId },
    CloseCapture { endpoint: EndpointId },
    CloseBus { endpoint: EndpointId },
}

/// The open streams and the routes through them.
#[derive(Debug)]
pub struct Runtimes {
    pub captures: Table<EndpointId, StreamState>,
    pub buses: Table<EndpointId, StreamState>,
    /// The capture stream that each linked route takes its audio from.
    pub feeds: Table<RouteId, EndpointId>,
    /// The playback stream that each linked route plays into.
    pub draws: Table<RouteId, EndpointId>,
    pub routes: Table<RouteId, AudioRoute>,
}

/// Whether a route runs through the stream of an endpoint.
pub open spec fn in_use(links: Map<RouteId, EndpointId>, endpoint: EndpointId) -> bool {
    exists|route: RouteId| #[trigger] links.contains_key(route) && links[route] == endpoint
}

/// The streams without that of an endpoint, where no route runs through it.
pub open spec fn without_orphan(
    streams: Map<EndpointId, StreamState>,
    links: Map<RouteId, EndpointId>,
    endpoint: EndpointId,
) -> Map<EndpointId, StreamState> {
    if in_use(links, endpoint) {
        streams
    } else {
        streams.remove(endpoint)
    }
}

/// Whether the stream of an endpoint is open though no route runs through it.
pub open spec fn orphaned(
    streams: Map<EndpointId, StreamState>,
    links: Map<RouteId, EndpointId>,
    endpoint: EndpointId,
) -> bool {
    streams.contains_key(endpoint) && !in_use(links, endpoint)
}

/// `action`, where `wanted`.
pub open spec fn only_if(wanted: bool, action: StreamAction) -> Seq<StreamAction> {
    if wanted {
        seq![action]
    } else {
        Seq::empty()
    }
}

fn links_use(links: &Table<RouteId, EndpointId>, endpoint: EndpointId) -> (used: bool)
    ensures
        used == in_use(links@, endpoint),
{
    links.show_entries();
    let mut at: usize = 0;
    while at < links.len()
        invariant
            at <= links.entries().len(),
            forall|i: int| 0 <= i < at ==> (#[trigger] links.entries()[i]).1 != endpoint,
            forall|i: int|
                0 <= i < links.entries().len() ==> {
                    &&& links@.contains_key((#[trigger] links.entries()[i]).0)
                    &&& links@[links.entries()[i].0] == links.entries()[i].1
                },
            forall|key: RouteId| #[trigger]
                links@.contains_key(key) ==> table::holds_key(links.entries(), key),
        decreases links.entries().len() - at,
    {
        if *links.value_at(at) == endpoint {
            assert(links@.contains_key(links.entries()[at as int].0));
            return true;
        }
        at = at + 1;
    }
    proof {
        if in_use(links@, endpoint) {
            let route = choose|route: RouteId| #[trigger]
                links@.contains_key(route) && links@[route] == endpoint;
            let i = table::place_of(links.entries(), route);
            assert(links.entries()[i].0 == route);
        }
    }
    false
}

/// The state of a stream; a stream that is not open counts as connecting.
pub open spec fn state_or_connecting(
    streams: Map<EndpointId, StreamState>,
    endpoint: EndpointId,
) -> StreamState {
    if streams.contains_key(endpoint) {
        streams[endpoint]
    } else {
        StreamState::Connecting
    }
}

/// The state of a route between two streams: it fails or ends with either of
/// them, and it is active once both are connected.
pub open spec fn joint_state(capture: StreamState, bus: StreamState) -> RouteState {
    if capture == StreamState::Failed || bus == StreamState::Failed {
        RouteState::Failed
    } else if capture == StreamState::Disconnected || bus == StreamState::Disconnected {
        RouteState::Disconnected
    } else if capture == StreamState::Connected && bus == StreamState::Connected {
        RouteState::Active
    } else {
        RouteState::Connecting
    }
}

/// What is needed to link a route.
#[derive(Debug)]
pub struct LinkPlan {
    pub route: AudioRoute,
    pub source: AudioEndpoint,
    pub destination: AudioEndpoint,
    /// The capture stream is to be opened first.
    pub open_capture: bool,
    /// The playback stream is to be opened first.
    pub open_bus: bool,
}

/// How far the linking of a route came.
#[derive(Debug)]
pub enum LinkOutcome {
    /// The capture stream could not be opened.
    CaptureFailed { error: AudioError },
    /// The playback stream could not be opened.
    BusFailed { error: AudioError },
    /// The ring between the two could not be made.
    RingFailed { detail: String },
    /// The capture stream did not take its half of the ring.
    FeedRefused { error: AudioError },
    /// The playback stream did not take its half of the ring.
    DrawRefused { error: AudioError },
    Linked,
}

/// The updates for the routes whose state changes, in order.
pub open spec fn state_updates(
    entries: Seq<(RouteId, AudioRoute)>,
    captures: Map<EndpointId, StreamState>,
    buses: Map<EndpointId, StreamState>,
) -> Seq<BackendEvent>
    decreases entries.len(),
{
    if entries.len() == 0 {
        Seq::empty()
    } else {
        let rest = state_updates(entries.drop_last(), captures, buses);
        let route = entries.last().1;
        let state = joint_state(
            state_or_connecting(captures, route.source),
            state_or_connecting(buses, route.destination),
        );
        if state != route.state {
            rest.push(BackendEvent::RouteUpdated { route: route.in_state(state) })
        } else {
            rest
        }
    }
}

/// The reports that routes were removed.
pub open spec fn removals(routes: Seq<RouteId>) -> Seq<BackendEvent> {
    Seq::new(routes.len(), |i: int| BackendEvent::RouteRemoved { route_id: routes[i] })
}

/// The routes that start or end at an endpoint, in order.
pub open spec fn routes_at(
    entries: Seq<(RouteId, AudioRoute)>,
    endpoint: EndpointId,
    as_source: bool,
    as_destination: bool,
) -> Seq<AudioRoute>
    decreases entries.len(),
{
    if entries.len() == 0 {
        Seq::empty()
    } else {
        let rest = routes_at(entries.drop_last(), endpoint, as_source, as_destination);
        let route = entries.last().1;
        if (as_source && route.source == endpoint) || (as_destination && route.destination
            == endpoint) {
            rest.push(route)
        } else {
            rest
        }
    }
}

/// Every route at an endpoint is among those that are listed for it.
pub proof fn lemma_route_is_listed(
    entries: Seq<(RouteId, AudioRoute)>,
    endpoint: EndpointId,
    as_source: bool,
    as_destination: bool,
    at: int,
)
    requires
        0 <= at < entries.len(),
        (as_source && entries[at].1.source == endpoint) || (as_destination
            && entries[at].1.destination == endpoint),
    ensures
        routes_at(entries, endpoint, as_source, as_destination).contains(entries[at].1),
    decreases entries.len(),
{
    let listed = routes_at(entries, endpoint, as_source, as_destination);
    let rest = routes_at(entries.drop_last(), endpoint, as_source, as_destination);
    if at == entries.len() - 1 {
        assert(listed == rest.push(entries[at].1));
        assert(listed.last() == entries[at].1);
    } else {
        lemma_route_is_listed(entries.drop_last(), endpoint, as_source, as_destination, at);
        let k = choose|k: int| 0 <= k < rest.len() && rest[k] == entries[at].1;
        assert(listed[k] == entries[at].1);
    }
}

/// Whether the route at a place joins two endpoints.
pub open spec fn joins_at(
    entries: Seq<(RouteId, AudioRoute)>,
    source: EndpointId,
    destination: EndpointId,
    at: int,
) -> bool {
    entries[at].1.source == source && entries[at].1.destination == destination
}

/// Whether the route at a place is the first that joins two endpoints.
pub open spec fn first_join(
    entries: Seq<(RouteId, AudioRoute)>,
    source: EndpointId,
    destination: EndpointId,
    at: int,
) -> bool {
    &&& 0 <= at < entries.len()
    &&& joins_at(entries, source, destination, at)
    &&& forall|i: int| 0 <= i < at ==> !(#[trigger] joins_at(entries, source, destination, i))
}

/// The first route that joins two endpoints.
pub open spec fn joins(
    entries: Seq<(RouteId, AudioRoute)>,
    source: EndpointId,
    destination: EndpointId,
) -> Option<RouteId> {
    if exists|at: int| first_join(entries, source, destination, at) {
        Some(entries[choose|at: int| first_join(entries, source, destination, at)].1.id)
    } else {
        None
    }
}

proof fn lemma_first_join(
    entries: Seq<(RouteId, AudioRoute)>,
    source: EndpointId,
    destination: EndpointId,
    at: int,
)
    requires
        0 <= at < entries.len(),
        joins_at(entries, source, destination, at),
    ensures
        joins(entries, source, destination) is Some,
    decreases at,
{
    if exists|i: int| 0 <= i < at && #[trigger] joins_at(entries, source, destination, i) {
        let i = choose|i: int|
            0 <= i < at && #[trigger] joins_at(entries, source, destination, i);
        lemma_first_join(entries, source, destination, i);
    } else {
        assert(first_join(entries, source, destination, at));
    }
}

/// Where no route joins two endpoints in the list, none does in the map.
pub proof fn lemma_unjoined(
    routes: Table<RouteId, AudioRoute>,
    source: EndpointId,
    destination: EndpointId,
)
    requires
        joins(routes.entries(), source, destination) is None,
    ensures
        forall|route: RouteId| #[trigger]
            routes@.contains_key(route) ==> !(routes@[route].source == source
                && routes@[route].destination == destination),
{
    assert forall|route: RouteId| #[trigger] routes@.contains_key(route) implies !(
    routes@[route].source == source && routes@[route].destination == destination) by {
        let entries = routes.entries();
        let at = table::place_of(entries, route);
        assert(table::holds_key(entries, route));
        if joins_at(entries, source, destination, at) {
            lemma_first_join(entries, source, destination, at);
        }
    }
}

/// Whether routes stand under their identifiers and no two join the same
/// endpoints.
pub open spec fn one_route_per_pair(routes: Map<RouteId, AudioRoute>) -> bool {
    &&& forall|route: RouteId| #[trigger] routes.contains_key(route) ==> routes[route].id == route
    &&& forall|one: RouteId, other: RouteId| #[trigger]
        routes.contains_key(one) && #[trigger] routes.contains_key(other) && routes[one].source
            == routes[other].source && routes[one].destination == routes[other].destination ==> one
            == other
}

impl Runtimes {
    pub fn new() -> (runtimes: Self)
        ensures
            runtimes.idle(),
            runtimes.steady(),
    {
        Runtimes {
            captures: Table::new(),
            buses: Table::new(),
            feeds: Table::new(),
            draws: Table::new(),
            routes: Table::new(),
        }
    }

    /// No stream is open and no route is known.
    pub open spec fn idle(self) -> bool {
        &&& self.captures@ == Map::<EndpointId, StreamState>::empty()
        &&& self.buses@ == Map::<EndpointId, StreamState>::empty()
        &&& self.feeds@ == Map::<RouteId, EndpointId>::empty()
        &&& self.draws@ == Map::<RouteId, EndpointId>::empty()
        &&& self.routes@ == Map::<RouteId, AudioRoute>::empty()
    }

    /// The closing of every open stream, captures first.
    pub open spec fn closings(self) -> Seq<StreamAction> {
        Seq::new(
            self.captures.entries().len(),
            |i: int| StreamAction::CloseCapture { endpoint: self.captures.entries()[i].0 },
        ) + Seq::new(
            self.buses.entries().len(),
            |i: int| StreamAction::CloseBus { endpoint: self.buses.entries()[i].0 },
        )
    }

    /// Every open stream has a route through it, and every linked route runs
    /// through open streams, those of its own endpoints.
    pub open spec fn wf(self) -> bool {
        &&& forall|endpoint: EndpointId| #[trigger]
            self.captures@.contains_key(endpoint) ==> in_use(self.feeds@, endpoint)
        &&& forall|endpoint: EndpointId| #[trigger]
            self.buses@.contains_key(endpoint) ==> in_use(self.draws@, endpoint)
        &&& forall|route: RouteId| #[trigger]
            self.feeds@.contains_key(route) ==> self.captures@.contains_key(self.feeds@[route])
        &&& forall|route: RouteId| #[trigger]
            self.draws@.contains_key(route) ==> self.buses@.contains_key(self.draws@[route])
        &&& forall|route: RouteId| #[trigger]
            self.routes@.contains_key(route) ==> {
                &&& self.feeds@.contains_key(route) ==> self.feeds@[route]
                    == self.routes@[route].source
                &&& self.draws@.contains_key(route) ==> self.draws@[route]
                    == self.routes@[route].destination
            }
    }

    /// Between two steps, in addition: every link belongs to a known route, and
    /// no two routes join the same endpoints.
    pub open spec fn steady(self) -> bool {
        &&& self.wf()
        &&& forall|route: RouteId| #[trigger]
            self.feeds@.contains_key(route) ==> self.routes@.contains_key(route)
        &&& forall|route: RouteId| #[trigger]
            self.draws@.contains_key(route) ==> self.routes@.contains_key(route)
        &&& one_route_per_pair(self.routes@)
    }

    /// Whether a plan is for a new route, between endpoints that no route joins.
    pub open spec fn admits(self, plan: LinkPlan) -> bool {
        &&& plan.route.source == plan.source.id
        &&& plan.route.destination == plan.destination.id
        &&& !self.routes@.contains_key(plan.route.id)
        &&& forall|route: RouteId| #[trigger]
            self.routes@.contains_key(route) ==> !(self.routes@[route].source == plan.source.id
                && self.routes@[route].destination == plan.destination.id)
    }

    /// Whether a plan is for a known route that is not linked.
    pub open spec fn readmits(self, plan: LinkPlan) -> bool {
        &&& self.routes@.contains_key(plan.route.id)
        &&& self.routes@[plan.route.id].source == plan.source.id
        &&& self.routes@[plan.route.id].destination == plan.destination.id
        &&& !self.feeds@.contains_key(plan.route.id)
        &&& !self.draws@.contains_key(plan.route.id)
    }

    /// The state of a route, by the states of its two streams.
    pub fn route_state(&self, route: &AudioRoute) -> (state: RouteState)
        ensures
            state == joint_state(
                state_or_connecting(self.captures@, route.source),
                state_or_connecting(self.buses@, route.destination),
            ),
    {
        let capture = match self.captures.get(&route.source) {
            Some(state) => *state,
            None => StreamState::Connecting,
        };
        let bus = match self.buses.get(&route.destination) {
            Some(state) => *state,
            None => StreamState::Connecting,
        };
        if capture == StreamState::Failed || bus == StreamState::Failed {
            RouteState::Failed
        } else if capture == StreamState::Disconnected || bus == StreamState::Disconnected {
            RouteState::Disconnected
        } else if capture == StreamState::Connected && bus == StreamState::Connected {
            RouteState::Active
        } else {
            RouteState::Connecting
        }
    }

    /// Notes the state of an open stream.
    pub fn set_stream_state(&mut self, endpoint: EndpointId, capture: bool, state: StreamState)
        ensures
            final(self).captures@ == (if capture && old(self).captures@.contains_key(endpoint) {
                old(self).captures@.insert(endpoint, state)
            } else {
                old(self).captures@
            }),
            final(self).buses@ == (if !capture && old(self).buses@.contains_key(endpoint) {
                old(self).buses@.insert(endpoint, state)
            } else {
                old(self).buses@
            }),
            final(self).feeds == old(self).feeds,
            final(self).draws == old(self).draws,
            final(self).routes == old(self).routes,
            old(self).wf() ==> final(self).wf(),
            old(self).steady() ==> final(self).steady(),
    {
        if capture {
            if self.captures.contains_key(&endpoint) {
                self.captures.insert(endpoint, state);
            }
        } else if self.buses.contains_key(&endpoint) {
            self.buses.insert(endpoint, state);
        }
    }

    /// Closes every stream and forgets every route. Returns the streams that
    /// are to be closed, captures first.
    pub fn disconnect_all(&mut self) -> (actions: Vec<StreamAction>)
        ensures
            final(self).idle(),
            final(self).steady(),
            actions@ == old(self).closings(),
    {
        let mut actions: Vec<StreamAction> = Vec::new();
        let mut at: usize = 0;
        while at < self.captures.len()
            invariant
                *self == *old(self),
                at <= self.captures.entries().len(),
                actions@.len() == at,
                forall|i: int|
                    0 <= i < at ==> #[trigger] actions@[i] == (StreamAction::CloseCapture {
                        endpoint: self.captures.entries()[i].0,
                    }),
            decreases self.captures.entries().len() - at,
        {
            actions.push(StreamAction::CloseCapture { endpoint: self.captures.key_at(at) });
            at = at + 1;
        }
        let mut next: usize = 0;
        while next < self.buses.len()
            invariant
                *self == *old(self),
                at == self.captures.entries().len(),
                next <= self.buses.entries().len(),
                actions@.len() == at + next,
                forall|i: int|
                    0 <= i < at ==> #[trigger] actions@[i] == (StreamAction::CloseCapture {
                        endpoint: self.captures.entries()[i].0,
                    }),
                forall|i: int|
                    0 <= i < next ==> actions@[at + i] == (StreamAction::CloseBus {
                        endpoint: (#[trigger] self.buses.entries()[i]).0,
                    }),
            decreases self.buses.entries().len() - next,
        {
            actions.push(StreamAction::CloseBus { endpoint: self.buses.key_at(next) });
            next = next + 1;
        }
        assert(actions@ =~= self.closings());
        self.captures = Table::new();
        self.buses = Table::new();
        self.feeds = Table::new();
        self.draws = Table::new();
        self.routes = Table::new();
        actions
    }

    /// Closes the capture stream of an endpoint, where no route runs through
    /// it.
    pub fn close_orphaned_capture(&mut self, endpoint: EndpointId, actions: &mut Vec<StreamAction>)
        ensures
            final(self).captures@ == without_orphan(
                old(self).captures@,
                old(self).feeds@,
                endpoint,
            ),
            final(self).buses == old(self).buses,
            final(self).feeds == old(self).feeds,
            final(self).draws == old(self).draws,
            final(self).routes == old(self).routes,
            final(actions)@ == old(actions)@ + only_if(
                orphaned(old(self).captures@, old(self).feeds@, endpoint),
                StreamAction::CloseCapture { endpoint },
            ),
    {
        if !links_use(&self.feeds, endpoint) {
            if self.captures.remove(&endpoint).is_some() {
                actions.push(StreamAction::CloseCapture { endpoint });
            }
        }
        assert(actions@ =~= old(actions)@ + only_if(
            orphaned(old(self).captures@, old(self).feeds@, endpoint),
            StreamAction::CloseCapture { endpoint },
        ));
    }

    /// Closes the playback stream of an endpoint, where no route runs through
    /// it.
    pub fn close_orphaned_bus(&mut self, endpoint: EndpointId, actions: &mut Vec<StreamAction>)
        ensures
            final(self).buses@ == without_orphan(old(self).buses@, old(self).draws@, endpoint),
            final(self).captures == old(self).captures,
            final(self).feeds == old(self).feeds,
            final(self).draws == old(self).draws,
            final(self).routes == old(self).routes,
            final(actions)@ == old(actions)@ + only_if(
                orphaned(old(self).buses@, old(self).draws@, endpoint),
                StreamAction::CloseBus { endpoint },
            ),
    {
        if !links_use(&self.draws, endpoint) {
            if self.buses.remove(&endpoint).is_some() {
                actions.push(StreamAction::CloseBus { endpoint });
            }
        }
        assert(actions@ =~= old(actions)@ + only_if(
            orphaned(old(self).buses@, old(self).draws@, endpoint),
            StreamAction::CloseBus { endpoint },
        ));
    }

    /// The links of a route to a stream that is open, taken out.
    pub open spec fn unlinked(
        links: Map<RouteId, EndpointId>,
        streams: Map<EndpointId, StreamState>,
        route: RouteId,
        endpoint: EndpointId,
    ) -> Map<RouteId, EndpointId> {
        if streams.contains_key(endpoint) {
            links.remove(route)
        } else {
            links
        }
    }

    /// What is done to the streams when a known route is unlinked.
    pub open spec fn unlink_actions(self, route: AudioRoute) -> Seq<StreamAction> {
        let feeds = Self::unlinked(self.feeds@, self.captures@, route.id, route.source);
        let draws = Self::unlinked(self.draws@, self.buses@, route.id, route.destination);
        only_if(
            self.captures@.contains_key(route.source),
            StreamAction::DetachFeed { route: route.id, endpoint: route.source },
        ) + only_if(
            self.buses@.contains_key(route.destination),
            StreamAction::DetachDraw { route: route.id, endpoint: route.destination },
        ) + only_if(
            orphaned(self.captures@, feeds, route.source),
            StreamAction::CloseCapture { endpoint: route.source },
        ) + only_if(
            orphaned(self.buses@, draws, route.destination),
            StreamAction::CloseBus { endpoint: route.destination },
        )
    }

    /// What unlinking a route leaves, and what is done to the streams.
    pub open spec fn unlinks(
        self,
        route_id: RouteId,
        after: Self,
        actions: Seq<StreamAction>,
    ) -> bool {
        &&& after.routes == self.routes
        &&& if self.routes@.contains_key(route_id) {
            let route = self.routes@[route_id];
            let feeds = Self::unlinked(self.feeds@, self.captures@, route_id, route.source);
            let draws = Self::unlinked(self.draws@, self.buses@, route_id, route.destination);
            &&& after.feeds@ == feeds
            &&& after.draws@ == draws
            &&& after.captures@ == without_orphan(self.captures@, feeds, route.source)
            &&& after.buses@ == without_orphan(self.buses@, draws, route.destination)
            &&& actions == self.unlink_actions(AudioRoute { id: route_id, ..route })
        } else {
            &&& after.feeds == self.feeds
            &&& after.draws == self.draws
            &&& after.captures == self.captures
            &&& after.buses == self.buses
            &&& actions == Seq::<StreamAction>::empty()
        }
    }

    /// Takes a route out of its streams and closes those that no route runs
    /// through any more. The route itself stays known.
    pub fn unlink_route(&mut self, route_id: RouteId) -> (actions: Vec<StreamAction>)
        ensures
            old(self).unlinks(route_id, *final(self), actions@),
            old(self).wf() ==> final(self).wf(),
            old(self).steady() ==> {
                &&& final(self).steady()
                &&& !final(self).feeds@.contains_key(route_id)
                &&& !final(self).draws@.contains_key(route_id)
            },
    {
        let mut actions: Vec<StreamAction> = Vec::new();
        let route = match self.routes.get(&route_id) {
            Some(route) => *route,
            None => {
                assert(actions@ =~= Seq::<StreamAction>::empty());
                return actions;
            },
        };
        if self.captures.contains_key(&route.source) {
            let _feed = self.feeds.remove(&route_id);
            actions.push(StreamAction::DetachFeed { route: route_id, endpoint: route.source });
        }
        if self.buses.contains_key(&route.destination) {
            let _draw = self.draws.remove(&route_id);
            actions.push(StreamAction::DetachDraw { route: route_id, endpoint: route.destination });
        }
        let ghost detached = *self;
        self.close_orphaned_capture(route.source, &mut actions);
        self.close_orphaned_bus(route.destination, &mut actions);
        assert(actions@ =~= old(self).unlink_actions(AudioRoute { id: route_id, ..route }));
        proof {
            if old(self).wf() {
                old(self).lemma_unlink_keeps_streams_used(route_id, *self, actions@);
            }
            if old(self).steady() {
                old(self).lemma_unlink_keeps_steady(route_id, *self, actions@);
            }
        }
        actions
    }

    /// What taking a route out leaves: with `forget` it is no longer known.
    pub open spec fn takes_out(
        self,
        route_id: RouteId,
        forget: bool,
        after: Self,
        actions: Seq<StreamAction>,
    ) -> bool {
        if forget {
            &&& self.unlinks(route_id, Runtimes { routes: self.routes, ..after }, actions)
            &&& after.routes@ == self.routes@.remove(route_id)
        } else {
            self.unlinks(route_id, after, actions)
        }
    }

    /// Takes a route out of its streams and forgets it. A route that is not
    /// known is gone already, which is what was asked for.
    pub fn disconnect_route(&mut self, route_id: RouteId) -> (actions: Vec<StreamAction>)
        ensures
            old(self).takes_out(route_id, true, *final(self), actions@),
            old(self).wf() ==> final(self).wf(),
            old(self).steady() ==> {
                &&& final(self).steady()
                &&& !final(self).feeds@.contains_key(route_id)
                &&& !final(self).draws@.contains_key(route_id)
            },
    {
        let actions = self.unlink_route(route_id);
        let ghost unlinked = *self;
        let _route = self.routes.remove(&route_id);
        assert(Runtimes { routes: old(self).routes, ..*self } == unlinked);
        actions
    }

    /// What taking several routes out, one after the other, leaves.
    pub open spec fn takes_out_all(
        self,
        routes: Seq<RouteId>,
        forget: bool,
        after: Self,
        actions: Seq<StreamAction>,
    ) -> bool
        decreases routes.len(),
    {
        if routes.len() == 0 {
            after == self && actions =~= Seq::<StreamAction>::empty()
        } else {
            exists|middle: Self, last: Seq<StreamAction>|
                {
                    let first = actions.take(actions.len() - last.len());
                    &&& #[trigger] middle.takes_out(routes.last(), forget, after, last)
                    &&& last.len() <= actions.len()
                    &&& actions =~= first + last
                    &&& self.takes_out_all(routes.drop_last(), forget, middle, first)
                }
        }
    }

    /// Takes several routes out, one after the other. Reports each of them as
    /// removed.
    pub fn take_out_all(&mut self, routes: &Vec<RouteId>, forget: bool) -> (result: (
        Vec<BackendEvent>,
        Vec<StreamAction>,
    ))
        ensures
            old(self).takes_out_all(routes@, forget, *final(self), result.1@),
            result.0@ == removals(routes@),
            !forget ==> final(self).routes == old(self).routes,
            old(self).wf() ==> final(self).wf(),
            old(self).steady() ==> {
                &&& final(self).steady()
                &&& final(self).feeds@.dom().subset_of(old(self).feeds@.dom())
                &&& final(self).draws@.dom().subset_of(old(self).draws@.dom())
                &&& forall|i: int|
                    0 <= i < routes@.len() ==> !final(self).feeds@.contains_key(
                        #[trigger] routes@[i],
                    ) && !final(self).draws@.contains_key(routes@[i])
            },
    {
        let mut events: Vec<BackendEvent> = Vec::new();
        let mut actions: Vec<StreamAction> = Vec::new();
        let mut at: usize = 0;
        assert(routes@.take(0) =~= Seq::<RouteId>::empty());
        while at < routes.len()
            invariant
                at <= routes@.len(),
                old(self).takes_out_all(routes@.take(at as int), forget, *self, actions@),
                events@ =~= removals(routes@.take(at as int)),
                !forget ==> self.routes == old(self).routes,
                old(self).wf() ==> self.wf(),
                old(self).steady() ==> {
                    &&& self.steady()
                    &&& self.feeds@.dom().subset_of(old(self).feeds@.dom())
                    &&& self.draws@.dom().subset_of(old(self).draws@.dom())
                    &&& forall|i: int|
                        0 <= i < at ==> !self.feeds@.contains_key(#[trigger] routes@[i])
                            && !self.draws@.contains_key(routes@[i])
                },
            decreases routes@.len() - at,
        {
            let ghost middle = *self;
            let ghost first = actions@;
            let mut last = if forget {
                self.disconnect_route(routes[at])
            } else {
                self.unlink_route(routes[at])
            };
            let ghost done = last@;
            actions.append(&mut last);
            events.push(BackendEvent::RouteRemoved { route_id: routes[at] });
            at = at + 1;
            proof {
                assert(routes@.take(at as int).drop_last() =~= routes@.take(at - 1));
                assert(routes@.take(at as int).last() == routes@[at - 1]);
                assert(old(self).takes_out_all(
                    routes@.take(at as int).drop_last(),
                    forget,
                    middle,
                    first,
                ));
                assert(middle.takes_out(routes@.take(at as int).last(), forget, *self, done));
                assert(actions@ =~= first + done);
                assert(actions@.take(actions@.len() - done.len()) =~= first);
            }
        }
        assert(routes@.take(at as int) =~= routes@);
        (events, actions)
    }

    /// The streams once both streams of a route are open.
    pub open spec fn opened(
        streams: Map<EndpointId, StreamState>,
        endpoint: EndpointId,
    ) -> Map<EndpointId, StreamState> {
        if streams.contains_key(endpoint) {
            streams
        } else {
            streams.insert(endpoint, StreamState::Connecting)
        }
    }

    /// What a link leaves that failed once both streams were open: a stream
    /// that no route runs through is closed again.
    pub open spec fn link_undone(
        self,
        plan: LinkPlan,
        after: Self,
        actions: Seq<StreamAction>,
        detach: bool,
    ) -> bool {
        let captures = Self::opened(self.captures@, plan.source.id);
        let buses = Self::opened(self.buses@, plan.destination.id);
        &&& after.feeds == self.feeds
        &&& after.draws == self.draws
        &&& after.captures@ == without_orphan(captures, self.feeds@, plan.source.id)
        &&& after.buses@ == without_orphan(buses, self.draws@, plan.destination.id)
        &&& actions == only_if(
            detach,
            StreamAction::DetachFeed { route: plan.route.id, endpoint: plan.source.id },
        ) + only_if(
            orphaned(captures, self.feeds@, plan.source.id),
            StreamAction::CloseCapture { endpoint: plan.source.id },
        ) + only_if(
            orphaned(buses, self.draws@, plan.destination.id),
            StreamAction::CloseBus { endpoint: plan.destination.id },
        )
    }

    /// What the end of a link leaves.
    pub open spec fn link_ended(
        self,
        plan: LinkPlan,
        outcome: LinkOutcome,
        after: Self,
        result: Result<AudioRoute, AudioError>,
        actions: Seq<StreamAction>,
    ) -> bool {
        &&& after.routes == self.routes
        &&& result is Ok <==> outcome is Linked
        &&& match outcome {
            LinkOutcome::CaptureFailed { error } => {
                &&& result == Err::<AudioRoute, AudioError>(error)
                &&& after == self
                &&& actions == Seq::<StreamAction>::empty()
            },
            LinkOutcome::BusFailed { error } => {
                &&& result == Err::<AudioRoute, AudioError>(error)
                &&& after == self
                &&& actions == only_if(
                    plan.open_capture,
                    StreamAction::CloseCapture { endpoint: plan.source.id },
                )
            },
            LinkOutcome::RingFailed { detail } => {
                &&& result->Err_0@ == pipewire::route_fault(
                    ErrorCode::InvalidRoute,
                    "Orion could not start realtime processing for that connection."@,
                    "failed to create route link for "@ + ids::hyphenated(plan.route.id.value)
                        + ": "@ + detail@,
                )
                &&& self.link_undone(plan, after, actions, false)
            },
            LinkOutcome::FeedRefused { error } => {
                &&& result == Err::<AudioRoute, AudioError>(error)
                &&& self.link_undone(plan, after, actions, false)
            },
            LinkOutcome::DrawRefused { error } => {
                &&& result == Err::<AudioRoute, AudioError>(error)
                &&& self.link_undone(plan, after, actions, true)
            },
            LinkOutcome::Linked => {
                &&& result == Ok::<AudioRoute, AudioError>(plan.route)
                &&& after.captures@ == Self::opened(self.captures@, plan.source.id)
                &&& after.buses@ == Self::opened(self.buses@, plan.destination.id)
                &&& after.feeds@ == self.feeds@.insert(plan.route.id, plan.source.id)
                &&& after.draws@ == self.draws@.insert(plan.route.id, plan.destination.id)
                &&& actions == Seq::<StreamAction>::empty()
            },
        }
    }

    fn open_both(&mut self, plan: &LinkPlan)
        ensures
            final(self).captures@ == Self::opened(old(self).captures@, plan.source.id),
            final(self).buses@ == Self::opened(old(self).buses@, plan.destination.id),
            final(self).feeds == old(self).feeds,
            final(self).draws == old(self).draws,
            final(self).routes == old(self).routes,
    {
        if !self.captures.contains_key(&plan.source.id) {
            self.captures.insert(plan.source.id, StreamState::Connecting);
        }
        if !self.buses.contains_key(&plan.destination.id) {
            self.buses.insert(plan.destination.id, StreamState::Connecting);
        }
    }

    fn undo_link(&mut self, plan: &LinkPlan, detach: bool) -> (actions: Vec<StreamAction>)
        ensures
            old(self).link_undone(*plan, *final(self), actions@, detach),
            final(self).routes == old(self).routes,
    {
        let mut actions: Vec<StreamAction> = Vec::new();
        self.open_both(plan);
        if detach {
            actions.push(
                StreamAction::DetachFeed { route: plan.route.id, endpoint: plan.source.id },
            );
        }
        let ghost first = actions@;
        assert(first =~= only_if(
            detach,
            StreamAction::DetachFeed { route: plan.route.id, endpoint: plan.source.id },
        ));
        self.close_orphaned_capture(plan.source.id, &mut actions);
        self.close_orphaned_bus(plan.destination.id, &mut actions);
        actions
    }

    /// Takes the end of a link in: the route runs, or what was opened for it
    /// is closed again.
    pub fn finish_link(&mut self, plan: &LinkPlan, outcome: LinkOutcome) -> (result: (
        Result<AudioRoute, AudioError>,
        Vec<StreamAction>,
    ))
        ensures
            old(self).link_ended(*plan, outcome, *final(self), result.0, result.1@),
            old(self).wf() && result.0 is Err ==> {
                &&& final(self).captures@ == old(self).captures@
                &&& final(self).buses@ == old(self).buses@
                &&& final(self).feeds == old(self).feeds
                &&& final(self).draws == old(self).draws
                &&& final(self).wf()
            },
            old(self).wf() && !old(self).feeds@.contains_key(plan.route.id) && !old(
                self).draws@.contains_key(plan.route.id) && (old(self).routes@.contains_key(
                plan.route.id,
            ) ==> old(self).routes@[plan.route.id].source == plan.source.id && old(
                self).routes@[plan.route.id].destination == plan.destination.id) ==> final(
                self).wf(),
    {
        match outcome {
            LinkOutcome::CaptureFailed { error } => {
                let actions: Vec<StreamAction> = Vec::new();
                assert(actions@ =~= Seq::<StreamAction>::empty());
                (Err(error), actions)
            },
            LinkOutcome::BusFailed { error } => {
                let mut actions: Vec<StreamAction> = Vec::new();
                if plan.open_capture {
                    actions.push(StreamAction::CloseCapture { endpoint: plan.source.id });
                }
                assert(actions@ =~= only_if(
                    plan.open_capture,
                    StreamAction::CloseCapture { endpoint: plan.source.id },
                ));
                (Err(error), actions)
            },
            LinkOutcome::RingFailed { detail } => {
                let id_text = plan.route.id.to_text();
                let mut technical = joined3(
                    "failed to create route link for ",
                    id_text.as_str(),
                    ": ",
                );
                technical.append(detail.as_str());
                let error = route_command_error(
                    ErrorCode::InvalidRoute,
                    "Orion could not start realtime processing for that connection.",
                    technical.as_str(),
                );
                let actions = self.undo_link(plan, false);
                proof {
                    old(self).lemma_undone_link_leaves_streams(*plan, *self, actions@, false);
                }
                (Err(error), actions)
            },
            LinkOutcome::FeedRefused { error } => {
                let actions = self.undo_link(plan, false);
                proof {
                    old(self).lemma_undone_link_leaves_streams(*plan, *self, actions@, false);
                }
                (Err(error), actions)
            },
            LinkOutcome::DrawRefused { error } => {
                let actions = self.undo_link(plan, true);
                proof {
                    old(self).lemma_undone_link_leaves_streams(*plan, *self, actions@, true);
                }
                (Err(error), actions)
            },
            LinkOutcome::Linked => {
                self.open_both(plan);
                self.feeds.insert(plan.route.id, plan.source.id);
                self.draws.insert(plan.route.id, plan.destination.id);
                let actions: Vec<StreamAction> = Vec::new();
                proof {
                    assert(actions@ =~= Seq::<StreamAction>::empty());
                    old(self).lemma_link_keeps_streams_used(*plan, *self);
                }
                (Ok(plan.route), actions)
            },
        }
    }

    proof fn lemma_undone_link_leaves_streams(
        self,
        plan: LinkPlan,
        after: Self,
        actions: Seq<StreamAction>,
        detach: bool,
    )
        requires
            self.link_undone(plan, after, actions, detach),
            after.routes == self.routes,
        ensures
            self.wf() ==> after.captures@ == self.captures@ && after.buses@ == self.buses@
                && after.wf(),
    {
        if self.wf() {
            if in_use(self.feeds@, plan.source.id) {
                let route = choose|route: RouteId| #[trigger]
                    self.feeds@.contains_key(route) && self.feeds@[route] == plan.source.id;
                assert(self.captures@.contains_key(plan.source.id));
            }
            if in_use(self.draws@, plan.destination.id) {
                let route = choose|route: RouteId| #[trigger]
                    self.draws@.contains_key(route) && self.draws@[route] == plan.destination.id;
                assert(self.buses@.contains_key(plan.destination.id));
            }
            assert(after.captures@ =~= self.captures@);
            assert(after.buses@ =~= self.buses@);
        }
    }

    proof fn lemma_link_keeps_streams_used(self, plan: LinkPlan, after: Self)
        requires
            after.routes == self.routes,
            after.captures@ == Self::opened(self.captures@, plan.source.id),
            after.buses@ == Self::opened(self.buses@, plan.destination.id),
            after.feeds@ == self.feeds@.insert(plan.route.id, plan.source.id),
            after.draws@ == self.draws@.insert(plan.route.id, plan.destination.id),
        ensures
            self.wf() && !self.feeds@.contains_key(plan.route.id) && !self.draws@.contains_key(
                plan.route.id,
            ) && (self.routes@.contains_key(plan.route.id) ==> self.routes@[plan.route.id].source
                == plan.source.id && self.routes@[plan.route.id].destination
                == plan.destination.id) ==> after.wf(),
    {
        if self.wf() && !self.feeds@.contains_key(plan.route.id) && !self.draws@.contains_key(
            plan.route.id,
        ) {
            assert(after.feeds@.contains_key(plan.route.id));
            assert(after.draws@.contains_key(plan.route.id));
            assert forall|endpoint: EndpointId| #[trigger]
                after.captures@.contains_key(endpoint) implies in_use(after.feeds@, endpoint) by {
                if endpoint != plan.source.id {
                    assert(self.captures@.contains_key(endpoint));
                    let route = choose|route: RouteId| #[trigger]
                        self.feeds@.contains_key(route) && self.feeds@[route] == endpoint;
                    assert(after.feeds@.contains_key(route));
                }
            }
            assert forall|endpoint: EndpointId| #[trigger]
                after.buses@.contains_key(endpoint) implies in_use(after.draws@, endpoint) by {
                if endpoint != plan.destination.id {
                    assert(self.buses@.contains_key(endpoint));
                    let route = choose|route: RouteId| #[trigger]
                        self.draws@.contains_key(route) && self.draws@[route] == endpoint;
                    assert(after.draws@.contains_key(route));
                }
            }
            assert forall|route: RouteId| #[trigger]
                after.feeds@.contains_key(route) implies after.captures@.contains_key(
                after.feeds@[route],
            ) by {
                if route != plan.route.id {
                    assert(self.feeds@.contains_key(route));
                }
            }
            assert forall|route: RouteId| #[trigger]
                after.draws@.contains_key(route) implies after.buses@.contains_key(
                after.draws@[route],
            ) by {
                if route != plan.route.id {
                    assert(self.draws@.contains_key(route));
                }
            }
        }
    }

    /// Sets the state of every route anew and reports those that changed.
    pub fn refresh_route_states(&mut self) -> (events: Vec<BackendEvent>)
        ensures
            events@ == state_updates(
                old(self).routes.entries(),
                old(self).captures@,
                old(self).buses@,
            ),
            final(self).routes.entries().len() == old(self).routes.entries().len(),
            forall|i: int|
                0 <= i < old(self).routes.entries().len() ==> (
                #[trigger] final(self).routes.entries()[i]) == (
                    old(self).routes.entries()[i].0,
                    old(self).routes.entries()[i].1.in_state(
                        joint_state(
                            state_or_connecting(
                                old(self).captures@,
                                old(self).routes.entries()[i].1.source,
                            ),
                            state_or_connecting(
                                old(self).buses@,
                                old(self).routes.entries()[i].1.destination,
                            ),
                        ),
                    ),
                ),
            final(self).captures == old(self).captures,
            final(self).buses == old(self).buses,
            final(self).feeds == old(self).feeds,
            final(self).draws == old(self).draws,
            old(self).wf() ==> final(self).wf(),
            old(self).steady() ==> final(self).steady(),
    {
        let ghost before = self.routes.entries();
        let mut events: Vec<BackendEvent> = Vec::new();
        let mut at: usize = 0;
        assert(before.take(0) =~= Seq::<(RouteId, AudioRoute)>::empty());
        while at < self.routes.len()
            invariant
                before == old(self).routes.entries(),
                at <= self.routes.entries().len() == before.len(),
                self.captures == old(self).captures,
                self.buses == old(self).buses,
                self.feeds == old(self).feeds,
                self.draws == old(self).draws,
                old(self).wf() ==> self.wf(),
                old(self).steady() ==> self.steady(),
                events@ == state_updates(before.take(at as int), self.captures@, self.buses@),
                forall|i: int|
                    0 <= i < at ==> (#[trigger] self.routes.entries()[i]) == (
                        before[i].0,
                        before[i].1.in_state(
                            joint_state(
                                state_or_connecting(self.captures@, before[i].1.source),
                                state_or_connecting(self.buses@, before[i].1.destination),
                            ),
                        ),
                    ),
                forall|i: int|
                    at <= i < before.len() ==> (#[trigger] self.routes.entries()[i]) == before[i],
            decreases before.len() - at,
        {
            let mut route = *self.routes.value_at(at);
            let state = self.route_state(&route);
            assert(before.take(at + 1).drop_last() =~= before.take(at as int));
            assert(before.take(at + 1).last() == before[at as int]);
            if state != route.state {
                route.state = state;
                self.routes.set_at(at, route);
                events.push(BackendEvent::RouteUpdated { route });
            }
            at = at + 1;
        }
        assert(before.take(at as int) =~= before);
        events
    }

    /// The routes that start or end at an endpoint, in order.
    pub fn routes_of(&self, endpoint: EndpointId, as_source: bool, as_destination: bool) -> (routes:
        Vec<AudioRoute>)
        ensures
            routes@ == routes_at(self.routes.entries(), endpoint, as_source, as_destination),
    {
        let ghost entries = self.routes.entries();
        let mut routes: Vec<AudioRoute> = Vec::new();
        let mut at: usize = 0;
        assert(entries.take(0) =~= Seq::<(RouteId, AudioRoute)>::empty());
        while at < self.routes.len()
            invariant
                entries == self.routes.entries(),
                at <= entries.len(),
                routes@ == routes_at(entries.take(at as int), endpoint, as_source, as_destination),
            decreases entries.len() - at,
        {
            let route = *self.routes.value_at(at);
            assert(entries.take(at + 1).drop_last() =~= entries.take(at as int));
            assert(entries.take(at + 1).last() == entries[at as int]);
            if (as_source && route.source == endpoint) || (as_destination && route.destination
                == endpoint) {
                routes.push(route);
            }
            at = at + 1;
        }
        assert(entries.take(at as int) =~= entries);
        routes
    }

    /// Every route, in order.
    pub fn all_routes(&self) -> (routes: Vec<AudioRoute>)
        ensures
            routes@.len() == self.routes.entries().len(),
            forall|i: int|
                0 <= i < routes@.len() ==> #[trigger] routes@[i] == self.routes.entries()[i].1,
    {
        let mut routes: Vec<AudioRoute> = Vec::new();
        let mut at: usize = 0;
        while at < self.routes.len()
            invariant
                at <= self.routes.entries().len(),
                routes@.len() == at,
                forall|i: int|
                    0 <= i < at ==> #[trigger] routes@[i] == self.routes.entries()[i].1,
            decreases self.routes.entries().len() - at,
        {
            routes.push(*self.routes.value_at(at));
            at = at + 1;
        }
        routes
    }

    /// The route between two endpoints.
    pub fn route_between(&self, source: EndpointId, destination: EndpointId) -> (found: Option<
        RouteId,
    >)
        ensures
            found == joins(self.routes.entries(), source, destination),
    {
        let mut at: usize = 0;
        while at < self.routes.len()
            invariant
                at <= self.routes.entries().len(),
                forall|i: int| 0 <= i < at ==> !joins_at(self.routes.entries(), source, destination, i),
            decreases self.routes.entries().len() - at,
        {
            let route = *self.routes.value_at(at);
            if route.source == source && route.destination == destination {
                proof {
                    let entries = self.routes.entries();
                    assert(joins_at(entries, source, destination, at as int));
                    assert(first_join(entries, source, destination, at as int));
                    let chosen = choose|k: int| first_join(entries, source, destination, k);
                    assert(chosen == at) by {
                        if chosen < at {
                            assert(!joins_at(entries, source, destination, chosen));
                        }
                        if at < chosen {
                            assert(!joins_at(entries, source, destination, at as int));
                        }
                    }
                }
                return Some(route.id);
            }
            at = at + 1;
        }
        None
    }

    proof fn lemma_unlink_keeps_steady(
        self,
        route_id: RouteId,
        after: Self,
        actions: Seq<StreamAction>,
    )
        requires
            self.steady(),
            self.unlinks(route_id, after, actions),
        ensures
            after.steady(),
            !after.feeds@.contains_key(route_id),
            !after.draws@.contains_key(route_id),
    {
        self.lemma_unlink_keeps_streams_used(route_id, after, actions);
        if self.feeds@.contains_key(route_id) {
            assert(self.captures@.contains_key(self.feeds@[route_id]));
        }
        if self.draws@.contains_key(route_id) {
            assert(self.buses@.contains_key(self.draws@[route_id]));
        }
        assert forall|route: RouteId| #[trigger] after.feeds@.contains_key(route) implies
            after.routes@.contains_key(route) by {
            assert(self.feeds@.contains_key(route));
        }
        assert forall|route: RouteId| #[trigger] after.draws@.contains_key(route) implies
            after.routes@.contains_key(route) by {
            assert(self.draws@.contains_key(route));
        }
    }

    /// A new route that is linked and noted keeps everything steady.
    pub proof fn lemma_new_link_keeps_steady(
        self,
        plan: LinkPlan,
        outcome: LinkOutcome,
        ended: Self,
        linked: Result<AudioRoute, AudioError>,
        actions: Seq<StreamAction>,
        after: Self,
    )
        requires
            self.steady(),
            self.admits(plan),
            self.link_ended(plan, outcome, ended, linked, actions),
            match linked {
                Ok(route) => {
                    &&& after == (Runtimes { routes: after.routes, ..ended })
                    &&& after.routes@ == self.routes@.insert(route.id, route)
                },
                Err(_) => after == ended,
            },
        ensures
            after.steady(),
    {
        if linked is Ok {
            assert(!self.feeds@.contains_key(plan.route.id));
            assert(!self.draws@.contains_key(plan.route.id));
            self.lemma_link_keeps_streams_used(plan, ended);
            assert(ended.wf());
            assert forall|route: RouteId| #[trigger] after.feeds@.contains_key(route) implies
                after.routes@.contains_key(route) by {
                if route != plan.route.id {
                    assert(self.feeds@.contains_key(route));
                }
            }
            assert forall|route: RouteId| #[trigger] after.draws@.contains_key(route) implies
                after.routes@.contains_key(route) by {
                if route != plan.route.id {
                    assert(self.draws@.contains_key(route));
                }
            }
            assert forall|route: RouteId| #[trigger] after.routes@.contains_key(route) implies {
                &&& after.feeds@.contains_key(route) ==> after.feeds@[route]
                    == after.routes@[route].source
                &&& after.draws@.contains_key(route) ==> after.draws@[route]
                    == after.routes@[route].destination
            } by {
                if route != plan.route.id {
                    assert(self.routes@.contains_key(route));
                }
            }
            assert forall|one: RouteId, other: RouteId| #[trigger]
                after.routes@.contains_key(one) && #[trigger] after.routes@.contains_key(other)
                    && after.routes@[one].source == after.routes@[other].source
                    && after.routes@[one].destination == after.routes@[other].destination implies one
                == other by {
                if one != plan.route.id {
                    assert(self.routes@.contains_key(one));
                }
                if other != plan.route.id {
                    assert(self.routes@.contains_key(other));
                }
            }
            assert(after.wf());
        } else {
            self.lemma_failed_link_keeps_steady(plan, outcome, ended, linked, actions);
        }
    }

    /// A link that failed leaves everything steady.
    pub proof fn lemma_failed_link_keeps_steady(
        self,
        plan: LinkPlan,
        outcome: LinkOutcome,
        ended: Self,
        linked: Result<AudioRoute, AudioError>,
        actions: Seq<StreamAction>,
    )
        requires
            self.steady(),
            self.link_ended(plan, outcome, ended, linked, actions),
            linked is Err,
        ensures
            ended.steady(),
    {
        match outcome {
            LinkOutcome::RingFailed { .. } | LinkOutcome::FeedRefused { .. } => {
                self.lemma_undone_link_leaves_streams(plan, ended, actions, false);
            },
            LinkOutcome::DrawRefused { .. } => {
                self.lemma_undone_link_leaves_streams(plan, ended, actions, true);
            },
            _ => {},
        }
    }

    /// A known route that is linked again keeps everything steady.
    pub proof fn lemma_relink_keeps_steady(
        self,
        plan: LinkPlan,
        outcome: LinkOutcome,
        ended: Self,
        linked: Result<AudioRoute, AudioError>,
        actions: Seq<StreamAction>,
    )
        requires
            self.steady(),
            self.readmits(plan),
            self.link_ended(plan, outcome, ended, linked, actions),
        ensures
            ended.steady(),
    {
        if linked is Ok {
            self.lemma_link_keeps_streams_used(plan, ended);
            assert forall|route: RouteId| #[trigger] ended.feeds@.contains_key(route) implies
                ended.routes@.contains_key(route) by {
                if route != plan.route.id {
                    assert(self.feeds@.contains_key(route));
                }
            }
            assert forall|route: RouteId| #[trigger] ended.draws@.contains_key(route) implies
                ended.routes@.contains_key(route) by {
                if route != plan.route.id {
                    assert(self.draws@.contains_key(route));
                }
            }
        } else {
            self.lemma_failed_link_keeps_steady(plan, outcome, ended, linked, actions);
        }
    }

    proof fn lemma_unlink_keeps_streams_used(
        self,
        route_id: RouteId,
        after: Self,
        actions: Seq<StreamAction>,
    )
        requires
            self.wf(),
            self.unlinks(route_id, after, actions),
        ensures
            after.wf(),
    {
        if self.routes@.contains_key(route_id) {
            let route = self.routes@[route_id];
            assert forall|endpoint: EndpointId| #[trigger]
                after.captures@.contains_key(endpoint) implies in_use(after.feeds@, endpoint) by {
                lemma_link_stays_in_use(self.feeds@, after.feeds@, route_id, endpoint);
            }
            assert forall|endpoint: EndpointId| #[trigger]
                after.buses@.contains_key(endpoint) implies in_use(after.draws@, endpoint) by {
                lemma_link_stays_in_use(self.draws@, after.draws@, route_id, endpoint);
            }
            assert forall|other: RouteId| #[trigger]
                after.feeds@.contains_key(other) implies after.captures@.contains_key(
                after.feeds@[other],
            ) by {
                assert(self.feeds@.contains_key(other));
            }
            assert forall|other: RouteId| #[trigger]
                after.draws@.contains_key(other) implies after.buses@.contains_key(
                after.draws@[other],
            ) by {
                assert(self.draws@.contains_key(other));
            }
        }
    }
}

proof fn lemma_link_stays_in_use(
    before: Map<RouteId, EndpointId>,
    after: Map<RouteId, EndpointId>,
    gone: RouteId,
    endpoint: EndpointId,
)
    requires
        after == before || after == before.remove(gone),
        before.contains_key(gone) ==> before[gone] != endpoint || in_use(after, endpoint),
    ensures
        in_use(before, endpoint) ==> in_use(after, endpoint),
{
    if in_use(before, endpoint) {
        let route = choose|route: RouteId| #[trigger]
            before.contains_key(route) && before[route] == endpoint;
        if route != gone {
            assert(after.contains_key(route));
        }
    }
}

/// A route is active exactly where both its streams are connected. It has
/// failed where either has, is disconnected where either is and none has
/// failed, and is connecting otherwise; the capture stream is that of its
/// source, the playback stream that of its destination.
pub proof fn law_a_route_is_as_good_as_its_streams(
    captures: Map<EndpointId, StreamState>,
    buses: Map<EndpointId, StreamState>,
    route: AudioRoute,
)
    ensures
        ({
            let state = joint_state(
                state_or_connecting(captures, route.source),
                state_or_connecting(buses, route.destination),
            );
            let failed = (captures.contains_key(route.source) && captures[route.source]
                == StreamState::Failed) || (buses.contains_key(route.destination)
                && buses[route.destination] == StreamState::Failed);
            let ended = (captures.contains_key(route.source) && captures[route.source]
                == StreamState::Disconnected) || (buses.contains_key(route.destination)
                && buses[route.destination] == StreamState::Disconnected);
            &&& state == RouteState::Active <==> {
                &&& captures.contains_key(route.source)
                &&& captures[route.source] == StreamState::Connected
                &&& buses.contains_key(route.destination)
                &&& buses[route.destination] == StreamState::Connected
            }
            &&& state == RouteState::Failed <==> failed
            &&& state == RouteState::Disconnected <==> ended && !failed
            &&& state != RouteState::Disconnecting
        }),
{
}

/// Exactly the routes whose state is another one are told of, each with its
/// new state, in the order of the routes.
pub proof fn law_changed_states_are_told_of(
    entries: Seq<(RouteId, AudioRoute)>,
    captures: Map<EndpointId, StreamState>,
    buses: Map<EndpointId, StreamState>,
)
    ensures
        state_updates(entries, captures, buses) == entries.filter(
            |entry: (RouteId, AudioRoute)|
                entry.1.state != joint_state(
                    state_or_connecting(captures, entry.1.source),
                    state_or_connecting(buses, entry.1.destination),
                ),
        ).map_values(
            |entry: (RouteId, AudioRoute)|
                BackendEvent::RouteUpdated {
                    route: AudioRoute {
                        state: joint_state(
                            state_or_connecting(captures, entry.1.source),
                            state_or_connecting(buses, entry.1.destination),
                        ),
                        ..entry.1
                    },
                },
        ),
    decreases entries.len(),
{
    reveal(Seq::filter);
    let changed = |entry: (RouteId, AudioRoute)|
        entry.1.state != joint_state(
            state_or_connecting(captures, entry.1.source),
            state_or_connecting(buses, entry.1.destination),
        );
    let told = |entry: (RouteId, AudioRoute)|
        BackendEvent::RouteUpdated {
            route: AudioRoute {
                state: joint_state(
                    state_or_connecting(captures, entry.1.source),
                    state_or_connecting(buses, entry.1.destination),
                ),
                ..entry.1
            },
        };
    if entries.len() > 0 {
        law_changed_states_are_told_of(entries.drop_last(), captures, buses);
        let rest = entries.drop_last().filter(changed);
        if changed(entries.last()) {
            assert(entries.filter(changed) == rest.push(entries.last()));
            assert(rest.push(entries.last()).map_values(told) =~= rest.map_values(told).push(
                told(entries.last()),
            ));
        } else {
            assert(entries.filter(changed) == rest);
        }
    }
    assert(state_updates(entries, captures, buses) =~= entries.filter(changed).map_values(told));
}

/// The routes at an endpoint are all that start there and all that end there,
/// as far as either is asked for, in the order of the routes, and no others.
pub proof fn law_routes_at_an_endpoint(
    entries: Seq<(RouteId, AudioRoute)>,
    endpoint: EndpointId,
    as_source: bool,
    as_destination: bool,
)
    ensures
        routes_at(entries, endpoint, as_source, as_destination) == entries.filter(
            |entry: (RouteId, AudioRoute)|
                (as_source && entry.1.source == endpoint) || (as_destination && entry.1.destination
                    == endpoint),
        ).map_values(|entry: (RouteId, AudioRoute)| entry.1),
    decreases entries.len(),
{
    reveal(Seq::filter);
    let meant = |entry: (RouteId, AudioRoute)|
        (as_source && entry.1.source == endpoint) || (as_destination && entry.1.destination
            == endpoint);
    let route = |entry: (RouteId, AudioRoute)| entry.1;
    if entries.len() > 0 {
        law_routes_at_an_endpoint(entries.drop_last(), endpoint, as_source, as_destination);
        let rest = entries.drop_last().filter(meant);
        if meant(entries.last()) {
            assert(entries.filter(meant) == rest.push(entries.last()));
            assert(rest.push(entries.last()).map_values(route) =~= rest.map_values(route).push(
                entries.last().1,
            ));
        } else {
            assert(entries.filter(meant) == rest);
        }
    }
    assert(routes_at(entries, endpoint, as_source, as_destination) =~= entries.filter(
        meant,
    ).map_values(route));
}

/// Two endpoints are joined exactly where some route leads from the one to the
/// other, and it is the first such route that is found.
pub proof fn law_joined_endpoints_are_found(
    entries: Seq<(RouteId, AudioRoute)>,
    source: EndpointId,
    destination: EndpointId,
    at: int,
)
    requires
        0 <= at < entries.len(),
    ensures
        entries[at].1.source == source && entries[at].1.destination == destination ==> joins(
            entries,
            source,
            destination,
        ) is Some,
        entries[at].1.source == source && entries[at].1.destination == destination && (forall|
            i: int,
        |
            0 <= i < at ==> (#[trigger] entries[i]).1.source != source || entries[i].1.destination
                != destination) ==> joins(entries, source, destination) == Some(entries[at].1.id),
        (forall|i: int|
            0 <= i < entries.len() ==> (#[trigger] entries[i]).1.source != source
                || entries[i].1.destination != destination) ==> joins(
            entries,
            source,
            destination,
        ) is None,
{
    if entries[at].1.source == source && entries[at].1.destination == destination {
        lemma_first_join(entries, source, destination, at);
        let chosen = choose|k: int| first_join(entries, source, destination, k);
        if forall|i: int|
            0 <= i < at ==> (#[trigger] entries[i]).1.source != source || entries[i].1.destination
                != destination {
            assert(joins_at(entries, source, destination, at));
            assert(chosen == at) by {
                if at < chosen {
                    assert(!joins_at(entries, source, destination, at));
                }
                if chosen < at {
                    assert(entries[chosen].1.source != source || entries[chosen].1.destination
                        != destination);
                }
            }
        }
    }
    if joins(entries, source, destination) is Some {
        let chosen = choose|k: int| first_join(entries, source, destination, k);
        assert(joins_at(entries, source, destination, chosen));
        assert(entries[chosen].1.source == source);
    }
}

/// Routes that were removed are reported one by one, each under its own
/// identifier.
pub proof fn law_removals_name_their_routes(routes: Seq<RouteId>, at: int)
    requires
        0 <= at < routes.len(),
    ensures
        removals(routes).len() == routes.len(),
        removals(routes)[at] is RouteRemoved,
        removals(routes)[at]->route_id == routes[at],
{
}

/// A route that is taken out leaves the links of all others as they were. Its
/// capture stream is closed exactly where no other route takes its audio from
/// there, its playback stream exactly where no other plays into it; the other
/// streams stay as they are.
pub proof fn law_a_stream_closes_with_its_last_route(
    before: Runtimes,
    route_id: RouteId,
    forget: bool,
    after: Runtimes,
    actions: Seq<StreamAction>,
    other: RouteId,
    stream: EndpointId,
)
    requires
        before.steady(),
        before.takes_out(route_id, forget, after, actions),
        before.routes@.contains_key(route_id),
        other != route_id,
    ensures
        ({
            let source = before.routes@[route_id].source;
            let destination = before.routes@[route_id].destination;
            let fed = exists|id: RouteId|
                id != route_id && #[trigger] before.feeds@.contains_key(id) && before.feeds@[id]
                    == source;
            let drawn = exists|id: RouteId|
                id != route_id && #[trigger] before.draws@.contains_key(id) && before.draws@[id]
                    == destination;
            &&& after.routes@.contains_key(route_id) <==> !forget
            &&& after.routes@.contains_key(other) == before.routes@.contains_key(other)
            &&& before.routes@.contains_key(other) ==> after.routes@[other] == before.routes@[other]
            &&& !after.feeds@.contains_key(route_id) && !after.draws@.contains_key(route_id)
            &&& after.feeds@.contains_key(other) == before.feeds@.contains_key(other)
            &&& before.feeds@.contains_key(other) ==> after.feeds@[other] == before.feeds@[other]
            &&& after.draws@.contains_key(other) == before.draws@.contains_key(other)
            &&& before.draws@.contains_key(other) ==> after.draws@[other] == before.draws@[other]
            &&& stream != source ==> after.captures@.contains_key(stream)
                == before.captures@.contains_key(stream)
            &&& stream != destination ==> after.buses@.contains_key(stream)
                == before.buses@.contains_key(stream)
            &&& after.captures@.contains_key(stream) ==> after.captures@[stream]
                == before.captures@[stream]
            &&& after.buses@.contains_key(stream) ==> after.buses@[stream] == before.buses@[stream]
            &&& before.captures@.contains_key(source) ==> {
                &&& after.captures@.contains_key(source) <==> fed
                &&& actions.contains(StreamAction::DetachFeed { route: route_id, endpoint: source })
                &&& actions.contains(StreamAction::CloseCapture { endpoint: source }) <==> !fed
            }
            &&& before.buses@.contains_key(destination) ==> {
                &&& after.buses@.contains_key(destination) <==> drawn
                &&& actions.contains(
                    StreamAction::DetachDraw { route: route_id, endpoint: destination },
                )
                &&& actions.contains(StreamAction::CloseBus { endpoint: destination }) <==> !drawn
            }
        }),
{
    let ended = if forget {
        Runtimes { routes: before.routes, ..after }
    } else {
        after
    };
    let route = before.routes@[route_id];
    before.lemma_unlink_keeps_steady(route_id, ended, actions);
    let fed = exists|id: RouteId|
        id != route_id && #[trigger] before.feeds@.contains_key(id) && before.feeds@[id]
            == route.source;
    if fed {
        let id = choose|id: RouteId|
            id != route_id && #[trigger] before.feeds@.contains_key(id) && before.feeds@[id]
                == route.source;
        assert(ended.feeds@.contains_key(id));
        assert(in_use(ended.feeds@, route.source));
    } else if in_use(ended.feeds@, route.source) {
        let id = choose|id: RouteId| #[trigger]
            ended.feeds@.contains_key(id) && ended.feeds@[id] == route.source;
        assert(before.feeds@.contains_key(id) && id != route_id);
    }
    let drawn = exists|id: RouteId|
        id != route_id && #[trigger] before.draws@.contains_key(id) && before.draws@[id]
            == route.destination;
    if drawn {
        let id = choose|id: RouteId|
            id != route_id && #[trigger] before.draws@.contains_key(id) && before.draws@[id]
                == route.destination;
        assert(ended.draws@.contains_key(id));
        assert(in_use(ended.draws@, route.destination));
    } else if in_use(ended.draws@, route.destination) {
        let id = choose|id: RouteId| #[trigger]
            ended.draws@.contains_key(id) && ended.draws@[id] == route.destination;
        assert(before.draws@.contains_key(id) && id != route_id);
    }
    lemma_actions_hold(
        before.captures@.contains_key(route.source),
        StreamAction::DetachFeed { route: route_id, endpoint: route.source },
        before.buses@.contains_key(route.destination),
        StreamAction::DetachDraw { route: route_id, endpoint: route.destination },
        orphaned(before.captures@, ended.feeds@, route.source),
        StreamAction::CloseCapture { endpoint: route.source },
        orphaned(before.buses@, ended.draws@, route.destination),
        StreamAction::CloseBus { endpoint: route.destination },
    );
}

proof fn lemma_actions_hold(
    first: bool,
    one: StreamAction,
    second: bool,
    two: StreamAction,
    third: bool,
    three: StreamAction,
    fourth: bool,
    four: StreamAction,
)
    requires
        one is DetachFeed,
        two is DetachDraw,
        three is CloseCapture,
        four is CloseBus,
    ensures
        ({
            let all = only_if(first, one) + only_if(second, two) + only_if(third, three) + only_if(
                fourth,
                four,
            );
            &&& all.contains(one) <==> first
            &&& all.contains(two) <==> second
            &&& all.contains(three) <==> third
            &&& all.contains(four) <==> fourth
        }),
{
    let a = only_if(first, one);
    let b = only_if(second, two);
    let c = only_if(third, three);
    let d = only_if(fourth, four);
    let all = a + b + c + d;
    if first {
        assert(all[0] == one);
    }
    if second {
        assert(all[a.len() as int] == two);
    }
    if third {
        assert(all[(a.len() + b.len()) as int] == three);
    }
    if fourth {
        assert(all[(a.len() + b.len() + c.len()) as int] == four);
    }
}

/// Routes that are taken out together go, all of them, and no other does.
pub proof fn law_routes_taken_out_are_gone(
    before: Runtimes,
    routes: Seq<RouteId>,
    after: Runtimes,
    actions: Seq<StreamAction>,
    id: RouteId,
)
    requires
        before.takes_out_all(routes, true, after, actions),
    ensures
        after.routes@.contains_key(id) <==> before.routes@.contains_key(id) && !routes.contains(id),
        after.routes@.contains_key(id) ==> after.routes@[id] == before.routes@[id],
    decreases routes.len(),
{
    if routes.len() > 0 {
        let (middle, last) = choose|middle: Runtimes, last: Seq<StreamAction>|
            {
                let first = actions.take(actions.len() - last.len());
                &&& #[trigger] middle.takes_out(routes.last(), true, after, last)
                &&& last.len() <= actions.len()
                &&& actions =~= first + last
                &&& before.takes_out_all(routes.drop_last(), true, middle, first)
            };
        let first = actions.take(actions.len() - last.len());
        law_routes_taken_out_are_gone(before, routes.drop_last(), middle, first, id);
        assert(routes.contains(id) <==> routes.drop_last().contains(id) || routes.last() == id) by {
            if routes.contains(id) {
                let i = choose|i: int| 0 <= i < routes.len() && routes[i] == id;
                if i < routes.len() - 1 {
                    assert(routes.drop_last()[i] == id);
                }
            }
            if routes.drop_last().contains(id) {
                let i = choose|i: int|
                    0 <= i < routes.drop_last().len() && routes.drop_last()[i] == id;
                assert(routes[i] == id);
            }
            if routes.last() == id {
                assert(routes[routes.len() - 1] == id);
            }
        }
    }
}

/// A route that was linked takes its audio from the capture stream of its
/// source and plays into that of its destination. A stream that was open keeps
/// its state, one that was not starts connecting, and the other routes and
/// streams are untouched.
pub proof fn law_a_link_joins_the_streams_of_its_ends(
    before: Runtimes,
    plan: LinkPlan,
    after: Runtimes,
    result: Result<AudioRoute, AudioError>,
    actions: Seq<StreamAction>,
    other: RouteId,
    stream: EndpointId,
)
    requires
        before.link_ended(plan, LinkOutcome::Linked, after, result, actions),
        other != plan.route.id,
    ensures
        result == Ok::<AudioRoute, AudioError>(plan.route),
        actions.len() == 0,
        after.routes == before.routes,
        after.feeds@.contains_key(plan.route.id),
        after.feeds@[plan.route.id] == plan.source.id,
        after.draws@.contains_key(plan.route.id),
        after.draws@[plan.route.id] == plan.destination.id,
        after.feeds@.contains_key(other) == before.feeds@.contains_key(other),
        before.feeds@.contains_key(other) ==> after.feeds@[other] == before.feeds@[other],
        after.draws@.contains_key(other) == before.draws@.contains_key(other),
        before.draws@.contains_key(other) ==> after.draws@[other] == before.draws@[other],
        after.captures@.contains_key(stream) <==> before.captures@.contains_key(stream) || stream
            == plan.source.id,
        after.buses@.contains_key(stream) <==> before.buses@.contains_key(stream) || stream
            == plan.destination.id,
        before.captures@.contains_key(stream) ==> after.captures@[stream]
            == before.captures@[stream],
        before.buses@.contains_key(stream) ==> after.buses@[stream] == before.buses@[stream],
        !before.captures@.contains_key(plan.source.id) ==> after.captures@[plan.source.id]
            == StreamState::Connecting,
        !before.buses@.contains_key(plan.destination.id) ==> after.buses@[plan.destination.id]
            == StreamState::Connecting,
{
}

/// A link that failed is told with its own reason and leaves every stream and
/// every link as it was. What was opened for it is closed: the capture stream
/// where only the playback stream failed to open, and both where the link
/// failed later; what was open before stays open.
pub proof fn law_a_failed_link_is_undone(
    before: Runtimes,
    plan: LinkPlan,
    outcome: LinkOutcome,
    after: Runtimes,
    result: Result<AudioRoute, AudioError>,
    actions: Seq<StreamAction>,
)
    requires
        before.steady(),
        before.link_ended(plan, outcome, after, result, actions),
        !(outcome is Linked),
        plan.open_capture == !before.captures@.contains_key(plan.source.id),
        plan.open_bus == !before.buses@.contains_key(plan.destination.id),
    ensures
        result is Err,
        after.captures@ == before.captures@,
        after.buses@ == before.buses@,
        after.feeds == before.feeds,
        after.draws == before.draws,
        after.routes == before.routes,
        outcome matches LinkOutcome::CaptureFailed { error } ==> {
            result->Err_0 == error && actions.len() == 0
        },
        outcome matches LinkOutcome::BusFailed { error } ==> {
            &&& result->Err_0 == error
            &&& actions.contains(StreamAction::CloseCapture { endpoint: plan.source.id })
                <==> !before.captures@.contains_key(plan.source.id)
            &&& !actions.contains(StreamAction::CloseBus { endpoint: plan.destination.id })
        },
        outcome matches LinkOutcome::FeedRefused { error } ==> result->Err_0 == error,
        outcome matches LinkOutcome::DrawRefused { error } ==> {
            &&& result->Err_0 == error
            &&& actions.contains(
                StreamAction::DetachFeed { route: plan.route.id, endpoint: plan.source.id },
            )
        },
        outcome is RingFailed ==> {
            &&& result->Err_0.code == ErrorCode::InvalidRoute
            &&& result->Err_0.user_message@
                == "Orion could not start realtime processing for that connection."@
        },
        outcome is RingFailed || outcome is FeedRefused || outcome is DrawRefused ==> {
            &&& actions.contains(StreamAction::CloseCapture { endpoint: plan.source.id })
                <==> !before.captures@.contains_key(plan.source.id)
            &&& actions.contains(StreamAction::CloseBus { endpoint: plan.destination.id })
                <==> !before.buses@.contains_key(plan.destination.id)
        },
{
    before.lemma_failed_link_keeps_steady(plan, outcome, after, result, actions);
    if outcome is RingFailed || outcome is FeedRefused || outcome is DrawRefused {
        let detach = outcome is DrawRefused;
        before.lemma_undone_link_leaves_streams(plan, after, actions, detach);
        let captures = Runtimes::opened(before.captures@, plan.source.id);
        let buses = Runtimes::opened(before.buses@, plan.destination.id);
        let nothing = StreamAction::DetachDraw {
            route: plan.route.id,
            endpoint: plan.destination.id,
        };
        lemma_actions_hold(
            detach,
            StreamAction::DetachFeed { route: plan.route.id, endpoint: plan.source.id },
            false,
            nothing,
            orphaned(captures, before.feeds@, plan.source.id),
            StreamAction::CloseCapture { endpoint: plan.source.id },
            orphaned(buses, before.draws@, plan.destination.id),
            StreamAction::CloseBus { endpoint: plan.destination.id },
        );
        assert(only_if(
            detach,
            StreamAction::DetachFeed { route: plan.route.id, endpoint: plan.source.id },
        ) + only_if(false, nothing) =~= only_if(
            detach,
            StreamAction::DetachFeed { route: plan.route.id, endpoint: plan.source.id },
        ));
        if !before.captures@.contains_key(plan.source.id) && in_use(
            before.feeds@,
            plan.source.id,
        ) {
            let id = choose|id: RouteId| #[trigger]
                before.feeds@.contains_key(id) && before.feeds@[id] == plan.source.id;
            assert(before.captures@.contains_key(before.feeds@[id]));
        }
        if !before.buses@.contains_key(plan.destination.id) && in_use(
            before.draws@,
            plan.destination.id,
        ) {
            let id = choose|id: RouteId| #[trigger]
                before.draws@.contains_key(id) && before.draws@[id] == plan.destination.id;
            assert(before.buses@.contains_key(before.draws@[id]));
        }
    }
    if outcome is BusFailed && plan.open_capture {
        assert(actions[0] == (StreamAction::CloseCapture { endpoint: plan.source.id }));
    }
}

/// When everything is closed, each open stream is, each once, as what it is.
pub proof fn law_every_open_stream_is_closed(runtimes: Runtimes, at: int)
    ensures
        ({
            let closed = runtimes.closings();
            let captures = runtimes.captures.entries();
            let buses = runtimes.buses.entries();
            &&& closed.len() == captures.len() + buses.len()
            &&& 0 <= at < captures.len() ==> closed[at] == (StreamAction::CloseCapture {
                endpoint: captures[at].0,
            })
            &&& 0 <= at < buses.len() ==> closed[captures.len() + at] == (StreamAction::CloseBus {
                endpoint: buses[at].0,
            })
        }),
{
}

/// A stream stays open as long as a route uses it and is closed with the last one;
/// one that was not there before is opened as connecting, and one that was keeps
/// its state.
pub proof fn law_streams_are_open_while_they_are_used(
    streams: Map<EndpointId, StreamState>,
    links: Map<RouteId, EndpointId>,
    route: RouteId,
    endpoint: EndpointId,
    other: EndpointId,
    action: StreamAction,
)
    ensures
        links.contains_key(route) && links[route] == endpoint ==> without_orphan(
            streams,
            links,
            endpoint,
        ) == streams && !orphaned(streams, links, endpoint),
        (forall|id: RouteId| links.contains_key(id) ==> #[trigger] links[id] != endpoint) ==> {
            &&& without_orphan(streams, links, endpoint) == streams.remove(endpoint)
            &&& orphaned(streams, links, endpoint) <==> streams.contains_key(endpoint)
        },
        Runtimes::opened(streams, endpoint).contains_key(endpoint),
        !streams.contains_key(endpoint) ==> Runtimes::opened(streams, endpoint)[endpoint]
            == StreamState::Connecting,
        streams.contains_key(endpoint) ==> Runtimes::opened(streams, endpoint) == streams,
        other != endpoint ==> Runtimes::opened(streams, endpoint).contains_key(other)
            == streams.contains_key(other),
        streams.contains_key(other) ==> Runtimes::opened(streams, endpoint)[other]
            == streams[other],
        streams.contains_key(endpoint) ==> Runtimes::unlinked(links, streams, route, endpoint)
            == links.remove(route),
        !streams.contains_key(endpoint) ==> Runtimes::unlinked(links, streams, route, endpoint)
            == links,
        only_if(true, action) == seq![action],
        only_if(false, action).len() == 0,
{
}

} // verus!
