//! The audio graph: which endpoints there are and which of them are connected.
use vstd::prelude::*;

use super::endpoint::{AudioEndpoint, EndpointState, EndpointType};
use super::endpoint;
use super::error::{AudioError, ErrorCode, ErrorModel, ErrorSeverity};
use super::ids::{EndpointId, RouteId};
use super::ids;
use super::route::{AudioRoute, RouteState};
use crate::table::Table;
use crate::text::{joined, joined3};

verus! {

#[derive(Debug)]
pub struct AudioGraph {
    pub endpoints: Table<EndpointId, AudioEndpoint>,
    pub routes: Table<RouteId, AudioRoute>,
}

/// What an error of the graph says.
pub open spec fn graph_fault(
    code: ErrorCode,
    user_message: Seq<char>,
    technical_message: Seq<char>,
) -> ErrorModel {
    ErrorModel {
        code,
        severity: ErrorSeverity::Error,
        retryable: false,
        user_message,
        technical_message,
    }
}

fn graph_error(code: ErrorCode, user_message: &str, technical_message: &str) -> (error: AudioError)
    ensures
        error@ == graph_fault(code, user_message@, technical_message@),
{
    AudioError::new(code, ErrorSeverity::Error, false, user_message, technical_message)
}

/// Why a route cannot stand between these endpoints, if it cannot.
pub open spec fn route_fault(
    endpoints: Map<EndpointId, AudioEndpoint>,
    route: AudioRoute,
) -> Option<ErrorModel> {
    if route.source == route.destination {
        Some(
            graph_fault(
                ErrorCode::InvalidRoute,
                "A device cannot be connected to itself."@,
                "route "@ + ids::hyphenated(route.id.value) + " connects an endpoint to itself"@,
            ),
        )
    } else if !endpoints.contains_key(route.source) {
        Some(
            graph_fault(
                ErrorCode::EndpointNotFound,
                "The connection source is unavailable."@,
                "route "@ + ids::hyphenated(route.id.value) + " source "@ + ids::hyphenated(
                    route.source.value,
                ) + " not found"@,
            ),
        )
    } else if !endpoints.contains_key(route.destination) {
        Some(
            graph_fault(
                ErrorCode::EndpointNotFound,
                "The connection destination is unavailable."@,
                "route "@ + ids::hyphenated(route.id.value) + " destination "@ + ids::hyphenated(
                    route.destination.value,
                ) + " not found"@,
            ),
        )
    } else if !endpoint::sources_audio(endpoints[route.source].endpoint_type) || !endpoint::receives_audio(
        endpoints[route.destination].endpoint_type,
    ) {
        Some(
            graph_fault(
                ErrorCode::InvalidRoute,
                "Those devices cannot be connected."@,
                "invalid direction from "@ + endpoint::kind_name(endpoints[route.source].endpoint_type)
                    + " to "@ + endpoint::kind_name(endpoints[route.destination].endpoint_type),
            ),
        )
    } else {
        None
    }
}

/// Whether a route other than `except` connects `source` to `destination`.
pub open spec fn pair_taken(
    routes: Map<RouteId, AudioRoute>,
    source: EndpointId,
    destination: EndpointId,
    except: Option<RouteId>,
) -> bool {
    exists|id: RouteId| #[trigger]
        routes.contains_key(id) && routes[id].source == source && routes[id].destination
            == destination && Some(routes[id].id) != except
}

/// What is said of a second route between the same endpoints.
pub open spec fn pair_fault(source: EndpointId, destination: EndpointId) -> ErrorModel {
    graph_fault(
        ErrorCode::DuplicateRoute,
        "Those devices are already connected."@,
        "duplicate route from "@ + ids::hyphenated(source.value) + " to "@ + ids::hyphenated(
            destination.value,
        ),
    )
}

/// Why the graph refuses a new route, if it does.
pub open spec fn add_fault(graph: AudioGraph, route: AudioRoute) -> Option<ErrorModel> {
    if graph.routes@.contains_key(route.id) {
        Some(
            graph_fault(
                ErrorCode::DuplicateRoute,
                "That connection already exists."@,
                "duplicate route "@ + ids::hyphenated(route.id.value),
            ),
        )
    } else if route_fault(graph.endpoints@, route) is Some {
        route_fault(graph.endpoints@, route)
    } else if pair_taken(graph.routes@, route.source, route.destination, None) {
        Some(pair_fault(route.source, route.destination))
    } else {
        None
    }
}

/// Why the graph refuses to add or replace a route, if it does.
pub open spec fn upsert_fault(graph: AudioGraph, route: AudioRoute) -> Option<ErrorModel> {
    if route_fault(graph.endpoints@, route) is Some {
        route_fault(graph.endpoints@, route)
    } else if pair_taken(graph.routes@, route.source, route.destination, Some(route.id)) {
        Some(pair_fault(route.source, route.destination))
    } else {
        None
    }
}

/// The route after an endpoint went away.
pub open spec fn route_after_disconnect(route: AudioRoute, endpoint: EndpointId) -> AudioRoute {
    if route.touches(endpoint) {
        route.in_state(RouteState::Disconnected)
    } else {
        route
    }
}

/// The routes that neither start nor end at an endpoint.
pub open spec fn routes_apart_from(
    routes: Map<RouteId, AudioRoute>,
    endpoint: EndpointId,
) -> Map<RouteId, AudioRoute> {
    Map::new(
        |id: RouteId| routes.contains_key(id) && !routes[id].touches(endpoint),
        |id: RouteId| routes[id],
    )
}

impl Default for AudioGraph {
    fn default() -> (graph: Self)
        ensures
            graph.endpoints@ == Map::<EndpointId, AudioEndpoint>::empty(),
            graph.routes@ == Map::<RouteId, AudioRoute>::empty(),
            graph.wf(),
    {
        AudioGraph { endpoints: Table::new(), routes: Table::new() }
    }
}

impl Clone for AudioGraph {
    fn clone(&self) -> (copy: Self)
        ensures
            copy.endpoints@ == self.endpoints@,
            copy.routes@ == self.routes@,
            copy.endpoints.entries() == self.endpoints.entries(),
            copy.routes.entries() == self.routes.entries(),
    {
        let copy = AudioGraph { endpoints: self.endpoints.clone(), routes: self.routes.clone() };
        proof {
            assert forall|i: int| 0 <= i < self.endpoints.entries().len() implies (
            #[trigger] copy.endpoints.entries()[i]) == self.endpoints.entries()[i] by {
                assert(cloned::<AudioEndpoint>(
                    self.endpoints.entries()[i].1,
                    copy.endpoints.entries()[i].1,
                ));
            }
            assert forall|i: int| 0 <= i < self.routes.entries().len() implies (
            #[trigger] copy.routes.entries()[i]) == self.routes.entries()[i] by {
                assert(cloned::<AudioRoute>(
                    self.routes.entries()[i].1,
                    copy.routes.entries()[i].1,
                ));
            }
            assert(copy.endpoints.entries() =~= self.endpoints.entries());
            assert(copy.routes.entries() =~= self.routes.entries());
        }
        copy
    }
}

impl AudioGraph {
    /// Every entry stands under its own identifier, every route joins two
    /// different endpoints of the graph, and no two routes join the same two.
    pub open spec fn wf(self) -> bool {
        &&& forall|id: EndpointId| #[trigger]
            self.endpoints@.contains_key(id) ==> self.endpoints@[id].id == id
        &&& forall|id: RouteId| #[trigger]
            self.routes@.contains_key(id) ==> {
                &&& self.routes@[id].id == id
                &&& self.routes@[id].source != self.routes@[id].destination
                &&& self.endpoints@.contains_key(self.routes@[id].source)
                &&& self.endpoints@.contains_key(self.routes@[id].destination)
            }
        &&& forall|a: RouteId, b: RouteId|
            #![trigger self.routes@.contains_key(a), self.routes@.contains_key(b)]
            self.routes@.contains_key(a) && self.routes@.contains_key(b) && self.routes@[a].source
                == self.routes@[b].source && self.routes@[a].destination
                == self.routes@[b].destination ==> a == b
    }

    pub fn add_endpoint(&mut self, endpoint: AudioEndpoint) -> (result: Result<(), AudioError>)
        ensures
            match result {
                Ok(()) => {
                    &&& !old(self).endpoints@.contains_key(endpoint.id)
                    &&& final(self).endpoints@ == old(self).endpoints@.insert(endpoint.id, endpoint)
                    &&& final(self).routes == old(self).routes
                },
                Err(error) => {
                    &&& old(self).endpoints@.contains_key(endpoint.id)
                    &&& error@ == graph_fault(
                        ErrorCode::DuplicateEndpoint,
                        "That device is already present."@,
                        "duplicate endpoint "@ + ids::hyphenated(endpoint.id.value),
                    )
                    &&& *final(self) == *old(self)
                },
            },
            old(self).wf() ==> final(self).wf(),
    {
        if self.endpoints.contains_key(&endpoint.id) {
            let id_text = endpoint.id.to_text();
            return Err(
                graph_error(
                    ErrorCode::DuplicateEndpoint,
                    "That device is already present.",
                    joined("duplicate endpoint ", id_text.as_str()).as_str(),
                ),
            );
        }
        self.endpoints.insert(endpoint.id, endpoint);
        Ok(())
    }

    pub fn upsert_endpoint(&mut self, endpoint: AudioEndpoint)
        ensures
            final(self).endpoints@ == old(self).endpoints@.insert(endpoint.id, endpoint),
            final(self).routes == old(self).routes,
            old(self).wf() ==> final(self).wf(),
    {
        self.endpoints.insert(endpoint.id, endpoint);
    }

    fn is_pair_taken(
        &self,
        source: EndpointId,
        destination: EndpointId,
        except: Option<RouteId>,
    ) -> (taken: bool)
        ensures
            taken == pair_taken(self.routes@, source, destination, except),
    {
        self.routes.show_entries();
        let mut at: usize = 0;
        while at < self.routes.len()
            invariant
                at <= self.routes.entries().len(),
                forall|i: int|
                    0 <= i < at ==> {
                        let route = (#[trigger] self.routes.entries()[i]).1;
                        !(route.source == source && route.destination == destination && Some(
                            route.id,
                        ) != except)
                    },
                forall|i: int|
                    0 <= i < self.routes.entries().len() ==> {
                        &&& self.routes@.contains_key((#[trigger] self.routes.entries()[i]).0)
                        &&& self.routes@[self.routes.entries()[i].0] == self.routes.entries()[i].1
                    },
                forall|key: RouteId| #[trigger]
                    self.routes@.contains_key(key) ==> crate::table::holds_key(
                        self.routes.entries(),
                        key,
                    ),
            decreases self.routes.entries().len() - at,
        {
            let route = *self.routes.value_at(at);
            let spared = match except {
                Some(id) => route.id == id,
                None => false,
            };
            if route.source == source && route.destination == destination && !spared {
                assert(self.routes@.contains_key(self.routes.entries()[at as int].0));
                return true;
            }
            at = at + 1;
        }
        proof {
            if pair_taken(self.routes@, source, destination, except) {
                let id = choose|id: RouteId| #[trigger]
                    self.routes@.contains_key(id) && self.routes@[id].source == source
                        && self.routes@[id].destination == destination && Some(
                        self.routes@[id].id,
                    ) != except;
                let i = crate::table::place_of(self.routes.entries(), id);
                assert(self.routes.entries()[i].0 == id);
            }
        }
        false
    }

    fn pair_error(route: &AudioRoute) -> (error: AudioError)
        ensures
            error@ == pair_fault(route.source, route.destination),
    {
        let source = route.source.to_text();
        let destination = route.destination.to_text();
        let mut technical = joined3("duplicate route from ", source.as_str(), " to ");
        technical.append(destination.as_str());
        graph_error(
            ErrorCode::DuplicateRoute,
            "Those devices are already connected.",
            technical.as_str(),
        )
    }

    pub fn add_route(&mut self, route: AudioRoute) -> (result: Result<(), AudioError>)
        ensures
            match add_fault(*old(self), route) {
                None => {
                    &&& result is Ok
                    &&& final(self).routes@ == old(self).routes@.insert(route.id, route)
                    &&& final(self).endpoints == old(self).endpoints
                },
                Some(fault) => {
                    &&& result is Err
                    &&& result->Err_0@ == fault
                    &&& *final(self) == *old(self)
                },
            },
            old(self).wf() ==> final(self).wf(),
    {
        if self.routes.contains_key(&route.id) {
            let id_text = route.id.to_text();
            return Err(
                graph_error(
                    ErrorCode::DuplicateRoute,
                    "That connection already exists.",
                    joined("duplicate route ", id_text.as_str()).as_str(),
                ),
            );
        }
        match self.validate_route(&route) {
            Ok(()) => {},
            Err(error) => {
                return Err(error);
            },
        }
        if self.is_pair_taken(route.source, route.destination, None) {
            return Err(Self::pair_error(&route));
        }
        self.routes.insert(route.id, route);
        Ok(())
    }

    pub fn upsert_route(&mut self, route: AudioRoute) -> (result: Result<(), AudioError>)
        ensures
            match upsert_fault(*old(self), route) {
                None => {
                    &&& result is Ok
                    &&& final(self).routes@ == old(self).routes@.insert(route.id, route)
                    &&& final(self).endpoints == old(self).endpoints
                },
                Some(fault) => {
                    &&& result is Err
                    &&& result->Err_0@ == fault
                    &&& *final(self) == *old(self)
                },
            },
            old(self).wf() ==> final(self).wf(),
    {
        match self.validate_route(&route) {
            Ok(()) => {},
            Err(error) => {
                return Err(error);
            },
        }
        if self.is_pair_taken(route.source, route.destination, Some(route.id)) {
            return Err(Self::pair_error(&route));
        }
        self.routes.insert(route.id, route);
        Ok(())
    }

    /// Marks an endpoint and its routes as disconnected; both stay.
    pub fn disconnect_endpoint(&mut self, id: EndpointId) -> (result: Result<(), AudioError>)
        ensures
            match result {
                Ok(()) => {
                    &&& old(self).endpoints@.contains_key(id)
                    &&& final(self).endpoints@ == old(self).endpoints@.insert(
                        id,
                        old(self).endpoints@[id].in_state(EndpointState::Disconnected),
                    )
                    &&& final(self).routes@ == old(self).routes@.map_values(
                        |route: AudioRoute| route_after_disconnect(route, id),
                    )
                    &&& final(self).routes.entries().len() == old(self).routes.entries().len()
                    &&& forall|i: int|
                        0 <= i < old(self).routes.entries().len() ==> (#[trigger] final(self).routes.entries()[i]) == (
                            old(self).routes.entries()[i].0,
                            route_after_disconnect(old(self).routes.entries()[i].1, id),
                        )
                },
                Err(error) => {
                    &&& !old(self).endpoints@.contains_key(id)
                    &&& error@ == graph_fault(
                        ErrorCode::EndpointNotFound,
                        "That device is no longer available."@,
                        "endpoint "@ + ids::hyphenated(id.value) + " not found"@,
                    )
                    &&& *final(self) == *old(self)
                },
            },
            old(self).wf() ==> final(self).wf(),
    {
        let endpoint = match self.endpoints.get(&id) {
            None => {
                let id_text = id.to_text();
                return Err(
                    graph_error(
                        ErrorCode::EndpointNotFound,
                        "That device is no longer available.",
                        joined3("endpoint ", id_text.as_str(), " not found").as_str(),
                    ),
                );
            },
            Some(endpoint) => {
                let mut endpoint = endpoint.clone();
                endpoint.state = EndpointState::Disconnected;
                endpoint
            },
        };
        self.endpoints.insert(id, endpoint);
        self.routes.show_entries();
        let ghost before = self.routes;
        let mut at: usize = 0;
        while at < self.routes.len()
            invariant
                at <= self.routes.entries().len() == before.entries().len(),
                before == old(self).routes,
                self.endpoints@ == old(self).endpoints@.insert(
                    id,
                    old(self).endpoints@[id].in_state(EndpointState::Disconnected),
                ),
                crate::table::distinct_keys(before.entries()),
                forall|i: int|
                    0 <= i < before.entries().len() ==> {
                        &&& before@.contains_key((#[trigger] before.entries()[i]).0)
                        &&& before@[before.entries()[i].0] == before.entries()[i].1
                    },
                forall|key: RouteId| #[trigger]
                    before@.contains_key(key) ==> crate::table::holds_key(before.entries(), key),
                forall|i: int|
                    0 <= i < at ==> #[trigger] self.routes.entries()[i] == (
                        before.entries()[i].0,
                        route_after_disconnect(before.entries()[i].1, id),
                    ),
                forall|i: int|
                    at <= i < before.entries().len() ==> #[trigger] self.routes.entries()[i]
                        == before.entries()[i],
                self.routes@.dom() == before@.dom(),
            decreases self.routes.entries().len() - at,
        {
            let mut route = *self.routes.value_at(at);
            if route.touches_endpoint(id) {
                route.state = RouteState::Disconnected;
                let ghost seen = self.routes@;
                let ghost key = before.entries()[at as int].0;
                self.routes.set_at(at, route);
                proof {
                    assert(before@.contains_key(key));
                    assert(self.routes@.dom() =~= before@.dom());
                }
            }
            at = at + 1;
        }
        self.routes.show_entries();
        proof {
            let mapped = before@.map_values(
                |route: AudioRoute| route_after_disconnect(route, id),
            );
            assert forall|key: RouteId| #[trigger] self.routes@.contains_key(key) implies
                self.routes@[key] == mapped[key] by {
                assert(before@.contains_key(key));
                let i = crate::table::place_of(before.entries(), key);
                assert(before.entries()[i].0 == key);
                assert(self.routes.entries()[i].0 == key);
            }
            assert(self.routes@ =~= mapped);
        }
        Ok(())
    }

    /// Takes out every route that starts or ends at `id`.
    pub fn remove_routes_of(&mut self, id: EndpointId)
        ensures
            final(self).routes@ == routes_apart_from(old(self).routes@, id),
            final(self).endpoints == old(self).endpoints,
    {
        let ghost before = self.routes@;
        let mut at: usize = 0;
        while at < self.routes.len()
            invariant
                at <= self.routes.entries().len(),
                before == old(self).routes@,
                self.endpoints == old(self).endpoints,
                self.routes@.submap_of(before),
                forall|key: RouteId| #[trigger]
                    before.contains_key(key) && !before[key].touches(id)
                        ==> self.routes@.contains_key(key),
                forall|i: int|
                    0 <= i < at ==> !(#[trigger] self.routes.entries()[i]).1.touches(id),
            decreases self.routes.entries().len() - at,
        {
            if self.routes.value_at(at).touches_endpoint(id) {
                let ghost entries = self.routes.entries();
                let _removed = self.routes.remove_at(at);
                proof {
                    assert forall|i: int| 0 <= i < at implies !(
                    #[trigger] self.routes.entries()[i]).1.touches(id) by {
                        assert(self.routes.entries()[i] == entries[i]);
                    }
                }
            } else {
                at = at + 1;
            }
        }
        self.routes.show_entries();
        proof {
            assert forall|key: RouteId| #[trigger] self.routes@.contains_key(key) implies
                !before[key].touches(id) by {
                let i = crate::table::place_of(self.routes.entries(), key);
                assert(self.routes.entries()[i].0 == key);
            }
            assert(self.routes@ =~= routes_apart_from(before, id));
        }
    }

    fn validate_route(&self, route: &AudioRoute) -> (result: Result<(), AudioError>)
        ensures
            match route_fault(self.endpoints@, *route) {
                None => result is Ok,
                Some(fault) => result is Err && result->Err_0@ == fault,
            },
    {
        let id_text = route.id.to_text();
        if route.source == route.destination {
            return Err(
                graph_error(
                    ErrorCode::InvalidRoute,
                    "A device cannot be connected to itself.",
                    joined3(
                        "route ",
                        id_text.as_str(),
                        " connects an endpoint to itself",
                    ).as_str(),
                ),
            );
        }
        let source = match self.endpoints.get(&route.source) {
            Some(source) => source,
            None => {
                let source_text = route.source.to_text();
                let mut technical = joined3("route ", id_text.as_str(), " source ");
                technical.append(source_text.as_str());
                technical.append(" not found");
                return Err(
                    graph_error(
                        ErrorCode::EndpointNotFound,
                        "The connection source is unavailable.",
                        technical.as_str(),
                    ),
                );
            },
        };
        let destination = match self.endpoints.get(&route.destination) {
            Some(destination) => destination,
            None => {
                let destination_text = route.destination.to_text();
                let mut technical = joined3("route ", id_text.as_str(), " destination ");
                technical.append(destination_text.as_str());
                technical.append(" not found");
                return Err(
                    graph_error(
                        ErrorCode::EndpointNotFound,
                        "The connection destination is unavailable.",
                        technical.as_str(),
                    ),
                );
            },
        };
        if !source.endpoint_type.can_source() || !destination.endpoint_type.can_receive() {
            let mut technical = joined3(
                "invalid direction from ",
                source.endpoint_type.name(),
                " to ",
            );
            technical.append(destination.endpoint_type.name());
            return Err(
                graph_error(
                    ErrorCode::InvalidRoute,
                    "Those devices cannot be connected.",
                    technical.as_str(),
                ),
            );
        }
        Ok(())
    }
}

/// A route between two endpoints can be added again as soon as the route that
/// joined them is gone, whatever its new identifier.
pub proof fn law_pair_is_free_after_removal(
    before: AudioGraph,
    after: AudioGraph,
    gone: RouteId,
    again: AudioRoute,
)
    requires
        before.wf(),
        before.routes@.contains_key(gone),
        again.source == before.routes@[gone].source,
        again.destination == before.routes@[gone].destination,
        route_fault(before.endpoints@, again) is None,
        after.endpoints@ == before.endpoints@,
        after.routes@ == before.routes@.remove(gone),
        !after.routes@.contains_key(again.id),
    ensures
        add_fault(after, again) is None,
{
    if pair_taken(after.routes@, again.source, again.destination, None) {
        let id = choose|id: RouteId| #[trigger]
            after.routes@.contains_key(id) && after.routes@[id].source == again.source
                && after.routes@[id].destination == again.destination && Some(after.routes@[id].id)
                != None::<RouteId>;
        assert(before.routes@.contains_key(id));
        assert(before.routes@.contains_key(gone));
    }
}

/// A second route between two endpoints is refused.
pub proof fn law_second_route_is_refused(graph: AudioGraph, first: RouteId, second: AudioRoute)
    requires
        graph.routes@.contains_key(first),
        second.source == graph.routes@[first].source,
        second.destination == graph.routes@[first].destination,
    ensures
        add_fault(graph, second) is Some,
{
}

/// A new route is taken exactly where its identifier is new, it joins two
/// different endpoints of the graph, the first of a kind that plays and the
/// second of a kind that listens, and no route joins the two already. What is
/// said otherwise names the first of these that does not hold.
pub proof fn law_a_route_is_taken_between_fitting_endpoints(graph: AudioGraph, route: AudioRoute)
    ensures
        add_fault(graph, route) is None <==> {
            &&& !graph.routes@.contains_key(route.id)
            &&& route.source != route.destination
            &&& graph.endpoints@.contains_key(route.source)
            &&& graph.endpoints@.contains_key(route.destination)
            &&& match graph.endpoints@[route.source].endpoint_type {
                EndpointType::PhysicalInput
                | EndpointType::ApplicationOutput
                | EndpointType::VirtualInput
                | EndpointType::InternalBus => true,
                _ => false,
            }
            &&& match graph.endpoints@[route.destination].endpoint_type {
                EndpointType::PhysicalOutput
                | EndpointType::ApplicationInput
                | EndpointType::VirtualOutput
                | EndpointType::InternalBus => true,
                _ => false,
            }
            &&& forall|id: RouteId| #[trigger]
                graph.routes@.contains_key(id) ==> graph.routes@[id].source != route.source
                    || graph.routes@[id].destination != route.destination
        },
        graph.routes@.contains_key(route.id) ==> {
            &&& add_fault(graph, route)->0.code == ErrorCode::DuplicateRoute
            &&& add_fault(graph, route)->0.user_message == "That connection already exists."@
        },
        !graph.routes@.contains_key(route.id) && route.source == route.destination ==> {
            &&& add_fault(graph, route)->0.code == ErrorCode::InvalidRoute
            &&& add_fault(graph, route)->0.user_message
                == "A device cannot be connected to itself."@
        },
        !graph.routes@.contains_key(route.id) && route.source != route.destination
            && !graph.endpoints@.contains_key(route.source) ==> {
            &&& add_fault(graph, route)->0.code == ErrorCode::EndpointNotFound
            &&& add_fault(graph, route)->0.user_message == "The connection source is unavailable."@
        },
        !graph.routes@.contains_key(route.id) && route.source != route.destination
            && graph.endpoints@.contains_key(route.source) && !graph.endpoints@.contains_key(
            route.destination,
        ) ==> {
            &&& add_fault(graph, route)->0.code == ErrorCode::EndpointNotFound
            &&& add_fault(graph, route)->0.user_message
                == "The connection destination is unavailable."@
        },
        add_fault(graph, route) is Some ==> {
            let said = add_fault(graph, route)->0;
            &&& said.severity == ErrorSeverity::Error
            &&& !said.retryable
            &&& said.code == ErrorCode::DuplicateRoute || said.code == ErrorCode::InvalidRoute
                || said.code == ErrorCode::EndpointNotFound
        },
{
    let taken = pair_taken(graph.routes@, route.source, route.destination, None);
    if taken {
        let id = choose|id: RouteId| #[trigger]
            graph.routes@.contains_key(id) && graph.routes@[id].source == route.source
                && graph.routes@[id].destination == route.destination && Some(
                graph.routes@[id].id,
            ) != None::<RouteId>;
        assert(graph.routes@.contains_key(id));
    }
}

/// A route that replaces itself is judged against the other routes alone: it
/// is taken where a new one would be, whether or not its identifier is known.
pub proof fn law_a_route_may_replace_itself(graph: AudioGraph, route: AudioRoute)
    ensures
        upsert_fault(graph, route) is None <==> {
            &&& route.source != route.destination
            &&& graph.endpoints@.contains_key(route.source)
            &&& graph.endpoints@.contains_key(route.destination)
            &&& match graph.endpoints@[route.source].endpoint_type {
                EndpointType::PhysicalInput
                | EndpointType::ApplicationOutput
                | EndpointType::VirtualInput
                | EndpointType::InternalBus => true,
                _ => false,
            }
            &&& match graph.endpoints@[route.destination].endpoint_type {
                EndpointType::PhysicalOutput
                | EndpointType::ApplicationInput
                | EndpointType::VirtualOutput
                | EndpointType::InternalBus => true,
                _ => false,
            }
            &&& forall|id: RouteId| #[trigger]
                graph.routes@.contains_key(id) && graph.routes@[id].id != route.id
                    ==> graph.routes@[id].source != route.source
                    || graph.routes@[id].destination != route.destination
        },
        !graph.routes@.contains_key(route.id) && add_fault(graph, route) is None ==> upsert_fault(
            graph,
            route,
        ) is None,
{
    let taken = pair_taken(graph.routes@, route.source, route.destination, Some(route.id));
    if taken {
        let id = choose|id: RouteId| #[trigger]
            graph.routes@.contains_key(id) && graph.routes@[id].source == route.source
                && graph.routes@[id].destination == route.destination && Some(
                graph.routes@[id].id,
            ) != Some(route.id);
        assert(graph.routes@.contains_key(id));
    }
}

/// An endpoint that goes away takes down the routes at either end of it and
/// no other: a route that stays is marked, one of a forgotten endpoint is gone.
pub proof fn law_an_endpoint_takes_its_routes_along(
    routes: Map<RouteId, AudioRoute>,
    endpoint: EndpointId,
    id: RouteId,
)
    requires
        routes.contains_key(id),
    ensures
        routes_apart_from(routes, endpoint).contains_key(id) <==> routes[id].source != endpoint
            && routes[id].destination != endpoint,
        routes[id].source != endpoint && routes[id].destination != endpoint ==> {
            &&& routes_apart_from(routes, endpoint)[id] == routes[id]
            &&& route_after_disconnect(routes[id], endpoint) == routes[id]
        },
        routes[id].source == endpoint || routes[id].destination == endpoint ==> {
            let marked = route_after_disconnect(routes[id], endpoint);
            &&& marked.state == RouteState::Disconnected
            &&& marked.id == routes[id].id
            &&& marked.source == routes[id].source
            &&& marked.destination == routes[id].destination
        },
{
}

/// What the graph refuses is an error that is not worth trying again, under the
/// code and with the messages that it is refused with; a taken pair is named from
/// its source to its destination.
pub proof fn law_refusals_say_what_is_wrong(
    code: ErrorCode,
    user_message: Seq<char>,
    technical_message: Seq<char>,
    source: EndpointId,
    destination: EndpointId,
)
    ensures
        graph_fault(code, user_message, technical_message).code == code,
        graph_fault(code, user_message, technical_message).severity == ErrorSeverity::Error,
        !graph_fault(code, user_message, technical_message).retryable,
        graph_fault(code, user_message, technical_message).user_message == user_message,
        graph_fault(code, user_message, technical_message).technical_message
            == technical_message,
        pair_fault(source, destination).code == ErrorCode::DuplicateRoute,
        !pair_fault(source, destination).retryable,
        pair_fault(source, destination).user_message == "Those devices are already connected."@,
        pair_fault(source, destination).technical_message == "duplicate route from "@
            + ids::hyphenated(source.value) + " to "@ + ids::hyphenated(destination.value),
{
}

/// A pair is taken exactly where a route joins it in its direction that is not the
/// one that is left out.
pub proof fn law_a_pair_is_taken_by_a_route(
    routes: Map<RouteId, AudioRoute>,
    source: EndpointId,
    destination: EndpointId,
    except: Option<RouteId>,
    at: RouteId,
)
    ensures
        routes.contains_key(at) && routes[at].source == source && routes[at].destination
            == destination && except != Some(routes[at].id) ==> pair_taken(
            routes,
            source,
            destination,
            except,
        ),
        (forall|id: RouteId| #[trigger]
            routes.contains_key(id) ==> routes[id].source != source || routes[id].destination
                != destination || except == Some(routes[id].id)) ==> !pair_taken(
            routes,
            source,
            destination,
            except,
        ),
{
}

} // verus!
