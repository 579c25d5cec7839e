use std::sync::Arc;

use orion::backend::cpal_backend::{enumerate_endpoints, DeviceConfig, DeviceReport};
use orion::backend::driver::{route_list, CommandStep};
use orion::backend::pipewire::{DEFAULT_VIRTUAL_INPUT_ID, DEFAULT_VIRTUAL_OUTPUT_ID};
use orion::backend::runtimes::{LinkOutcome, LinkPlan, StreamAction, StreamState};
use orion::backend::session::{
    finish_control_command, plan_connect, plan_link, resolve_route_endpoints, Session,
    CONNECT_RETRY_INTERVAL,
};
use orion::backend::{BackendCommand, BackendEvent};
use orion::domain::controls::{ChannelMode, GainDb, NormalizedBalance};
use orion::domain::endpoint::{AudioEndpoint, EndpointIdentity, EndpointState, EndpointType};
use orion::domain::error::{AudioError, ErrorCode};
use orion::domain::ids::{ChannelId, CommandId, EndpointId, RouteId, VirtualDeviceId};
use orion::domain::route::{AudioRoute, RouteState};
use orion::realtime::controls::{ControlHub, EndpointControls};
use orion::scalar::Scalar;
use orion::text::{joined3, signed_text, trim_start};

fn scalar(value: f32) -> Scalar {
    Scalar::from_bits(value.to_bits())
}

fn endpoint(endpoint_type: EndpointType, runtime_id: u32) -> AudioEndpoint {
    AudioEndpoint {
        id: EndpointId::new(),
        runtime_id: Some(runtime_id),
        device_id: None,
        virtual_device_id: None,
        identity: EndpointIdentity::new("pipewire"),
        name: "test".into(),
        description: "test".into(),
        endpoint_type,
        state: EndpointState::Running,
        channel_count: 2,
        sample_rate: None,
        is_default: false,
        channels: Arc::new(vec![ChannelId::new(), ChannelId::new()]),
        gain: GainDb::default(),
        muted: false,
        balance: NormalizedBalance::default(),
    }
}

fn route(source: EndpointId, destination: EndpointId) -> AudioRoute {
    AudioRoute {
        id: RouteId::new(),
        source,
        destination,
        state: RouteState::Connecting,
    }
}

/// A session with a microphone, two outputs and nothing linked.
fn room() -> (Session, EndpointId, EndpointId, EndpointId) {
    let mut session = Session::new();
    let source = endpoint(EndpointType::PhysicalInput, 1);
    let first = endpoint(EndpointType::PhysicalOutput, 2);
    let second = endpoint(EndpointType::PhysicalOutput, 3);
    let ids = (source.id, first.id, second.id);
    session.registry.endpoints.insert(1, source);
    session.registry.endpoints.insert(2, first);
    session.registry.endpoints.insert(3, second);
    (session, ids.0, ids.1, ids.2)
}

fn connect(session: &mut Session, wanted: AudioRoute) -> LinkPlan {
    let command_id = CommandId::new();
    let command = BackendCommand::Connect { command_id, route: wanted };
    match session.handle_command(command, 0) {
        CommandStep::Link { plan, .. } => {
            let (events, actions) =
                session.finish_connect(command_id, wanted, &plan, LinkOutcome::Linked, 0);
            assert!(actions.is_empty());
            assert_eq!(events.len(), 2);
            plan
        }
        _ => panic!("a route between known endpoints is linked"),
    }
}

fn ingress_error() -> AudioError {
    let mut session = Session::new();
    let source = endpoint(EndpointType::PhysicalInput, 1);
    let mut destination = endpoint(EndpointType::VirtualOutput, 2);
    destination.virtual_device_id = Some(VirtualDeviceId::new());
    let wanted = route(source.id, destination.id);
    session.registry.endpoints.insert(1, source);
    session.registry.endpoints.insert(2, destination);
    plan_connect(&session.registry, &session.runtimes, wanted)
        .err()
        .expect("the ingress is missing")
}

#[test]
fn streams_are_shared_and_closed_with_their_last_route() {
    let (mut session, source, first, second) = room();
    let one = route(source, first);
    let two = route(source, second);
    let plan = connect(&mut session, one);
    assert!(plan.open_capture && plan.open_bus);
    let plan = connect(&mut session, two);
    assert!(!plan.open_capture, "the capture stream is open already");
    assert!(plan.open_bus);
    assert_eq!(session.runtimes.captures.len(), 1);
    assert_eq!(session.runtimes.buses.len(), 2);
    assert_eq!(route_list(&session.runtimes.all_routes()), vec![one.id, two.id]);

    let actions = session.runtimes.disconnect_route(one.id);
    assert!(actions.contains(&StreamAction::CloseBus { endpoint: first }));
    assert!(!actions.contains(&StreamAction::CloseCapture { endpoint: source }));
    let actions = session.runtimes.disconnect_route(two.id);
    assert!(actions.contains(&StreamAction::CloseCapture { endpoint: source }));
    assert!(session.runtimes.captures.is_empty());
    assert!(session.runtimes.all_routes().is_empty());
}

#[test]
fn a_second_route_between_two_endpoints_takes_the_place_of_the_first() {
    let (mut session, source, first, _) = room();
    let one = route(source, first);
    connect(&mut session, one);
    let again = route(source, first);
    let command_id = CommandId::new();
    let command = BackendCommand::Connect { command_id, route: again };
    match session.handle_command(command, 0) {
        CommandStep::Link { plan, events, .. } => {
            assert!(events.iter().any(
                |event| matches!(event, BackendEvent::RouteRemoved { route_id } if *route_id == one.id)
            ));
            assert_eq!(plan.route.id, again.id);
            session.finish_connect(command_id, again, &plan, LinkOutcome::Linked, 0);
        }
        _ => panic!("the pair is linked again"),
    }
    assert_eq!(route_list(&session.runtimes.all_routes()), vec![again.id]);
    assert_eq!(session.runtimes.route_between(source, first), Some(again.id));
}

#[test]
fn a_stream_that_failed_is_built_anew_with_its_routes() {
    let (mut session, source, first, second) = room();
    let one = route(source, first);
    let two = route(source, second);
    connect(&mut session, one);
    connect(&mut session, two);
    session
        .runtimes
        .set_stream_state(first, false, StreamState::Failed);

    let (routes, events, actions) = session.begin_rebuild(first, false);
    assert_eq!(route_list(&routes), vec![one.id]);
    assert!(matches!(events[..], [BackendEvent::RouteRemoved { route_id }] if route_id == one.id));
    assert!(actions.contains(&StreamAction::CloseBus { endpoint: first }));
    assert!(!actions.contains(&StreamAction::CloseCapture { endpoint: source }));

    let plan = plan_link(&session.registry, &session.runtimes, one).expect("both ends are there");
    assert!(!plan.open_capture);
    assert!(plan.open_bus);
    let (event, actions) = session.finish_relink(&plan, LinkOutcome::Linked);
    assert!(matches!(event, BackendEvent::RouteAdded { route } if route.id == one.id));
    assert!(actions.is_empty());
    assert_eq!(session.runtimes.buses.len(), 2);
    assert_eq!(session.runtimes.all_routes().len(), 2);
}

#[test]
fn other_tuning_connects_every_route_again() {
    let (mut session, source, first, second) = room();
    let one = route(source, first);
    let two = route(source, second);
    connect(&mut session, one);
    connect(&mut session, two);
    let command_id = CommandId::new();
    let tuned = BackendCommand::SetStreamTuning {
        command_id,
        stream_rate: 44_100,
        buffer_frames: 256,
    };
    let routes = match session.handle_command(tuned, 0) {
        CommandStep::Rebuild { command_id: id, routes, actions } => {
            assert_eq!(id, command_id);
            assert!(actions.contains(&StreamAction::CloseCapture { endpoint: source }));
            assert!(actions.contains(&StreamAction::CloseBus { endpoint: first }));
            assert!(actions.contains(&StreamAction::CloseBus { endpoint: second }));
            routes
        }
        _ => panic!("open streams are built anew"),
    };
    assert_eq!(session.hub.stream_rate(), 44_100);
    assert_eq!(session.hub.buffer_frames(), 256);
    assert_eq!(route_list(&routes), vec![one.id, two.id]);
    assert!(session.runtimes.captures.is_empty());
    for again in routes {
        let plan = plan_connect(&session.registry, &session.runtimes, again).expect("a plan");
        let (event, _) = session.finish_rebuild(&plan, LinkOutcome::Linked);
        assert!(matches!(event, BackendEvent::RouteAdded { route } if route.id == again.id));
    }
    assert_eq!(session.runtimes.all_routes().len(), 2);
    assert_eq!(session.runtimes.captures.len(), 1);
}

#[test]
fn a_waiting_connect_is_finished_when_its_ingress_comes() {
    let mut session = Session::new();
    let source = endpoint(EndpointType::PhysicalInput, 1);
    let device = VirtualDeviceId::new();
    let mut destination = endpoint(EndpointType::VirtualOutput, 2);
    destination.virtual_device_id = Some(device);
    let wanted = route(source.id, destination.id);
    session.registry.endpoints.insert(1, source.clone());
    session.registry.endpoints.insert(2, destination.clone());
    let command_id = CommandId::new();
    session.handle_command(BackendCommand::Connect { command_id, route: wanted }, 0);
    assert_eq!(session.pending_connects.len(), 1);

    let at = session.due_retry(0, CONNECT_RETRY_INTERVAL).expect("due");
    let plan = LinkPlan {
        route: wanted,
        source,
        destination,
        open_capture: true,
        open_bus: true,
    };
    let (events, actions) = session.finish_retry(
        at,
        &plan,
        LinkOutcome::BusFailed { error: ingress_error() },
        CONNECT_RETRY_INTERVAL,
    );
    assert!(events.is_empty(), "tried again later");
    assert!(actions.contains(&StreamAction::CloseCapture { endpoint: wanted.source }));
    assert_eq!(session.pending_connects.len(), 1);
    assert_eq!(session.due_retry(0, CONNECT_RETRY_INTERVAL), None);

    let now = 2 * CONNECT_RETRY_INTERVAL;
    let at = session.due_retry(0, now).expect("due again");
    let (events, actions) = session.finish_retry(at, &plan, LinkOutcome::Linked, now);
    assert!(actions.is_empty());
    assert!(matches!(
        events[..],
        [
            BackendEvent::RouteAdded { route },
            BackendEvent::CommandCompleted { command_id: id },
        ] if route.id == wanted.id && id == command_id
    ));
    assert!(session.pending_connects.is_empty());
    assert_eq!(route_list(&session.runtimes.all_routes()), vec![wanted.id]);
}

#[test]
fn every_way_to_fail_a_link_takes_its_streams_down() {
    let failures = vec![
        (LinkOutcome::CaptureFailed { error: ingress_error() }, 0),
        (LinkOutcome::BusFailed { error: ingress_error() }, 1),
        (LinkOutcome::RingFailed { detail: "no memory".into() }, 2),
    ];
    for (outcome, closed) in failures {
        let (mut session, source, first, _) = room();
        let wanted = route(source, first);
        let plan = plan_link(&session.registry, &session.runtimes, wanted).expect("a plan");
        let (result, actions) = session.runtimes.finish_link(&plan, outcome);
        assert!(result.is_err());
        assert_eq!(actions.len(), closed);
        assert!(session.runtimes.captures.is_empty());
        assert!(session.runtimes.buses.is_empty());
        assert!(session.runtimes.feeds.is_empty());
        assert!(session.runtimes.draws.is_empty());
    }
    let (mut session, source, first, _) = room();
    let wanted = route(source, first);
    let plan = plan_link(&session.registry, &session.runtimes, wanted).expect("a plan");
    let (result, actions) = session
        .runtimes
        .finish_link(&plan, LinkOutcome::DrawRefused { error: ingress_error() });
    assert!(result.is_err());
    assert!(actions.contains(&StreamAction::DetachFeed { route: wanted.id, endpoint: source }));
    assert!(session.runtimes.captures.is_empty());
    assert!(session.runtimes.buses.is_empty());
}

#[test]
fn routes_go_with_their_endpoints() {
    let (mut session, source, first, second) = room();
    let one = route(source, first);
    let two = route(source, second);
    connect(&mut session, one);
    connect(&mut session, two);
    let (events, actions) = session.prune_unavailable_routes();
    assert!(events.is_empty() && actions.is_empty());
    session.registry.endpoints.remove(&2);
    let (events, actions) = session.prune_unavailable_routes();
    assert!(matches!(events[..], [BackendEvent::RouteRemoved { route_id }] if route_id == one.id));
    assert!(actions.contains(&StreamAction::CloseBus { endpoint: first }));
    assert_eq!(route_list(&session.runtimes.all_routes()), vec![two.id]);
    let actions = session.runtimes.disconnect_all();
    assert!(actions.contains(&StreamAction::CloseCapture { endpoint: source }));
    assert!(actions.contains(&StreamAction::CloseBus { endpoint: second }));
    assert!(session.runtimes.all_routes().is_empty());
}

#[test]
fn routes_show_the_state_of_their_streams() {
    let (mut session, source, first, _) = room();
    let wanted = route(source, first);
    connect(&mut session, wanted);
    let states = [
        (StreamState::Connecting, StreamState::Connected, RouteState::Connecting),
        (StreamState::Connected, StreamState::Connected, RouteState::Active),
        (StreamState::Connected, StreamState::Failed, RouteState::Failed),
        (StreamState::Failed, StreamState::Connected, RouteState::Failed),
    ];
    for (capture, bus, state) in states {
        session.runtimes.set_stream_state(source, true, capture);
        session.runtimes.set_stream_state(first, false, bus);
        assert_eq!(session.runtimes.route_state(&wanted), state);
    }
    assert_eq!(session.runtimes.routes_of(first, true, false).len(), 0);
    assert_eq!(session.runtimes.routes_of(first, false, true).len(), 1);
}

#[test]
fn endpoints_of_a_route_have_to_be_there() {
    let (session, source, first, _) = room();
    let (from, to) = resolve_route_endpoints(&session.registry, &route(source, first)).expect("ends");
    assert_eq!(from.id, source);
    assert_eq!(to.id, first);
    let error = resolve_route_endpoints(&session.registry, &route(source, EndpointId::new()))
        .err()
        .expect("unknown destination");
    assert_eq!(error.code, ErrorCode::EndpointNotFound);
    let error = resolve_route_endpoints(&session.registry, &route(EndpointId::new(), first))
        .err()
        .expect("unknown source");
    assert_eq!(error.code, ErrorCode::EndpointNotFound);
}

#[test]
fn virtual_devices_that_lapsed_are_made_again() {
    let mut session = Session::new();
    let lapsed = session.lapsed_virtuals();
    assert_eq!(lapsed.len(), 2);
    assert_eq!(lapsed[0].id.value, DEFAULT_VIRTUAL_INPUT_ID);
    assert_eq!(lapsed[1].id.value, DEFAULT_VIRTUAL_OUTPUT_ID);
    let device = VirtualDeviceId::from_uuid(DEFAULT_VIRTUAL_INPUT_ID);
    let mut input = endpoint(EndpointType::VirtualInput, 4);
    input.virtual_device_id = Some(device);
    session.registry.endpoints.insert(4, input);
    let lapsed = session.lapsed_virtuals();
    assert_eq!(lapsed.len(), 1);
    assert_eq!(lapsed[0].endpoint_type, EndpointType::VirtualOutput);

    let command_id = CommandId::new();
    let made = VirtualDeviceId::new();
    let event = session.virtual_created(command_id, made, EndpointType::VirtualInput, Ok(()));
    assert!(matches!(event, BackendEvent::CommandCompleted { command_id: id } if id == command_id));
    assert!(session.registry.managed_virtuals.contains_key(&made));
    let refused = VirtualDeviceId::new();
    let event = session.virtual_created(
        command_id,
        refused,
        EndpointType::VirtualInput,
        Err(ingress_error()),
    );
    assert!(matches!(event, BackendEvent::CommandFailed { command_id: id, .. } if id == command_id));
    assert!(!session.registry.managed_virtuals.contains_key(&refused));
}

#[test]
fn control_commands_are_always_answered() {
    let command_id = CommandId::new();
    let events = finish_control_command(Ok(None), command_id);
    assert!(matches!(events[..], [BackendEvent::CommandCompleted { command_id: id }] if id == command_id));
    let changed = endpoint(EndpointType::PhysicalInput, 1);
    let events = finish_control_command(Ok(Some(changed.clone())), command_id);
    assert!(matches!(
        &events[..],
        [BackendEvent::EndpointUpdated { endpoint }, BackendEvent::CommandCompleted { .. }]
            if endpoint.id == changed.id
    ));
    let events = finish_control_command(Err(ingress_error()), command_id);
    assert!(matches!(events[..], [BackendEvent::CommandFailed { command_id: id, .. }] if id == command_id));
}

#[test]
fn the_hub_keeps_what_was_set() {
    let mut hub = ControlHub::default();
    assert!(!hub.set_stream_rate(48_000));
    assert!(hub.set_stream_rate(96_000));
    assert!(hub.set_buffer_frames(64));
    assert!(!hub.set_buffer_frames(64));
    let mut seeded = endpoint(EndpointType::PhysicalInput, 1);
    seeded.muted = true;
    assert!(hub.endpoint_seeded(&seeded).is_muted());
    let mut controls = EndpointControls::from_endpoint(&seeded);
    controls.set_muted(false);
    hub.set_endpoint(seeded.id, controls);
    assert!(
        !hub.endpoint_seeded(&seeded).is_muted(),
        "what was set counts for more than the endpoint"
    );
    hub.set_delay_ms(seeded.id, scalar(900.0));
    assert_eq!(f32::from_bits(hub.channel(seeded.id).delay_ms.bits), 500.0);
    hub.set_delay_ms(seeded.id, scalar(-1.0));
    assert_eq!(f32::from_bits(hub.channel(seeded.id).delay_ms.bits), 0.0);
    hub.set_eq_db(seeded.id, scalar(1.0), scalar(2.0), scalar(3.0));
    hub.set_channel_mode(seeded.id, ChannelMode::Swap);
    let channel = hub.channel(seeded.id);
    assert_eq!(f32::from_bits(channel.eq_mid_db.bits), 2.0);
    assert_eq!(channel.mode, ChannelMode::Swap);
    assert_eq!(hub.channel(EndpointId::new()).mode, ChannelMode::Auto);
}

#[test]
fn of_two_devices_under_one_name_the_last_is_listed() {
    let report = |sample_rate: u32| DeviceReport {
        id: Some("dev-1".into()),
        name: "USB".into(),
        input: Some(DeviceConfig { channels: 2, sample_rate }),
        output: None,
    };
    let devices = vec![report(44_100), report(48_000)];
    let endpoints = enumerate_endpoints(&devices, &None, &None, &Vec::new());
    assert_eq!(endpoints.len(), 1);
    assert_eq!(endpoints.value_at(0).sample_rate, Some(48_000));
}

#[test]
fn texts_are_put_together() {
    assert_eq!(signed_text(-2147483648), "-2147483648");
    assert_eq!(signed_text(0), "0");
    assert_eq!(signed_text(1234), "1234");
    assert_eq!(joined3("a", "", "b"), "ab");
    assert_eq!(trim_start(" \t x "), "x ");
}
