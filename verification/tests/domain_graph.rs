use std::sync::Arc;

use orion::app_engine::{
    handle_engine_command, into_backend_command, map_status, panic_detail, reduce_backend_event,
    CommandOutcome, Coordinator, EVENT_CAPACITY,
};
use orion::backend::{BackendCommand, BackendEvent, BackendStatus};
use orion::domain::capability::BackendCapabilities;
use orion::domain::command::{EngineCommand, EngineCommandKind};
use orion::domain::controls::{ChannelMode, ControlName, GainDb, MeterLevel, NormalizedBalance};
use orion::domain::endpoint::{AudioEndpoint, EndpointIdentity, EndpointState, EndpointType};
use orion::domain::error::{AudioError, ErrorCode, ErrorSeverity};
use orion::domain::event::{EngineEvent, EngineStatus, GraphDelta, MeterFrame};
use orion::domain::graph::AudioGraph;
use orion::domain::ids::{ChannelId, CommandId, DeviceId, EndpointId, RouteId, VirtualDeviceId};
use orion::domain::route::{AudioRoute, RouteState};
use orion::scalar::Scalar;
use orion::table::Table;
use uuid::Uuid;

fn scalar(value: f32) -> Scalar {
    Scalar::from_bits(value.to_bits())
}

fn endpoint(endpoint_type: EndpointType) -> AudioEndpoint {
    AudioEndpoint {
        id: EndpointId::new(),
        runtime_id: None,
        device_id: None,
        virtual_device_id: None,
        identity: EndpointIdentity::new("fake"),
        name: "test endpoint".into(),
        description: "test endpoint".into(),
        endpoint_type,
        state: EndpointState::Available,
        channel_count: 1,
        sample_rate: Some(48_000),
        is_default: false,
        channels: Arc::new(vec![ChannelId::new()]),
        gain: GainDb::new(scalar(0.0)).expect("valid test gain"),
        muted: false,
        balance: NormalizedBalance::new(scalar(0.0)).expect("valid test balance"),
    }
}

fn populated_graph() -> (AudioGraph, AudioEndpoint, AudioEndpoint) {
    let source = endpoint(EndpointType::PhysicalInput);
    let destination = endpoint(EndpointType::PhysicalOutput);
    let mut graph = AudioGraph::default();
    assert!(graph.add_endpoint(source.clone()).is_ok());
    assert!(graph.add_endpoint(destination.clone()).is_ok());
    (graph, source, destination)
}

fn route(source: EndpointId, destination: EndpointId) -> AudioRoute {
    AudioRoute {
        id: RouteId::new(),
        source,
        destination,
        state: RouteState::Active,
    }
}

#[test]
fn gain_accepts_inclusive_boundaries() {
    assert!(GainDb::new(Scalar::from_bits(GainDb::MIN)).is_ok());
    assert!(GainDb::new(Scalar::from_bits(GainDb::MAX)).is_ok());
    assert_eq!(f32::from_bits(GainDb::MIN), -60.0);
    assert_eq!(f32::from_bits(GainDb::MAX), 10.0);
}

#[test]
fn controls_reject_out_of_range_and_non_finite_values() {
    assert!(GainDb::new(scalar(f32::from_bits(GainDb::MIN) - 0.1)).is_err());
    assert!(GainDb::new(scalar(f32::NAN)).is_err());
    assert!(NormalizedBalance::new(scalar(1.01)).is_err());
    assert!(MeterLevel::new(scalar(f32::INFINITY)).is_err());
}

#[test]
fn rejected_controls_tell_their_range() {
    let rejected = NormalizedBalance::new(scalar(-2.5)).err().expect("refused");
    assert_eq!(rejected.name, ControlName::Balance);
    assert_eq!(f32::from_bits(rejected.value.bits), -2.5);
    assert_eq!(f32::from_bits(rejected.minimum.bits), -1.0);
    assert_eq!(f32::from_bits(rejected.maximum.bits), 1.0);
    let error = AudioError::invalid_control(rejected.name.text(), "-2.5", "-1", "1");
    assert_eq!(error.code, ErrorCode::InvalidControlValue);
    assert!(error.technical_message.contains("-2.5"), "{}", error.technical_message);
    let level = MeterLevel::new(scalar(-0.0)).expect("zero is a level");
    assert!(level.same_value(MeterLevel::default()));
}

#[test]
fn modes_have_codes_and_one_cycle() {
    let mut mode = ChannelMode::Auto;
    for code in 0..6u32 {
        assert_eq!(mode.code(), code);
        assert_eq!(ChannelMode::from_code(code), mode);
        assert_eq!(ChannelMode::all()[code as usize], mode);
        mode = mode.next();
    }
    assert_eq!(mode, ChannelMode::Auto);
    assert_eq!(ChannelMode::from_code(99), ChannelMode::Auto);
}

#[test]
fn rejects_duplicate_source_destination_pairs() {
    let (mut graph, source, destination) = populated_graph();
    let first = route(source.id, destination.id);
    let duplicate = AudioRoute { id: RouteId::new(), ..first };

    assert!(graph.add_route(first).is_ok());
    assert!(graph.add_route(duplicate).is_err());
    let error = graph.add_route(duplicate).err().expect("refused");
    assert_eq!(error.code, ErrorCode::DuplicateRoute);
}

#[test]
fn validates_route_endpoints_and_direction() {
    let (mut graph, source, destination) = populated_graph();
    let missing = route(EndpointId::new(), destination.id);
    let reversed = route(destination.id, source.id);

    assert_eq!(
        graph.add_route(missing).err().map(|error| error.code),
        Some(ErrorCode::EndpointNotFound)
    );
    assert_eq!(
        graph.add_route(reversed).err().map(|error| error.code),
        Some(ErrorCode::InvalidRoute)
    );
    assert_eq!(graph.routes.len(), 0);
}

#[test]
fn disconnect_preserves_endpoint_and_route() {
    let (mut graph, source, destination) = populated_graph();
    let route = route(source.id, destination.id);
    let route_id = route.id;
    assert!(graph.add_route(route).is_ok());

    assert!(graph.disconnect_endpoint(source.id).is_ok());

    assert_eq!(
        graph.endpoints.get(&source.id).map(|item| item.state),
        Some(EndpointState::Disconnected)
    );
    assert_eq!(
        graph.routes.get(&route_id).map(|item| item.state),
        Some(RouteState::Disconnected)
    );
    assert_eq!(
        graph.disconnect_endpoint(EndpointId::new()).err().map(|error| error.code),
        Some(ErrorCode::EndpointNotFound)
    );
}

#[test]
fn an_endpoint_is_added_once_and_its_routes_go_with_it() {
    let (mut graph, source, destination) = populated_graph();
    assert_eq!(
        graph.add_endpoint(source.clone()).err().map(|error| error.code),
        Some(ErrorCode::DuplicateEndpoint)
    );
    let first = route(source.id, destination.id);
    assert!(graph.upsert_route(first).is_ok());
    assert!(graph
        .upsert_route(AudioRoute { state: RouteState::Connecting, ..first })
        .is_ok());
    assert_eq!(graph.routes.len(), 1);
    graph.remove_routes_of(destination.id);
    assert!(graph.routes.is_empty());
    assert!(graph.add_route(route(source.id, destination.id)).is_ok());
}

#[test]
fn ids_are_distinct_and_display_as_uuids() {
    let device = DeviceId::new();
    let endpoint = EndpointId::new();

    assert_ne!(device.to_text(), endpoint.to_text());
    assert!(Uuid::parse_str(&device.to_text()).is_ok());
}

#[test]
fn ids_round_trip_through_serde() {
    let id = RouteId::new();
    let encoded = match serde_json::to_string(&id.to_text()) {
        Ok(encoded) => encoded,
        Err(error) => panic!("failed to serialize route id: {error}"),
    };
    let text: String = match serde_json::from_str(&encoded) {
        Ok(text) => text,
        Err(error) => panic!("failed to deserialize route id: {error}"),
    };
    let decoded = RouteId::from_text(&text).expect("a route id");

    assert_eq!(decoded, id);
}

#[test]
fn ids_are_written_as_the_crate_writes_them() {
    let value = 0x0123_4567_89ab_cdef_fedc_ba98_7654_3210u128;
    assert_eq!(
        CommandId::from_uuid(value).to_text(),
        Uuid::from_u128(value).to_string()
    );
    assert_eq!(
        VirtualDeviceId::from_text("01234567-89AB-CDEF-FEDC-BA9876543210"),
        Some(VirtualDeviceId::from_uuid(value))
    );
    assert_eq!(ChannelId::from_text("not one"), None);
    assert_ne!(ChannelId::new(), ChannelId::new());
    assert_eq!(
        DeviceId::from_text(&DeviceId::from_uuid(0).to_text()),
        Some(DeviceId::from_uuid(0))
    );
}

#[test]
fn same_pair_disconnect_then_connect_is_not_rejected() {
    let (mut graph, source, destination) = populated_graph();
    let mut pending = Table::new();

    let connect = |graph: &mut AudioGraph, pending: &mut Table<CommandId, RouteId>| {
        let outcome = handle_engine_command(
            EngineCommand::new(EngineCommandKind::Connect {
                route_id: RouteId::new(),
                source: source.id,
                destination: destination.id,
            }),
            graph,
            pending,
        );
        assert!(
            matches!(outcome, CommandOutcome::Forward { shutdown: false, .. }),
            "connect accepted"
        );
    };

    connect(&mut graph, &mut pending);
    let route_id = graph.routes.key_at(0);
    let outcome = handle_engine_command(
        EngineCommand::new(EngineCommandKind::Disconnect { route_id }),
        &mut graph,
        &mut pending,
    );
    assert!(
        matches!(outcome, CommandOutcome::Forward { shutdown: false, .. }),
        "disconnect accepted"
    );
    connect(&mut graph, &mut pending);
    assert_eq!(
        graph.routes.len(),
        1,
        "exactly one route for the pair after the churn"
    );
    assert_eq!(pending.len(), 2);
}

#[test]
fn backend_add_and_remove_preserve_disconnected_endpoint() {
    let endpoint = endpoint(EndpointType::PhysicalInput);
    let endpoint_id = endpoint.id;
    let mut graph = AudioGraph::default();

    let _ = reduce_backend_event(
        &mut graph,
        BackendEvent::EndpointAdded {
            endpoint: endpoint.clone(),
        },
    );
    let _ = reduce_backend_event(&mut graph, BackendEvent::EndpointRemoved { endpoint_id });

    assert_eq!(
        graph.endpoints.get(&endpoint_id).map(|item| item.state),
        Some(EndpointState::Disconnected)
    );
}

#[test]
fn a_second_connect_of_a_pair_is_refused() {
    let (mut graph, source, destination) = populated_graph();
    let mut pending = Table::new();
    for attempt in 0..2 {
        let command = EngineCommand::new(EngineCommandKind::Connect {
            route_id: RouteId::new(),
            source: source.id,
            destination: destination.id,
        });
        let id = command.id;
        match handle_engine_command(command, &mut graph, &mut pending) {
            CommandOutcome::Forward { command, .. } => {
                assert_eq!(attempt, 0);
                assert!(matches!(command, BackendCommand::Connect { command_id, .. } if command_id == id));
            }
            CommandOutcome::Refused { event } => {
                assert_eq!(attempt, 1);
                assert!(matches!(
                    event,
                    EngineEvent::Error { command_id: Some(refused), error }
                        if refused == id && error.code == ErrorCode::DuplicateRoute
                ));
            }
        }
    }
    assert_eq!(graph.routes.len(), 1);
}

#[test]
fn a_connect_that_fails_frees_its_pair() {
    let (graph, source, destination) = populated_graph();
    let mut coordinator = Coordinator::new();
    coordinator.graph = graph;
    let command = EngineCommand::new(EngineCommandKind::Connect {
        route_id: RouteId::new(),
        source: source.id,
        destination: destination.id,
    });
    let command_id = command.id;
    let _ = coordinator.on_command(command);
    assert_eq!(coordinator.graph.routes.len(), 1);
    assert_eq!(coordinator.pending_connect_routes.len(), 1);
    let (events, _) = coordinator.on_backend_event(BackendEvent::CommandFailed {
        command_id,
        error: AudioError::channel_closed("test"),
    });
    assert!(coordinator.graph.routes.is_empty());
    assert!(coordinator.pending_connect_routes.is_empty());
    assert!(events
        .iter()
        .any(|event| matches!(event, EngineEvent::Error { command_id: Some(id), .. } if *id == command_id)));
}

#[test]
fn shutdown_goes_to_the_backend_once() {
    let mut coordinator = Coordinator::new();
    let outcome = coordinator.on_command(EngineCommand::shutdown());
    assert!(matches!(
        outcome,
        CommandOutcome::Forward { command: BackendCommand::Shutdown { .. }, shutdown: true }
    ));
    assert!(coordinator.shutdown_requested);
    assert!(coordinator.on_commands_closed().is_none());
    let mut closed = Coordinator::new();
    assert!(matches!(
        closed.on_commands_closed(),
        Some(BackendCommand::Shutdown { .. })
    ));
    let (_, done) = coordinator.on_backend_event(BackendEvent::ShutdownComplete {
        command_id: CommandId::new(),
    });
    assert!(done);
}

#[test]
fn the_newest_meter_frame_waits_while_the_queue_is_full() {
    let mut coordinator = Coordinator::new();
    let id = EndpointId::new();
    for sequence in 0..3u64 {
        let frame = MeterFrame { endpoint_id: id, sequence, levels: Table::new() };
        let sent = coordinator.publish_event(EngineEvent::Meter { frame }, EVENT_CAPACITY);
        assert!(sent.is_none());
    }
    assert_eq!(coordinator.pending_meters.len(), 1);
    assert!(coordinator.next_pending_meter(EVENT_CAPACITY).is_none());
    let event = coordinator.next_pending_meter(EVENT_CAPACITY - 1);
    assert!(matches!(event, Some(EngineEvent::Meter { frame }) if frame.sequence == 2));
    assert!(coordinator.next_pending_meter(0).is_none());
    let status = EngineEvent::Status { status: EngineStatus::Running };
    assert!(coordinator.publish_event(status, EVENT_CAPACITY).is_some());
}

#[test]
fn backend_events_become_engine_events() {
    let (mut graph, source, destination) = populated_graph();
    assert_eq!(map_status(BackendStatus::Stopping), EngineStatus::Stopping);
    let live = route(source.id, destination.id);
    let (events, done) = reduce_backend_event(&mut graph, BackendEvent::RouteAdded { route: live });
    assert!(!done);
    assert!(events.iter().any(|event| matches!(
        event,
        EngineEvent::Delta { delta } if matches!(**delta, GraphDelta::RouteAdded { .. })
    )));
    let (events, _) =
        reduce_backend_event(&mut graph, BackendEvent::RouteRemoved { route_id: live.id });
    assert_eq!(events.len(), 1);
    assert!(graph.routes.is_empty());
    let capabilities = BackendCapabilities { virtual_devices: true, application_sources: true };
    let (events, _) =
        reduce_backend_event(&mut graph, BackendEvent::Capabilities { capabilities });
    assert!(matches!(
        events[0],
        EngineEvent::Capabilities { capabilities } if capabilities.virtual_devices
    ));
    let (events, _) = reduce_backend_event(
        &mut graph,
        BackendEvent::AudioSettings { rate: 44_100, quantum: 256, min_quantum: 32, max_quantum: 8_192 },
    );
    assert!(matches!(
        events[0],
        EngineEvent::AudioSettings { rate: 44_100, quantum: 256, min_quantum: 32, max_quantum: 8_192 }
    ));
}

#[test]
fn commands_keep_their_identifier_and_values() {
    let (mut graph, source, _) = populated_graph();
    let gain = GainDb::new(scalar(-6.0)).expect("a gain");
    let command = EngineCommand::new(EngineCommandKind::SetVolume { endpoint_id: source.id, gain });
    let id = command.id;
    assert!(matches!(
        into_backend_command(command, &mut graph),
        Ok(BackendCommand::SetVolume { command_id, endpoint_id, gain: sent })
            if command_id == id && endpoint_id == source.id && sent.same_value(gain)
    ));
    let command = EngineCommand::new(EngineCommandKind::SetStreamTuning {
        stream_rate: 96_000,
        buffer_frames: 128,
    });
    assert!(matches!(
        into_backend_command(command, &mut graph),
        Ok(BackendCommand::SetStreamTuning { stream_rate: 96_000, buffer_frames: 128, .. })
    ));
}

#[test]
fn errors_have_words_for_users_and_for_logs() {
    let error = AudioError::new(
        ErrorCode::Internal,
        ErrorSeverity::Critical,
        false,
        "Something went wrong.",
        "detail",
    );
    assert_eq!(error.message(), "detail");
    assert_eq!(panic_detail(Some("boom")), "boom");
    assert_eq!(panic_detail(None), "unknown panic");
    let failure = AudioError::thread_failure("worker", "boom");
    assert_eq!(failure.code, ErrorCode::ThreadFailure);
    assert!(failure.technical_message.contains("boom"));
}
