use std::sync::Arc;

use orion::backend::applications::{
    application_endpoint, buffer_duration, captured_process, enumerate_application_processes,
    enumerate_application_sessions, permission_or_tap_error, platform_capabilities, process_name,
    released_at, tap_device, tap_step_error, tapped_process, tapped_samples, Platform,
    ProcessReport, TapResource, TapStep,
};
use orion::backend::cpal_backend::{
    buffer_choices, enumerate_endpoints, find_device, rate_in_ranges, stream_config, BufferChoice,
    ConfigRange, DeviceConfig, DeviceReport,
};
use orion::backend::driver::{core_error, CommandStep, LoopClock};
use orion::backend::fake::FakeBackend;
use orion::backend::pipewire::{
    default_node_name, endpoint_from_global, endpoint_state, endpoint_type,
    inferred_channel_count, is_orion_processing_stream, stable_channel_ids, stable_endpoint_id,
    virtual_id_from_name, NodeState, DEFAULT_VIRTUAL_INPUT_ID, DEFAULT_VIRTUAL_OUTPUT_ID,
    ORION_ID_NAMESPACE,
};
use orion::backend::polled::{PollClock, PolledSession, HOTPLUG_INTERVAL};
use orion::backend::properties::{
    parse_property, property_is, property_is_true, spa_string, Properties,
};
use orion::backend::registry::{
    default_virtual_specs, GlobalObject, GlobalStep, ObjectKind, RegistryState, VirtualStep,
};
use orion::backend::runtimes::{LinkOutcome, StreamAction, StreamState};
use orion::backend::session::{
    ingress_pending, meter_frame, meter_level, plan_connect, update_endpoint_control, Session,
    CONNECT_RETRY_INTERVAL, CONNECT_RETRY_LIMIT, MAX_REBUILD_ATTEMPTS, METER_INTERVAL,
    REBUILD_COOLDOWN, VIRTUAL_RECONCILE_INTERVAL,
};
use orion::backend::streams::{
    capture_layout, capture_properties, latency_hint_value, playback_layout, playback_properties,
    read_block, read_sample, stream_channel_count, stream_state_code, stream_state_from_code,
    stream_target, wake_paused_stream, write_block, write_sample, ServerStreamState, StreamHealth,
    SAMPLE_BYTES, STALL_AFTER, STALL_GRACE, STREAM_CONNECTED, STREAM_FAILED, WAKE_INTERVAL,
};
use orion::backend::virtual_nodes::{loopback_arguments, virtual_input_properties};
use orion::backend::{
    default_backend, BackendCommand, BackendEvent, BackendStatus, EndpointChange, PlatformBackend,
};
use orion::domain::controls::{GainDb, NormalizedBalance};
use orion::domain::endpoint::{AudioEndpoint, EndpointIdentity, EndpointState, EndpointType};
use orion::domain::error::ErrorCode;
use orion::domain::ids::{ChannelId, CommandId, EndpointId, RouteId, VirtualDeviceId};
use orion::domain::route::{AudioRoute, RouteState};
use orion::realtime::controls::ControlHub;
use orion::scalar::Scalar;
use orion::table::Table;
use uuid::Uuid;

const ORION_APPLICATION_ID: &str = "io.github.gardun0.orion";

fn scalar(value: f32) -> Scalar {
    Scalar::from_bits(value.to_bits())
}

fn number(value: Scalar) -> f32 {
    f32::from_bits(value.bits)
}

fn properties(entries: &[(&str, &str)]) -> Properties {
    let mut properties = Properties::new();
    for (key, value) in entries {
        properties.add_entry(key, value);
    }
    properties
}

fn endpoint(endpoint_type: EndpointType, runtime_id: u32) -> AudioEndpoint {
    AudioEndpoint {
        id: EndpointId::new(),
        runtime_id: Some(runtime_id),
        device_id: None,
        virtual_device_id: None,
        identity: EndpointIdentity::new("pipewire"),
        name: "test".into(),
        description: "test".into(),
        endpoint_type,
        state: EndpointState::Running,
        channel_count: 2,
        sample_rate: None,
        is_default: false,
        channels: Arc::new(vec![ChannelId::new(), ChannelId::new()]),
        gain: GainDb::default(),
        muted: false,
        balance: NormalizedBalance::default(),
    }
}

fn route(source: EndpointId, destination: EndpointId) -> AudioRoute {
    AudioRoute {
        id: RouteId::new(),
        source,
        destination,
        state: RouteState::Connecting,
    }
}

#[test]
fn control_update_without_change_returns_none() {
    let mut state = RegistryState::new();
    let endpoint = endpoint(EndpointType::VirtualOutput, 7);
    let endpoint_id = endpoint.id;
    state.endpoints.insert(7, endpoint);
    let mut hub = ControlHub::default();

    let result = update_endpoint_control(
        &mut state,
        &mut hub,
        endpoint_id,
        EndpointChange::Muted { muted: true },
    )
    .expect("endpoint present");
    assert!(result.is_some(), "a real mute change emits an update");
    assert!(
        hub.endpoint(endpoint_id).is_muted(),
        "the hub publishes the control to engine callbacks"
    );

    let result = update_endpoint_control(
        &mut state,
        &mut hub,
        endpoint_id,
        EndpointChange::Muted { muted: true },
    )
    .expect("endpoint present");
    assert!(result.is_none(), "no-change mute must not echo an update");

    let result = update_endpoint_control(
        &mut state,
        &mut hub,
        endpoint_id,
        EndpointChange::Muted { muted: false },
    )
    .expect("endpoint present");
    assert!(result.is_some());
    assert!(!hub.endpoint(endpoint_id).is_muted());

    let unknown = update_endpoint_control(
        &mut state,
        &mut hub,
        EndpointId::new(),
        EndpointChange::Muted { muted: true },
    );
    assert_eq!(
        unknown.err().map(|error| error.code),
        Some(ErrorCode::EndpointNotFound)
    );
}

#[test]
fn classifies_routeable_node_directions() {
    assert_eq!(
        endpoint_type("Audio/Source", false),
        Some(EndpointType::PhysicalInput)
    );
    assert_eq!(
        endpoint_type("Audio/Sink", false),
        Some(EndpointType::PhysicalOutput)
    );
    assert_eq!(
        endpoint_type("Audio/Sink", true),
        Some(EndpointType::VirtualInput)
    );
    assert_eq!(
        endpoint_type("Audio/Source/Virtual", true),
        Some(EndpointType::VirtualOutput)
    );
    assert_eq!(
        endpoint_type("Stream/Output/Audio", false),
        Some(EndpointType::ApplicationOutput)
    );
    assert_eq!(
        endpoint_type("Stream/Input/Audio", false),
        Some(EndpointType::ApplicationInput)
    );
}

#[test]
fn stable_endpoint_ids_are_repeatable_and_directional() {
    let mut identity = EndpointIdentity::new("pipewire");
    identity.node_name = Some("alsa_input.usb-mic".into());
    let first = stable_endpoint_id(&identity, EndpointType::PhysicalInput);
    let second = stable_endpoint_id(&identity, EndpointType::PhysicalInput);
    let output = stable_endpoint_id(&identity, EndpointType::PhysicalOutput);

    assert_eq!(first, second);
    assert_ne!(first, output);
    let name = format!("{}||||||alsa_input.usb-mic|", EndpointType::PhysicalInput.name());
    let expected = Uuid::new_v5(&Uuid::from_u128(ORION_ID_NAMESPACE), name.as_bytes());
    assert_eq!(first.to_text(), expected.to_string());
}

#[test]
fn parses_and_clears_default_names() {
    assert_eq!(
        default_node_name(Some(r#"{ "name": "alsa_output.usb-dac" }"#)).as_deref(),
        Some("alsa_output.usb-dac")
    );
    assert_eq!(default_node_name(Some("invalid")), None);
    assert_eq!(default_node_name(None), None);
}

#[test]
fn infers_channels_from_position_before_node_info_arrives() {
    let props = properties(&[("audio.position", "[ FL, FR ]")]);
    assert_eq!(inferred_channel_count(&props), 2);
}

#[test]
fn excludes_orion_processing_streams_from_application_candidates() {
    let orion = properties(&[
        ("media.class", "Stream/Output/Audio"),
        ("application.id", ORION_APPLICATION_ID),
    ]);
    let external = properties(&[
        ("media.class", "Stream/Output/Audio"),
        ("application.id", "org.example.player"),
    ]);

    assert!(is_orion_processing_stream(&orion));
    assert!(!is_orion_processing_stream(&external));
}

#[test]
fn virtual_liveness_requires_endpoint_and_output_ingress() {
    let mut state = RegistryState::new();
    let virtual_id = VirtualDeviceId::from_uuid(DEFAULT_VIRTUAL_OUTPUT_ID);
    assert!(!state.virtual_is_live(virtual_id, EndpointType::VirtualOutput));

    let mut node = endpoint(EndpointType::VirtualOutput, 7);
    node.virtual_device_id = Some(virtual_id);
    node.name = "Orion Virtual Output 1".into();
    state.endpoints.insert(7, node.clone());
    assert!(!state.virtual_is_live(virtual_id, EndpointType::VirtualOutput));
    state.virtual_ingresses.insert(virtual_id, 8);
    assert!(state.virtual_is_live(virtual_id, EndpointType::VirtualOutput));

    node.endpoint_type = EndpointType::VirtualInput;
    let input_id = VirtualDeviceId::from_uuid(DEFAULT_VIRTUAL_INPUT_ID);
    node.virtual_device_id = Some(input_id);
    state.endpoints.insert(9, node);
    assert!(state.virtual_is_live(input_id, EndpointType::VirtualInput));
}

#[test]
fn read_sample_honors_padded_frame_stride() {
    let padded = [
        0.5_f32.to_le_bytes(),
        0.0_f32.to_le_bytes(),
        (-0.5_f32).to_le_bytes(),
        0.0_f32.to_le_bytes(),
    ]
    .concat();
    assert_eq!(number(read_sample(&padded, 0, 0, 8)), 0.5);
    assert_eq!(number(read_sample(&padded, 1, 0, 8)), -0.5);
}

#[test]
fn write_sample_round_trips_through_read_sample() {
    let mut bytes = vec![0_u8; 4 * SAMPLE_BYTES];
    write_sample(&mut bytes, 0, 0, 2 * SAMPLE_BYTES, scalar(0.25));
    write_sample(&mut bytes, 0, 1, 2 * SAMPLE_BYTES, scalar(-0.75));
    write_sample(&mut bytes, 1, 0, 2 * SAMPLE_BYTES, scalar(1.5));
    assert_eq!(number(read_sample(&bytes, 0, 0, 2 * SAMPLE_BYTES)), 0.25);
    assert_eq!(number(read_sample(&bytes, 0, 1, 2 * SAMPLE_BYTES)), -0.75);
    assert_eq!(number(read_sample(&bytes, 1, 0, 2 * SAMPLE_BYTES)), 1.5);
}

#[test]
fn latency_hint_uses_stream_rate() {
    assert_eq!(latency_hint_value(512, 48_000), "512/48000");
    assert_eq!(latency_hint_value(512, 768_000), "512/768000");
}

#[test]
fn blocks_are_read_and_written_in_the_layout_of_the_stream() {
    let mut bytes = vec![0_u8; 32];
    let samples: Vec<Scalar> = [0.1f32, 0.2, 0.3, 0.4].iter().map(|s| scalar(*s)).collect();
    write_block(&mut bytes, 1, 2, &samples);
    let mut read = vec![scalar(9.0)];
    read_block(&bytes, 1, 2, 2, 8, &mut read);
    assert_eq!(read, samples);
    assert_eq!(bytes[0..8], [0u8; 8]);
    let layout = capture_layout(64, 8, 48, 16, 2).expect("frames");
    assert_eq!((layout.start, layout.end), (8, 56));
    assert_eq!(layout.frame_stride, 16);
    assert_eq!(layout.total_frames, 3);
    let packed = capture_layout(64, 0, 64, 0, 2).expect("frames");
    assert_eq!(packed.frame_stride, 8);
    assert_eq!(packed.total_frames, 8);
    assert!(playback_layout(64, 2).is_some());
}

#[test]
fn streams_that_stop_are_noticed_after_a_while() {
    assert_eq!(stream_state_code(ServerStreamState::Streaming), STREAM_CONNECTED);
    assert_eq!(stream_state_from_code(STREAM_FAILED), StreamState::Failed);
    assert!(wake_paused_stream(ServerStreamState::Paused));
    assert!(!wake_paused_stream(ServerStreamState::Streaming));
    let mut health = StreamHealth::new(1_000);
    let start = 1_000 + STALL_GRACE;
    assert!(!health.is_stalled(StreamState::Connected, 5, start));
    assert!(!health.is_stalled(StreamState::Connected, 5, start + 1));
    assert!(health.is_stalled(StreamState::Connected, 5, start + 2 + STALL_AFTER));
    assert!(!health.is_stalled(StreamState::Connected, 6, start + 3 + STALL_AFTER));
    let mut young = StreamHealth::new(0);
    assert!(!young.is_stalled(StreamState::Connected, 0, STALL_GRACE - 1));
    assert!(!young.ensure_active(StreamState::Connected, WAKE_INTERVAL - 1));
}

#[test]
fn streams_name_what_they_play_from() {
    let mut source = endpoint(EndpointType::PhysicalInput, 44);
    source.identity.node_name = Some("mic".into());
    assert_eq!(stream_channel_count(&source).ok(), Some(2));
    assert_eq!(stream_target(&source, true).ok(), Some(44));
    source.runtime_id = None;
    assert!(stream_target(&source, true).is_err());
    let capture = capture_properties(&source, 256, 48_000);
    assert_eq!(capture.get("node.latency"), Some("256/48000"));
    assert_eq!(capture.get("application.id"), Some(ORION_APPLICATION_ID));
    let playback = playback_properties(&source, 256, 48_000);
    assert_eq!(playback.get("media.category"), Some("Playback"));
    source.channel_count = 0;
    assert!(stream_channel_count(&source).is_err());
}

#[test]
fn properties_are_read_as_the_server_writes_them() {
    let props = properties(&[("a", "1"), ("b", "x"), ("a", "2")]);
    assert_eq!(props.get("b"), Some("x"));
    assert_eq!(props.get("c"), None);
    assert_eq!(props.get_owned("b"), Some("x".to_string()));
    assert_eq!(parse_property(Some("42")), Some(42));
    assert_eq!(parse_property(Some("-1")), None);
    assert_eq!(parse_property(Some("4294967296")), None);
    assert!(property_is_true(Some("true")));
    assert!(property_is_true(Some("yes")));
    assert!(!property_is_true(Some("no")));
    assert!(property_is(Some("x"), "x"));
    assert!(!property_is(None, "x"));
    assert_eq!(spa_string(r#"a "b" \ c"#), r#""a \"b\" \\ c""#);
}

#[test]
fn a_node_becomes_an_endpoint_and_goes_again() {
    let props = properties(&[
        ("media.class", "Audio/Source"),
        ("node.name", "alsa_input.mic"),
        ("node.description", "Studio Mic"),
        ("audio.channels", "2"),
    ]);
    let endpoint = endpoint_from_global(31, &props).expect("an endpoint");
    assert_eq!(endpoint.endpoint_type, EndpointType::PhysicalInput);
    assert_eq!(endpoint.runtime_id, Some(31));
    assert_eq!(endpoint.name, "Studio Mic");
    assert_eq!(*endpoint.channels, stable_channel_ids(endpoint.id, 2));
    let mut state = RegistryState::new();
    let step = state.handle_global(GlobalObject {
        id: 31,
        kind: ObjectKind::Node,
        props: Some(props),
    });
    assert!(matches!(
        step,
        GlobalStep::ListenToNode { event: BackendEvent::EndpointAdded { endpoint: added } }
            if added.id == endpoint.id
    ));
    assert_eq!(state.endpoint(endpoint.id).map(|found| found.name), Some("Studio Mic".into()));
    let updated = state.node_info(31, NodeState::Suspended, None);
    assert!(matches!(
        updated,
        Some(BackendEvent::EndpointUpdated { endpoint }) if endpoint.state == EndpointState::Suspended
    ));
    let events = state.default_metadata(
        Some("default.audio.source"),
        Some(r#"{ "name": "alsa_input.mic" }"#),
    );
    assert_eq!(events.len(), 1);
    let (events, device) = state.handle_global_remove(31);
    assert!(device.is_none());
    assert!(matches!(
        events[..],
        [BackendEvent::EndpointRemoved { endpoint_id }] if endpoint_id == endpoint.id
    ));
    assert!(state.endpoint(endpoint.id).is_none());
}

#[test]
fn the_clock_is_told_when_it_is_complete() {
    let mut state = RegistryState::new();
    assert!(state.settings_metadata(Some("clock.rate"), Some("48000")).is_none());
    assert!(state.settings_metadata(Some("clock.force"), Some("1")).is_none());
    assert!(state.settings_metadata(None, Some("1")).is_none());
    let _ = state.settings_metadata(Some("clock.quantum"), Some("1024"));
    let _ = state.settings_metadata(Some("clock.min-quantum"), Some("32"));
    let event = state.settings_metadata(Some("clock.max-quantum"), Some("8192"));
    assert!(matches!(
        event,
        Some(BackendEvent::AudioSettings {
            rate: 48_000,
            quantum: 1_024,
            min_quantum: 32,
            max_quantum: 8_192
        })
    ));
    assert_eq!(endpoint_state(NodeState::Idle), EndpointState::Idle);
    assert_eq!(endpoint_state(NodeState::Creating), EndpointState::Available);
}

#[test]
fn virtual_devices_are_described_to_the_server() {
    let device = VirtualDeviceId::from_uuid(DEFAULT_VIRTUAL_OUTPUT_ID);
    let arguments = loopback_arguments(device, "Orion \"One\"");
    assert!(arguments.contains("media.class = Audio/Source"), "{arguments}");
    assert!(arguments.contains("node.description = \"Orion \\\"One\\\"\""), "{arguments}");
    assert!(arguments.contains(&device.to_text()));
    let props = virtual_input_properties(device, "In");
    assert_eq!(props.get("media.class"), Some("Audio/Sink"));
    assert_eq!(
        virtual_id_from_name(&format!("orion.virtual-output.{}", device.to_text()), "orion.virtual-output."),
        Some(device)
    );
    assert_eq!(virtual_id_from_name("other", "orion.virtual-output."), None);
    assert_eq!(default_virtual_specs().len(), 2);
}

#[test]
fn virtual_devices_are_created_once_and_only_deleted_by_their_maker() {
    let mut state = RegistryState::new();
    let device = VirtualDeviceId::new();
    assert!(matches!(
        state.prepare_virtual_node(device, EndpointType::VirtualInput),
        Ok(VirtualStep::Create { stale: false })
    ));
    state.virtual_node_created(device, EndpointType::VirtualInput);
    assert!(state.delete_virtual_node(device).is_err(), "the last of its kind stays");
    let second = VirtualDeviceId::new();
    state.virtual_node_created(second, EndpointType::VirtualInput);
    assert!(state.delete_virtual_node(second).is_ok());
    assert!(state.delete_virtual_node(second).is_err());
    assert!(state
        .prepare_virtual_node(device, EndpointType::PhysicalInput)
        .is_err());
    assert_eq!(state.forget_virtuals(), vec![device]);
    assert!(state.managed_virtuals.is_empty());
}

fn linked_session() -> (Session, AudioRoute) {
    let mut session = Session::new();
    let source = endpoint(EndpointType::PhysicalInput, 1);
    let destination = endpoint(EndpointType::PhysicalOutput, 2);
    let wanted = route(source.id, destination.id);
    session.registry.endpoints.insert(1, source);
    session.registry.endpoints.insert(2, destination);
    let command_id = CommandId::new();
    let step = session.handle_command(BackendCommand::Connect { command_id, route: wanted }, 0);
    let plan = match step {
        CommandStep::Link { plan, .. } => plan,
        _ => panic!("a route between known endpoints is linked"),
    };
    assert!(plan.open_capture);
    assert!(plan.open_bus);
    let (events, actions) =
        session.finish_connect(command_id, wanted, &plan, LinkOutcome::Linked, 0);
    assert!(actions.is_empty());
    assert_eq!(events.len(), 2);
    (session, wanted)
}

#[test]
fn a_route_is_linked_and_taken_apart() {
    let (mut session, wanted) = linked_session();
    assert_eq!(session.runtimes.all_routes().len(), 1);
    assert_eq!(
        session.runtimes.route_between(wanted.source, wanted.destination),
        Some(wanted.id)
    );
    session
        .runtimes
        .set_stream_state(wanted.source, true, StreamState::Connected);
    session
        .runtimes
        .set_stream_state(wanted.destination, false, StreamState::Connected);
    let events = session.runtimes.refresh_route_states();
    assert!(matches!(
        events[..],
        [BackendEvent::RouteUpdated { route }] if route.state == RouteState::Active
    ));
    let command_id = CommandId::new();
    let step =
        session.handle_command(BackendCommand::Disconnect { command_id, route_id: wanted.id }, 0);
    match step {
        CommandStep::Answer { events, actions, destroy: None, stop: false } => {
            assert!(events
                .iter()
                .any(|event| matches!(event, BackendEvent::RouteRemoved { route_id } if *route_id == wanted.id)));
            assert!(actions.iter().any(|action| matches!(
                action,
                StreamAction::CloseCapture { endpoint } if *endpoint == wanted.source
            )));
            assert!(actions.iter().any(|action| matches!(
                action,
                StreamAction::CloseBus { endpoint } if *endpoint == wanted.destination
            )));
        }
        _ => panic!("a known route is disconnected"),
    }
    assert!(session.runtimes.all_routes().is_empty());
}

#[test]
fn a_link_that_fails_leaves_nothing_behind() {
    let mut session = Session::new();
    let source = endpoint(EndpointType::PhysicalInput, 1);
    let destination = endpoint(EndpointType::PhysicalOutput, 2);
    let wanted = route(source.id, destination.id);
    session.registry.endpoints.insert(1, source);
    session.registry.endpoints.insert(2, destination);
    let plan = plan_connect(&session.registry, &session.runtimes, wanted).expect("a plan");
    let command_id = CommandId::new();
    let (events, actions) = session.finish_connect(
        command_id,
        wanted,
        &plan,
        LinkOutcome::RingFailed { detail: "no memory".into() },
        0,
    );
    assert!(events
        .iter()
        .any(|event| matches!(event, BackendEvent::CommandFailed { command_id: id, .. } if *id == command_id)));
    assert_eq!(actions.len(), 2);
    assert!(session.runtimes.captures.is_empty());
    assert!(session.runtimes.buses.is_empty());
    assert!(session.runtimes.all_routes().is_empty());
}

#[test]
fn a_route_to_an_output_without_its_ingress_is_tried_again() {
    let mut session = Session::new();
    let source = endpoint(EndpointType::PhysicalInput, 1);
    let mut destination = endpoint(EndpointType::VirtualOutput, 2);
    destination.virtual_device_id = Some(VirtualDeviceId::new());
    let wanted = route(source.id, destination.id);
    session.registry.endpoints.insert(1, source);
    session.registry.endpoints.insert(2, destination);
    let error = plan_connect(&session.registry, &session.runtimes, wanted)
        .err()
        .expect("not ready");
    assert!(ingress_pending(&error));
    let command_id = CommandId::new();
    let step = session.handle_command(BackendCommand::Connect { command_id, route: wanted }, 100);
    assert!(matches!(step, CommandStep::Answer { stop: false, .. }));
    assert_eq!(session.pending_connects.len(), 1);
    assert_eq!(session.due_retry(0, 100 + CONNECT_RETRY_INTERVAL - 1), None);
    let mut now = 100;
    let mut told = Vec::new();
    for _ in 0..CONNECT_RETRY_LIMIT + 1 {
        now += CONNECT_RETRY_INTERVAL;
        if let Some(at) = session.due_retry(0, now) {
            told.extend(session.retry_ended(at, Err(error.clone()), now));
        }
    }
    assert!(session.pending_connects.is_empty(), "given up after a while");
    assert!(told
        .iter()
        .any(|event| matches!(event, BackendEvent::CommandFailed { command_id: id, .. } if *id == command_id)));
}

#[test]
fn rebuilds_are_limited_until_the_stream_was_quiet() {
    let mut session = Session::new();
    let id = EndpointId::new();
    let mut now = 10_000;
    for _ in 0..MAX_REBUILD_ATTEMPTS {
        assert!(session.rebuild_due(id, now));
        now += 1;
    }
    assert!(!session.rebuild_due(id, now));
    assert!(session.rebuild_due(id, now + REBUILD_COOLDOWN + 1));
}

#[test]
fn polled_devices_are_looked_at_every_second() {
    assert_eq!(HOTPLUG_INTERVAL, 1_000);
    let mut clock = PollClock::new(50);
    let due = clock.tick(50 + METER_INTERVAL - 1);
    assert!(!due.meters && !due.devices);
    let due = clock.tick(50 + METER_INTERVAL);
    assert!(due.meters && !due.devices);
    let due = clock.tick(50 + HOTPLUG_INTERVAL - 1);
    assert!(due.meters && !due.devices);
    let due = clock.tick(50 + HOTPLUG_INTERVAL);
    assert!(!due.meters && due.devices);
    assert_eq!(clock.last_hotplug, 50 + HOTPLUG_INTERVAL);
    assert!(!clock.tick(0).devices, "a clock that runs back brings nothing on");
}

#[test]
fn what_is_due_comes_in_its_time() {
    let mut clock = LoopClock::new(0);
    let due = clock.tick(METER_INTERVAL);
    assert!(due.meters);
    assert!(!due.virtuals);
    let due = clock.tick(VIRTUAL_RECONCILE_INTERVAL);
    assert!(due.virtuals);
    let due = clock.tick(VIRTUAL_RECONCILE_INTERVAL + 1);
    assert!(!due.meters && !due.virtuals);
    let (event, fatal) = core_error(0, -32, "broken");
    assert!(fatal);
    assert!(matches!(event, BackendEvent::Error { error } if error.technical_message.contains("-32")));
    let (_, fatal) = core_error(5, -2, "no such object");
    assert!(!fatal);
}

#[test]
fn meter_frames_carry_a_level_for_each_channel() {
    let source = endpoint(EndpointType::PhysicalInput, 1);
    let frame = meter_frame(&source, &vec![scalar(0.5), scalar(7.0)], 3);
    assert_eq!(frame.sequence, 3);
    assert_eq!(frame.levels.len(), 2);
    let level = frame.levels.get(&source.channels[1]).expect("a level");
    assert_eq!(number(level.value()), number(meter_level(scalar(7.0)).value()));
    assert_eq!(number(meter_level(scalar(0.25)).value()), 0.25);
}

#[test]
fn fake_backend_answers_like_a_real_one() {
    let source = endpoint(EndpointType::PhysicalInput, 1);
    let destination = endpoint(EndpointType::PhysicalOutput, 2);
    let mut backend = FakeBackend::new(vec![source.clone(), destination.clone()]);
    let events = backend.startup_events();
    assert!(matches!(
        events[0],
        BackendEvent::Status { status: BackendStatus::Starting }
    ));
    assert!(matches!(
        events[events.len() - 1],
        BackendEvent::Status { status: BackendStatus::Running }
    ));
    let wanted = route(source.id, destination.id);
    let reply = backend.handle_command(BackendCommand::Connect {
        command_id: CommandId::new(),
        route: wanted,
    });
    assert!(reply.running);
    assert_eq!(backend.routes.len(), 1);
    let reply = backend.handle_command(BackendCommand::SetMute {
        command_id: CommandId::new(),
        endpoint_id: source.id,
        muted: true,
    });
    assert!(reply.events.iter().any(|event| matches!(
        event,
        BackendEvent::EndpointUpdated { endpoint } if endpoint.muted
    )));
    let command_id = CommandId::new();
    let reply = backend.handle_command(BackendCommand::Shutdown { command_id });
    assert!(!reply.running);
    assert!(matches!(
        reply.events[reply.events.len() - 1],
        BackendEvent::ShutdownComplete { command_id: id } if id == command_id
    ));
    assert!(matches!(
        backend.closing_event(),
        BackendEvent::Status { status: BackendStatus::Stopped }
    ));
}

#[test]
fn polled_devices_come_and_go() {
    let mut session = PolledSession::new(Table::new());
    let source = endpoint(EndpointType::PhysicalInput, 1);
    let mut current = Table::new();
    current.insert(source.id, source.clone());
    let (events, actions) = session.refresh_endpoints(&current);
    assert!(actions.is_empty());
    assert!(matches!(
        &events[..],
        [BackendEvent::EndpointAdded { endpoint }] if endpoint.id == source.id
    ));
    let (events, _) = session.refresh_endpoints(&current);
    assert!(events.is_empty());
    let (events, _) = session.refresh_endpoints(&Table::new());
    assert!(matches!(
        events[..],
        [BackendEvent::EndpointRemoved { endpoint_id }] if endpoint_id == source.id
    ));
    let missing = session.plan_connect(route(source.id, EndpointId::new()));
    assert!(missing.is_err());
    let step = session.handle_command(BackendCommand::CreateVirtual {
        command_id: CommandId::new(),
        virtual_device_id: VirtualDeviceId::new(),
        endpoint: Box::new(source),
    });
    match step {
        CommandStep::Answer { events, .. } => assert!(matches!(
            &events[..],
            [BackendEvent::CommandFailed { error, .. }] if error.code == ErrorCode::UnsupportedOperation
        )),
        _ => panic!("virtual devices need a driver here"),
    }
}

#[test]
fn devices_are_listed_for_both_directions() {
    let config = DeviceConfig { channels: 2, sample_rate: 44_100 };
    let device = DeviceReport {
        id: Some("dev-1".into()),
        name: "USB".into(),
        input: Some(config),
        output: Some(config),
    };
    let devices = vec![device];
    let endpoints = enumerate_endpoints(&devices, &Some("dev-1".into()), &None, &Vec::new());
    assert_eq!(endpoints.len(), 2);
    let first = endpoints.value_at(0);
    assert_eq!(first.endpoint_type, EndpointType::PhysicalInput);
    assert_eq!(first.sample_rate, Some(44_100));
    assert!(first.is_default);
    assert!(!endpoints.value_at(1).is_default);
    assert_eq!(find_device(&devices, first.id, true).ok(), Some(0));
    assert!(find_device(&devices, EndpointId::new(), true).is_err());
    let range = ConfigRange {
        channels: 2,
        float_samples: true,
        min_sample_rate: 44_100,
        max_sample_rate: 96_000,
    };
    assert!(rate_in_ranges(&vec![range], 2, 48_000));
    assert!(!rate_in_ranges(&vec![range], 1, 48_000));
    assert!(!rate_in_ranges(&vec![range], 2, 192_000));
    let settings = stream_config(Ok(config), &vec![range], 48_000, 256).expect("settings");
    assert_eq!(settings.sample_rate, 48_000);
    let settings = stream_config(Ok(config), &Vec::new(), 48_000, 256).expect("settings");
    assert_eq!(settings.sample_rate, 44_100);
    assert!(stream_config(Err("gone".into()), &Vec::new(), 48_000, 256).is_err());
    let choices = buffer_choices(256);
    assert!(matches!(choices[0], BufferChoice::Fixed { frames: 256 }));
    assert!(matches!(choices[choices.len() - 1], BufferChoice::Default));
}

#[test]
fn applications_are_sources() {
    assert_eq!(process_name("C:\\Programs\\player.exe").as_deref(), Some("player"));
    let reports = vec![
        ProcessReport { pid: 10, display: Some("player".into()), playing: true },
        ProcessReport { pid: 11, display: None, playing: true },
    ];
    let sessions = enumerate_application_sessions(&reports);
    assert!(!sessions.is_empty());
    let first = application_endpoint("wasapi", &reports[0]);
    assert_eq!(first.endpoint_type, EndpointType::ApplicationOutput);
    assert_eq!(captured_process(&first).ok(), Some(10));
    let processes = enumerate_application_processes(&reports, 10);
    assert!(processes.iter().all(|endpoint| endpoint.runtime_id != Some(10)));
    assert!(buffer_duration(480, 48_000) > 0);
    assert!(tapped_process(false, &first, &Vec::new()).is_err());
    assert_eq!(
        tapped_process(true, &first, &vec![(77, Some(10))]).ok(),
        Some(77)
    );
    let device = tap_device("player", 9);
    assert!(device.private);
    assert_eq!(tapped_samples(1, true, 2, 64), Some(16));
    assert_eq!(tapped_samples(0, true, 2, 64), None);
    assert_eq!(tapped_samples(1, false, 2, 64), None);
}

#[test]
fn a_tap_that_fails_is_taken_down_in_order() {
    assert!(released_at(TapStep::CreateTap).is_empty());
    let released = released_at(TapStep::StartDevice);
    let callback = released.iter().position(|r| *r == TapResource::Callback);
    let context = released.iter().position(|r| *r == TapResource::Context);
    assert!(callback < context);
    assert!(released.contains(&TapResource::Tap));
    let error = tap_step_error(TapStep::CreateTap, "player", 1, 2, -50);
    assert!(error.technical_message.contains("-50"), "{}", error.technical_message);
    let error = permission_or_tap_error("player", -50, "create");
    assert!(error.technical_message.contains("-50"));
}

#[test]
fn platforms_have_their_backends() {
    assert!(matches!(default_backend(Platform::Linux), PlatformBackend::PipeWire(_)));
    assert!(matches!(default_backend(Platform::Windows), PlatformBackend::Cpal(_)));
    assert!(platform_capabilities(Platform::Linux).virtual_devices);
    let old_mac = Platform::MacOs { taps_available: false };
    assert!(!platform_capabilities(old_mac).application_sources);
    assert!(platform_capabilities(Platform::Windows).application_sources);
}
