use std::sync::Arc;

use orion::domain::controls::{ChannelMode, GainDb, MeterLevel, NormalizedBalance};
use orion::domain::endpoint::{AudioEndpoint, EndpointIdentity, EndpointState, EndpointType};
use orion::domain::event::MeterFrame;
use orion::domain::ids::{ChannelId, EndpointId, EndpointPair, RouteId, VirtualDeviceId};
use orion::domain::route::{AudioRoute, RouteState};
use orion::dsp::eq::EQ_MAX_DB;
use orion::scalar::Scalar;
use orion::state::app::{
    AppState, ClockSettings, DEFAULT_OUTPUTS_PANEL_WIDTH, MIN_OUTPUTS_PANEL_WIDTH,
    MIN_SOURCES_PANEL_WIDTH,
};
use orion::state::labels::{
    editor_role_accepts_output, editor_role_accepts_source, editor_role_bus_kind,
    editor_role_source_kind, format_sample_rate, output_accepts, source_accepts, AppView, BusKind,
    ChannelColor, DeviceMonitorStatus, EditorRole, EditorStep, EqBand, FaderTarget, HubTab,
    KnobParam, SettingsSelect, SourceKind,
};
use orion::state::mixing::panel_width;
use orion::state::strips::{clamp_band_gain, clamp_delay, MAX_DELAY_MS};
use orion::table::Table;
use orion::text::truncate_label;

fn scalar(value: f32) -> Scalar {
    Scalar::from_bits(value.to_bits())
}

fn number(value: Scalar) -> f32 {
    f32::from_bits(value.bits)
}

fn pattern(bits: u32) -> f32 {
    f32::from_bits(bits)
}

fn differs(left: Scalar, right: Scalar) -> bool {
    (number(left) - number(right)).abs() > f32::EPSILON
}

fn move_fader(state: &mut AppState, target: FaderTarget, delta: f32) {
    let gain = match target {
        FaderTarget::Source(index) => state.sources[index].gain_db,
        FaderTarget::Output(index) => state.outputs[index].gain_db,
    };
    state.adjust_fader(target, scalar(number(gain) + delta));
}

fn set_source_delay(state: &mut AppState, index: usize, delay: f32) {
    let bounded = clamp_delay(scalar(delay));
    let changes = differs(state.sources[index].delay_ms, bounded);
    let shown = format!("{:.1}", number(bounded));
    state.set_source_delay(index, scalar(delay), changes, &shown);
}

fn set_output_delay(state: &mut AppState, index: usize, delay: f32) {
    let bounded = clamp_delay(scalar(delay));
    let changes = differs(state.outputs[index].delay_ms, bounded);
    let shown = format!("{:.1}", number(bounded));
    state.set_output_delay(index, scalar(delay), changes, &shown);
}

fn set_source_eq(state: &mut AppState, index: usize, band: EqBand, db: f32) {
    let bounded = clamp_band_gain(scalar(db));
    let changes = differs(state.sources[index].eq.get(band), bounded);
    let shown = format!("{:+.1}", number(bounded));
    state.set_source_eq(index, band, scalar(db), changes, &shown);
}

fn set_output_eq(state: &mut AppState, index: usize, band: EqBand, db: f32) {
    let bounded = clamp_band_gain(scalar(db));
    let changes = differs(state.outputs[index].eq.get(band), bounded);
    let shown = format!("{:+.1}", number(bounded));
    state.set_output_eq(index, band, scalar(db), changes, &shown);
}

fn set_panel(state: &mut AppState, width: f32, window: f32) {
    let room = scalar(window - pattern(MIN_SOURCES_PANEL_WIDTH));
    let bounded = panel_width(scalar(width), room);
    let changes = differs(state.outputs_panel_width, bounded);
    state.set_outputs_panel_width(scalar(width), room, changes);
}

fn endpoint(endpoint_type: EndpointType) -> AudioEndpoint {
    AudioEndpoint {
        id: EndpointId::new(),
        runtime_id: None,
        device_id: None,
        virtual_device_id: None,
        identity: EndpointIdentity::new("test"),
        name: "test endpoint".into(),
        description: "test endpoint".into(),
        endpoint_type,
        state: EndpointState::Available,
        channel_count: 2,
        sample_rate: Some(48_000),
        is_default: false,
        channels: Arc::new(vec![ChannelId::new(), ChannelId::new()]),
        gain: GainDb::default(),
        muted: false,
        balance: NormalizedBalance::default(),
    }
}

fn pair(source: EndpointId, destination: EndpointId) -> EndpointPair {
    EndpointPair { source, destination }
}

fn level(value: f32) -> MeterLevel {
    MeterLevel::new(scalar(value)).unwrap_or_default()
}

#[test]
fn faders_are_clamped_to_the_supported_range() {
    let mut state = AppState::new(Vec::new());

    move_fader(&mut state, FaderTarget::Source(0), 500.0);
    assert_eq!(number(state.sources[0].gain_db), 10.0);

    move_fader(&mut state, FaderTarget::Output(0), -500.0);
    assert_eq!(number(state.outputs[0].gain_db), -60.0);
}

#[test]
fn new_sources_have_a_route_slot_for_every_output() {
    let mut state = AppState::new(Vec::new());

    state.push_source_channel("Radio".into(), SourceKind::Application, ChannelColor::Pink);

    let source = state.sources.last().expect("source should be added");
    assert_eq!(source.routes.len(), state.outputs.len());
    assert!(source.routes.iter().all(|active| !active));
}

#[test]
fn channel_editor_validates_name_and_commits() {
    let mut state = AppState::new(Vec::new());
    state.open_channel_editor(true);
    let len = state
        .channel_editor
        .as_ref()
        .map(|editor| editor.name.chars().count())
        .unwrap_or(0);
    for _ in 0..len {
        state.editor_name_backspace();
    }
    assert!(
        state.take_channel_editor().is_none(),
        "empty name must not commit"
    );
    assert!(state.channel_editor.is_some());

    state.editor_name_input("Radio");
    let editor = state.take_channel_editor().expect("valid name commits");
    assert_eq!(editor.name, "Radio");
    assert!(state.channel_editor.is_none());

    let index = state.push_source_channel(
        editor.name.clone(),
        editor_role_source_kind(editor.role),
        editor.color,
    );
    assert_eq!(state.sources[index].name, "Radio");
}

#[test]
fn physical_role_is_capped_in_editor() {
    let mut state = AppState::new(Vec::new());
    state.push_source_channel("Mic A".into(), SourceKind::Physical, ChannelColor::Cyan);
    state.push_source_channel("Mic B".into(), SourceKind::Physical, ChannelColor::Blue);
    state.open_channel_editor(true);
    state.editor_set_role(EditorRole::Application);
    state.editor_set_role(EditorRole::Physical);
    assert_eq!(
        state.channel_editor.as_ref().map(|editor| editor.role),
        Some(EditorRole::Application),
        "physical role must stay unavailable once two mic channels exist"
    );
}

#[test]
fn editor_stepper_walks_type_endpoint_details() {
    let mut state = AppState::new(Vec::new());
    state.backend_capabilities.virtual_devices = true;
    state.open_channel_editor(false);
    assert_eq!(
        state.channel_editor.as_ref().map(|editor| editor.step),
        Some(EditorStep::Type)
    );

    state.editor_choose_role(EditorRole::Virtual);
    let editor = state.channel_editor.as_ref().expect("editor open");
    assert_eq!(editor.step, EditorStep::Type, "cards select, NEXT advances");
    assert_eq!(editor.role, EditorRole::Virtual);

    state.editor_next_step();
    assert_eq!(
        state.channel_editor.as_ref().map(|editor| editor.step),
        Some(EditorStep::Endpoint)
    );

    state.editor_next_step();
    state.editor_name_input(" Discord");
    state.editor_set_color(ChannelColor::Teal);
    let editor = state.channel_editor.as_ref().expect("editor open");
    assert_eq!(editor.step, EditorStep::Details);
    assert_eq!(editor.color, ChannelColor::Teal);

    state.editor_prev_step();
    assert_eq!(
        state.channel_editor.as_ref().map(|editor| editor.step),
        Some(EditorStep::Endpoint)
    );

    state.editor_prev_step();
    state.editor_choose_role(EditorRole::Physical);
    assert_eq!(
        state
            .channel_editor
            .as_ref()
            .and_then(|editor| editor.endpoint),
        None
    );
}

#[test]
fn output_editor_only_offers_physical_and_virtual() {
    assert_eq!(
        EditorRole::OUTPUTS,
        [EditorRole::Physical, EditorRole::Virtual]
    );
    assert_eq!(
        EditorRole::SOURCES,
        [
            EditorRole::Physical,
            EditorRole::Application,
            EditorRole::Virtual
        ]
    );
}

#[test]
fn removing_a_bus_drops_its_routing_column() {
    let mut state = AppState::new(Vec::new());
    let index = state.push_output_bus("Discord".into(), BusKind::Virtual, ChannelColor::Teal);
    assert_eq!(state.sources[0].routes.len(), 3);

    state.remove_output_bus(index);

    assert_eq!(state.outputs.len(), 2);
    assert!(state.sources.iter().all(|source| source.routes.len() == 2));
}

#[test]
fn formats_fractional_and_integer_sample_rates() {
    assert_eq!(format_sample_rate(44_100), "44.1 kHz");
    assert_eq!(format_sample_rate(352_800), "352.8 kHz");
    assert_eq!(format_sample_rate(768_000), "768 kHz");
}

#[test]
fn formatted_rates_agree_with_the_rounding_of_the_numbers() {
    for rate in [
        1u32, 49, 50, 51, 1_050, 1_150, 1_250, 8_250, 11_025, 22_050, 37_950, 44_056, 47_952,
        176_450, 4_294_967_295, 4_294_967_250, 123_450, 999_950, 999_949,
    ] {
        assert_eq!(
            format_sample_rate(rate),
            format!("{:.1} kHz", rate as f64 / 1_000.0)
        );
    }
    assert_eq!(format_sample_rate(0), "0 kHz");
}

#[test]
fn truncates_long_labels_with_ellipsis() {
    assert_eq!(truncate_label("short", 16), "short");
    assert_eq!(
        truncate_label("ORION VIRTUAL INPUT 1", 16),
        "ORION VIRTUAL I…"
    );
}

#[test]
fn scene_capture_and_apply_restores_controls_by_name() {
    let mut state = AppState::new(Vec::new());
    state.sources[0].gain_db = scalar(-12.0);
    state.sources[0].muted = true;
    state.capture_scene(0);

    state.sources[0].gain_db = scalar(0.0);
    state.sources[0].muted = false;
    let applied = state.apply_scene_controls(0);

    assert_eq!(number(state.sources[0].gain_db), -12.0);
    assert!(state.sources[0].muted);
    assert_eq!(state.selected_scene, 0);
    assert!(applied.is_some());
    assert!(state.scenes[0].snapshot.is_some(), "scene holds a snapshot");
}

#[test]
fn live_capture_silently_tracks_the_selected_scene() {
    let mut state = AppState::new(Vec::new());
    state.scene_editor = Some("Live".into());
    state.commit_scene_editor();
    let scene = state.scenes.len() - 1;
    assert_eq!(state.selected_scene, scene);

    state.sources[0].gain_db = scalar(-9.0);
    let before = state.status_message.clone();
    state.capture_scene_silent(scene);
    assert_eq!(state.status_message, before, "silent capture stays silent");
    assert!(
        (number(state.scenes[scene].snapshot.as_ref().unwrap().sources[0].gain_db) - -9.0).abs()
            < f32::EPSILON,
        "selected scene tracks the mixer"
    );
}

#[test]
fn delete_scene_keeps_selection_in_range() {
    let mut state = AppState::new(Vec::new());
    state.scene_editor = Some("Two".into());
    state.commit_scene_editor();
    assert_eq!(state.scenes.len(), 2);
    state.selected_scene = 1;

    state.delete_scene(1);
    assert_eq!(state.scenes.len(), 1);
    assert_eq!(state.selected_scene, 0, "selection clamps after delete");
    assert!(state.dirty);

    state.delete_scene(0);
    assert_eq!(state.scenes.len(), 1);
}

#[test]
fn channel_editor_keeps_a_selected_endpoint_through_the_flow() {
    let physical_out = endpoint(EndpointType::PhysicalOutput);
    let mut state = AppState::new(Vec::new());
    state.backend_capabilities.virtual_devices = true;
    state.set_devices(vec![physical_out.clone()]);

    state.open_channel_editor(false);
    assert_eq!(
        state.channel_editor.as_ref().map(|editor| editor.role),
        Some(EditorRole::Virtual)
    );

    state.editor_choose_role(EditorRole::Physical);
    state.editor_select_endpoint(physical_out.id);
    state.editor_next_step();

    let editor = state.take_channel_editor().expect("editor completes");
    assert_eq!(
        editor.endpoint,
        Some(physical_out.id),
        "the selected endpoint survives to commit (no virtual creation)"
    );
    assert_eq!(editor.role, EditorRole::Physical);
}

#[test]
fn channel_editor_virtual_role_without_selection_creates_virtual() {
    let mut state = AppState::new(Vec::new());
    state.backend_capabilities.virtual_devices = true;
    state.open_channel_editor(false);
    state.editor_next_step();
    state.editor_next_step();
    let editor = state.take_channel_editor().expect("editor completes");
    assert_eq!(editor.endpoint, None, "no selection means: create virtual");
    assert_eq!(editor.role, EditorRole::Virtual);
}

#[test]
fn virtual_role_requires_backend_capability() {
    let mut state = AppState::new(Vec::new());
    assert!(!state.backend_capabilities.virtual_devices);
    state.open_channel_editor(false);
    assert_eq!(
        state.channel_editor.as_ref().map(|editor| editor.role),
        Some(EditorRole::Physical)
    );
    state.editor_set_role(EditorRole::Virtual);
    assert_eq!(
        state.channel_editor.as_ref().map(|editor| editor.role),
        Some(EditorRole::Physical),
        "unsupported virtual role must not be selectable"
    );

    let mut state = AppState::new(Vec::new());
    state.backend_capabilities.virtual_devices = true;
    state.open_channel_editor(false);
    assert_eq!(
        state.channel_editor.as_ref().map(|editor| editor.role),
        Some(EditorRole::Virtual)
    );
}

#[test]
fn channel_mode_cycles_and_persists_in_scenes() {
    let mut state = AppState::new(Vec::new());
    assert_eq!(state.sources[0].mode, ChannelMode::Auto);

    state.cycle_channel_mode(true, 0);
    assert_eq!(state.sources[0].mode, ChannelMode::Stereo);
    state.cycle_channel_mode(true, 0);
    assert_eq!(state.sources[0].mode, ChannelMode::Mono);
    assert!(state.dirty);
    assert_eq!(state.status_message, "'Mic 1' channel mode: MN");

    for _ in 0..4 {
        state.cycle_channel_mode(true, 0);
    }
    assert_eq!(state.sources[0].mode, ChannelMode::Auto);

    state.set_channel_mode(false, 0, ChannelMode::Swap);
    state.capture_scene(0);
    state.set_channel_mode(false, 0, ChannelMode::Auto);
    state.apply_scene_controls(0);
    assert_eq!(state.outputs[0].mode, ChannelMode::Swap);
}

#[test]
fn eq_bands_clamp_and_mark_dirty() {
    let mut state = AppState::new(Vec::new());
    set_source_eq(&mut state, 0, EqBand::Low, 6.0);
    set_output_eq(&mut state, 0, EqBand::High, -3.5);
    assert!((number(state.sources[0].eq.low_db) - 6.0).abs() < f32::EPSILON);
    assert!((number(state.outputs[0].eq.high_db) - (-3.5)).abs() < f32::EPSILON);
    assert!(state.dirty);
    assert_eq!(state.status_message, "'Speakers' High -3.5 dB");

    set_source_eq(&mut state, 0, EqBand::Mid, 99.0);
    assert!(
        (number(state.sources[0].eq.mid_db) - pattern(EQ_MAX_DB)).abs() < f32::EPSILON,
        "clamped to +12 dB"
    );
    assert_eq!(pattern(EQ_MAX_DB), 12.0);

    state.capture_scene(0);
    set_source_eq(&mut state, 0, EqBand::Low, 0.0);
    state.apply_scene_controls(0);
    assert!((number(state.sources[0].eq.low_db) - 6.0).abs() < f32::EPSILON);
}

#[test]
fn desired_routes_follow_endpoint_bindings() {
    let source = endpoint(EndpointType::PhysicalInput);
    let destination = endpoint(EndpointType::PhysicalOutput);
    let mut state = AppState::new(Vec::new());
    state.set_devices(vec![source.clone(), destination.clone()]);
    state.sources[0].endpoint_id = Some(source.id);
    state.outputs[0].endpoint_id = Some(destination.id);

    state.set_desired_routes_from_pairs(&vec![pair(source.id, destination.id)]);
    assert!(state.route_desired(0, 0));
    assert_eq!(
        state.desired_route_pairs(),
        vec![pair(source.id, destination.id)]
    );

    state.set_desired_routes_from_pairs(&vec![pair(EndpointId::new(), destination.id)]);
    assert!(!state.route_desired(0, 0));

    state.toggle_route_intent(0, 0);
    let new_source = endpoint(EndpointType::PhysicalInput);
    state.set_devices(vec![new_source.clone(), destination.clone()]);
    state.sources[0].endpoint_id = Some(new_source.id);
    assert!(state.route_desired(0, 0), "intent survives rebinding");
    assert_eq!(
        state.desired_route_pairs(),
        vec![pair(new_source.id, destination.id)],
        "desired pair follows the new endpoint"
    );
}

#[test]
fn source_delay_clamps_and_marks_dirty() {
    let mut state = AppState::new(Vec::new());
    assert!((number(state.sources[0].delay_ms) - 0.0).abs() < f32::EPSILON);

    set_source_delay(&mut state, 0, 120.5);
    assert!((number(state.sources[0].delay_ms) - 120.5).abs() < f32::EPSILON);
    assert!(state.dirty);
    assert_eq!(state.status_message, "'Mic 1' delayed 120.5 ms");

    set_source_delay(&mut state, 0, 99_999.0);
    assert!((number(state.sources[0].delay_ms) - pattern(MAX_DELAY_MS)).abs() < f32::EPSILON);
    assert_eq!(pattern(MAX_DELAY_MS), 500.0);

    set_source_delay(&mut state, 0, -10.0);
    assert!((number(state.sources[0].delay_ms) - 0.0).abs() < f32::EPSILON);
    assert_eq!(state.status_message, "'Mic 1' delay off");
}

#[test]
fn scene_capture_round_trips_source_and_output_delays() {
    let source = endpoint(EndpointType::PhysicalInput);
    let destination = endpoint(EndpointType::PhysicalOutput);
    let mut state = AppState::new(Vec::new());
    state.set_devices(vec![source, destination]);
    set_source_delay(&mut state, 0, 33.0);
    set_output_delay(&mut state, 0, 75.0);
    state.capture_scene(0);

    set_source_delay(&mut state, 0, 0.0);
    set_output_delay(&mut state, 0, 0.0);
    state.apply_scene_controls(0);
    assert!((number(state.sources[0].delay_ms) - 33.0).abs() < f32::EPSILON);
    assert!((number(state.outputs[0].delay_ms) - 75.0).abs() < f32::EPSILON);
}

#[test]
fn outputs_panel_width_clamps_to_usable_mixer() {
    let mut state = AppState::new(Vec::new());
    assert!(
        (number(state.outputs_panel_width) - pattern(DEFAULT_OUTPUTS_PANEL_WIDTH)).abs()
            < f32::EPSILON
    );
    assert_eq!(pattern(DEFAULT_OUTPUTS_PANEL_WIDTH), 584.0);

    set_panel(&mut state, 100.0, 1_440.0);
    assert!(
        (number(state.outputs_panel_width) - pattern(MIN_OUTPUTS_PANEL_WIDTH)).abs()
            < f32::EPSILON
    );
    assert_eq!(pattern(MIN_OUTPUTS_PANEL_WIDTH), 320.0);
    assert_eq!(pattern(MIN_SOURCES_PANEL_WIDTH), 400.0);

    set_panel(&mut state, 5_000.0, 1_440.0);
    assert!((number(state.outputs_panel_width) - 1_040.0).abs() < f32::EPSILON);

    set_panel(&mut state, 600.0, 1_440.0);
    assert!((number(state.outputs_panel_width) - 600.0).abs() < f32::EPSILON);
    assert!(state.dirty);

    set_panel(&mut state, 600.0, 100.0);
    assert_eq!(number(state.outputs_panel_width), 320.0);
}

#[test]
fn output_delay_and_audio_settings_validate_and_override_detection() {
    let mut state = AppState::new(Vec::new());

    state.apply_audio_settings(48_000, 1_024);
    assert_eq!(state.sample_rate, 48_000);
    assert_eq!(state.buffer_size, 1_024);
    assert_eq!(
        state.status_message,
        "PipeWire clock detected: 48 kHz · 1024 frames"
    );

    state.set_sample_rate(96_000);
    assert_eq!(state.status_message, "Route sample rate set to 96 kHz");
    state.set_buffer_size(256);
    assert_eq!(
        state.status_message,
        "Route buffer set to 256 frames for new routes"
    );
    set_output_delay(&mut state, 0, 80.0);
    assert_eq!(state.sample_rate, 96_000);
    assert_eq!(state.buffer_size, 256);
    assert!((number(state.outputs[0].delay_ms) - 80.0).abs() < f32::EPSILON);
    assert!(state.dirty);
    assert!(state.audio_overridden);

    state.apply_audio_settings(44_100, 2_048);
    assert_eq!(state.sample_rate, 96_000);
    assert_eq!(state.buffer_size, 256);
    assert_eq!(
        state.detected_audio,
        Some(ClockSettings { rate: 44_100, quantum: 2_048 })
    );

    state.dirty = false;
    state.set_sample_rate(123_456);
    set_output_delay(&mut state, 0, 9_999.0);
    assert_eq!(state.sample_rate, 96_000);
    assert!((number(state.outputs[0].delay_ms) - pattern(MAX_DELAY_MS)).abs() < f32::EPSILON);
    assert!(state.dirty, "delay clamp still records the change");

    state.reset_audio_settings();
    assert!(!state.audio_overridden);
    assert_eq!(state.sample_rate, 44_100);
    assert_eq!(state.buffer_size, 2_048);
    state.apply_audio_settings(48_000, 512);
    assert_eq!(
        state.sample_rate, 48_000,
        "detection applies again after reset"
    );
}

#[test]
fn route_events_drive_matrix_state() {
    let source = endpoint(EndpointType::PhysicalInput);
    let destination = endpoint(EndpointType::PhysicalOutput);
    let mut state = AppState::new(Vec::new());
    state.set_devices(vec![source.clone(), destination.clone()]);
    let route_id = RouteId::new();

    state.toggle_route_intent(0, 0);
    assert!(state.route_desired(0, 0));
    assert_eq!(
        state.desired_route_pairs(),
        vec![pair(source.id, destination.id)]
    );
    assert!(!state.route_connected(0, 0), "intent alone is not live");

    state.upsert_route(AudioRoute {
        id: route_id,
        source: source.id,
        destination: destination.id,
        state: RouteState::Active,
    });
    assert!(state.route_connected(0, 0));

    state.remove_route(route_id);
    assert!(state.route_desired(0, 0), "intent survives disconnects");
    assert!(!state.route_connected(0, 0));
}

#[test]
fn meter_frames_update_bound_source_strip() {
    let source = endpoint(EndpointType::PhysicalInput);
    let mut state = AppState::new(Vec::new());
    state.set_devices(vec![source.clone()]);
    let mut levels = Table::new();
    levels.insert(source.channels[0], level(0.25));
    levels.insert(source.channels[1], level(0.75));

    state.apply_meter(&MeterFrame {
        endpoint_id: source.id,
        sequence: 1,
        levels,
    });

    assert_eq!(number(state.sources[0].meter_l), 0.25);
    assert_eq!(number(state.sources[0].meter_r), 0.75);
}

#[test]
fn meter_frames_update_bound_output_bus() {
    let destination = endpoint(EndpointType::PhysicalOutput);
    let mut state = AppState::new(Vec::new());
    state.set_devices(vec![destination.clone()]);
    let mut levels = Table::new();
    levels.insert(destination.channels[0], level(0.4));
    levels.insert(destination.channels[1], level(0.6));

    let changes = state.apply_meter(&MeterFrame {
        endpoint_id: destination.id,
        sequence: 1,
        levels,
    });

    assert_eq!(number(state.outputs[0].meter_l), 0.4);
    assert_eq!(number(state.outputs[0].meter_r), 0.6);
    assert_eq!(changes.len(), 2);
    assert_eq!(number(changes[0].before), 0.0);
    assert_eq!(number(changes[0].after), 0.4);
    assert_eq!(number(changes[1].after), 0.6);
}

#[test]
fn meter_frames_of_one_channel_fill_both_sides() {
    let mut source = endpoint(EndpointType::PhysicalInput);
    source.channels = Arc::new(vec![ChannelId::new()]);
    let mut state = AppState::new(vec![source.clone()]);
    let mut levels = Table::new();
    levels.insert(source.channels[0], level(0.5));
    state.apply_meter(&MeterFrame { endpoint_id: source.id, sequence: 1, levels });
    assert_eq!(number(state.sources[0].meter_l), 0.5);
    assert_eq!(number(state.sources[0].meter_r), 0.5);

    let unknown = state.apply_meter(&MeterFrame {
        endpoint_id: EndpointId::new(),
        sequence: 2,
        levels: Table::new(),
    });
    assert!(unknown.is_empty());
    assert_eq!(number(state.sources[0].meter_l), 0.5);
}

#[test]
fn application_picker_assignment_survives_inventory_refresh() {
    let application = endpoint(EndpointType::ApplicationOutput);
    let physical = endpoint(EndpointType::PhysicalInput);
    let mut state = AppState::new(Vec::new());
    state.set_devices(vec![physical.clone(), application.clone()]);

    assert!(state.assign_source_endpoint(2, application.id));
    assert_eq!(state.sources[2].endpoint_id, Some(application.id));
    assert!(state.sources[2].online);
    assert!(!state.assign_source_endpoint(2, physical.id));

    state.set_devices(vec![application.clone(), physical]);
    assert_eq!(state.sources[2].endpoint_id, Some(application.id));
    assert_eq!(state.sources[2].detail, application.name);
    assert_eq!(state.sources[2].name, "Game");
}

#[test]
fn assigned_endpoint_stays_selected_when_it_disconnects() {
    let mut application = endpoint(EndpointType::ApplicationOutput);
    let mut state = AppState::new(Vec::new());
    state.set_devices(vec![application.clone()]);
    assert!(state.assign_source_endpoint(2, application.id));

    application.state = EndpointState::Disconnected;
    state.set_devices(vec![application.clone()]);

    assert_eq!(state.sources[2].endpoint_id, Some(application.id));
    assert!(!state.sources[2].online);
}

#[test]
fn bound_device_is_kept_and_marked_offline_when_it_disappears() {
    let application = endpoint(EndpointType::ApplicationOutput);
    let mut state = AppState::new(Vec::new());
    state.set_devices(vec![application.clone()]);
    assert!(state.assign_source_endpoint(2, application.id));
    assert_eq!(
        state.sources[2].endpoint_name.as_deref(),
        Some("test endpoint")
    );

    state.set_devices(Vec::new());

    assert_eq!(state.sources[2].endpoint_id, Some(application.id));
    assert!(!state.sources[2].online);
    assert_eq!(state.sources[2].detail, "test endpoint — offline");

    state.set_devices(vec![application.clone()]);
    assert!(state.sources[2].online);
    assert_eq!(state.sources[2].detail, "test endpoint");
}

#[test]
fn default_template_is_minimal_and_customizable() {
    let state = AppState::new(Vec::new());
    assert_eq!(state.sources.len(), 3);
    assert_eq!(state.sources[0].name, "Mic 1");
    assert_eq!(state.sources[1].name, "Desktop");
    assert_eq!(state.sources[2].name, "Game");
    assert_eq!(state.sources[0].color, ChannelColor::Cyan);
    assert_eq!(state.sources[2].color, ChannelColor::Green);
    assert_eq!(state.outputs.len(), 2);
    assert_eq!(state.outputs[0].name, "Speakers");
    assert_eq!(state.outputs[1].name, "Stream");
    assert_eq!(state.outputs[1].color, ChannelColor::Purple);
}

#[test]
fn auto_binds_system_defaults_without_renaming_channels() {
    let mut mic = endpoint(EndpointType::PhysicalInput);
    mic.is_default = true;
    mic.name = "UMC Mic".into();
    let mut speakers = endpoint(EndpointType::PhysicalOutput);
    speakers.is_default = true;
    speakers.name = "G560".into();
    let mut stream = endpoint(EndpointType::VirtualOutput);
    stream.name = "Orion Virtual Output 1".into();
    let mut desktop_input = endpoint(EndpointType::VirtualInput);
    desktop_input.name = "Orion Virtual Input 1".into();

    let mut state = AppState::new(Vec::new());
    state.set_devices(vec![
        mic.clone(),
        speakers.clone(),
        stream.clone(),
        desktop_input.clone(),
    ]);

    assert_eq!(state.sources[0].endpoint_id, Some(mic.id));
    assert_eq!(state.sources[0].name, "Mic 1");
    assert_eq!(state.sources[0].detail, "UMC Mic");
    assert_eq!(state.sources[1].endpoint_id, Some(desktop_input.id));
    assert_eq!(state.sources[1].name, "Desktop");
    assert_eq!(state.outputs[0].endpoint_id, Some(speakers.id));
    assert_eq!(state.outputs[0].name, "Speakers");
    assert_eq!(state.outputs[1].endpoint_id, Some(stream.id));
    assert_eq!(state.outputs[1].name, "Stream");
    assert_eq!(state.sources.len(), 3);
    assert_eq!(state.outputs.len(), 2);
    assert_eq!(
        state.status_message,
        "Ready · 1 inputs · 1 outputs · 1 virtual in · 1 virtual out"
    );
}

#[test]
fn channel_color_cycles_and_marks_dirty() {
    let mut state = AppState::new(Vec::new());
    assert!(!state.dirty);
    state.set_source_color(0, ChannelColor::Amber);
    assert_eq!(state.sources[0].color, ChannelColor::Amber);
    assert!(state.dirty);
    assert_eq!(ChannelColor::Pink.next(), ChannelColor::Cyan);
    assert_eq!(ChannelColor::Cyan.next(), ChannelColor::Blue);
}

#[test]
fn rename_modal_edits_and_commits_name() {
    let mut state = AppState::new(Vec::new());
    state.open_rename(true, 2);
    assert_eq!(state.rename_buffer, "Game");
    state.rename_backspace();
    state.rename_input(" Stream");
    state.commit_rename();
    assert_eq!(state.sources[2].name, "Gam Stream");
    assert!(state.rename_target.is_none());

    state.open_rename(false, 0);
    state.cancel_rename();
    assert_eq!(state.outputs[0].name, "Speakers");
}

#[test]
fn user_binding_is_not_replaced_by_inventory_refresh() {
    let default_mic = {
        let mut endpoint = endpoint(EndpointType::PhysicalInput);
        endpoint.is_default = true;
        endpoint.name = "Default Mic".into();
        endpoint
    };
    let other_mic = {
        let mut endpoint = endpoint(EndpointType::PhysicalInput);
        endpoint.name = "Other Mic".into();
        endpoint
    };
    let mut state = AppState::new(Vec::new());
    state.set_devices(vec![default_mic.clone(), other_mic.clone()]);
    assert_eq!(state.sources[0].endpoint_id, Some(default_mic.id));

    assert!(state.assign_source_endpoint(0, other_mic.id));
    state.set_devices(vec![default_mic, other_mic.clone()]);
    assert_eq!(state.sources[0].endpoint_id, Some(other_mic.id));
    assert_eq!(state.sources[0].detail, "Other Mic");
}

#[test]
fn devices_are_listed_default_first_then_by_name_in_any_case() {
    let mut low = endpoint(EndpointType::PhysicalInput);
    low.name = "beta".into();
    let mut high = endpoint(EndpointType::PhysicalInput);
    high.name = "ALPHA".into();
    let mut chosen = endpoint(EndpointType::PhysicalInput);
    chosen.name = "zulu".into();
    chosen.is_default = true;
    let state = AppState::new(vec![low, high, chosen]);
    let names: Vec<&str> = state.devices.iter().map(|device| device.name.as_str()).collect();
    assert_eq!(names, vec!["zulu", "ALPHA", "beta"]);
}

#[test]
fn devices_come_change_and_go() {
    let mut mic = endpoint(EndpointType::PhysicalInput);
    let mut state = AppState::new(Vec::new());
    state.upsert_device(mic.clone());
    assert_eq!(state.devices.len(), 1);
    assert_eq!(state.sources[0].endpoint_id, Some(mic.id));
    mic.name = "Renamed".into();
    state.upsert_device(mic.clone());
    assert_eq!(state.devices.len(), 1);
    assert_eq!(state.sources[0].detail, "Renamed");
    state.remove_device(mic.id);
    assert!(state.devices.is_empty());
    assert_eq!(state.sources[0].endpoint_id, None);
    assert_eq!(state.sources[0].detail, "Select a microphone");
}

#[test]
fn a_route_that_failed_is_not_live() {
    let source = endpoint(EndpointType::PhysicalInput);
    let destination = endpoint(EndpointType::PhysicalOutput);
    let mut state = AppState::new(vec![source.clone(), destination.clone()]);
    let mut route = AudioRoute {
        id: RouteId::new(),
        source: source.id,
        destination: destination.id,
        state: RouteState::Connecting,
    };
    state.upsert_route(route);
    assert!(state.route_connected(0, 0));
    assert_eq!(state.channel_route_count(true, 0), 1);
    assert_eq!(state.channel_route_count(false, 0), 1);
    assert_eq!(state.channel_route_count(false, 1), 0);
    route.state = RouteState::Failed;
    state.upsert_route(route);
    assert!(!state.route_connected(0, 0));
    assert_eq!(state.channel_route_count(true, 0), 0);
}

#[test]
fn only_the_routes_of_one_identifier_go() {
    let ids: Vec<RouteId> = (0..3).map(|_| RouteId::new()).collect();
    let ends: Vec<EndpointId> = (0..4).map(|_| EndpointId::new()).collect();
    let mut state = AppState::new(Vec::new());
    for (at, id) in [(0usize, ids[0]), (1, ids[1]), (2, ids[0])] {
        state.upsert_route(AudioRoute {
            id,
            source: ends[at],
            destination: ends[3],
            state: RouteState::Active,
        });
    }
    state.remove_route(ids[0]);
    assert_eq!(state.active_routes.len(), 1);
    assert_eq!(
        state.active_routes.get(&pair(ends[1], ends[3])),
        Some(&ids[1])
    );
    state.remove_route(ids[2]);
    assert_eq!(state.active_routes.len(), 1);
}

#[test]
fn a_virtual_device_tells_who_uses_it() {
    let owner = VirtualDeviceId::new();
    let mut input = endpoint(EndpointType::VirtualInput);
    input.virtual_device_id = Some(owner);
    let mut output = endpoint(EndpointType::VirtualOutput);
    output.virtual_device_id = Some(owner);
    let mut state = AppState::new(vec![input.clone(), output.clone()]);
    state.upsert_route(AudioRoute {
        id: RouteId::new(),
        source: input.id,
        destination: EndpointId::new(),
        state: RouteState::Active,
    });
    let (users, routes) = state.virtual_usage(owner);
    assert_eq!(users, vec!["Desktop".to_string(), "Stream (B1)".to_string()]);
    assert_eq!(routes, 1);
    let (others, none) = state.virtual_usage(VirtualDeviceId::new());
    assert!(others.is_empty());
    assert_eq!(none, 0);
}

#[test]
fn bindings_can_be_cleared_and_stay_cleared() {
    let mic = endpoint(EndpointType::PhysicalInput);
    let speakers = endpoint(EndpointType::PhysicalOutput);
    let mut state = AppState::new(vec![mic.clone(), speakers.clone()]);
    state.clear_source_binding(0);
    state.clear_output_binding(0);
    state.set_devices(vec![mic, speakers.clone()]);
    assert_eq!(state.sources[0].endpoint_id, None);
    assert_eq!(state.outputs[0].endpoint_id, None);
    assert_eq!(state.sources[0].detail, "Select a microphone");
    assert_eq!(state.outputs[0].detail, "Select a physical output");
    assert!(state.assign_output_endpoint(0, speakers.id));
    assert!(!state.assign_output_endpoint(1, speakers.id));
    assert!(!state.assign_output_endpoint(7, speakers.id));
    assert!(state.outputs[0].user_bound);
}

#[test]
fn new_strips_get_names_codes_and_free_colors() {
    let mut state = AppState::new(Vec::new());
    state.open_channel_editor(true);
    let editor = state.channel_editor.as_ref().expect("open");
    assert_eq!(editor.name, "Mic 2");
    assert_eq!(editor.color, ChannelColor::Purple);
    state.cancel_channel_editor();
    assert!(state.channel_editor.is_none());

    state.push_source_channel("Mic 2".into(), SourceKind::Physical, ChannelColor::Purple);
    state.open_channel_editor(true);
    let editor = state.channel_editor.as_ref().expect("open");
    assert_eq!(editor.role, EditorRole::Application);
    assert_eq!(editor.name, "Source 5");

    let bus = state.push_output_bus("Head".into(), BusKind::Physical, ChannelColor::Red);
    assert_eq!(state.outputs[bus].code, "A2");
    let bus = state.push_output_bus("Call".into(), BusKind::Virtual, ChannelColor::Red);
    assert_eq!(state.outputs[bus].code, "B2");
    state.open_channel_editor(false);
    assert_eq!(
        state.channel_editor.as_ref().map(|editor| editor.name.as_str()),
        Some("Output 5")
    );

    for color in ChannelColor::ALL {
        state.push_source_channel("x".into(), SourceKind::Virtual, color);
    }
    state.open_channel_editor(true);
    assert_eq!(
        state.channel_editor.as_ref().map(|editor| editor.color),
        Some(ChannelColor::ALL[12 % 8])
    );
    state.remove_source(0);
    assert_eq!(state.sources.len(), 11);
    assert_eq!(state.sources[0].name, "Desktop");
}

#[test]
fn names_take_text_while_they_are_short() {
    let mut state = AppState::new(Vec::new());
    state.open_rename(true, 0);
    state.rename_input("0123456789012345678");
    assert_eq!(state.rename_buffer, "Mic 10123456789012345678");
    state.rename_input("x");
    assert_eq!(state.rename_buffer, "Mic 10123456789012345678");
    state.rename_backspace();
    state.rename_input("long tail");
    assert_eq!(state.rename_buffer, "Mic 1012345678901234567long tail");
    state.rename_target = None;
    state.rename_input("y");
    assert_eq!(state.rename_buffer, "Mic 1012345678901234567long tail");
    state.commit_rename();
    assert_eq!(state.rename_buffer, "");
    assert_eq!(state.sources[0].name, "Mic 1");
    state.rename_backspace();
    assert_eq!(state.rename_buffer, "");
    state.rename_channel(false, 1, "  Air  ");
    assert_eq!(state.outputs[1].name, "Air");
    state.rename_channel(true, 1, " \t ");
    assert_eq!(state.sources[1].name, "Desktop");
    assert_eq!(state.rename_target, None);
    state.open_rename(true, 99);
    assert_eq!(state.rename_target, None);
}

#[test]
fn scenes_are_named_in_their_form() {
    let mut state = AppState::new(Vec::new());
    state.scene_editor = Some(String::new());
    state.scene_editor_input(" Nightly");
    state.scene_editor_backspace();
    state.commit_scene_editor();
    assert_eq!(state.scenes[1].name, "Nightl");
    assert_eq!(state.scenes[1].description, "3 sources · 2 outputs · 0 routes");
    assert_eq!(state.status_message, "Scene 'Nightl' saved");
    state.scene_editor = Some("   ".into());
    state.commit_scene_editor();
    assert_eq!(state.scenes.len(), 2);
    assert_eq!(state.scene_editor, None);
    assert_eq!(state.apply_scene_controls(0), None);
    assert_eq!(state.apply_scene_controls(9), None);
}

#[test]
fn wanted_routes_come_back_with_a_scene() {
    let source = endpoint(EndpointType::PhysicalInput);
    let destination = endpoint(EndpointType::PhysicalOutput);
    let mut state = AppState::new(vec![source.clone(), destination.clone()]);
    state.toggle_route_intent(0, 0);
    state.toggle_route_intent(2, 1);
    state.capture_scene(0);
    state.toggle_route_intent(0, 0);
    state.toggle_route_intent(0, 1);
    assert_eq!(state.apply_scene_controls(0), Some(()));
    assert!(state.route_desired(0, 0));
    assert!(!state.route_desired(0, 1));
    assert!(!state.route_desired(2, 1), "its ends are bound to nothing");
    assert!(state.sources[0].user_bound);
}

#[test]
fn a_route_switched_twice_is_as_it_was() {
    let mut state = AppState::new(Vec::new());
    state.toggle_route_intent(1, 1);
    assert!(state.route_desired(1, 1));
    state.toggle_route_intent(1, 1);
    assert!(!state.route_desired(1, 1));
    state.dirty = false;
    state.toggle_route_intent(1, 9);
    state.toggle_route_intent(9, 1);
    assert!(!state.dirty);
}

#[test]
fn monitor_state_is_told() {
    let mut state = AppState::new(Vec::new());
    assert_eq!(state.status_message, "Connecting to PipeWire…");
    assert!(matches!(
        state.device_monitor_status,
        DeviceMonitorStatus::Connecting
    ));
    state.set_device_monitor_connected();
    assert_eq!(
        state.status_message,
        "Connected to PipeWire — discovering audio devices…"
    );
    state.set_device_monitor_error("no server".into());
    assert_eq!(state.status_message, "no server");
    assert!(matches!(
        &state.device_monitor_status,
        DeviceMonitorStatus::Error(error) if error == "no server"
    ));
    state.set_hub_tab(HubTab::VirtualDevices);
    assert_eq!(state.hub_tab, HubTab::VirtualDevices);
}

#[test]
fn labels_and_kinds() {
    let views: Vec<&str> = AppView::ALL.iter().map(|view| view.label()).collect();
    assert_eq!(views.len(), 5);
    assert_eq!(KnobParam::Delay.label(), "DELAY");
    assert_eq!(SettingsSelect::BufferSize.label(), "buffer");
    assert!(source_accepts(SourceKind::Desktop, EndpointType::VirtualInput));
    assert!(source_accepts(SourceKind::Desktop, EndpointType::ApplicationOutput));
    assert!(!source_accepts(SourceKind::Physical, EndpointType::VirtualInput));
    assert!(output_accepts(BusKind::Virtual, EndpointType::VirtualOutput));
    assert!(!output_accepts(BusKind::Physical, EndpointType::VirtualOutput));
    assert!(editor_role_accepts_source(
        EditorRole::Application,
        EndpointType::ApplicationOutput
    ));
    assert!(!editor_role_accepts_output(
        EditorRole::Application,
        EndpointType::VirtualOutput
    ));
    assert_eq!(editor_role_bus_kind(EditorRole::Application), BusKind::Virtual);
    assert_eq!(ChannelColor::with_value(ChannelColor::Red.value()), Some(ChannelColor::Red));
    assert_eq!(ChannelColor::with_value(1), None);
}

#[test]
fn bus_colors_and_cells_are_read_back() {
    let mut state = AppState::new(Vec::new());
    state.set_output_color(1, ChannelColor::Pink);
    assert_eq!(state.outputs[1].color, ChannelColor::Pink);
    assert!(state.dirty);
    state.set_output_color(9, ChannelColor::Red);
    assert_eq!(state.physical_source_count(), 1);
    assert!(state.cell_pair(0, 0).is_none(), "nothing is bound yet");
    assert!(!state.route_desired(2, 1));
    state.toggle_route_intent(2, 1);
    assert!(state.route_desired(2, 1));
    assert!(!state.route_desired(2, 0));
    state.toggle_route_intent(2, 1);
    assert!(!state.route_desired(2, 1));
}
