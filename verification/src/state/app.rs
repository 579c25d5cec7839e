//! The state behind the views: devices, channels, buses, wanted routes and the
//! open forms.
use vstd::prelude::*;

use super::inventory::{arrange_devices, follow_outputs, follow_sources, online_endpoints};
use super::inventory;
use super::labels::{
    AppView, BusKind, ChannelColor, DeviceMonitorStatus, EditorRole, EditorStep,
    EndpointPickerTarget, FaderTarget, HubTab, KnobTarget, SettingsSelect, SourceKind,
};
use super::scenes::{is_wanted, pairs_wanted, route_ends, want_pairs, Scene, SceneModel};
use super::scenes;
use super::strips::{find_device, OutputBus, OutputModel, SourceModel, SourceStrip};
use super::strips;
use crate::backend::properties;
use crate::domain::capability::BackendCapabilities;
use crate::domain::endpoint::{AudioEndpoint, EndpointType};
use crate::domain::ids::{EndpointId, EndpointPair, RouteId, VirtualDeviceId};
use crate::domain::route::{AudioRoute, RouteState};
use crate::model::routing_matrix::MatrixCell;
use crate::scalar::Scalar;
use crate::table::Table;
use crate::table;
use crate::text::push_decimal;
use crate::text;

verus! {

/// The width of the outputs panel at first, as a pattern: 584 pixels.
pub const DEFAULT_OUTPUTS_PANEL_WIDTH: u32 = 0x4412_0000;

/// The least width of the outputs panel, as a pattern: 320 pixels.
pub const MIN_OUTPUTS_PANEL_WIDTH: u32 = 0x43a0_0000;

/// The least width of the sources panel, as a pattern: 400 pixels.
pub const MIN_SOURCES_PANEL_WIDTH: u32 = 0x43c8_0000;

/// At most so many channels take a microphone.
pub const MAX_PHYSICAL_INPUT_CHANNELS: usize = 2;

/// The rate before one is reported.
pub const DEFAULT_SAMPLE_RATE: u32 = 48_000;

/// The buffer before one is reported.
pub const DEFAULT_BUFFER_SIZE: u32 = 512;

/// A fader that is being dragged.
#[derive(Clone, Copy, Debug, PartialEq, Eq, Structural)]
pub struct FaderDrag {
    pub target: FaderTarget,
    pub last_y: Scalar,
}

/// A knob that is being dragged.
#[derive(Clone, Copy, Debug, PartialEq, Eq, Structural)]
pub struct KnobDrag {
    pub target: KnobTarget,
    pub last_y: Scalar,
}

/// The divider of the mixer that is being dragged.
#[derive(Clone, Copy, Debug, PartialEq, Eq, Structural)]
pub struct DividerDrag {
    pub last_x: Scalar,
}

/// An open selector of the settings, and where it was opened.
#[derive(Clone, Copy, Debug, PartialEq, Eq, Structural)]
pub struct SettingsDropdown {
    pub select: SettingsSelect,
    pub anchor_x: Scalar,
    pub anchor_y: Scalar,
}

/// The form that makes a channel or a bus.
#[derive(Debug)]
pub struct ChannelEditor {
    pub is_source: bool,
    pub step: EditorStep,
    pub role: EditorRole,
    pub name: String,
    pub color: ChannelColor,
    pub endpoint: Option<EndpointId>,
}

#[verifier::ext_equal]
pub struct EditorModel {
    pub is_source: bool,
    pub step: EditorStep,
    pub role: EditorRole,
    pub name: Seq<char>,
    pub color: ChannelColor,
    pub endpoint: Option<EndpointId>,
}

impl View for ChannelEditor {
    type V = EditorModel;

    open spec fn view(&self) -> EditorModel {
        EditorModel {
            is_source: self.is_source,
            step: self.step,
            role: self.role,
            name: self.name@,
            color: self.color,
            endpoint: self.endpoint,
        }
    }
}

/// The view of a form that may be open.
pub open spec fn editor_model(editor: Option<ChannelEditor>) -> Option<EditorModel> {
    match editor {
        Some(editor) => Some(editor@),
        None => None,
    }
}

/// A channel or a bus, by its place.
#[derive(Clone, Copy, Debug, PartialEq, Eq, Structural)]
pub struct StripPlace {
    pub source: bool,
    pub index: usize,
}

/// The rate and the buffer of a clock.
#[derive(Clone, Copy, Debug, PartialEq, Eq, Structural)]
pub struct ClockSettings {
    pub rate: u32,
    pub quantum: u32,
}

/// What the views show and change.
pub struct AppState {
    pub active_view: AppView,
    pub devices: Vec<AudioEndpoint>,
    pub device_monitor_status: DeviceMonitorStatus,
    pub sources: Vec<SourceStrip>,
    pub outputs: Vec<OutputBus>,
    pub scenes: Vec<Scene>,
    pub selected_scene: usize,
    /// Something is to be saved.
    pub dirty: bool,
    pub master_muted: bool,
    pub sample_rate: u32,
    pub buffer_size: u32,
    pub status_message: String,
    /// The clock that the backend reported.
    pub detected_audio: Option<ClockSettings>,
    /// The user chose a rate or a buffer, which a report does not replace.
    pub audio_overridden: bool,
    pub drag: Option<FaderDrag>,
    pub knob_drag: Option<KnobDrag>,
    pub divider_drag: Option<DividerDrag>,
    pub active_routes: Table<EndpointPair, RouteId>,
    /// Why the last attempt at a route failed.
    pub route_errors: Table<MatrixCell, String>,
    pub endpoint_picker: Option<EndpointPickerTarget>,
    pub rename_target: Option<StripPlace>,
    pub rename_buffer: String,
    /// What waits for a word before it is deleted.
    pub confirm_delete_virtual: Option<VirtualDeviceId>,
    pub confirm_delete_channel: Option<StripPlace>,
    pub confirm_delete_scene: Option<usize>,
    pub channel_editor: Option<ChannelEditor>,
    /// The name of a scene that is being made.
    pub scene_editor: Option<String>,
    pub scene_dropdown_open: bool,
    pub outputs_panel_width: Scalar,
    pub settings_dropdown: Option<SettingsDropdown>,
    pub hub_tab: HubTab,
    /// What the backend can do: what it cannot is not offered.
    pub backend_capabilities: BackendCapabilities,
}

/// The state, with its texts and lists as sequences.
#[verifier::ext_equal]
pub struct AppModel {
    pub active_view: AppView,
    pub devices: Seq<AudioEndpoint>,
    pub device_monitor_status: DeviceMonitorStatus,
    pub sources: Seq<SourceModel>,
    pub outputs: Seq<OutputModel>,
    pub scenes: Seq<SceneModel>,
    pub selected_scene: int,
    pub dirty: bool,
    pub master_muted: bool,
    pub sample_rate: u32,
    pub buffer_size: u32,
    pub status_message: Seq<char>,
    pub detected_audio: Option<ClockSettings>,
    pub audio_overridden: bool,
    pub drag: Option<FaderDrag>,
    pub knob_drag: Option<KnobDrag>,
    pub divider_drag: Option<DividerDrag>,
    pub active_routes: Seq<(EndpointPair, RouteId)>,
    pub route_errors: Seq<(MatrixCell, String)>,
    pub endpoint_picker: Option<EndpointPickerTarget>,
    pub rename_target: Option<StripPlace>,
    pub rename_buffer: Seq<char>,
    pub confirm_delete_virtual: Option<VirtualDeviceId>,
    pub confirm_delete_channel: Option<StripPlace>,
    pub confirm_delete_scene: Option<usize>,
    pub channel_editor: Option<EditorModel>,
    pub scene_editor: Option<Seq<char>>,
    pub scene_dropdown_open: bool,
    pub outputs_panel_width: Scalar,
    pub settings_dropdown: Option<SettingsDropdown>,
    pub hub_tab: HubTab,
    pub backend_capabilities: BackendCapabilities,
}

impl View for AppState {
    type V = AppModel;

    open spec fn view(&self) -> AppModel {
        AppModel {
            active_view: self.active_view,
            devices: self.devices@,
            device_monitor_status: self.device_monitor_status,
            sources: inventory::source_models(self.sources@),
            outputs: inventory::output_models(self.outputs@),
            scenes: scenes::scene_models(self.scenes@),
            selected_scene: self.selected_scene as int,
            dirty: self.dirty,
            master_muted: self.master_muted,
            sample_rate: self.sample_rate,
            buffer_size: self.buffer_size,
            status_message: self.status_message@,
            detected_audio: self.detected_audio,
            audio_overridden: self.audio_overridden,
            drag: self.drag,
            knob_drag: self.knob_drag,
            divider_drag: self.divider_drag,
            active_routes: self.active_routes.entries(),
            route_errors: self.route_errors.entries(),
            endpoint_picker: self.endpoint_picker,
            rename_target: self.rename_target,
            rename_buffer: self.rename_buffer@,
            confirm_delete_virtual: self.confirm_delete_virtual,
            confirm_delete_channel: self.confirm_delete_channel,
            confirm_delete_scene: self.confirm_delete_scene,
            channel_editor: editor_model(self.channel_editor),
            scene_editor: properties::held(self.scene_editor),
            scene_dropdown_open: self.scene_dropdown_open,
            outputs_panel_width: self.outputs_panel_width,
            settings_dropdown: self.settings_dropdown,
            hub_tab: self.hub_tab,
            backend_capabilities: self.backend_capabilities,
        }
    }
}

impl AppModel {
    /// Every channel has a place for every bus, there is a scene, and the
    /// selected one exists.
    pub open spec fn wf(self) -> bool {
        &&& scenes::rectangular(self.sources, self.outputs.len())
        &&& 0 <= self.selected_scene < self.scenes.len()
    }
}

/// The channels of a new mixer.
pub open spec fn source_template(buses: nat) -> Seq<SourceModel> {
    seq![
        strips::new_source(
            "Mic 1"@,
            "System default input"@,
            SourceKind::Physical,
            ChannelColor::Cyan,
            buses,
        ),
        strips::new_source(
            "Desktop"@,
            "Orion Virtual Input 1"@,
            SourceKind::Desktop,
            ChannelColor::Blue,
            buses,
        ),
        strips::new_source(
            "Game"@,
            "Select application"@,
            SourceKind::Application,
            ChannelColor::Green,
            buses,
        ),
    ]
}

/// The buses of a new mixer.
pub open spec fn output_template() -> Seq<OutputModel> {
    seq![
        strips::new_output(
            "A1"@,
            "Speakers"@,
            "System default output"@,
            BusKind::Physical,
            ChannelColor::Cyan,
        ),
        strips::new_output(
            "B1"@,
            "Stream"@,
            "Orion Virtual Output 1"@,
            BusKind::Virtual,
            ChannelColor::Purple,
        ),
    ]
}

fn default_source_template(buses: usize) -> (sources: Vec<SourceStrip>)
    ensures
        inventory::source_models(sources@) == source_template(buses as nat),
{
    let mut sources: Vec<SourceStrip> = Vec::new();
    sources.push(
        SourceStrip::new(
            "Mic 1",
            "System default input",
            SourceKind::Physical,
            ChannelColor::Cyan,
            buses,
        ),
    );
    sources.push(
        SourceStrip::new(
            "Desktop",
            "Orion Virtual Input 1",
            SourceKind::Desktop,
            ChannelColor::Blue,
            buses,
        ),
    );
    sources.push(
        SourceStrip::new(
            "Game",
            "Select application",
            SourceKind::Application,
            ChannelColor::Green,
            buses,
        ),
    );
    assert(inventory::source_models(sources@) =~= source_template(buses as nat));
    sources
}

fn default_output_template() -> (outputs: Vec<OutputBus>)
    ensures
        inventory::output_models(outputs@) == output_template(),
{
    let mut outputs: Vec<OutputBus> = Vec::new();
    outputs.push(
        OutputBus::new(
            "A1",
            "Speakers",
            "System default output",
            BusKind::Physical,
            ChannelColor::Cyan,
        ),
    );
    outputs.push(
        OutputBus::new(
            "B1",
            "Stream",
            "Orion Virtual Output 1",
            BusKind::Virtual,
            ChannelColor::Purple,
        ),
    );
    assert(inventory::output_models(outputs@) =~= output_template());
    outputs
}

/// The mixer before any device is known.
pub open spec fn first_model() -> AppModel {
    AppModel {
        active_view: AppView::Mixer,
        devices: Seq::empty(),
        device_monitor_status: DeviceMonitorStatus::Connecting,
        sources: source_template(2),
        outputs: output_template(),
        scenes: seq![
            SceneModel {
                name: "Studio"@,
                description: "Default mixer state"@,
                snapshot: None,
            },
        ],
        selected_scene: 0,
        dirty: false,
        master_muted: false,
        sample_rate: DEFAULT_SAMPLE_RATE,
        buffer_size: DEFAULT_BUFFER_SIZE,
        status_message: "Connecting to PipeWire…"@,
        detected_audio: None,
        audio_overridden: false,
        drag: None,
        knob_drag: None,
        divider_drag: None,
        active_routes: Seq::empty(),
        route_errors: Seq::empty(),
        endpoint_picker: None,
        rename_target: None,
        rename_buffer: Seq::empty(),
        confirm_delete_virtual: None,
        confirm_delete_channel: None,
        confirm_delete_scene: None,
        channel_editor: None,
        scene_editor: None,
        scene_dropdown_open: false,
        outputs_panel_width: Scalar { bits: DEFAULT_OUTPUTS_PANEL_WIDTH },
        settings_dropdown: None,
        hub_tab: HubTab::Channels,
        backend_capabilities: BackendCapabilities {
            virtual_devices: false,
            application_sources: false,
        },
    }
}

/// What is told when the devices changed.
pub open spec fn ready_text(inputs: nat, outputs: nat, virtual_in: nat, virtual_out: nat) -> Seq<
    char,
> {
    "Ready · "@ + text::decimal(inputs) + " inputs · "@ + text::decimal(outputs) + " outputs · "@
        + text::decimal(virtual_in) + " virtual in · "@ + text::decimal(virtual_out)
        + " virtual out"@
}

fn ready_message(inputs: usize, outputs: usize, virtual_in: usize, virtual_out: usize) -> (message:
    String)
    ensures
        message@ == ready_text(
            inputs as nat,
            outputs as nat,
            virtual_in as nat,
            virtual_out as nat,
        ),
{
    let mut message = "Ready · ".to_owned();
    push_decimal(&mut message, inputs as u64);
    message.append(" inputs · ");
    push_decimal(&mut message, outputs as u64);
    message.append(" outputs · ");
    push_decimal(&mut message, virtual_in as u64);
    message.append(" virtual in · ");
    push_decimal(&mut message, virtual_out as u64);
    message.append(" virtual out");
    message
}

/// The state with other devices: they are put in order, and the channels and
/// buses follow them.
pub open spec fn with_devices(state: AppModel, devices: Seq<AudioEndpoint>) -> AppModel {
    let sorted = inventory::arranged(devices);
    AppModel {
        devices: sorted,
        sources: Seq::new(
            state.sources.len(),
            |i: int| inventory::followed_source(state.sources, i, sorted, state.outputs.len()),
        ),
        outputs: Seq::new(
            state.outputs.len(),
            |i: int| inventory::followed_output(state.outputs, i, sorted),
        ),
        status_message: ready_text(
            inventory::online_of(sorted, EndpointType::PhysicalInput).len(),
            inventory::online_of(sorted, EndpointType::PhysicalOutput).len(),
            inventory::online_of(sorted, EndpointType::VirtualInput).len(),
            inventory::online_of(sorted, EndpointType::VirtualOutput).len(),
        ),
        ..state
    }
}

/// The devices with one put in the place of the one with its identifier, or
/// behind all others.
pub open spec fn devices_with(devices: Seq<AudioEndpoint>, endpoint: AudioEndpoint) -> Seq<
    AudioEndpoint,
> {
    match strips::device_place(devices, endpoint.id) {
        Some(at) => devices.update(at, endpoint),
        None => devices.push(endpoint),
    }
}

/// The devices without those with an identifier.
pub open spec fn devices_without(devices: Seq<AudioEndpoint>, id: EndpointId) -> Seq<AudioEndpoint>
    decreases devices.len(),
{
    if devices.len() == 0 {
        Seq::empty()
    } else {
        let before = devices_without(devices.drop_last(), id);
        if devices.last().id == id {
            before
        } else {
            before.push(devices.last())
        }
    }
}

/// The entries with one under a key: in the place of the one that was there,
/// or behind all others.
pub open spec fn routes_with(
    routes: Seq<(EndpointPair, RouteId)>,
    pair: EndpointPair,
    route: RouteId,
) -> Seq<(EndpointPair, RouteId)> {
    if table::holds_key(routes, pair) {
        routes.update(table::place_of(routes, pair), (pair, route))
    } else {
        routes.push((pair, route))
    }
}

/// The entries without the one under a key.
pub open spec fn routes_without_pair(
    routes: Seq<(EndpointPair, RouteId)>,
    pair: EndpointPair,
) -> Seq<(EndpointPair, RouteId)> {
    if table::holds_key(routes, pair) {
        routes.remove(table::place_of(routes, pair))
    } else {
        routes
    }
}

/// The entries without those of a route.
pub open spec fn routes_without(routes: Seq<(EndpointPair, RouteId)>, route: RouteId) -> Seq<
    (EndpointPair, RouteId),
>
    decreases routes.len(),
{
    if routes.len() == 0 {
        Seq::empty()
    } else {
        let before = routes_without(routes.drop_last(), route);
        if routes.last().1 == route {
            before
        } else {
            before.push(routes.last())
        }
    }
}

/// The state with the intent of one cell of the matrix turned over.
pub open spec fn toggled(state: AppModel, source: int, output: int) -> AppModel {
    if 0 <= source < state.sources.len() && 0 <= output < state.sources[source].routes.len() {
        let strip = state.sources[source];
        AppModel {
            sources: state.sources.update(
                source,
                SourceModel {
                    routes: strip.routes.update(output, !strip.routes[output]),
                    ..strip
                },
            ),
            dirty: true,
            ..state
        }
    } else {
        state
    }
}

/// The state with another list of wanted routes.
pub open spec fn wanting(state: AppModel, pairs: Seq<EndpointPair>) -> AppModel {
    AppModel {
        sources: scenes::with_pairs(state.sources, state.outputs, pairs),
        dirty: true,
        ..state
    }
}

impl AppState {
    /// A mixer with the channels and buses that it starts with.
    pub fn new(devices: Vec<AudioEndpoint>) -> (state: Self)
        ensures
            state@ == (if devices@.len() == 0 {
                first_model()
            } else {
                with_devices(first_model(), devices@)
            }),
            state@.wf(),
    {
        let outputs = default_output_template();
        assert(outputs@.len() == inventory::output_models(outputs@).len());
        let sources = default_source_template(outputs.len());
        let mut scene_list: Vec<Scene> = Vec::new();
        scene_list.push(
            Scene {
                name: "Studio".to_owned(),
                description: "Default mixer state".to_owned(),
                snapshot: None,
            },
        );
        let mut state = AppState {
            active_view: AppView::Mixer,
            devices: Vec::new(),
            device_monitor_status: DeviceMonitorStatus::Connecting,
            sources,
            outputs,
            scenes: scene_list,
            selected_scene: 0,
            dirty: false,
            master_muted: false,
            sample_rate: DEFAULT_SAMPLE_RATE,
            buffer_size: DEFAULT_BUFFER_SIZE,
            status_message: "Connecting to PipeWire…".to_owned(),
            detected_audio: None,
            audio_overridden: false,
            drag: None,
            knob_drag: None,
            divider_drag: None,
            active_routes: Table::new(),
            route_errors: Table::new(),
            endpoint_picker: None,
            rename_target: None,
            rename_buffer: String::new(),
            confirm_delete_virtual: None,
            confirm_delete_channel: None,
            confirm_delete_scene: None,
            channel_editor: None,
            scene_editor: None,
            scene_dropdown_open: false,
            outputs_panel_width: Scalar { bits: DEFAULT_OUTPUTS_PANEL_WIDTH },
            settings_dropdown: None,
            hub_tab: HubTab::Channels,
            backend_capabilities: BackendCapabilities::default(),
        };
        assert(state@.scenes =~= first_model().scenes);
        assert(state@ =~= first_model());
        if devices.len() > 0 {
            state.set_devices(devices);
        }
        state
    }

    /// The monitor of the devices works.
    pub fn set_device_monitor_connected(&mut self)
        ensures
            final(self)@ == (AppModel {
                device_monitor_status: DeviceMonitorStatus::Connected,
                status_message: "Connected to PipeWire — discovering audio devices…"@,
                ..old(self)@
            }),
            old(self)@.wf() ==> final(self)@.wf(),
    {
        self.device_monitor_status = DeviceMonitorStatus::Connected;
        self.status_message = "Connected to PipeWire — discovering audio devices…".to_owned();
    }

    /// The monitor of the devices failed.
    pub fn set_device_monitor_error(&mut self, error: String)
        ensures
            final(self)@ == (AppModel {
                device_monitor_status: DeviceMonitorStatus::Error(error),
                status_message: error@,
                ..old(self)@
            }),
            old(self)@.wf() ==> final(self)@.wf(),
    {
        self.device_monitor_status = DeviceMonitorStatus::Error(error.clone());
        self.status_message = error;
    }

    /// Takes a new list of devices.
    pub fn set_devices(&mut self, devices: Vec<AudioEndpoint>)
        ensures
            final(self)@ == with_devices(old(self)@, devices@),
            scenes::rectangular(final(self)@.sources, final(self)@.outputs.len()),
            old(self)@.wf() ==> final(self)@.wf(),
    {
        self.devices = arrange_devices(devices);
        self.reconcile_channel_bindings();
    }

    fn reconcile_channel_bindings(&mut self)
        ensures
            final(self)@ == (AppModel {
                sources: Seq::new(
                    old(self)@.sources.len(),
                    |i: int|
                        inventory::followed_source(
                            old(self)@.sources,
                            i,
                            old(self)@.devices,
                            old(self)@.outputs.len(),
                        ),
                ),
                outputs: Seq::new(
                    old(self)@.outputs.len(),
                    |i: int|
                        inventory::followed_output(old(self)@.outputs, i, old(self)@.devices),
                ),
                status_message: ready_text(
                    inventory::online_of(old(self)@.devices, EndpointType::PhysicalInput).len(),
                    inventory::online_of(old(self)@.devices, EndpointType::PhysicalOutput).len(),
                    inventory::online_of(old(self)@.devices, EndpointType::VirtualInput).len(),
                    inventory::online_of(old(self)@.devices, EndpointType::VirtualOutput).len(),
                ),
                ..old(self)@
            }),
    {
        let physical_inputs = online_endpoints(&self.devices, EndpointType::PhysicalInput);
        let physical_outputs = online_endpoints(&self.devices, EndpointType::PhysicalOutput);
        let virtual_inputs = online_endpoints(&self.devices, EndpointType::VirtualInput);
        let virtual_outputs = online_endpoints(&self.devices, EndpointType::VirtualOutput);
        let buses: usize = self.outputs.len();
        follow_sources(
            &mut self.sources,
            &self.devices,
            &physical_inputs,
            &virtual_inputs,
            buses,
        );
        follow_outputs(&mut self.outputs, &self.devices, &physical_outputs, &virtual_outputs);
        self.status_message =
        ready_message(
            physical_inputs.len(),
            physical_outputs.len(),
            virtual_inputs.len(),
            virtual_outputs.len(),
        );
    }

    /// Takes a device in, or the news of one that is known.
    pub fn upsert_device(&mut self, endpoint: AudioEndpoint)
        ensures
            final(self)@ == with_devices(old(self)@, devices_with(old(self)@.devices, endpoint)),
            old(self)@.wf() ==> final(self)@.wf(),
    {
        let mut devices: Vec<AudioEndpoint> = Vec::new();
        std::mem::swap(&mut devices, &mut self.devices);
        match find_device(&devices, endpoint.id) {
            Some(at) => {
                devices.set(at, endpoint);
            },
            None => {
                devices.push(endpoint);
            },
        }
        self.set_devices(devices);
    }

    /// Lets a device go.
    pub fn remove_device(&mut self, endpoint_id: EndpointId)
        ensures
            final(self)@ == with_devices(
                old(self)@,
                devices_without(old(self)@.devices, endpoint_id),
            ),
            old(self)@.wf() ==> final(self)@.wf(),
    {
        let mut kept: Vec<AudioEndpoint> = Vec::new();
        let ghost devices = self.devices@;
        let mut at: usize = 0;
        assert(devices.take(0) =~= Seq::empty());
        while at < self.devices.len()
            invariant
                at <= self.devices@.len(),
                devices == self.devices@,
                *self == *old(self),
                kept@ == devices_without(devices.take(at as int), endpoint_id),
            decreases self.devices@.len() - at,
        {
            assert(devices.take(at + 1).drop_last() =~= devices.take(at as int));
            assert(devices.take(at + 1).last() == devices[at as int]);
            if self.devices[at].id != endpoint_id {
                kept.push(self.devices[at].clone());
            }
            at = at + 1;
        }
        assert(devices.take(at as int) =~= devices);
        self.set_devices(kept);
    }

    /// Takes in what became of a route.
    pub fn upsert_route(&mut self, route: AudioRoute)
        ensures
            final(self)@ == (AppModel {
                active_routes: if route.state is Connecting || route.state is Active {
                    routes_with(
                        old(self)@.active_routes,
                        EndpointPair { source: route.source, destination: route.destination },
                        route.id,
                    )
                } else {
                    routes_without_pair(
                        old(self)@.active_routes,
                        EndpointPair { source: route.source, destination: route.destination },
                    )
                },
                dirty: true,
                ..old(self)@
            }),
            old(self)@.wf() ==> final(self)@.wf(),
    {
        let pair = EndpointPair { source: route.source, destination: route.destination };
        let live = match route.state {
            RouteState::Connecting => true,
            RouteState::Active => true,
            _ => false,
        };
        if live {
            self.active_routes.insert(pair, route.id);
        } else {
            self.active_routes.remove(&pair);
        }
        self.dirty = true;
    }

    /// A route is gone.
    pub fn remove_route(&mut self, route_id: RouteId)
        ensures
            final(self)@ == (AppModel {
                active_routes: routes_without(old(self)@.active_routes, route_id),
                dirty: true,
                ..old(self)@
            }),
            old(self)@.wf() ==> final(self)@.wf(),
    {
        let ghost first = self.active_routes.entries();
        let ghost mut seen: int = 0;
        let ghost before = *self;
        let mut at: usize = 0;
        assert(first.take(0) =~= Seq::empty());
        assert(first.skip(0) =~= first);
        assert(routes_without(first.take(0), route_id) + first.skip(0) =~= first);
        while at < self.active_routes.len()
            invariant
                0 <= seen <= first.len(),
                first == old(self)@.active_routes,
                at == routes_without(first.take(seen), route_id).len(),
                self.active_routes.entries() == routes_without(first.take(seen), route_id)
                    + first.skip(seen),
                self@ == (AppModel {
                    active_routes: self.active_routes.entries(),
                    ..old(self)@
                }),
            decreases first.len() - seen,
        {
            let ghost kept = routes_without(first.take(seen), route_id);
            let ghost entries = self.active_routes.entries();
            proof {
                assert(seen < first.len());
                assert(first.take(seen + 1).drop_last() =~= first.take(seen));
                assert(first.take(seen + 1).last() == first[seen]);
                assert(entries[at as int] == first.skip(seen)[0]);
                assert(first.skip(seen)[0] == first[seen]);
            }
            if *self.active_routes.value_at(at) == route_id {
                self.active_routes.remove_at(at);
                assert(self.active_routes.entries() =~= kept + first.skip(seen + 1));
            } else {
                at = at + 1;
                assert(entries =~= kept.push(first[seen]) + first.skip(seen + 1));
            }
            proof {
                seen = seen + 1;
            }
        }
        proof {
            assert(seen == first.len()) by {
                if seen < first.len() {
                    assert(first.skip(seen).len() > 0);
                }
            }
            assert(first.take(seen) =~= first);
            assert(first.skip(seen) =~= Seq::empty());
            assert(self.active_routes.entries() =~= routes_without(first, route_id));
        }
        self.dirty = true;
    }

    /// Whether a route is wanted.
    pub fn route_desired(&self, source_index: usize, output_index: usize) -> (result: bool)
        ensures
            result == scenes::wanted(self@.sources, source_index as int, output_index as int),
    {
        is_wanted(&self.sources, source_index, output_index)
    }

    /// Whether a route is there.
    pub fn route_connected(&self, source_index: usize, output_index: usize) -> (result: bool)
        ensures
            result == (scenes::ends(
                self@.sources,
                self@.outputs,
                source_index as int,
                output_index as int,
            ) matches Some(pair) && table::holds_key(self@.active_routes, pair)),
    {
        match self.cell_pair(source_index, output_index) {
            Some(pair) => self.active_routes.contains_key(&pair),
            None => false,
        }
    }

    /// The ends of a route, where both sides are bound.
    pub fn cell_pair(&self, source_index: usize, output_index: usize) -> (pair: Option<
        EndpointPair,
    >)
        ensures
            pair == scenes::ends(
                self@.sources,
                self@.outputs,
                source_index as int,
                output_index as int,
            ),
    {
        route_ends(&self.sources, &self.outputs, source_index, output_index)
    }

    /// Wants a route that was not wanted, and the other way round.
    pub fn toggle_route_intent(&mut self, source_index: usize, output_index: usize)
        ensures
            final(self)@ == toggled(old(self)@, source_index as int, output_index as int),
            old(self)@.wf() ==> final(self)@.wf(),
    {
        if source_index < self.sources.len() {
            assert(self@.sources[source_index as int] == self.sources@[source_index as int]@);
            if output_index < self.sources[source_index].routes.len() {
                let wanted = self.sources[source_index].routes[output_index];
                let source = &mut self.sources[source_index];
                source.routes.set(output_index, !wanted);
                self.dirty = true;
                assert(self@.sources =~= old(self)@.sources.update(
                    source_index as int,
                    SourceModel {
                        routes: old(self)@.sources[source_index as int].routes.update(
                            output_index as int,
                            !wanted,
                        ),
                        ..old(self)@.sources[source_index as int]
                    },
                ));
            }
        }
    }

    /// The ends of the wanted routes.
    pub fn desired_route_pairs(&self) -> (pairs: Vec<EndpointPair>)
        ensures
            pairs@ == scenes::wanted_pairs(
                self@.sources,
                self@.outputs,
                self@.sources.len() as int,
            ),
    {
        pairs_wanted(&self.sources, &self.outputs)
    }

    /// Wants exactly the routes between some ends.
    pub fn set_desired_routes_from_pairs(&mut self, pairs: &Vec<EndpointPair>)
        requires
            scenes::rectangular(old(self)@.sources, old(self)@.outputs.len()),
        ensures
            final(self)@ == wanting(old(self)@, pairs@),
            scenes::rectangular(final(self)@.sources, final(self)@.outputs.len()),
            old(self)@.wf() ==> final(self)@.wf(),
    {
        want_pairs(&mut self.sources, &self.outputs, pairs);
        self.dirty = true;
    }
}

/// Wanting twice is not wanting: a route that is switched twice is as it was,
/// and a switch turns over the intent of its own cell alone.
pub proof fn law_toggling_a_route_twice_restores(
    state: AppModel,
    source: int,
    output: int,
    other_source: int,
    other_output: int,
)
    ensures
        toggled(toggled(state, source, output), source, output).sources == state.sources,
        scenes::ends(state.sources, state.outputs, source, output) is Some && state.wf()
            ==> scenes::wanted(toggled(state, source, output).sources, source, output)
            == !scenes::wanted(state.sources, source, output),
        other_source != source || other_output != output ==> scenes::wanted(
            toggled(state, source, output).sources,
            other_source,
            other_output,
        ) == scenes::wanted(state.sources, other_source, other_output),
{
    if 0 <= source < state.sources.len() && 0 <= output < state.sources[source].routes.len() {
        let strip = state.sources[source];
        assert(strip.routes.update(output, !strip.routes[output]).update(
            output,
            strip.routes[output],
        ) =~= strip.routes);
        assert(toggled(toggled(state, source, output), source, output).sources =~= state.sources);
    }
}

/// New devices never touch what the user wants: which routes are wanted, the
/// names, the controls and the bindings that the user chose stay.
pub proof fn law_devices_keep_the_intent(state: AppModel, devices: Seq<AudioEndpoint>, at: int)
    requires
        state.wf(),
        0 <= at < state.sources.len(),
    ensures
        ({
            let before = state.sources[at];
            let after = with_devices(state, devices).sources[at];
            &&& after.routes == before.routes
            &&& after.name == before.name
            &&& after.gain_db == before.gain_db
            &&& after.muted == before.muted
            &&& after.delay_ms == before.delay_ms
            &&& after.eq == before.eq
            &&& after.mode == before.mode
            &&& before.user_bound ==> after.endpoint_id == before.endpoint_id
        }),
{
    let before = state.sources[at];
    assert(before.routes.len() == state.outputs.len());
    assert(inventory::resized(before.routes, state.outputs.len()) =~= before.routes);
}

/// What is said of the mixer is what its fields hold, list by list and place
/// by place.
pub proof fn law_the_state_is_its_fields(state: AppState, at: int)
    ensures
        state@.devices == state.devices@,
        state@.sources.len() == state.sources@.len(),
        state@.outputs.len() == state.outputs@.len(),
        state@.scenes.len() == state.scenes@.len(),
        0 <= at < state.sources@.len() ==> state@.sources[at] == state.sources@[at]@,
        0 <= at < state.outputs@.len() ==> state@.outputs[at] == state.outputs@[at]@,
        state@.selected_scene == state.selected_scene,
        state@.dirty == state.dirty,
        state@.master_muted == state.master_muted,
        state@.sample_rate == state.sample_rate,
        state@.buffer_size == state.buffer_size,
        state@.status_message == state.status_message@,
        state@.audio_overridden == state.audio_overridden,
        state@.detected_audio == state.detected_audio,
        state@.outputs_panel_width == state.outputs_panel_width,
        state@.active_view == state.active_view,
        state@.backend_capabilities == state.backend_capabilities,
{
}

/// A new mixer has three channels, for a microphone, the desktop and a game,
/// and two buses, for speakers and a stream. No channel is on a bus, nothing is
/// muted, and nothing is to be saved.
pub proof fn law_a_new_mixer_is_at_rest()
    ensures
        ({
            let state = first_model();
            &&& state.sources.len() == 3
            &&& state.sources[0].name == "Mic 1"@ && state.sources[0].kind == SourceKind::Physical
            &&& state.sources[1].name == "Desktop"@ && state.sources[1].kind == SourceKind::Desktop
            &&& state.sources[2].name == "Game"@ && state.sources[2].kind
                == SourceKind::Application
            &&& state.sources[0].color == ChannelColor::Cyan
            &&& state.sources[1].color == ChannelColor::Blue
            &&& state.sources[2].color == ChannelColor::Green
            &&& forall|i: int|
                0 <= i < 3 ==> {
                    &&& (#[trigger] state.sources[i]).routes == seq![false, false]
                    &&& !state.sources[i].muted
                    &&& state.sources[i].endpoint_id is None
                }
            &&& state.outputs.len() == 2
            &&& state.outputs[0].code == "A1"@ && state.outputs[0].name == "Speakers"@
                && state.outputs[0].kind == BusKind::Physical
            &&& state.outputs[1].code == "B1"@ && state.outputs[1].name == "Stream"@
                && state.outputs[1].kind == BusKind::Virtual
            &&& state.outputs[0].color == ChannelColor::Cyan
            &&& state.outputs[1].color == ChannelColor::Purple
            &&& state.scenes.len() == 1 && state.scenes[0].name == "Studio"@
                && state.scenes[0].snapshot is None
            &&& state.selected_scene == 0
            &&& !state.dirty && !state.master_muted && !state.audio_overridden
            &&& state.sample_rate == 48_000 && state.buffer_size == 512
            &&& state.active_view == AppView::Mixer
            &&& state.devices.len() == 0 && state.active_routes.len() == 0
            &&& state.outputs_panel_width.bits == 0x4412_0000
            &&& !state.backend_capabilities.virtual_devices
            &&& !state.backend_capabilities.application_sources
        }),
{
    let state = first_model();
    assert forall|i: int| 0 <= i < 3 implies (#[trigger] state.sources[i]).routes
        == seq![false, false] by {
        assert(state.sources[i].routes =~= seq![false, false]);
    }
}

/// The news of a device takes the place of what was known under its
/// identifier, or stands behind all others; every other device stays where it
/// is. A device that goes takes all with its identifier along, and no other.
pub proof fn law_devices_come_and_go_alone(
    devices: Seq<AudioEndpoint>,
    endpoint: AudioEndpoint,
    at: int,
)
    ensures
        ({
            let with = devices_with(devices, endpoint);
            &&& with.contains(endpoint)
            &&& 0 <= at < devices.len() && devices[at].id != endpoint.id ==> with[at] == devices[at]
            &&& 0 <= at < devices.len() && devices[at].id == endpoint.id && (forall|i: int|
                0 <= i < at ==> (#[trigger] devices[i]).id != endpoint.id) ==> with
                == devices.update(at, endpoint)
            &&& (forall|i: int|
                0 <= i < devices.len() ==> (#[trigger] devices[i]).id != endpoint.id) ==> with
                == devices.push(endpoint)
        }),
        devices_without(devices, endpoint.id) == devices.filter(
            |device: AudioEndpoint| device.id != endpoint.id,
        ),
{
    lemma_without_is_filter(devices, endpoint.id);
    strips::law_the_first_device_is_found(devices, endpoint.id);
    let with = devices_with(devices, endpoint);
    match strips::device_place(devices, endpoint.id) {
        Some(found) => {
            assert(with[found] == endpoint);
            if 0 <= at < devices.len() && devices[at].id == endpoint.id && forall|i: int|
                0 <= i < at ==> (#[trigger] devices[i]).id != endpoint.id {
                if found < at {
                    assert(devices[found].id != endpoint.id);
                }
                if at < found {
                    assert(devices[at].id != endpoint.id);
                }
            }
        },
        None => {
            assert(with[devices.len() as int] == endpoint);
        },
    }
}

proof fn lemma_without_is_filter(devices: Seq<AudioEndpoint>, id: EndpointId)
    ensures
        devices_without(devices, id) == devices.filter(|device: AudioEndpoint| device.id != id),
    decreases devices.len(),
{
    reveal(Seq::filter);
    if devices.len() > 0 {
        lemma_without_is_filter(devices.drop_last(), id);
    }
}

/// A route that comes is known under its two ends, in place of the one that
/// was; one that ends is known no more; the routes between other ends stay. A
/// route that is removed goes from wherever it stands, and no other does.
pub proof fn law_routes_come_and_go_alone(
    routes: Seq<(EndpointPair, RouteId)>,
    pair: EndpointPair,
    route: RouteId,
    other: EndpointPair,
)
    requires
        table::distinct_keys(routes),
        other != pair,
    ensures
        ({
            let with = table::entries_map(routes_with(routes, pair, route));
            let without = table::entries_map(routes_without_pair(routes, pair));
            let before = table::entries_map(routes);
            &&& with.contains_key(pair) && with[pair] == route
            &&& with.contains_key(other) == before.contains_key(other)
            &&& before.contains_key(other) ==> with[other] == before[other]
            &&& !without.contains_key(pair)
            &&& without.contains_key(other) == before.contains_key(other)
            &&& before.contains_key(other) ==> without[other] == before[other]
        }),
        routes_without(routes, route) == routes.filter(
            |entry: (EndpointPair, RouteId)| entry.1 != route,
        ),
{
    lemma_routes_without_is_filter(routes, route);
    let with = routes_with(routes, pair, route);
    let without = routes_without_pair(routes, pair);
    let place = table::place_of(routes, pair);
    assert(table::distinct_keys(with));
    if table::holds_key(routes, pair) {
        assert(with[place] == (pair, route));
        table::law_the_map_is_what_the_entries_say(with, place, pair);
        assert(forall|i: int| 0 <= i < place ==> (#[trigger] without[i]) == routes[i]);
        assert(forall|i: int| place <= i < without.len() ==> (#[trigger] without[i]) == routes[i + 1]);
    } else {
        assert(with[routes.len() as int] == (pair, route));
        table::law_the_map_is_what_the_entries_say(with, routes.len() as int, pair);
    }
    assert(table::distinct_keys(without));
    if table::holds_key(without, pair) {
        let i = choose|i: int| 0 <= i < without.len() && (#[trigger] without[i]).0 == pair;
        assert(without[i].0 == pair);
        if i < place {
            assert(routes[i].0 == pair);
        } else {
            assert(routes[i + 1].0 == pair);
        }
    }
    if table::holds_key(routes, other) {
        let i = table::place_of(routes, other);
        table::law_the_map_is_what_the_entries_say(routes, i, other);
        assert(with[i] == routes[i]);
        table::law_the_map_is_what_the_entries_say(with, i, other);
        let k = if table::holds_key(routes, pair) && place < i {
            i - 1
        } else {
            i
        };
        assert(without[k] == routes[i]);
        table::law_the_map_is_what_the_entries_say(without, k, other);
    } else {
        if table::holds_key(with, other) {
            let i = choose|i: int| 0 <= i < with.len() && (#[trigger] with[i]).0 == other;
            assert(with[i].0 == other);
            assert(routes[i].0 == other);
        }
        if table::holds_key(without, other) {
            let i = choose|i: int| 0 <= i < without.len() && (#[trigger] without[i]).0 == other;
            assert(without[i].0 == other);
            if table::holds_key(routes, pair) && i >= place {
                assert(routes[i + 1].0 == other);
            } else {
                assert(routes[i].0 == other);
            }
        }
    }
}

proof fn lemma_routes_without_is_filter(routes: Seq<(EndpointPair, RouteId)>, route: RouteId)
    ensures
        routes_without(routes, route) == routes.filter(
            |entry: (EndpointPair, RouteId)| entry.1 != route,
        ),
    decreases routes.len(),
{
    reveal(Seq::filter);
    if routes.len() > 0 {
        lemma_routes_without_is_filter(routes.drop_last(), route);
    }
}

/// A switch turns over its own cell of the matrix: of that channel and that
/// bus, and of no other, and what is changed is to be saved.
pub proof fn law_a_switch_turns_over_its_cell(
    state: AppModel,
    source: int,
    output: int,
    row: int,
    column: int,
)
    requires
        0 <= source < state.sources.len(),
        0 <= output < state.sources[source].routes.len(),
        0 <= row < state.sources.len(),
        0 <= column < state.sources[row].routes.len(),
    ensures
        ({
            let after = toggled(state, source, output);
            &&& after.sources.len() == state.sources.len()
            &&& after.sources[row].routes.len() == state.sources[row].routes.len()
            &&& after.sources[row].routes[column] == (if row == source && column == output {
                !state.sources[row].routes[column]
            } else {
                state.sources[row].routes[column]
            })
            &&& after.sources[row].name == state.sources[row].name
            &&& after.sources[row].muted == state.sources[row].muted
            &&& after.sources[row].endpoint_id == state.sources[row].endpoint_id
            &&& after.outputs == state.outputs
            &&& after.dirty
        }),
{
}

/// What is told after the devices changed counts the inputs, the outputs, the
/// virtual inputs and the virtual outputs that are there, in this order.
pub proof fn law_the_devices_are_counted(state: AppModel, devices: Seq<AudioEndpoint>)
    ensures
        ({
            let after = with_devices(state, devices);
            let sorted = after.devices;
            &&& after.status_message == "Ready · "@ + text::decimal(
                inventory::online_of(sorted, EndpointType::PhysicalInput).len(),
            ) + " inputs · "@ + text::decimal(
                inventory::online_of(sorted, EndpointType::PhysicalOutput).len(),
            ) + " outputs · "@ + text::decimal(
                inventory::online_of(sorted, EndpointType::VirtualInput).len(),
            ) + " virtual in · "@ + text::decimal(
                inventory::online_of(sorted, EndpointType::VirtualOutput).len(),
            ) + " virtual out"@
            &&& sorted.to_multiset() == devices.to_multiset()
            &&& after.active_routes == state.active_routes
            &&& after.dirty == state.dirty
            &&& after.scenes == state.scenes
        }),
{
    inventory::law_arranged_devices_are_sorted(devices);
}

/// A new mixer has a microphone, the desktop and a game on one side, and speakers
/// and a stream on the other, each of its kind.
pub proof fn law_the_first_strips(buses: nat)
    ensures
        source_template(buses).len() == 3,
        source_template(buses)[0].name == "Mic 1"@,
        source_template(buses)[0].detail == "System default input"@,
        source_template(buses)[0].kind == SourceKind::Physical,
        source_template(buses)[0].color == ChannelColor::Cyan,
        source_template(buses)[1].name == "Desktop"@,
        source_template(buses)[1].detail == "Orion Virtual Input 1"@,
        source_template(buses)[1].kind == SourceKind::Desktop,
        source_template(buses)[1].color == ChannelColor::Blue,
        source_template(buses)[2].name == "Game"@,
        source_template(buses)[2].detail == "Select application"@,
        source_template(buses)[2].kind == SourceKind::Application,
        source_template(buses)[2].color == ChannelColor::Green,
        output_template().len() == 2,
        output_template()[0].code == "A1"@,
        output_template()[0].name == "Speakers"@,
        output_template()[0].detail == "System default output"@,
        output_template()[0].kind == BusKind::Physical,
        output_template()[0].color == ChannelColor::Cyan,
        output_template()[1].code == "B1"@,
        output_template()[1].name == "Stream"@,
        output_template()[1].detail == "Orion Virtual Output 1"@,
        output_template()[1].kind == BusKind::Virtual,
        output_template()[1].color == ChannelColor::Purple,
{
}

/// Asking for routes changes the routes of the channels, has the mixer saved, and
/// leaves everything else alone.
pub proof fn law_asking_for_routes_has_them_saved(state: AppModel, pairs: Seq<EndpointPair>)
    ensures
        wanting(state, pairs).dirty,
        wanting(state, pairs).sources == scenes::with_pairs(state.sources, state.outputs, pairs),
        wanting(state, pairs) == (AppModel {
            sources: wanting(state, pairs).sources,
            dirty: true,
            ..state
        }),
{
}

} // verus!
