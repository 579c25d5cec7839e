//! Faders, delays, equalizers, modes, bindings and meters of the strips, and
//! strips that come and go.
use vstd::prelude::*;

use super::app::{AppModel, AppState, MIN_OUTPUTS_PANEL_WIDTH};
use super::inventory;
use super::labels::{
    empty_output_detail, empty_source_detail, output_accepts, source_accepts, BusKind,
    ChannelColor, EqBand, FaderTarget, SourceKind,
};
use super::labels;
use super::strips::{
    clamp_delay, find_device, update_output_binding, update_source_binding, OutputBus,
    OutputModel, SourceModel, SourceStrip,
};
use super::strips;
use crate::domain::controls::{ChannelMode, GainDb};
use crate::domain::controls;
use crate::domain::endpoint::AudioEndpoint;
use crate::domain::event::MeterFrame;
use crate::domain::ids::{EndpointId, EndpointPair, RouteId, VirtualDeviceId};
use crate::scalar::{Scalar, ONE_BITS};
use crate::text::{decimal_text, joined, joined3};
use crate::text;

verus! {

/// A gain within the range of a fader.
pub open spec fn fader_gain(raised: Scalar) -> Scalar {
    raised.clamped(Scalar { bits: GainDb::MIN }, Scalar { bits: GainDb::MAX })
}

/// What is told of a delay. `shown` is the delay with one digit after the
/// point.
pub open spec fn delay_text(name: Seq<char>, delay_ms: Scalar, shown: Seq<char>) -> Seq<char> {
    if delay_ms.le(Scalar { bits: 0 }) {
        "'"@ + name + "' delay off"@
    } else {
        "'"@ + name + "' delayed "@ + shown + " ms"@
    }
}

fn delay_status(name: &str, delay_ms: Scalar, shown: &str) -> (message: String)
    ensures
        message@ == delay_text(name@, delay_ms, shown@),
{
    if delay_ms.at_most(Scalar::zero()) {
        joined3("'", name, "' delay off")
    } else {
        let head = joined3("'", name, "' delayed ");
        joined3(head.as_str(), shown, " ms")
    }
}

/// What is told of a band. `shown` is its gain with a sign and one digit after
/// the point.
pub open spec fn band_text(name: Seq<char>, band: EqBand, shown: Seq<char>) -> Seq<char> {
    "'"@ + name + "' "@ + labels::band_label(band) + " "@ + shown + " dB"@
}

fn band_status(name: &str, band: EqBand, shown: &str) -> (message: String)
    ensures
        message@ == band_text(name@, band, shown@),
{
    let head = joined3("'", name, "' ");
    let middle = joined3(head.as_str(), band.label(), " ");
    joined3(middle.as_str(), shown, " dB")
}

/// The code of the next bus of a kind: a letter and a number.
pub open spec fn bus_code(outputs: Seq<OutputModel>, kind: BusKind) -> Seq<char> {
    (match kind {
        BusKind::Physical => "A"@,
        BusKind::Virtual => "B"@,
    }) + text::decimal(inventory::outputs_of_kind(outputs, kind) + 1)
}

fn next_bus_code(outputs: &Vec<OutputBus>, kind: BusKind) -> (code: String)
    requires
        outputs@.len() < usize::MAX,
    ensures
        code@ == bus_code(inventory::output_models(outputs@), kind),
{
    let ghost models = inventory::output_models(outputs@);
    let mut count: u64 = 0;
    let mut at: usize = 0;
    assert(models.take(0) =~= Seq::empty());
    while at < outputs.len()
        invariant
            at <= outputs@.len(),
            models == inventory::output_models(outputs@),
            count <= at,
            count == inventory::outputs_of_kind(models.take(at as int), kind),
        decreases outputs@.len() - at,
    {
        assert(models.take(at + 1).drop_last() =~= models.take(at as int));
        assert(models.take(at + 1).last() == outputs@[at as int]@);
        if outputs[at].kind == kind {
            count = count + 1;
        }
        at = at + 1;
    }
    assert(models.take(at as int) =~= models);
    let prefix = match kind {
        BusKind::Physical => "A",
        BusKind::Virtual => "B",
    };
    let number = decimal_text(count + 1);
    joined(prefix, number.as_str())
}

/// Whether an endpoint belongs to a virtual device.
pub open spec fn of_virtual(devices: Seq<AudioEndpoint>, owner: VirtualDeviceId, id: EndpointId) -> bool {
    exists|i: int|
        0 <= i < devices.len() && (#[trigger] devices[i]).id == id && devices[i].virtual_device_id
            == Some(owner)
}

fn belongs_to(devices: &Vec<AudioEndpoint>, owner: VirtualDeviceId, id: EndpointId) -> (result: bool)
    ensures
        result == of_virtual(devices@, owner, id),
{
    let mut at: usize = 0;
    while at < devices.len()
        invariant
            at <= devices@.len(),
            forall|i: int|
                0 <= i < at ==> !((#[trigger] devices@[i]).id == id
                    && devices@[i].virtual_device_id == Some(owner)),
        decreases devices@.len() - at,
    {
        if devices[at].id == id {
            if let Some(found) = devices[at].virtual_device_id {
                if found == owner {
                    assert(devices@[at as int].id == id);
                    return true;
                }
            }
        }
        at = at + 1;
    }
    false
}

/// Whether a binding is one to a virtual device.
pub open spec fn uses_virtual(
    devices: Seq<AudioEndpoint>,
    owner: VirtualDeviceId,
    endpoint: Option<EndpointId>,
) -> bool {
    endpoint matches Some(id) && of_virtual(devices, owner, id)
}

/// The names of the channels that are bound to a virtual device.
pub open spec fn source_users(
    sources: Seq<SourceModel>,
    devices: Seq<AudioEndpoint>,
    owner: VirtualDeviceId,
) -> Seq<Seq<char>>
    decreases sources.len(),
{
    if sources.len() == 0 {
        Seq::empty()
    } else {
        let before = source_users(sources.drop_last(), devices, owner);
        if uses_virtual(devices, owner, sources.last().endpoint_id) {
            before.push(sources.last().name)
        } else {
            before
        }
    }
}

/// The names and codes of the buses that are bound to a virtual device.
pub open spec fn output_users(
    outputs: Seq<OutputModel>,
    devices: Seq<AudioEndpoint>,
    owner: VirtualDeviceId,
) -> Seq<Seq<char>>
    decreases outputs.len(),
{
    if outputs.len() == 0 {
        Seq::empty()
    } else {
        let before = output_users(outputs.drop_last(), devices, owner);
        if uses_virtual(devices, owner, outputs.last().endpoint_id) {
            before.push(outputs.last().name + " ("@ + outputs.last().code + ")"@)
        } else {
            before
        }
    }
}

/// How many routes start or end at an endpoint of a virtual device.
pub open spec fn routes_of_virtual(
    routes: Seq<(EndpointPair, RouteId)>,
    devices: Seq<AudioEndpoint>,
    owner: VirtualDeviceId,
) -> nat
    decreases routes.len(),
{
    if routes.len() == 0 {
        0
    } else {
        let before = routes_of_virtual(routes.drop_last(), devices, owner);
        let pair = routes.last().0;
        if of_virtual(devices, owner, pair.source) || of_virtual(
            devices,
            owner,
            pair.destination,
        ) {
            before + 1
        } else {
            before
        }
    }
}

/// How many routes start or end at an endpoint.
pub open spec fn routes_at(routes: Seq<(EndpointPair, RouteId)>, endpoint: EndpointId) -> nat
    decreases routes.len(),
{
    if routes.len() == 0 {
        0
    } else {
        let before = routes_at(routes.drop_last(), endpoint);
        if routes.last().0.source == endpoint || routes.last().0.destination == endpoint {
            before + 1
        } else {
            before
        }
    }
}

/// The texts of strings.
pub open spec fn texts(strings: Seq<String>) -> Seq<Seq<char>> {
    Seq::new(strings.len(), |i: int| strings[i]@)
}

/// The bus at a place is taken out of what a channel wants.
pub open spec fn without_bus(source: SourceModel, at: int) -> SourceModel {
    SourceModel {
        routes: if at < source.routes.len() {
            source.routes.remove(at)
        } else {
            source.routes
        },
        ..source
    }
}

/// A level before and after.
#[derive(Clone, Copy, Debug, PartialEq, Eq, Structural)]
pub struct LevelChange {
    pub before: Scalar,
    pub after: Scalar,
}

/// A level within the range of a meter.
pub open spec fn shown_level(level: Scalar) -> Scalar {
    level.clamped(Scalar { bits: 0 }, Scalar { bits: ONE_BITS })
}

/// The level of a channel in a frame.
pub open spec fn frame_level(frame: MeterFrame, device: AudioEndpoint, at: int) -> Option<Scalar> {
    if 0 <= at < device.channels@.len() && frame.levels@.contains_key(device.channels@[at]) {
        Some(frame.levels@[device.channels@[at]].amount())
    } else {
        None
    }
}

/// The levels that a frame shows on the two sides: silence where nothing is
/// known, and the left on both sides where only it is known.
pub open spec fn frame_levels(frame: MeterFrame, device: AudioEndpoint) -> (Scalar, Scalar) {
    let left = match frame_level(frame, device, 0) {
        Some(level) => level,
        None => Scalar { bits: 0 },
    };
    let right = match frame_level(frame, device, 1) {
        Some(level) => level,
        None => left,
    };
    (left, right)
}

fn level_in_frame(frame: &MeterFrame, device: &AudioEndpoint, at: usize) -> (level: Option<Scalar>)
    ensures
        level == frame_level(*frame, *device, at as int),
{
    if at < device.channels.len() {
        let channel = device.channels[at];
        match frame.levels.get(&channel) {
            Some(level) => Some(level.value()),
            None => None,
        }
    } else {
        None
    }
}

/// A channel with the levels of a frame, where it is bound to its endpoint.
pub open spec fn metered_source(
    source: SourceModel,
    endpoint: EndpointId,
    levels: (Scalar, Scalar),
) -> SourceModel {
    if source.endpoint_id == Some(endpoint) {
        SourceModel {
            meter_l: shown_level(levels.0),
            meter_r: shown_level(levels.1),
            ..source
        }
    } else {
        source
    }
}

/// A bus with the levels of a frame, where it is bound to its endpoint.
pub open spec fn metered_output(
    output: OutputModel,
    endpoint: EndpointId,
    levels: (Scalar, Scalar),
) -> OutputModel {
    if output.endpoint_id == Some(endpoint) {
        OutputModel {
            meter_l: shown_level(levels.0),
            meter_r: shown_level(levels.1),
            ..output
        }
    } else {
        output
    }
}

/// The changes of the levels of channels, left before right, in their order.
pub open spec fn source_changes(
    sources: Seq<SourceModel>,
    endpoint: EndpointId,
    levels: (Scalar, Scalar),
) -> Seq<LevelChange>
    decreases sources.len(),
{
    if sources.len() == 0 {
        Seq::empty()
    } else {
        let before = source_changes(sources.drop_last(), endpoint, levels);
        let last = sources.last();
        if last.endpoint_id == Some(endpoint) {
            before.push(
                LevelChange { before: last.meter_l, after: shown_level(levels.0) },
            ).push(LevelChange { before: last.meter_r, after: shown_level(levels.1) })
        } else {
            before
        }
    }
}

/// The changes of the levels of buses, left before right, in their order.
pub open spec fn output_changes(
    outputs: Seq<OutputModel>,
    endpoint: EndpointId,
    levels: (Scalar, Scalar),
) -> Seq<LevelChange>
    decreases outputs.len(),
{
    if outputs.len() == 0 {
        Seq::empty()
    } else {
        let before = output_changes(outputs.drop_last(), endpoint, levels);
        let last = outputs.last();
        if last.endpoint_id == Some(endpoint) {
            before.push(
                LevelChange { before: last.meter_l, after: shown_level(levels.0) },
            ).push(LevelChange { before: last.meter_r, after: shown_level(levels.1) })
        } else {
            before
        }
    }
}

fn is_bound_to(bound: Option<EndpointId>, id: EndpointId) -> (result: bool)
    ensures
        result == (bound == Some(id)),
{
    match bound {
        Some(bound) => bound == id,
        None => false,
    }
}

fn meter_sources(
    sources: &mut Vec<SourceStrip>,
    endpoint: EndpointId,
    left: Scalar,
    right: Scalar,
) -> (changes: Vec<LevelChange>)
    ensures
        changes@ == source_changes(
            inventory::source_models(old(sources)@),
            endpoint,
            (left, right),
        ),
        inventory::source_models(final(sources)@) == inventory::source_models(
            old(sources)@,
        ).map_values(|source: SourceModel| metered_source(source, endpoint, (left, right))),
{
    let low = Scalar::zero();
    let high = Scalar::one();
    let shown_left = left.clamp(low, high);
    let shown_right = right.clamp(low, high);
    let ghost models = inventory::source_models(sources@);
    let mut changes: Vec<LevelChange> = Vec::new();
    let count: usize = sources.len();
    let mut at: usize = 0;
    assert(models.take(0) =~= Seq::empty());
    while at < count
        invariant
            at <= count == sources@.len(),
            models == inventory::source_models(old(sources)@),
            models.len() == count,
            shown_left == shown_level(left),
            shown_right == shown_level(right),
            changes@ == source_changes(models.take(at as int), endpoint, (left, right)),
            forall|i: int|
                0 <= i < count ==> (#[trigger] sources@[i])@ == (if i < at {
                    metered_source(models[i], endpoint, (left, right))
                } else {
                    models[i]
                }),
        decreases count - at,
    {
        assert(models.take(at + 1).drop_last() =~= models.take(at as int));
        assert(models.take(at + 1).last() == models[at as int]);
        assert(sources@[at as int]@ == models[at as int]);
        if is_bound_to(sources[at].endpoint_id, endpoint) {
            changes.push(LevelChange { before: sources[at].meter_l, after: shown_left });
            changes.push(LevelChange { before: sources[at].meter_r, after: shown_right });
            let source = &mut sources[at];
            source.meter_l = shown_left;
            source.meter_r = shown_right;
        }
        at = at + 1;
    }
    assert(models.take(at as int) =~= models);
    assert(inventory::source_models(sources@) =~= models.map_values(
        |source: SourceModel| metered_source(source, endpoint, (left, right)),
    ));
    changes
}

fn meter_outputs(
    outputs: &mut Vec<OutputBus>,
    endpoint: EndpointId,
    left: Scalar,
    right: Scalar,
) -> (changes: Vec<LevelChange>)
    ensures
        changes@ == output_changes(
            inventory::output_models(old(outputs)@),
            endpoint,
            (left, right),
        ),
        inventory::output_models(final(outputs)@) == inventory::output_models(
            old(outputs)@,
        ).map_values(|output: OutputModel| metered_output(output, endpoint, (left, right))),
{
    let low = Scalar::zero();
    let high = Scalar::one();
    let shown_left = left.clamp(low, high);
    let shown_right = right.clamp(low, high);
    let ghost models = inventory::output_models(outputs@);
    let mut changes: Vec<LevelChange> = Vec::new();
    let count: usize = outputs.len();
    let mut at: usize = 0;
    assert(models.take(0) =~= Seq::empty());
    while at < count
        invariant
            at <= count == outputs@.len(),
            models == inventory::output_models(old(outputs)@),
            models.len() == count,
            shown_left == shown_level(left),
            shown_right == shown_level(right),
            changes@ == output_changes(models.take(at as int), endpoint, (left, right)),
            forall|i: int|
                0 <= i < count ==> (#[trigger] outputs@[i])@ == (if i < at {
                    metered_output(models[i], endpoint, (left, right))
                } else {
                    models[i]
                }),
        decreases count - at,
    {
        assert(models.take(at + 1).drop_last() =~= models.take(at as int));
        assert(models.take(at + 1).last() == models[at as int]);
        assert(outputs@[at as int]@ == models[at as int]);
        if is_bound_to(outputs[at].endpoint_id, endpoint) {
            changes.push(LevelChange { before: outputs[at].meter_l, after: shown_left });
            changes.push(LevelChange { before: outputs[at].meter_r, after: shown_right });
            let output = &mut outputs[at];
            output.meter_l = shown_left;
            output.meter_r = shown_right;
        }
        at = at + 1;
    }
    assert(models.take(at as int) =~= models);
    assert(inventory::output_models(outputs@) =~= models.map_values(
        |output: OutputModel| metered_output(output, endpoint, (left, right)),
    ));
    changes
}

/// The width that the outputs panel may take. `room` is what the window leaves
/// next to the least width of the sources.
pub open spec fn panel_limit(width: Scalar, room: Scalar) -> Scalar {
    let low = Scalar { bits: MIN_OUTPUTS_PANEL_WIDTH };
    width.clamped(
        low,
        if low.le(room) {
            room
        } else {
            low
        },
    )
}

/// The width that the outputs panel may take.
pub fn panel_width(width: Scalar, room: Scalar) -> (result: Scalar)
    ensures
        result == panel_limit(width, room),
{
    let low = Scalar { bits: MIN_OUTPUTS_PANEL_WIDTH };
    let high = if low.at_most(room) {
        room
    } else {
        low
    };
    width.clamp(low, high)
}

/// The state with another channel in a place, to be saved.
pub open spec fn with_source(state: AppModel, at: int, source: SourceModel) -> AppModel {
    AppModel { sources: state.sources.update(at, source), dirty: true, ..state }
}

/// The state with another bus in a place, to be saved.
pub open spec fn with_output(state: AppModel, at: int, output: OutputModel) -> AppModel {
    AppModel { outputs: state.outputs.update(at, output), dirty: true, ..state }
}

/// The state with another mode of a strip.
pub open spec fn with_mode(state: AppModel, source: bool, at: int, mode: ChannelMode) -> AppModel {
    if source && 0 <= at < state.sources.len() && state.sources[at].mode != mode {
        with_source(state, at, SourceModel { mode, ..state.sources[at] })
    } else if !source && 0 <= at < state.outputs.len() && state.outputs[at].mode != mode {
        with_output(state, at, OutputModel { mode, ..state.outputs[at] })
    } else {
        state
    }
}

/// Whether some device with an identifier fits a channel.
pub open spec fn fits_source(devices: Seq<AudioEndpoint>, id: EndpointId, kind: SourceKind) -> bool {
    exists|i: int|
        0 <= i < devices.len() && (#[trigger] devices[i]).id == id && labels::source_fits(
            kind,
            devices[i].endpoint_type,
        )
}

/// Whether some device with an identifier fits a bus.
pub open spec fn fits_output(devices: Seq<AudioEndpoint>, id: EndpointId, kind: BusKind) -> bool {
    exists|i: int|
        0 <= i < devices.len() && (#[trigger] devices[i]).id == id && labels::output_fits(
            kind,
            devices[i].endpoint_type,
        )
}

impl AppState {
    /// Moves a fader. `raised` is where it is moved to; the range of a fader
    /// bounds it.
    pub fn adjust_fader(&mut self, target: FaderTarget, raised: Scalar)
        ensures
            final(self)@ == (match target {
                FaderTarget::Source(index) => if index < old(self)@.sources.len() {
                    with_source(
                        old(self)@,
                        index as int,
                        SourceModel {
                            gain_db: fader_gain(raised),
                            ..old(self)@.sources[index as int]
                        },
                    )
                } else {
                    old(self)@
                },
                FaderTarget::Output(index) => if index < old(self)@.outputs.len() {
                    with_output(
                        old(self)@,
                        index as int,
                        OutputModel {
                            gain_db: fader_gain(raised),
                            ..old(self)@.outputs[index as int]
                        },
                    )
                } else {
                    old(self)@
                },
            }),
            old(self)@.wf() ==> final(self)@.wf(),
    {
        let gain = raised.clamp(Scalar { bits: GainDb::MIN }, Scalar { bits: GainDb::MAX });
        match target {
            FaderTarget::Source(index) => {
                if index < self.sources.len() {
                    let source = &mut self.sources[index];
                    source.gain_db = gain;
                    self.dirty = true;
                }
            },
            FaderTarget::Output(index) => {
                if index < self.outputs.len() {
                    let output = &mut self.outputs[index];
                    output.gain_db = gain;
                    self.dirty = true;
                }
            },
        }
        proof {
            assert forall|i: int| 0 <= i < self@.sources.len() implies (
            #[trigger] self@.sources[i]).routes == old(self)@.sources[i].routes by {
                assert(self@.sources[i] == self.sources@[i]@);
            }
        }
    }

    /// Adds a channel behind the others.
    pub fn push_source_channel(&mut self, name: String, kind: SourceKind, color: ChannelColor) -> (
    index: usize)
        ensures
            index == old(self)@.sources.len(),
            final(self)@ == (AppModel {
                sources: old(self)@.sources.push(
                    strips::new_source(
                        name@,
                        labels::source_hint(kind),
                        kind,
                        color,
                        old(self)@.outputs.len(),
                    ),
                ),
                dirty: true,
                ..old(self)@
            }),
            old(self)@.wf() ==> final(self)@.wf(),
    {
        let index: usize = self.sources.len();
        let buses: usize = self.outputs.len();
        let strip = SourceStrip::new(
            name.as_str(),
            empty_source_detail(kind),
            kind,
            color,
            buses,
        );
        self.sources.push(strip);
        self.dirty = true;
        assert(self@.sources =~= old(self)@.sources.push(strip@));
        index
    }

    /// Adds a bus behind the others, which no channel is on.
    pub fn push_output_bus(&mut self, name: String, kind: BusKind, color: ChannelColor) -> (index:
        usize)
        requires
            old(self)@.outputs.len() < usize::MAX,
        ensures
            index == old(self)@.outputs.len(),
            final(self)@ == (AppModel {
                outputs: old(self)@.outputs.push(
                    strips::new_output(
                        bus_code(old(self)@.outputs, kind),
                        name@,
                        labels::output_hint(kind),
                        kind,
                        color,
                    ),
                ),
                sources: old(self)@.sources.map_values(
                    |source: SourceModel|
                        SourceModel { routes: source.routes.push(false), ..source },
                ),
                dirty: true,
                ..old(self)@
            }),
            old(self)@.wf() ==> final(self)@.wf(),
    {
        let index: usize = self.outputs.len();
        let code = next_bus_code(&self.outputs, kind);
        let bus = OutputBus::new(
            code.as_str(),
            name.as_str(),
            empty_output_detail(kind),
            kind,
            color,
        );
        self.outputs.push(bus);
        assert(self@.outputs =~= old(self)@.outputs.push(bus@));
        let count: usize = self.sources.len();
        let ghost models = self@.sources;
        let mut at: usize = 0;
        while at < count
            invariant
                at <= count == self.sources@.len(),
                models == old(self)@.sources,
                models.len() == count,
                self@ == (AppModel {
                    outputs: old(self)@.outputs.push(bus@),
                    sources: self@.sources,
                    ..old(self)@
                }),
                forall|i: int|
                    0 <= i < count ==> (#[trigger] self.sources@[i])@ == (if i < at {
                        SourceModel { routes: models[i].routes.push(false), ..models[i] }
                    } else {
                        models[i]
                    }),
            decreases count - at,
        {
            assert(self.sources@[at as int]@ == models[at as int]);
            let source = &mut self.sources[at];
            source.routes.push(false);
            at = at + 1;
        }
        self.dirty = true;
        assert(self@.sources =~= models.map_values(
            |source: SourceModel| SourceModel { routes: source.routes.push(false), ..source },
        ));
        proof {
            if old(self)@.wf() {
                assert forall|i: int| 0 <= i < self@.sources.len() implies (
                #[trigger] self@.sources[i]).routes.len() == self@.outputs.len() by {
                    assert(models[i].routes.len() == old(self)@.outputs.len());
                }
            }
        }
        index
    }

    /// How many routes start or end at what a strip is bound to.
    pub fn channel_route_count(&self, source: bool, index: usize) -> (count: usize)
        ensures
            count == (match (if source {
                if index < self@.sources.len() {
                    self@.sources[index as int].endpoint_id
                } else {
                    None
                }
            } else {
                if index < self@.outputs.len() {
                    self@.outputs[index as int].endpoint_id
                } else {
                    None
                }
            }) {
                Some(endpoint) => routes_at(self@.active_routes, endpoint),
                None => 0,
            }),
    {
        let bound = if source {
            if index < self.sources.len() {
                self.sources[index].endpoint_id
            } else {
                None
            }
        } else {
            if index < self.outputs.len() {
                self.outputs[index].endpoint_id
            } else {
                None
            }
        };
        let endpoint = match bound {
            Some(endpoint) => endpoint,
            None => {
                return 0;
            },
        };
        let ghost routes = self.active_routes.entries();
        let total: usize = self.active_routes.len();
        let mut count: usize = 0;
        let mut at: usize = 0;
        assert(routes.take(0) =~= Seq::empty());
        while at < total
            invariant
                at <= total == routes.len(),
                routes == self.active_routes.entries(),
                count <= at,
                count == routes_at(routes.take(at as int), endpoint),
            decreases total - at,
        {
            assert(routes.take(at + 1).drop_last() =~= routes.take(at as int));
            assert(routes.take(at + 1).last() == routes[at as int]);
            let pair = self.active_routes.key_at(at);
            if pair.source == endpoint || pair.destination == endpoint {
                count = count + 1;
            }
            at = at + 1;
        }
        assert(routes.take(at as int) =~= routes);
        count
    }

    /// Takes a channel out.
    pub fn remove_source(&mut self, index: usize)
        ensures
            final(self)@ == (if index < old(self)@.sources.len() {
                AppModel {
                    sources: old(self)@.sources.remove(index as int),
                    dirty: true,
                    ..old(self)@
                }
            } else {
                old(self)@
            }),
            old(self)@.wf() ==> final(self)@.wf(),
    {
        if index < self.sources.len() {
            self.sources.remove(index);
            self.dirty = true;
            assert(self@.sources =~= old(self)@.sources.remove(index as int));
        }
    }

    /// Takes a bus out, and its place in what every channel wants.
    pub fn remove_output_bus(&mut self, index: usize)
        ensures
            final(self)@ == (if index < old(self)@.outputs.len() {
                AppModel {
                    outputs: old(self)@.outputs.remove(index as int),
                    sources: old(self)@.sources.map_values(
                        |source: SourceModel| without_bus(source, index as int),
                    ),
                    dirty: true,
                    ..old(self)@
                }
            } else {
                old(self)@
            }),
            old(self)@.wf() ==> final(self)@.wf(),
            index < old(self)@.outputs.len() ==> forall|i: int, j: int|
                0 <= i < old(self)@.sources.len() && index < old(self)@.sources[i].routes.len()
                    && 0 <= j < old(self)@.sources[i].routes.len() - 1 ==> (#[trigger] final(
                    self)@.sources[i].routes[j]) == old(self)@.sources[i].routes[if j < index {
                    j
                } else {
                    j + 1
                }],
    {
        if index >= self.outputs.len() {
            return;
        }
        self.outputs.remove(index);
        assert(self@.outputs =~= old(self)@.outputs.remove(index as int));
        let count: usize = self.sources.len();
        let ghost models = self@.sources;
        let mut at: usize = 0;
        while at < count
            invariant
                at <= count == self.sources@.len(),
                models == old(self)@.sources,
                models.len() == count,
                self@ == (AppModel {
                    outputs: old(self)@.outputs.remove(index as int),
                    sources: self@.sources,
                    ..old(self)@
                }),
                forall|i: int|
                    0 <= i < count ==> (#[trigger] self.sources@[i])@ == (if i < at {
                        without_bus(models[i], index as int)
                    } else {
                        models[i]
                    }),
            decreases count - at,
        {
            assert(self.sources@[at as int]@ == models[at as int]);
            let source = &mut self.sources[at];
            if index < source.routes.len() {
                source.routes.remove(index);
            }
            at = at + 1;
        }
        self.dirty = true;
        assert(self@.sources =~= models.map_values(
            |source: SourceModel| without_bus(source, index as int),
        ));
        proof {
            if old(self)@.wf() {
                assert forall|i: int| 0 <= i < self@.sources.len() implies (
                #[trigger] self@.sources[i]).routes.len() == self@.outputs.len() by {
                    assert(models[i].routes.len() == old(self)@.outputs.len());
                }
            }
        }
    }

    pub fn set_source_color(&mut self, index: usize, color: ChannelColor)
        ensures
            final(self)@ == (if index < old(self)@.sources.len() {
                with_source(
                    old(self)@,
                    index as int,
                    SourceModel { color, ..old(self)@.sources[index as int] },
                )
            } else {
                old(self)@
            }),
            old(self)@.wf() ==> final(self)@.wf(),
    {
        if index < self.sources.len() {
            let source = &mut self.sources[index];
            source.color = color;
            self.dirty = true;
        }
        proof {
            assert forall|i: int| 0 <= i < self@.sources.len() implies (
            #[trigger] self@.sources[i]).routes == old(self)@.sources[i].routes by {
                assert(self@.sources[i] == self.sources@[i]@);
            }
        }
    }

    pub fn set_output_color(&mut self, index: usize, color: ChannelColor)
        ensures
            final(self)@ == (if index < old(self)@.outputs.len() {
                with_output(
                    old(self)@,
                    index as int,
                    OutputModel { color, ..old(self)@.outputs[index as int] },
                )
            } else {
                old(self)@
            }),
            old(self)@.wf() ==> final(self)@.wf(),
    {
        if index < self.outputs.len() {
            let output = &mut self.outputs[index];
            output.color = color;
            self.dirty = true;
        }
    }

    /// Sets the delay of a channel, within its range. `differs` tells whether
    /// that differs from the delay that is set by more than the precision of
    /// the numbers, and `shown` is it with one digit after the point.
    pub fn set_source_delay(&mut self, index: usize, delay_ms: Scalar, differs: bool, shown: &str)
        ensures
            final(self)@ == (if index < old(self)@.sources.len() && differs {
                AppModel {
                    status_message: delay_text(
                        old(self)@.sources[index as int].name,
                        strips::delay_in_range(delay_ms),
                        shown@,
                    ),
                    ..with_source(
                        old(self)@,
                        index as int,
                        SourceModel {
                            delay_ms: strips::delay_in_range(delay_ms),
                            ..old(self)@.sources[index as int]
                        },
                    )
                }
            } else {
                old(self)@
            }),
            old(self)@.wf() ==> final(self)@.wf(),
    {
        if index < self.sources.len() && differs {
            let delay_ms = clamp_delay(delay_ms);
            let message = delay_status(self.sources[index].name.as_str(), delay_ms, shown);
            let source = &mut self.sources[index];
            source.delay_ms = delay_ms;
            self.dirty = true;
            self.status_message = message;
        }
        proof {
            assert forall|i: int| 0 <= i < self@.sources.len() implies (
            #[trigger] self@.sources[i]).routes == old(self)@.sources[i].routes by {
                assert(self@.sources[i] == self.sources@[i]@);
            }
        }
    }

    /// Sets the delay of a bus, as that of a channel.
    pub fn set_output_delay(&mut self, index: usize, delay_ms: Scalar, differs: bool, shown: &str)
        ensures
            final(self)@ == (if index < old(self)@.outputs.len() && differs {
                AppModel {
                    status_message: delay_text(
                        old(self)@.outputs[index as int].name,
                        strips::delay_in_range(delay_ms),
                        shown@,
                    ),
                    ..with_output(
                        old(self)@,
                        index as int,
                        OutputModel {
                            delay_ms: strips::delay_in_range(delay_ms),
                            ..old(self)@.outputs[index as int]
                        },
                    )
                }
            } else {
                old(self)@
            }),
            old(self)@.wf() ==> final(self)@.wf(),
    {
        if index < self.outputs.len() && differs {
            let delay_ms = clamp_delay(delay_ms);
            let message = delay_status(self.outputs[index].name.as_str(), delay_ms, shown);
            let output = &mut self.outputs[index];
            output.delay_ms = delay_ms;
            self.dirty = true;
            self.status_message = message;
        }
    }

    /// Sets a band of a channel, within its range. `differs` tells whether
    /// that differs from the gain that is set by more than the precision of
    /// the numbers, and `shown` is it with a sign and one digit after the point.
    pub fn set_source_eq(
        &mut self,
        index: usize,
        band: EqBand,
        db: Scalar,
        differs: bool,
        shown: &str,
    )
        ensures
            final(self)@ == (if index < old(self)@.sources.len() && differs {
                AppModel {
                    status_message: band_text(
                        old(self)@.sources[index as int].name,
                        band,
                        shown@,
                    ),
                    ..with_source(
                        old(self)@,
                        index as int,
                        SourceModel {
                            eq: old(self)@.sources[index as int].eq.with(
                                band,
                                strips::band_gain(db),
                            ),
                            ..old(self)@.sources[index as int]
                        },
                    )
                }
            } else {
                old(self)@
            }),
            old(self)@.wf() ==> final(self)@.wf(),
    {
        if index < self.sources.len() {
            let message = band_status(self.sources[index].name.as_str(), band, shown);
            let source = &mut self.sources[index];
            let stored = source.eq.set(band, db, differs);
            if stored.is_some() {
                self.dirty = true;
                self.status_message = message;
            } else {
                assert(self@.sources =~= old(self)@.sources);
            }
        }
        proof {
            assert forall|i: int| 0 <= i < self@.sources.len() implies (
            #[trigger] self@.sources[i]).routes == old(self)@.sources[i].routes by {
                assert(self@.sources[i] == self.sources@[i]@);
            }
        }
    }

    /// Sets a band of a bus, as that of a channel.
    pub fn set_output_eq(
        &mut self,
        index: usize,
        band: EqBand,
        db: Scalar,
        differs: bool,
        shown: &str,
    )
        ensures
            final(self)@ == (if index < old(self)@.outputs.len() && differs {
                AppModel {
                    status_message: band_text(
                        old(self)@.outputs[index as int].name,
                        band,
                        shown@,
                    ),
                    ..with_output(
                        old(self)@,
                        index as int,
                        OutputModel {
                            eq: old(self)@.outputs[index as int].eq.with(
                                band,
                                strips::band_gain(db),
                            ),
                            ..old(self)@.outputs[index as int]
                        },
                    )
                }
            } else {
                old(self)@
            }),
            old(self)@.wf() ==> final(self)@.wf(),
    {
        if index < self.outputs.len() {
            let message = band_status(self.outputs[index].name.as_str(), band, shown);
            let output = &mut self.outputs[index];
            let stored = output.eq.set(band, db, differs);
            if stored.is_some() {
                self.dirty = true;
                self.status_message = message;
            } else {
                assert(self@.outputs =~= old(self)@.outputs);
            }
        }
    }

    /// Sets the mode of a strip.
    pub fn set_channel_mode(&mut self, source: bool, index: usize, mode: ChannelMode)
        ensures
            final(self)@ == with_mode(old(self)@, source, index as int, mode),
            old(self)@.wf() ==> final(self)@.wf(),
    {
        if source {
            if index < self.sources.len() {
                assert(self@.sources[index as int] == self.sources@[index as int]@);
                if self.sources[index].mode != mode {
                    let strip = &mut self.sources[index];
                    strip.mode = mode;
                    self.dirty = true;
                }
            }
        } else {
            if index < self.outputs.len() {
                assert(self@.outputs[index as int] == self.outputs@[index as int]@);
                if self.outputs[index].mode != mode {
                    let strip = &mut self.outputs[index];
                    strip.mode = mode;
                    self.dirty = true;
                }
            }
        }
        proof {
            assert forall|i: int| 0 <= i < self@.sources.len() implies (
            #[trigger] self@.sources[i]).routes == old(self)@.sources[i].routes by {
                assert(self@.sources[i] == self.sources@[i]@);
            }
        }
    }

    /// Sets the next mode of a strip.
    pub fn cycle_channel_mode(&mut self, source: bool, index: usize)
        ensures
            final(self)@ == (if source && index < old(self)@.sources.len() {
                let strip = old(self)@.sources[index as int];
                let mode = controls::mode_after(strip.mode);
                AppModel {
                    status_message: mode_text(strip.name, mode),
                    ..with_mode(old(self)@, source, index as int, mode)
                }
            } else if !source && index < old(self)@.outputs.len() {
                let strip = old(self)@.outputs[index as int];
                let mode = controls::mode_after(strip.mode);
                AppModel {
                    status_message: mode_text(strip.name, mode),
                    ..with_mode(old(self)@, source, index as int, mode)
                }
            } else {
                old(self)@
            }),
            old(self)@.wf() ==> final(self)@.wf(),
    {
        if source {
            if index < self.sources.len() {
                let mode = self.sources[index].mode.next();
                let message = mode_status(self.sources[index].name.as_str(), mode);
                self.set_channel_mode(source, index, mode);
                self.status_message = message;
            }
        } else {
            if index < self.outputs.len() {
                let mode = self.outputs[index].mode.next();
                let message = mode_status(self.outputs[index].name.as_str(), mode);
                self.set_channel_mode(source, index, mode);
                self.status_message = message;
            }
        }
    }

    /// Sets the width of the outputs panel, so that both panels stay usable.
    /// `room` is what the window leaves next to the least width of the
    /// sources; `differs` tells whether the bounded width differs from the one
    /// that is set by more than the precision of the numbers.
    pub fn set_outputs_panel_width(&mut self, width: Scalar, room: Scalar, differs: bool)
        ensures
            final(self)@ == (if differs {
                AppModel {
                    outputs_panel_width: panel_limit(width, room),
                    dirty: true,
                    ..old(self)@
                }
            } else {
                old(self)@
            }),
            old(self)@.wf() ==> final(self)@.wf(),
    {
        if differs {
            self.outputs_panel_width = panel_width(width, room);
            self.dirty = true;
        }
    }

    /// Shows a meter frame on all that is bound to its endpoint. The result
    /// lists the levels before and after, channels first: a view is drawn
    /// again where one differs visibly.
    pub fn apply_meter(&mut self, frame: &MeterFrame) -> (changes: Vec<LevelChange>)
        ensures
            match strips::device_place(old(self)@.devices, frame.endpoint_id) {
                None => changes@.len() == 0 && final(self)@ == old(self)@,
                Some(at) => {
                    let levels = frame_levels(*frame, old(self)@.devices[at]);
                    &&& changes@ == source_changes(
                        old(self)@.sources,
                        frame.endpoint_id,
                        levels,
                    ) + output_changes(old(self)@.outputs, frame.endpoint_id, levels)
                    &&& final(self)@ == (AppModel {
                        sources: old(self)@.sources.map_values(
                            |source: SourceModel|
                                metered_source(source, frame.endpoint_id, levels),
                        ),
                        outputs: old(self)@.outputs.map_values(
                            |output: OutputModel|
                                metered_output(output, frame.endpoint_id, levels),
                        ),
                        ..old(self)@
                    })
                },
            },
            old(self)@.wf() ==> final(self)@.wf(),
    {
        let at = match find_device(&self.devices, frame.endpoint_id) {
            Some(at) => at,
            None => {
                return Vec::new();
            },
        };
        let left = match level_in_frame(frame, &self.devices[at], 0) {
            Some(level) => level,
            None => Scalar::zero(),
        };
        let right = match level_in_frame(frame, &self.devices[at], 1) {
            Some(level) => level,
            None => left,
        };
        let mut changes = meter_sources(&mut self.sources, frame.endpoint_id, left, right);
        let mut more = meter_outputs(&mut self.outputs, frame.endpoint_id, left, right);
        changes.append(&mut more);
        changes
    }

    /// Binds a channel to an endpoint that fits it.
    pub fn assign_source_endpoint(&mut self, index: usize, endpoint_id: EndpointId) -> (assigned:
        bool)
        ensures
            assigned == (index < old(self)@.sources.len() && fits_source(
                old(self)@.devices,
                endpoint_id,
                old(self)@.sources[index as int].kind,
            )),
            final(self)@ == (if assigned {
                AppModel {
                    endpoint_picker: None,
                    ..with_source(
                        old(self)@,
                        index as int,
                        strips::shown_source(
                            SourceModel {
                                endpoint_id: Some(endpoint_id),
                                user_bound: true,
                                ..old(self)@.sources[index as int]
                            },
                            old(self)@.devices,
                        ),
                    )
                }
            } else {
                old(self)@
            }),
            old(self)@.wf() ==> final(self)@.wf(),
    {
        if index >= self.sources.len() {
            return false;
        }
        assert(self@.sources[index as int] == self.sources@[index as int]@);
        let kind = self.sources[index].kind;
        let mut fits = false;
        let mut at: usize = 0;
        while at < self.devices.len()
            invariant
                *self == *old(self),
                at <= self.devices@.len(),
                fits == exists|i: int|
                    0 <= i < at && (#[trigger] self.devices@[i]).id == endpoint_id
                        && labels::source_fits(kind, self.devices@[i].endpoint_type),
            decreases self.devices@.len() - at,
        {
            if self.devices[at].id == endpoint_id && source_accepts(
                kind,
                self.devices[at].endpoint_type,
            ) {
                fits = true;
                assert(self.devices@[at as int].id == endpoint_id);
            }
            at = at + 1;
        }
        if !fits {
            return false;
        }
        let source = &mut self.sources[index];
        source.endpoint_id = Some(endpoint_id);
        source.user_bound = true;
        update_source_binding(source, &self.devices);
        self.endpoint_picker = None;
        self.dirty = true;
        proof {
            assert forall|i: int| 0 <= i < self@.sources.len() implies (
            #[trigger] self@.sources[i]).routes == old(self)@.sources[i].routes by {
                assert(self@.sources[i] == self.sources@[i]@);
            }
        }
        true
    }

    /// Binds a bus to an endpoint that fits it.
    pub fn assign_output_endpoint(&mut self, index: usize, endpoint_id: EndpointId) -> (assigned:
        bool)
        ensures
            assigned == (index < old(self)@.outputs.len() && fits_output(
                old(self)@.devices,
                endpoint_id,
                old(self)@.outputs[index as int].kind,
            )),
            final(self)@ == (if assigned {
                AppModel {
                    endpoint_picker: None,
                    ..with_output(
                        old(self)@,
                        index as int,
                        strips::shown_output(
                            OutputModel {
                                endpoint_id: Some(endpoint_id),
                                user_bound: true,
                                ..old(self)@.outputs[index as int]
                            },
                            old(self)@.devices,
                        ),
                    )
                }
            } else {
                old(self)@
            }),
            old(self)@.wf() ==> final(self)@.wf(),
    {
        if index >= self.outputs.len() {
            return false;
        }
        assert(self@.outputs[index as int] == self.outputs@[index as int]@);
        let kind = self.outputs[index].kind;
        let mut fits = false;
        let mut at: usize = 0;
        while at < self.devices.len()
            invariant
                *self == *old(self),
                at <= self.devices@.len(),
                fits == exists|i: int|
                    0 <= i < at && (#[trigger] self.devices@[i]).id == endpoint_id
                        && labels::output_fits(kind, self.devices@[i].endpoint_type),
            decreases self.devices@.len() - at,
        {
            if self.devices[at].id == endpoint_id && output_accepts(
                kind,
                self.devices[at].endpoint_type,
            ) {
                fits = true;
                assert(self.devices@[at as int].id == endpoint_id);
            }
            at = at + 1;
        }
        if !fits {
            return false;
        }
        let output = &mut self.outputs[index];
        output.endpoint_id = Some(endpoint_id);
        output.user_bound = true;
        update_output_binding(output, &self.devices);
        self.endpoint_picker = None;
        self.dirty = true;
        true
    }

    /// Binds a channel to nothing, as the user chose.
    pub fn clear_source_binding(&mut self, index: usize)
        ensures
            final(self)@ == (if index < old(self)@.sources.len() {
                let source = old(self)@.sources[index as int];
                with_source(
                    old(self)@,
                    index as int,
                    SourceModel {
                        endpoint_id: None,
                        user_bound: true,
                        detail: labels::source_hint(source.kind),
                        online: false,
                        ..source
                    },
                )
            } else {
                old(self)@
            }),
            old(self)@.wf() ==> final(self)@.wf(),
    {
        if index < self.sources.len() {
            let source = &mut self.sources[index];
            source.endpoint_id = None;
            source.user_bound = true;
            source.detail = empty_source_detail(source.kind).to_owned();
            source.online = false;
            self.dirty = true;
        }
        proof {
            assert forall|i: int| 0 <= i < self@.sources.len() implies (
            #[trigger] self@.sources[i]).routes == old(self)@.sources[i].routes by {
                assert(self@.sources[i] == self.sources@[i]@);
            }
        }
    }

    /// Binds a bus to nothing, as the user chose.
    pub fn clear_output_binding(&mut self, index: usize)
        ensures
            final(self)@ == (if index < old(self)@.outputs.len() {
                let output = old(self)@.outputs[index as int];
                with_output(
                    old(self)@,
                    index as int,
                    OutputModel {
                        endpoint_id: None,
                        user_bound: true,
                        detail: labels::output_hint(output.kind),
                        online: false,
                        ..output
                    },
                )
            } else {
                old(self)@
            }),
            old(self)@.wf() ==> final(self)@.wf(),
    {
        if index < self.outputs.len() {
            let output = &mut self.outputs[index];
            output.endpoint_id = None;
            output.user_bound = true;
            output.detail = empty_output_detail(output.kind).to_owned();
            output.online = false;
            self.dirty = true;
        }
    }

    /// What is bound to a virtual device, and how many routes touch it.
    pub fn virtual_usage(&self, virtual_device_id: VirtualDeviceId) -> (usage: (
        Vec<String>,
        usize,
    ))
        ensures
            texts(usage.0@) == source_users(self@.sources, self@.devices, virtual_device_id)
                + output_users(self@.outputs, self@.devices, virtual_device_id),
            usage.1 == routes_of_virtual(
                self@.active_routes,
                self@.devices,
                virtual_device_id,
            ),
    {
        let mut users: Vec<String> = Vec::new();
        let ghost sources = self@.sources;
        let ghost outputs = self@.outputs;
        let mut at: usize = 0;
        assert(sources.take(0) =~= Seq::empty());
        assert(texts(users@) =~= Seq::empty());
        while at < self.sources.len()
            invariant
                at <= self.sources@.len(),
                sources == self@.sources,
                texts(users@) == source_users(
                    sources.take(at as int),
                    self.devices@,
                    virtual_device_id,
                ),
            decreases self.sources@.len() - at,
        {
            assert(sources.take(at + 1).drop_last() =~= sources.take(at as int));
            assert(sources.take(at + 1).last() == self.sources@[at as int]@);
            let ghost before = texts(users@);
            if let Some(id) = self.sources[at].endpoint_id {
                if belongs_to(&self.devices, virtual_device_id, id) {
                    let name = self.sources[at].name.clone();
                    users.push(name);
                    assert(texts(users@) =~= before.push(self.sources@[at as int].name@));
                }
            }
            at = at + 1;
        }
        assert(sources.take(at as int) =~= sources);
        let ghost channels = texts(users@);
        let mut next: usize = 0;
        assert(outputs.take(0) =~= Seq::empty());
        assert(channels + output_users(
            outputs.take(0),
            self.devices@,
            virtual_device_id,
        ) =~= channels);
        while next < self.outputs.len()
            invariant
                next <= self.outputs@.len(),
                outputs == self@.outputs,
                texts(users@) == channels + output_users(
                    outputs.take(next as int),
                    self.devices@,
                    virtual_device_id,
                ),
            decreases self.outputs@.len() - next,
        {
            let ghost so_far = output_users(
                outputs.take(next as int),
                self.devices@,
                virtual_device_id,
            );
            assert(outputs.take(next + 1).drop_last() =~= outputs.take(next as int));
            assert(outputs.take(next + 1).last() == self.outputs@[next as int]@);
            let ghost before = texts(users@);
            if let Some(id) = self.outputs[next].endpoint_id {
                if belongs_to(&self.devices, virtual_device_id, id) {
                    let named = joined3(
                        self.outputs[next].name.as_str(),
                        " (",
                        self.outputs[next].code.as_str(),
                    );
                    let user = joined(named.as_str(), ")");
                    users.push(user);
                    assert(texts(users@) =~= before.push(user@));
                    assert((channels + so_far).push(user@) =~= channels + so_far.push(user@));
                }
            }
            next = next + 1;
        }
        assert(outputs.take(next as int) =~= outputs);
        let ghost routes = self.active_routes.entries();
        let total: usize = self.active_routes.len();
        let mut count: usize = 0;
        let mut place: usize = 0;
        assert(routes.take(0) =~= Seq::empty());
        while place < total
            invariant
                place <= total == routes.len(),
                routes == self.active_routes.entries(),
                count <= place,
                count == routes_of_virtual(
                    routes.take(place as int),
                    self.devices@,
                    virtual_device_id,
                ),
            decreases total - place,
        {
            assert(routes.take(place + 1).drop_last() =~= routes.take(place as int));
            assert(routes.take(place + 1).last() == routes[place as int]);
            let pair = self.active_routes.key_at(place);
            if belongs_to(&self.devices, virtual_device_id, pair.source) || belongs_to(
                &self.devices,
                virtual_device_id,
                pair.destination,
            ) {
                count = count + 1;
            }
            place = place + 1;
        }
        assert(routes.take(place as int) =~= routes);
        (users, count)
    }
}

/// What is told of a mode.
pub open spec fn mode_text(name: Seq<char>, mode: ChannelMode) -> Seq<char> {
    "'"@ + name + "' channel mode: "@ + controls::mode_label(mode)
}

fn mode_status(name: &str, mode: ChannelMode) -> (message: String)
    ensures
        message@ == mode_text(name@, mode),
{
    let head = joined3("'", name, "' channel mode: ");
    joined(head.as_str(), mode.label())
}

/// Where a bus is taken out, every other bus keeps its place in what a channel
/// wants: those before it stay where they are, those behind it move up by one,
/// and nothing else of the channel changes.
pub proof fn law_other_buses_keep_their_routes(source: SourceModel, at: int, bus: int)
    requires
        0 <= at < source.routes.len(),
        0 <= bus < source.routes.len(),
        bus != at,
    ensures
        without_bus(source, at).routes.len() == source.routes.len() - 1,
        without_bus(source, at).routes[if bus < at {
            bus
        } else {
            bus - 1
        }] == source.routes[bus],
        without_bus(source, at) == (SourceModel {
            routes: without_bus(source, at).routes,
            ..source
        }),
{
}

/// A bus that is added and taken out again leaves what every channel wants as
/// it was.
pub proof fn law_bus_comes_and_goes(source: SourceModel)
    ensures
        without_bus(
            SourceModel { routes: source.routes.push(false), ..source },
            source.routes.len() as int,
        ) == source,
{
    assert(source.routes.push(false).remove(source.routes.len() as int) =~= source.routes);
}

/// A fader moves its own strip, to where it was moved or to the nearer end of
/// its range, and leaves every other strip and every other setting alone.
pub proof fn law_a_fader_moves_its_own_strip(
    state: AppModel,
    at: int,
    raised: Scalar,
    other: int,
)
    requires
        0 <= at < state.sources.len(),
        0 <= other < state.sources.len(),
        other != at,
    ensures
        ({
            let after = with_source(
                state,
                at,
                SourceModel { gain_db: fader_gain(raised), ..state.sources[at] },
            );
            let set = after.sources[at].gain_db;
            &&& after.sources.len() == state.sources.len()
            &&& after.sources[other] == state.sources[other]
            &&& after.sources[at] == (SourceModel { gain_db: set, ..state.sources[at] })
            &&& after.outputs == state.outputs
            &&& after.dirty
            &&& !raised.nan() && -0x4270_0000 <= raised.rank() <= 0x4120_0000 ==> set == raised
            &&& !raised.nan() && raised.rank() > 0x4120_0000 ==> set.bits == 0x4120_0000
            &&& !raised.nan() && raised.rank() < -0x4270_0000 ==> set.bits == 0xc270_0000
        }),
{
}

/// A bus that is set is the one at its place; the other buses, the channels
/// and the rest stay as they were, and the change is to be saved.
pub proof fn law_a_setting_stays_in_its_place(
    state: AppModel,
    at: int,
    source: SourceModel,
    output: OutputModel,
    other: int,
)
    requires
        other != at,
    ensures
        0 <= at < state.outputs.len() ==> with_output(state, at, output).outputs[at] == output,
        0 <= at < state.outputs.len() && 0 <= other < state.outputs.len() ==> with_output(
            state,
            at,
            output,
        ).outputs[other] == state.outputs[other],
        0 <= at < state.sources.len() ==> with_source(state, at, source).sources[at] == source,
        0 <= at < state.sources.len() && 0 <= other < state.sources.len() ==> with_source(
            state,
            at,
            source,
        ).sources[other] == state.sources[other],
        with_output(state, at, output) == (AppModel {
            outputs: with_output(state, at, output).outputs,
            dirty: true,
            ..state
        }),
        with_source(state, at, source) == (AppModel {
            sources: with_source(state, at, source).sources,
            dirty: true,
            ..state
        }),
{
}

/// A mode is set on the strip of its side and place, and on no other; a mode
/// that is set already changes nothing.
pub proof fn law_a_mode_is_set_on_its_strip(
    state: AppModel,
    source: bool,
    at: int,
    mode: ChannelMode,
    other: int,
)
    requires
        other != at,
    ensures
        ({
            let after = with_mode(state, source, at, mode);
            &&& source && 0 <= at < state.sources.len() ==> {
                &&& after.sources[at].mode == mode
                &&& after.sources[at] == (SourceModel { mode, ..state.sources[at] })
                &&& after.outputs == state.outputs
                &&& 0 <= other < state.sources.len() ==> after.sources[other]
                    == state.sources[other]
            }
            &&& !source && 0 <= at < state.outputs.len() ==> {
                &&& after.outputs[at].mode == mode
                &&& after.outputs[at] == (OutputModel { mode, ..state.outputs[at] })
                &&& after.sources == state.sources
                &&& 0 <= other < state.outputs.len() ==> after.outputs[other]
                    == state.outputs[other]
            }
            &&& source && 0 <= at < state.sources.len() && state.sources[at].mode == mode ==> after
                == state
            &&& !source && 0 <= at < state.outputs.len() && state.outputs[at].mode == mode ==> after
                == state
        }),
{
    if source && 0 <= at < state.sources.len() {
        assert(with_mode(state, source, at, mode).sources[at] =~= (SourceModel {
            mode,
            ..state.sources[at]
        }));
    }
}

/// The first channel of a frame is shown on the left and the second on the
/// right, each within the range of the meter; a frame of one channel shows it
/// on both sides, and one without any shows silence.
pub proof fn law_left_is_left_and_right_is_right(frame: MeterFrame, device: AudioEndpoint)
    ensures
        ({
            let levels = frame_levels(frame, device);
            let channels = device.channels@;
            &&& channels.len() > 0 && frame.levels@.contains_key(channels[0]) ==> levels.0
                == frame.levels@[channels[0]].amount()
            &&& channels.len() > 1 && frame.levels@.contains_key(channels[1]) ==> levels.1
                == frame.levels@[channels[1]].amount()
            &&& channels.len() == 1 ==> levels.1 == levels.0
            &&& channels.len() > 1 && !frame.levels@.contains_key(channels[1]) ==> levels.1
                == levels.0
            &&& channels.len() == 0 ==> levels.0.bits == 0 && levels.1.bits == 0
            &&& channels.len() > 0 && !frame.levels@.contains_key(channels[0]) ==> levels.0.bits
                == 0
        }),
{
}

/// A meter frame moves the meters of what is bound to its endpoint and nothing
/// else: the left level on the left, the right on the right, each within the
/// range of the meter.
pub proof fn law_a_frame_moves_the_meters_of_its_endpoint(
    source: SourceModel,
    output: OutputModel,
    endpoint: EndpointId,
    left: Scalar,
    right: Scalar,
)
    ensures
        source.endpoint_id != Some(endpoint) ==> metered_source(source, endpoint, (left, right))
            == source,
        output.endpoint_id != Some(endpoint) ==> metered_output(output, endpoint, (left, right))
            == output,
        source.endpoint_id == Some(endpoint) ==> {
            let after = metered_source(source, endpoint, (left, right));
            let zero = Scalar { bits: 0 };
            let one = Scalar { bits: 0x3f80_0000 };
            &&& after == (SourceModel {
                meter_l: after.meter_l,
                meter_r: after.meter_r,
                ..source
            })
            &&& zero.le(left) && left.le(one) ==> after.meter_l == left
            &&& zero.le(right) && right.le(one) ==> after.meter_r == right
            &&& one.lt(left) ==> after.meter_l == one
            &&& one.lt(right) ==> after.meter_r == one
            &&& left.lt(zero) ==> after.meter_l == zero
            &&& right.lt(zero) ==> after.meter_r == zero
        },
        output.endpoint_id == Some(endpoint) ==> {
            let after = metered_output(output, endpoint, (left, right));
            let zero = Scalar { bits: 0 };
            let one = Scalar { bits: 0x3f80_0000 };
            &&& after == (OutputModel {
                meter_l: after.meter_l,
                meter_r: after.meter_r,
                ..output
            })
            &&& zero.le(left) && left.le(one) ==> after.meter_l == left
            &&& zero.le(right) && right.le(one) ==> after.meter_r == right
            &&& one.lt(left) ==> after.meter_l == one
            &&& one.lt(right) ==> after.meter_r == one
            &&& left.lt(zero) ==> after.meter_l == zero
            &&& right.lt(zero) ==> after.meter_r == zero
        },
{
}

/// The changes that are told of are those of what is bound to the endpoint,
/// left before right, from what was shown to what is shown, in order.
pub proof fn law_level_changes_are_told_in_order(
    front: Seq<SourceModel>,
    source: SourceModel,
    buses: Seq<OutputModel>,
    output: OutputModel,
    endpoint: EndpointId,
    levels: (Scalar, Scalar),
)
    ensures
        ({
            let before = source_changes(front, endpoint, levels);
            let after = source_changes(front.push(source), endpoint, levels);
            let shown = metered_source(source, endpoint, levels);
            &&& source_changes(Seq::empty(), endpoint, levels).len() == 0
            &&& source.endpoint_id != Some(endpoint) ==> after == before
            &&& source.endpoint_id == Some(endpoint) ==> {
                &&& after.len() == before.len() + 2
                &&& after.take(before.len() as int) == before
                &&& after[before.len() as int].before == source.meter_l
                &&& after[before.len() as int].after == shown.meter_l
                &&& after[before.len() as int + 1].before == source.meter_r
                &&& after[before.len() as int + 1].after == shown.meter_r
            }
        }),
        ({
            let before = output_changes(buses, endpoint, levels);
            let after = output_changes(buses.push(output), endpoint, levels);
            let shown = metered_output(output, endpoint, levels);
            &&& output_changes(Seq::empty(), endpoint, levels).len() == 0
            &&& output.endpoint_id != Some(endpoint) ==> after == before
            &&& output.endpoint_id == Some(endpoint) ==> {
                &&& after.len() == before.len() + 2
                &&& after.take(before.len() as int) == before
                &&& after[before.len() as int].before == output.meter_l
                &&& after[before.len() as int].after == shown.meter_l
                &&& after[before.len() as int + 1].before == output.meter_r
                &&& after[before.len() as int + 1].after == shown.meter_r
            }
        }),
{
    assert(front.push(source).drop_last() =~= front);
    assert(buses.push(output).drop_last() =~= buses);
    let before = source_changes(front, endpoint, levels);
    if source.endpoint_id == Some(endpoint) {
        assert(source_changes(front.push(source), endpoint, levels).take(before.len() as int)
            =~= before);
    }
    let bus_before = output_changes(buses, endpoint, levels);
    if output.endpoint_id == Some(endpoint) {
        assert(output_changes(buses.push(output), endpoint, levels).take(bus_before.len() as int)
            =~= bus_before);
    }
}

/// A strip can be bound to a device exactly where a device with the identifier
/// is known that is made for it.
pub proof fn law_only_fitting_devices_are_bound(
    devices: Seq<AudioEndpoint>,
    id: EndpointId,
    at: int,
)
    requires
        0 <= at < devices.len(),
    ensures
        devices[at].id == id && devices[at].endpoint_type is PhysicalInput ==> fits_source(
            devices,
            id,
            SourceKind::Physical,
        ),
        devices[at].id == id && devices[at].endpoint_type is ApplicationOutput ==> fits_source(
            devices,
            id,
            SourceKind::Application,
        ) && fits_source(devices, id, SourceKind::Desktop),
        devices[at].id == id && devices[at].endpoint_type is VirtualInput ==> fits_source(
            devices,
            id,
            SourceKind::Virtual,
        ) && fits_source(devices, id, SourceKind::Desktop),
        devices[at].id == id && devices[at].endpoint_type is PhysicalOutput ==> fits_output(
            devices,
            id,
            BusKind::Physical,
        ),
        devices[at].id == id && devices[at].endpoint_type is VirtualOutput ==> fits_output(
            devices,
            id,
            BusKind::Virtual,
        ),
        (forall|i: int|
            0 <= i < devices.len() ==> (#[trigger] devices[i]).id != id || !(
            devices[i].endpoint_type is PhysicalInput)) ==> !fits_source(
            devices,
            id,
            SourceKind::Physical,
        ),
        (forall|i: int|
            0 <= i < devices.len() ==> (#[trigger] devices[i]).id != id || !(
            devices[i].endpoint_type is PhysicalOutput)) ==> !fits_output(
            devices,
            id,
            BusKind::Physical,
        ),
        (forall|i: int|
            0 <= i < devices.len() ==> (#[trigger] devices[i]).id != id || !(
            devices[i].endpoint_type is VirtualOutput)) ==> !fits_output(
            devices,
            id,
            BusKind::Virtual,
        ),
{
}

/// The next bus of a kind is called by the letter of the kind, A for physical
/// and B for virtual, and the number after those that there are of it.
pub proof fn law_buses_are_lettered_and_numbered(outputs: Seq<OutputModel>)
    ensures
        bus_code(outputs, BusKind::Physical) == "A"@ + text::decimal(
            outputs.filter(|output: OutputModel| output.kind == BusKind::Physical).len() + 1,
        ),
        bus_code(outputs, BusKind::Virtual) == "B"@ + text::decimal(
            outputs.filter(|output: OutputModel| output.kind == BusKind::Virtual).len() + 1,
        ),
{
    lemma_counted_by_kind(outputs, BusKind::Physical);
    lemma_counted_by_kind(outputs, BusKind::Virtual);
}

proof fn lemma_counted_by_kind(outputs: Seq<OutputModel>, kind: BusKind)
    ensures
        inventory::outputs_of_kind(outputs, kind) == outputs.filter(
            |output: OutputModel| output.kind == kind,
        ).len(),
    decreases outputs.len(),
{
    reveal(Seq::filter);
    if outputs.len() > 0 {
        lemma_counted_by_kind(outputs.drop_last(), kind);
    }
}

/// What is bound to a virtual device is named, channels by their names and
/// buses by name and code, in order; every route at either end of one of its
/// endpoints is counted once.
pub proof fn law_users_of_a_virtual_device_are_named(
    sources: Seq<SourceModel>,
    outputs: Seq<OutputModel>,
    routes: Seq<(EndpointPair, RouteId)>,
    devices: Seq<AudioEndpoint>,
    owner: VirtualDeviceId,
)
    ensures
        source_users(sources, devices, owner) == sources.filter(
            |source: SourceModel|
                source.endpoint_id is Some && of_virtual(devices, owner, source.endpoint_id->0),
        ).map_values(|source: SourceModel| source.name),
        output_users(outputs, devices, owner) == outputs.filter(
            |output: OutputModel|
                output.endpoint_id is Some && of_virtual(devices, owner, output.endpoint_id->0),
        ).map_values(|output: OutputModel| output.name + " ("@ + output.code + ")"@),
        routes_of_virtual(routes, devices, owner) == routes.filter(
            |entry: (EndpointPair, RouteId)|
                of_virtual(devices, owner, entry.0.source) || of_virtual(
                    devices,
                    owner,
                    entry.0.destination,
                ),
        ).len(),
{
    lemma_source_users(sources, devices, owner);
    lemma_output_users(outputs, devices, owner);
    lemma_routes_of_virtual(routes, devices, owner);
}

proof fn lemma_source_users(
    sources: Seq<SourceModel>,
    devices: Seq<AudioEndpoint>,
    owner: VirtualDeviceId,
)
    ensures
        source_users(sources, devices, owner) == sources.filter(
            |source: SourceModel|
                source.endpoint_id is Some && of_virtual(devices, owner, source.endpoint_id->0),
        ).map_values(|source: SourceModel| source.name),
    decreases sources.len(),
{
    reveal(Seq::filter);
    let uses = |source: SourceModel|
        source.endpoint_id is Some && of_virtual(devices, owner, source.endpoint_id->0);
    let name = |source: SourceModel| source.name;
    if sources.len() > 0 {
        lemma_source_users(sources.drop_last(), devices, owner);
        let rest = sources.drop_last().filter(uses);
        if uses(sources.last()) {
            assert(sources.filter(uses) == rest.push(sources.last()));
            assert(rest.push(sources.last()).map_values(name) =~= rest.map_values(name).push(
                sources.last().name,
            ));
        } else {
            assert(sources.filter(uses) == rest);
        }
    }
    assert(source_users(sources, devices, owner) =~= sources.filter(uses).map_values(name));
}

proof fn lemma_output_users(
    outputs: Seq<OutputModel>,
    devices: Seq<AudioEndpoint>,
    owner: VirtualDeviceId,
)
    ensures
        output_users(outputs, devices, owner) == outputs.filter(
            |output: OutputModel|
                output.endpoint_id is Some && of_virtual(devices, owner, output.endpoint_id->0),
        ).map_values(|output: OutputModel| output.name + " ("@ + output.code + ")"@),
    decreases outputs.len(),
{
    reveal(Seq::filter);
    let uses = |output: OutputModel|
        output.endpoint_id is Some && of_virtual(devices, owner, output.endpoint_id->0);
    let name = |output: OutputModel| output.name + " ("@ + output.code + ")"@;
    if outputs.len() > 0 {
        lemma_output_users(outputs.drop_last(), devices, owner);
        let rest = outputs.drop_last().filter(uses);
        if uses(outputs.last()) {
            assert(outputs.filter(uses) == rest.push(outputs.last()));
            assert(rest.push(outputs.last()).map_values(name) =~= rest.map_values(name).push(
                name(outputs.last()),
            ));
        } else {
            assert(outputs.filter(uses) == rest);
        }
    }
    assert(output_users(outputs, devices, owner) =~= outputs.filter(uses).map_values(name));
}

proof fn lemma_routes_of_virtual(
    routes: Seq<(EndpointPair, RouteId)>,
    devices: Seq<AudioEndpoint>,
    owner: VirtualDeviceId,
)
    ensures
        routes_of_virtual(routes, devices, owner) == routes.filter(
            |entry: (EndpointPair, RouteId)|
                of_virtual(devices, owner, entry.0.source) || of_virtual(
                    devices,
                    owner,
                    entry.0.destination,
                ),
        ).len(),
    decreases routes.len(),
{
    reveal(Seq::filter);
    if routes.len() > 0 {
        lemma_routes_of_virtual(routes.drop_last(), devices, owner);
    }
}

/// An endpoint belongs to a virtual device exactly where a device of it is
/// known under that identifier.
pub proof fn law_endpoints_belong_to_their_virtual_device(
    devices: Seq<AudioEndpoint>,
    owner: VirtualDeviceId,
    id: EndpointId,
    at: int,
)
    requires
        0 <= at < devices.len(),
    ensures
        devices[at].id == id && devices[at].virtual_device_id == Some(owner) ==> of_virtual(
            devices,
            owner,
            id,
        ),
        (forall|i: int|
            0 <= i < devices.len() ==> (#[trigger] devices[i]).id != id
                || devices[i].virtual_device_id != Some(owner)) ==> !of_virtual(devices, owner, id),
{
}

/// The routes that are counted at an endpoint are those that start or end
/// there.
pub proof fn law_routes_at_an_endpoint_are_counted(
    routes: Seq<(EndpointPair, RouteId)>,
    endpoint: EndpointId,
)
    ensures
        routes_at(routes, endpoint) == routes.filter(
            |entry: (EndpointPair, RouteId)|
                entry.0.source == endpoint || entry.0.destination == endpoint,
        ).len(),
    decreases routes.len(),
{
    reveal(Seq::filter);
    if routes.len() > 0 {
        law_routes_at_an_endpoint_are_counted(routes.drop_last(), endpoint);
    }
}

/// The outputs panel is never narrower than 320 pixels, never wider than the
/// room that is left where there is that much, and as wide as asked between.
pub proof fn law_the_panel_fits_its_room(width: Scalar, room: Scalar)
    requires
        !width.nan(),
        !room.nan(),
    ensures
        ({
            let least: int = 0x43a0_0000;
            let set = panel_limit(width, room);
            &&& set.rank() >= least
            &&& room.rank() >= least ==> set.rank() <= room.rank()
            &&& least <= width.rank() <= room.rank() ==> set == width
            &&& width.rank() < least ==> set.bits == 0x43a0_0000
            &&& room.rank() < least ==> set.bits == 0x43a0_0000 || set == width && width.rank()
                == least
            &&& least <= room.rank() < width.rank() ==> set == room
        }),
{
}

/// What is told of a delay, a band and a mode names the strip and the value; a
/// delay of nothing is told as off.
pub proof fn law_settings_are_told_by_name(
    name: Seq<char>,
    delay_ms: Scalar,
    shown: Seq<char>,
    band: EqBand,
    mode: ChannelMode,
)
    ensures
        !delay_ms.nan() && delay_ms.rank() <= 0 ==> delay_text(name, delay_ms, shown) == "'"@
            + name + "' delay off"@,
        !delay_ms.nan() && delay_ms.rank() > 0 ==> delay_text(name, delay_ms, shown) == "'"@ + name
            + "' delayed "@ + shown + " ms"@,
        band_text(name, EqBand::Low, shown) == "'"@ + name + "' "@ + "Low"@ + " "@ + shown
            + " dB"@,
        band_text(name, EqBand::Mid, shown) == "'"@ + name + "' "@ + "Mid"@ + " "@ + shown
            + " dB"@,
        band_text(name, EqBand::High, shown) == "'"@ + name + "' "@ + "High"@ + " "@ + shown
            + " dB"@,
        mode_text(name, ChannelMode::Swap) == "'"@ + name + "' channel mode: "@ + "SW"@,
        mode_text(name, mode) == "'"@ + name + "' channel mode: "@ + controls::mode_label(mode),
{
}

} // verus!
