//! The settings document and the mixer, turned into each other.
use vstd::prelude::*;

use super::app::{AppModel, AppState};
use super::app;
use super::inventory;
use super::labels::{
    empty_output_detail, empty_source_detail, BusKind, ChannelColor, SourceKind,
};
use super::labels;
use super::recall::snapshot_description;
use super::recall;
use super::scenes::{
    ChannelModel, ChannelSnapshot, Scene, SceneModel, SceneSnapshot, SnapshotModel,
};
use super::scenes;
use super::strips::{unrouted, EqBands, OutputBus, OutputModel, SourceModel, SourceStrip};
use super::strips;
use crate::domain::endpoint::AudioEndpoint;
use crate::domain::ids::EndpointPair;
use crate::persistence::document::{
    PersistedChannel, PersistedRoute, PersistedScene, PersistedSettings, PersistedVirtualDevice,
    RecordModel, SceneRecord, SessionDocument,
};
use crate::persistence::document;
use crate::scalar::Scalar;
use crate::text::{copied_text, same_text};

verus! {

/// The kind of channel behind a word. An unknown word is a physical one.
pub open spec fn source_kind_named(word: Seq<char>) -> SourceKind {
    if word == "desktop"@ {
        SourceKind::Desktop
    } else if word == "application"@ {
        SourceKind::Application
    } else if word == "virtual"@ {
        SourceKind::Virtual
    } else {
        SourceKind::Physical
    }
}

/// The word for a kind of channel.
pub open spec fn source_kind_word(kind: SourceKind) -> Seq<char> {
    match kind {
        SourceKind::Physical => "physical"@,
        SourceKind::Desktop => "desktop"@,
        SourceKind::Application => "application"@,
        SourceKind::Virtual => "virtual"@,
    }
}

/// The kind of bus behind a word. An unknown word is a physical one.
pub open spec fn bus_kind_named(word: Seq<char>) -> BusKind {
    if word == "virtual"@ {
        BusKind::Virtual
    } else {
        BusKind::Physical
    }
}

/// The word for a kind of bus.
pub open spec fn bus_kind_word(kind: BusKind) -> Seq<char> {
    match kind {
        BusKind::Physical => "physical"@,
        BusKind::Virtual => "virtual"@,
    }
}

/// The color with a value, or the first one.
pub open spec fn color_with(value: u32) -> ChannelColor {
    if value == labels::color_value(ChannelColor::Blue) {
        ChannelColor::Blue
    } else if value == labels::color_value(ChannelColor::Purple) {
        ChannelColor::Purple
    } else if value == labels::color_value(ChannelColor::Teal) {
        ChannelColor::Teal
    } else if value == labels::color_value(ChannelColor::Amber) {
        ChannelColor::Amber
    } else if value == labels::color_value(ChannelColor::Red) {
        ChannelColor::Red
    } else if value == labels::color_value(ChannelColor::Green) {
        ChannelColor::Green
    } else if value == labels::color_value(ChannelColor::Pink) {
        ChannelColor::Pink
    } else {
        ChannelColor::Cyan
    }
}

/// A kind and a color come back out of the words and values for them.
pub proof fn law_kinds_and_colors_come_back(
    source: SourceKind,
    bus: BusKind,
    color: ChannelColor,
)
    ensures
        source_kind_named(source_kind_word(source)) == source,
        bus_kind_named(bus_kind_word(bus)) == bus,
        color_with(labels::color_value(color)) == color,
{
    reveal_strlit("physical");
    reveal_strlit("desktop");
    reveal_strlit("application");
    reveal_strlit("virtual");
    assert("desktop"@[0] != "virtual"@[0]);
    assert("physical"@.len() == 8 && "application"@.len() == 11);
    assert("desktop"@.len() == 7 && "virtual"@.len() == 7);
}

fn source_kind_of(word: &str) -> (kind: SourceKind)
    ensures
        kind == source_kind_named(word@),
{
    if same_text(word, "desktop") {
        SourceKind::Desktop
    } else if same_text(word, "application") {
        SourceKind::Application
    } else if same_text(word, "virtual") {
        SourceKind::Virtual
    } else {
        SourceKind::Physical
    }
}

fn word_of_source(kind: SourceKind) -> (word: &'static str)
    ensures
        word@ == source_kind_word(kind),
{
    match kind {
        SourceKind::Physical => "physical",
        SourceKind::Desktop => "desktop",
        SourceKind::Application => "application",
        SourceKind::Virtual => "virtual",
    }
}

fn bus_kind_of(word: &str) -> (kind: BusKind)
    ensures
        kind == bus_kind_named(word@),
{
    if same_text(word, "virtual") {
        BusKind::Virtual
    } else {
        BusKind::Physical
    }
}

fn word_of_bus(kind: BusKind) -> (word: &'static str)
    ensures
        word@ == bus_kind_word(kind),
{
    match kind {
        BusKind::Physical => "physical",
        BusKind::Virtual => "virtual",
    }
}

fn color_of(value: u32) -> (color: ChannelColor)
    ensures
        color == color_with(value),
{
    match ChannelColor::with_value(value) {
        Some(color) => color,
        None => {
            assert(labels::color_value(ChannelColor::Blue) != value);
            assert(labels::color_value(ChannelColor::Purple) != value);
            assert(labels::color_value(ChannelColor::Teal) != value);
            assert(labels::color_value(ChannelColor::Amber) != value);
            assert(labels::color_value(ChannelColor::Red) != value);
            assert(labels::color_value(ChannelColor::Green) != value);
            assert(labels::color_value(ChannelColor::Pink) != value);
            ChannelColor::Cyan
        },
    }
}

/// The bands of a channel.
pub open spec fn bands_of(channel: RecordModel) -> EqBands {
    EqBands {
        low_db: channel.eq_low_db,
        mid_db: channel.eq_mid_db,
        high_db: channel.eq_high_db,
    }
}

/// The channel that a document describes, without routes. It is bound by the
/// user where it has an endpoint.
pub open spec fn described_source(channel: RecordModel, buses: nat) -> SourceModel {
    let kind = source_kind_named(channel.kind);
    SourceModel {
        endpoint_id: channel.endpoint,
        endpoint_name: channel.endpoint_name,
        user_bound: channel.endpoint is Some,
        gain_db: channel.gain_db,
        muted: channel.muted,
        delay_ms: channel.delay_ms,
        eq: bands_of(channel),
        mode: channel.mode,
        ..strips::new_source(
            channel.name,
            labels::source_hint(kind),
            kind,
            color_with(channel.color),
            buses,
        )
    }
}

/// The bus that a document describes.
pub open spec fn described_output(channel: RecordModel) -> OutputModel {
    let kind = bus_kind_named(channel.kind);
    OutputModel {
        endpoint_id: channel.endpoint,
        endpoint_name: channel.endpoint_name,
        user_bound: channel.endpoint is Some,
        gain_db: channel.gain_db,
        muted: channel.muted,
        delay_ms: channel.delay_ms,
        eq: bands_of(channel),
        mode: channel.mode,
        ..strips::new_output(
            match channel.code {
                Some(code) => code,
                None => Seq::empty(),
            },
            channel.name,
            labels::output_hint(kind),
            kind,
            color_with(channel.color),
        )
    }
}

/// What a scene of a document keeps of a channel.
pub open spec fn described_kept(channel: RecordModel) -> ChannelModel {
    ChannelModel {
        name: channel.name,
        color: color_with(channel.color),
        gain_db: channel.gain_db,
        muted: channel.muted,
        delay_ms: channel.delay_ms,
        eq: bands_of(channel),
        mode: channel.mode,
        endpoint_id: channel.endpoint,
    }
}

/// What a document says of a channel.
pub open spec fn source_record(source: SourceModel) -> RecordModel {
    RecordModel {
        name: source.name,
        color: labels::color_value(source.color),
        kind: source_kind_word(source.kind),
        gain_db: source.gain_db,
        muted: source.muted,
        delay_ms: source.delay_ms,
        mode: source.mode,
        eq_low_db: source.eq.low_db,
        eq_mid_db: source.eq.mid_db,
        eq_high_db: source.eq.high_db,
        endpoint: source.endpoint_id,
        endpoint_name: source.endpoint_name,
        code: None,
    }
}

/// What a document says of a bus.
pub open spec fn output_record(output: OutputModel) -> RecordModel {
    RecordModel {
        name: output.name,
        color: labels::color_value(output.color),
        kind: bus_kind_word(output.kind),
        gain_db: output.gain_db,
        muted: output.muted,
        delay_ms: output.delay_ms,
        mode: output.mode,
        eq_low_db: output.eq.low_db,
        eq_mid_db: output.eq.mid_db,
        eq_high_db: output.eq.high_db,
        endpoint: output.endpoint_id,
        endpoint_name: output.endpoint_name,
        code: Some(output.code),
    }
}

/// What a document says of a channel of a scene.
pub open spec fn kept_record(channel: ChannelModel) -> RecordModel {
    RecordModel {
        name: channel.name,
        color: labels::color_value(channel.color),
        kind: Seq::empty(),
        gain_db: channel.gain_db,
        muted: channel.muted,
        delay_ms: channel.delay_ms,
        mode: channel.mode,
        eq_low_db: channel.eq.low_db,
        eq_mid_db: channel.eq.mid_db,
        eq_high_db: channel.eq.high_db,
        endpoint: channel.endpoint_id,
        endpoint_name: None,
        code: None,
    }
}

fn source_strip(channel: &PersistedChannel, buses: usize) -> (strip: SourceStrip)
    ensures
        strip@ == described_source(channel@, buses as nat),
{
    let kind = source_kind_of(channel.kind.as_str());
    SourceStrip {
        endpoint_id: channel.endpoint,
        endpoint_name: copied_text(&channel.endpoint_name),
        name: channel.name.clone(),
        detail: empty_source_detail(kind).to_owned(),
        kind,
        color: color_of(channel.color),
        user_bound: channel.endpoint.is_some(),
        gain_db: channel.gain_db,
        muted: channel.muted,
        delay_ms: channel.delay_ms,
        eq: EqBands {
            low_db: channel.eq_low_db,
            mid_db: channel.eq_mid_db,
            high_db: channel.eq_high_db,
        },
        mode: channel.mode,
        routes: unrouted(buses),
        meter_l: Scalar::zero(),
        meter_r: Scalar::zero(),
        online: false,
    }
}

fn output_bus(channel: &PersistedChannel) -> (bus: OutputBus)
    ensures
        bus@ == described_output(channel@),
{
    let kind = bus_kind_of(channel.kind.as_str());
    let code = match &channel.code {
        Some(code) => code.clone(),
        None => String::new(),
    };
    let bus = OutputBus {
        endpoint_id: channel.endpoint,
        endpoint_name: copied_text(&channel.endpoint_name),
        code,
        name: channel.name.clone(),
        detail: empty_output_detail(kind).to_owned(),
        kind,
        color: color_of(channel.color),
        user_bound: channel.endpoint.is_some(),
        gain_db: channel.gain_db,
        muted: channel.muted,
        delay_ms: channel.delay_ms,
        eq: EqBands {
            low_db: channel.eq_low_db,
            mid_db: channel.eq_mid_db,
            high_db: channel.eq_high_db,
        },
        mode: channel.mode,
        meter_l: Scalar::zero(),
        meter_r: Scalar::zero(),
        online: false,
    };
    assert(bus@.code =~= described_output(channel@).code);
    bus
}

fn kept_channel(channel: &PersistedChannel) -> (kept: ChannelSnapshot)
    ensures
        kept@ == described_kept(channel@),
{
    ChannelSnapshot {
        name: channel.name.clone(),
        color: color_of(channel.color),
        gain_db: channel.gain_db,
        muted: channel.muted,
        delay_ms: channel.delay_ms,
        eq: EqBands {
            low_db: channel.eq_low_db,
            mid_db: channel.eq_mid_db,
            high_db: channel.eq_high_db,
        },
        mode: channel.mode,
        endpoint_id: channel.endpoint,
    }
}

fn record_of_source(source: &SourceStrip) -> (channel: PersistedChannel)
    ensures
        channel@ == source_record(source@),
{
    PersistedChannel {
        name: source.name.clone(),
        color: source.color.value(),
        kind: word_of_source(source.kind).to_owned(),
        gain_db: source.gain_db,
        muted: source.muted,
        delay_ms: source.delay_ms,
        mode: source.mode,
        eq_low_db: source.eq.low_db,
        eq_mid_db: source.eq.mid_db,
        eq_high_db: source.eq.high_db,
        endpoint: source.endpoint_id,
        endpoint_name: copied_text(&source.endpoint_name),
        code: None,
    }
}

fn record_of_output(output: &OutputBus) -> (channel: PersistedChannel)
    ensures
        channel@ == output_record(output@),
{
    PersistedChannel {
        name: output.name.clone(),
        color: output.color.value(),
        kind: word_of_bus(output.kind).to_owned(),
        gain_db: output.gain_db,
        muted: output.muted,
        delay_ms: output.delay_ms,
        mode: output.mode,
        eq_low_db: output.eq.low_db,
        eq_mid_db: output.eq.mid_db,
        eq_high_db: output.eq.high_db,
        endpoint: output.endpoint_id,
        endpoint_name: copied_text(&output.endpoint_name),
        code: Some(output.code.clone()),
    }
}

fn record_of_kept(kept: &ChannelSnapshot) -> (channel: PersistedChannel)
    ensures
        channel@ == kept_record(kept@),
{
    let channel = PersistedChannel {
        name: kept.name.clone(),
        color: kept.color.value(),
        kind: String::new(),
        gain_db: kept.gain_db,
        muted: kept.muted,
        delay_ms: kept.delay_ms,
        mode: kept.mode,
        eq_low_db: kept.eq.low_db,
        eq_mid_db: kept.eq.mid_db,
        eq_high_db: kept.eq.high_db,
        endpoint: kept.endpoint_id,
        endpoint_name: None,
        code: None,
    };
    assert(channel@.kind =~= Seq::<char>::empty());
    channel
}

/// The ends of routes.
pub open spec fn pairs_in(routes: Seq<PersistedRoute>) -> Seq<EndpointPair> {
    Seq::new(
        routes.len(),
        |i: int|
            EndpointPair { source: routes[i].source, destination: routes[i].destination },
    )
}

/// What a document says of routes.
pub open spec fn route_records(pairs: Seq<EndpointPair>) -> Seq<PersistedRoute> {
    Seq::new(
        pairs.len(),
        |i: int| PersistedRoute { source: pairs[i].source, destination: pairs[i].destination },
    )
}

/// The channels that a document describes.
pub open spec fn sources_in(channels: Seq<RecordModel>, buses: nat) -> Seq<SourceModel> {
    Seq::new(channels.len(), |i: int| described_source(channels[i], buses))
}

/// The buses that a document describes.
pub open spec fn outputs_in(channels: Seq<RecordModel>) -> Seq<OutputModel> {
    Seq::new(channels.len(), |i: int| described_output(channels[i]))
}

/// What a scene of a document keeps of channels.
pub open spec fn kept_in(channels: Seq<RecordModel>) -> Seq<ChannelModel> {
    Seq::new(channels.len(), |i: int| described_kept(channels[i]))
}

/// The scenes that a document describes.
pub open spec fn scenes_in(records: Seq<SceneRecord>) -> Seq<SceneModel> {
    Seq::new(records.len(), |i: int| described_scene(records[i]))
}

/// What a document says of channels.
pub open spec fn source_records(sources: Seq<SourceModel>) -> Seq<RecordModel> {
    Seq::new(sources.len(), |i: int| source_record(sources[i]))
}

/// What a document says of buses.
pub open spec fn output_records(outputs: Seq<OutputModel>) -> Seq<RecordModel> {
    Seq::new(outputs.len(), |i: int| output_record(outputs[i]))
}

/// What a document says of the channels of a scene.
pub open spec fn kept_records(channels: Seq<ChannelModel>) -> Seq<RecordModel> {
    Seq::new(channels.len(), |i: int| kept_record(channels[i]))
}

/// What a document says of scenes.
pub open spec fn scene_records(list: Seq<SceneModel>) -> Seq<SceneRecord> {
    Seq::new(list.len(), |i: int| scene_record(list[i]))
}

fn described_sources(channels: &Vec<PersistedChannel>, buses: usize) -> (sources: Vec<SourceStrip>)
    ensures
        inventory::source_models(sources@) == sources_in(
            document::record_models(channels@),
            buses as nat,
        ),
{
    let mut sources: Vec<SourceStrip> = Vec::new();
    let mut at: usize = 0;
    while at < channels.len()
        invariant
            at <= channels@.len(),
            sources@.len() == at,
            forall|i: int|
                0 <= i < at ==> (#[trigger] sources@[i])@ == described_source(
                    channels@[i]@,
                    buses as nat,
                ),
        decreases channels@.len() - at,
    {
        sources.push(source_strip(&channels[at], buses));
        at = at + 1;
    }
    assert(inventory::source_models(sources@) =~= sources_in(
        document::record_models(channels@),
        buses as nat,
    ));
    sources
}

fn described_outputs(channels: &Vec<PersistedChannel>) -> (outputs: Vec<OutputBus>)
    ensures
        inventory::output_models(outputs@) == outputs_in(document::record_models(channels@)),
{
    let mut outputs: Vec<OutputBus> = Vec::new();
    let mut at: usize = 0;
    while at < channels.len()
        invariant
            at <= channels@.len(),
            outputs@.len() == at,
            forall|i: int|
                0 <= i < at ==> (#[trigger] outputs@[i])@ == described_output(channels@[i]@),
        decreases channels@.len() - at,
    {
        outputs.push(output_bus(&channels[at]));
        at = at + 1;
    }
    assert(inventory::output_models(outputs@) =~= outputs_in(document::record_models(channels@)));
    outputs
}

fn kept_channels(channels: &Vec<PersistedChannel>) -> (kept: Vec<ChannelSnapshot>)
    ensures
        scenes::channel_models(kept@) == kept_in(document::record_models(channels@)),
{
    let mut kept: Vec<ChannelSnapshot> = Vec::new();
    let mut at: usize = 0;
    while at < channels.len()
        invariant
            at <= channels@.len(),
            kept@.len() == at,
            forall|i: int| 0 <= i < at ==> (#[trigger] kept@[i])@ == described_kept(channels@[i]@),
        decreases channels@.len() - at,
    {
        kept.push(kept_channel(&channels[at]));
        at = at + 1;
    }
    assert(scenes::channel_models(kept@) =~= kept_in(document::record_models(channels@)));
    kept
}

fn records_of_sources(sources: &Vec<SourceStrip>) -> (channels: Vec<PersistedChannel>)
    ensures
        document::record_models(channels@) == source_records(inventory::source_models(sources@)),
{
    let mut channels: Vec<PersistedChannel> = Vec::new();
    let mut at: usize = 0;
    while at < sources.len()
        invariant
            at <= sources@.len(),
            channels@.len() == at,
            forall|i: int|
                0 <= i < at ==> (#[trigger] channels@[i])@ == source_record(sources@[i]@),
        decreases sources@.len() - at,
    {
        channels.push(record_of_source(&sources[at]));
        at = at + 1;
    }
    assert(document::record_models(channels@) =~= source_records(
        inventory::source_models(sources@),
    ));
    channels
}

fn records_of_outputs(outputs: &Vec<OutputBus>) -> (channels: Vec<PersistedChannel>)
    ensures
        document::record_models(channels@) == output_records(inventory::output_models(outputs@)),
{
    let mut channels: Vec<PersistedChannel> = Vec::new();
    let mut at: usize = 0;
    while at < outputs.len()
        invariant
            at <= outputs@.len(),
            channels@.len() == at,
            forall|i: int|
                0 <= i < at ==> (#[trigger] channels@[i])@ == output_record(outputs@[i]@),
        decreases outputs@.len() - at,
    {
        channels.push(record_of_output(&outputs[at]));
        at = at + 1;
    }
    assert(document::record_models(channels@) =~= output_records(
        inventory::output_models(outputs@),
    ));
    channels
}

fn records_of_kept(kept: &Vec<ChannelSnapshot>) -> (channels: Vec<PersistedChannel>)
    ensures
        document::record_models(channels@) == kept_records(scenes::channel_models(kept@)),
{
    let mut channels: Vec<PersistedChannel> = Vec::new();
    let mut at: usize = 0;
    while at < kept.len()
        invariant
            at <= kept@.len(),
            channels@.len() == at,
            forall|i: int| 0 <= i < at ==> (#[trigger] channels@[i])@ == kept_record(kept@[i]@),
        decreases kept@.len() - at,
    {
        channels.push(record_of_kept(&kept[at]));
        at = at + 1;
    }
    assert(document::record_models(channels@) =~= kept_records(scenes::channel_models(kept@)));
    channels
}

fn pairs_of_routes(routes: &Vec<PersistedRoute>) -> (pairs: Vec<EndpointPair>)
    ensures
        pairs@ == pairs_in(routes@),
{
    let mut pairs: Vec<EndpointPair> = Vec::new();
    let mut at: usize = 0;
    while at < routes.len()
        invariant
            at <= routes@.len(),
            pairs@.len() == at,
            forall|i: int| 0 <= i < at ==> (#[trigger] pairs@[i]) == pairs_in(routes@)[i],
        decreases routes@.len() - at,
    {
        pairs.push(EndpointPair { source: routes[at].source, destination: routes[at].destination });
        at = at + 1;
    }
    assert(pairs@ =~= pairs_in(routes@));
    pairs
}

fn records_of_pairs(pairs: &Vec<EndpointPair>) -> (routes: Vec<PersistedRoute>)
    ensures
        routes@ == route_records(pairs@),
{
    let mut routes: Vec<PersistedRoute> = Vec::new();
    let mut at: usize = 0;
    while at < pairs.len()
        invariant
            at <= pairs@.len(),
            routes@.len() == at,
            forall|i: int| 0 <= i < at ==> (#[trigger] routes@[i]) == route_records(pairs@)[i],
        decreases pairs@.len() - at,
    {
        routes.push(
            PersistedRoute { source: pairs[at].source, destination: pairs[at].destination },
        );
        at = at + 1;
    }
    assert(routes@ =~= route_records(pairs@));
    routes
}

/// The scene that a document describes. One that keeps nothing was never saved.
pub open spec fn described_scene(scene: SceneRecord) -> SceneModel {
    SceneModel {
        name: scene.name,
        description: recall::snapshot_text(
            scene.sources.len(),
            scene.outputs.len(),
            scene.routes.len(),
        ),
        snapshot: if scene.sources.len() == 0 && scene.outputs.len() == 0 && scene.routes.len()
            == 0 {
            None
        } else {
            Some(
                SnapshotModel {
                    sources: kept_in(scene.sources),
                    outputs: kept_in(scene.outputs),
                    routes: pairs_in(scene.routes),
                },
            )
        },
    }
}

/// What a document says of a scene.
pub open spec fn scene_record(scene: SceneModel) -> SceneRecord {
    match scene.snapshot {
        Some(snapshot) => SceneRecord {
            name: scene.name,
            sources: kept_records(snapshot.sources),
            outputs: kept_records(snapshot.outputs),
            routes: route_records(snapshot.routes),
        },
        None => SceneRecord {
            name: scene.name,
            sources: Seq::empty(),
            outputs: Seq::empty(),
            routes: Seq::empty(),
        },
    }
}

fn scene_of(scene: &PersistedScene) -> (result: Scene)
    ensures
        result@ == described_scene(scene@),
{
    let description = snapshot_description(
        scene.sources.len(),
        scene.outputs.len(),
        scene.routes.len(),
    );
    let snapshot = if scene.sources.len() == 0 && scene.outputs.len() == 0 && scene.routes.len()
        == 0 {
        None
    } else {
        Some(
            SceneSnapshot {
                sources: kept_channels(&scene.sources),
                outputs: kept_channels(&scene.outputs),
                routes: pairs_of_routes(&scene.routes),
            },
        )
    };
    Scene { name: scene.name.clone(), description, snapshot }
}

fn record_of_scene(scene: &Scene) -> (record: PersistedScene)
    ensures
        record@ == scene_record(scene@),
{
    match &scene.snapshot {
        Some(snapshot) => PersistedScene {
            name: scene.name.clone(),
            sources: records_of_kept(&snapshot.sources),
            outputs: records_of_kept(&snapshot.outputs),
            routes: records_of_pairs(&snapshot.routes),
        },
        None => {
            let record = PersistedScene {
                name: scene.name.clone(),
                sources: Vec::new(),
                outputs: Vec::new(),
                routes: Vec::new(),
            };
            assert(record@ =~= scene_record(scene@));
            record
        },
    }
}

fn described_scenes(records: &Vec<PersistedScene>) -> (result: Vec<Scene>)
    ensures
        scenes::scene_models(result@) == scenes_in(document::scene_records(records@)),
{
    let mut result: Vec<Scene> = Vec::new();
    let mut at: usize = 0;
    while at < records.len()
        invariant
            at <= records@.len(),
            result@.len() == at,
            forall|i: int|
                0 <= i < at ==> (#[trigger] result@[i])@ == described_scene(records@[i]@),
        decreases records@.len() - at,
    {
        result.push(scene_of(&records[at]));
        at = at + 1;
    }
    assert(scenes::scene_models(result@) =~= scenes_in(document::scene_records(records@)));
    result
}

fn records_of_scenes(list: &Vec<Scene>) -> (records: Vec<PersistedScene>)
    ensures
        document::scene_records(records@) == scene_records(scenes::scene_models(list@)),
{
    let mut records: Vec<PersistedScene> = Vec::new();
    let mut at: usize = 0;
    while at < list.len()
        invariant
            at <= list@.len(),
            records@.len() == at,
            forall|i: int| 0 <= i < at ==> (#[trigger] records@[i])@ == scene_record(list@[i]@),
        decreases list@.len() - at,
    {
        records.push(record_of_scene(&list[at]));
        at = at + 1;
    }
    assert(document::scene_records(records@) =~= scene_records(scenes::scene_models(list@)));
    records
}

/// What a document says of the devices that the program makes.
pub open spec fn device_records(devices: Seq<AudioEndpoint>) -> Seq<PersistedVirtualDevice>
    decreases devices.len(),
{
    if devices.len() == 0 {
        Seq::empty()
    } else {
        let before = device_records(devices.drop_last());
        let device = devices.last();
        match device.virtual_device_id {
            Some(virtual_device_id) => before.push(
                PersistedVirtualDevice {
                    virtual_device_id,
                    endpoint_type: device.endpoint_type,
                    name: device.name,
                },
            ),
            None => before,
        }
    }
}

fn records_of_devices(devices: &Vec<AudioEndpoint>) -> (records: Vec<PersistedVirtualDevice>)
    ensures
        records@ == device_records(devices@),
{
    let mut records: Vec<PersistedVirtualDevice> = Vec::new();
    let mut at: usize = 0;
    while at < devices.len()
        invariant
            at <= devices@.len(),
            records@ == device_records(devices@.take(at as int)),
        decreases devices@.len() - at,
    {
        assert(devices@.take(at + 1).drop_last() =~= devices@.take(at as int));
        assert(devices@.take(at + 1).last() == devices@[at as int]);
        if let Some(virtual_device_id) = devices[at].virtual_device_id {
            records.push(
                PersistedVirtualDevice {
                    virtual_device_id,
                    endpoint_type: devices[at].endpoint_type,
                    name: devices[at].name.clone(),
                },
            );
        }
        at = at + 1;
    }
    assert(devices@.take(at as int) =~= devices@);
    records
}

/// What a document says of the settings. A rate and a buffer that the user did
/// not choose are left out.
pub open spec fn settings_record(state: AppModel) -> PersistedSettings {
    PersistedSettings {
        sample_rate: if state.audio_overridden {
            state.sample_rate
        } else {
            0
        },
        buffer_size: if state.audio_overridden {
            state.buffer_size
        } else {
            0
        },
        outputs_panel_width: state.outputs_panel_width,
        master_muted: state.master_muted,
    }
}

/// Whether a document describes a mixer.
pub open spec fn describes(document: SessionDocument, state: AppModel) -> bool {
    &&& document.schema_version == document::SCHEMA_VERSION
    &&& document.settings == settings_record(state)
    &&& document::record_models(document.sources@) == source_records(state.sources)
    &&& document::record_models(document.outputs@) == output_records(state.outputs)
    &&& document.virtual_devices@ == device_records(state.devices)
    &&& document.routes@ == route_records(
        scenes::wanted_pairs(state.sources, state.outputs, state.sources.len() as int),
    )
    &&& document::scene_records(document.scenes@) == scene_records(state.scenes)
    &&& document.selected_scene == state.selected_scene
}

/// The document that describes a mixer.
pub fn document_of(state: &AppState) -> (document: SessionDocument)
    ensures
        describes(document, state@),
{
    let settings = PersistedSettings {
        sample_rate: if state.audio_overridden {
            state.sample_rate
        } else {
            0
        },
        buffer_size: if state.audio_overridden {
            state.buffer_size
        } else {
            0
        },
        outputs_panel_width: state.outputs_panel_width,
        master_muted: state.master_muted,
    };
    let pairs = state.desired_route_pairs();
    SessionDocument::new(
        settings,
        records_of_sources(&state.sources),
        records_of_outputs(&state.outputs),
        records_of_devices(&state.devices),
        records_of_pairs(&pairs),
        records_of_scenes(&state.scenes),
        state.selected_scene,
    )
}

/// A mixer with the settings of a document. What was never set stays.
pub open spec fn with_settings(state: AppModel, settings: PersistedSettings) -> AppModel {
    AppModel {
        sample_rate: if settings.sample_rate != 0 {
            settings.sample_rate
        } else {
            state.sample_rate
        },
        buffer_size: if settings.buffer_size != 0 {
            settings.buffer_size
        } else {
            state.buffer_size
        },
        audio_overridden: state.audio_overridden || settings.sample_rate != 0
            || settings.buffer_size != 0,
        outputs_panel_width: if settings.outputs_panel_width.bits != 0 {
            settings.outputs_panel_width
        } else {
            state.outputs_panel_width
        },
        master_muted: settings.master_muted,
        ..state
    }
}

/// A mixer with the channels, buses and routes of a document. One without any
/// leaves those that are there.
pub open spec fn with_strips(state: AppModel, document: SessionDocument) -> AppModel {
    if document.sources@.len() == 0 && document.outputs@.len() == 0 {
        state
    } else {
        app::wanting(
            AppModel {
                sources: sources_in(
                    document::record_models(document.sources@),
                    document.outputs@.len(),
                ),
                outputs: outputs_in(document::record_models(document.outputs@)),
                ..state
            },
            pairs_in(document.routes@),
        )
    }
}

/// A mixer with the scenes of a document. One without any leaves those that are
/// there, because there is always one.
pub open spec fn with_scenes(state: AppModel, document: SessionDocument) -> AppModel {
    if document.scenes@.len() == 0 {
        state
    } else {
        AppModel {
            scenes: scenes_in(document::scene_records(document.scenes@)),
            selected_scene: if document.selected_scene < document.scenes@.len() {
                document.selected_scene as int
            } else {
                document.scenes@.len() - 1
            },
            ..state
        }
    }
}

/// A mixer in the state that a document describes. Nothing is to be saved then.
pub open spec fn applied(state: AppModel, document: SessionDocument) -> AppModel {
    let settled = with_settings(state, document.settings);
    AppModel { dirty: false, ..with_scenes(with_strips(settled, document), document) }
}

fn take_settings(state: &mut AppState, settings: &PersistedSettings)
    ensures
        final(state)@ == with_settings(old(state)@, *settings),
{
    if settings.sample_rate != 0 {
        state.sample_rate = settings.sample_rate;
        state.audio_overridden = true;
    }
    if settings.buffer_size != 0 {
        state.buffer_size = settings.buffer_size;
        state.audio_overridden = true;
    }
    if settings.outputs_panel_width.bits != 0 {
        state.outputs_panel_width = settings.outputs_panel_width;
    }
    state.master_muted = settings.master_muted;
}

fn take_strips(state: &mut AppState, document: &SessionDocument)
    requires
        old(state)@.wf(),
    ensures
        final(state)@ == with_strips(old(state)@, *document),
        final(state)@.wf(),
{
    if document.sources.len() == 0 && document.outputs.len() == 0 {
        return;
    }
    state.outputs = described_outputs(&document.outputs);
    state.sources = described_sources(&document.sources, document.outputs.len());
    proof {
        let sources = sources_in(
            document::record_models(document.sources@),
            document.outputs@.len(),
        );
        assert(state@.sources == sources);
        assert(state@.outputs == outputs_in(document::record_models(document.outputs@)));
        assert(state@.outputs.len() == document.outputs@.len());
        assert(scenes::rectangular(sources, document.outputs@.len()));
    }
    let pairs = pairs_of_routes(&document.routes);
    state.set_desired_routes_from_pairs(&pairs);
}

fn take_scenes(state: &mut AppState, document: &SessionDocument)
    requires
        old(state)@.wf(),
    ensures
        final(state)@ == with_scenes(old(state)@, *document),
        final(state)@.wf(),
{
    if document.scenes.len() == 0 {
        return;
    }
    state.scenes = described_scenes(&document.scenes);
    state.selected_scene = if document.selected_scene < document.scenes.len() {
        document.selected_scene
    } else {
        document.scenes.len() - 1
    };
    assert(document::scene_records(document.scenes@).len() == document.scenes@.len());
}

/// Puts a mixer into the state that a document describes.
pub fn apply(state: &mut AppState, document: &SessionDocument)
    requires
        old(state)@.wf(),
    ensures
        final(state)@ == applied(old(state)@, *document),
        final(state)@.wf(),
{
    take_settings(state, &document.settings);
    take_strips(state, document);
    take_scenes(state, document);
    state.dirty = false;
}

/// What was saved of a channel, a bus and a scene comes back out of the document.
/// What a strip shows of its device does not: that follows the devices.
pub proof fn law_strips_and_scenes_come_back(
    source: SourceModel,
    output: OutputModel,
    scene: SceneModel,
)
    ensures
        described_source(source_record(source), source.routes.len()) == (SourceModel {
            detail: labels::source_hint(source.kind),
            user_bound: source.endpoint_id is Some,
            routes: strips::no_routes(source.routes.len()),
            meter_l: Scalar { bits: 0 },
            meter_r: Scalar { bits: 0 },
            online: false,
            ..source
        }),
        described_output(output_record(output)) == (OutputModel {
            detail: labels::output_hint(output.kind),
            user_bound: output.endpoint_id is Some,
            meter_l: Scalar { bits: 0 },
            meter_r: Scalar { bits: 0 },
            online: false,
            ..output
        }),
        described_scene(scene_record(scene)).name == scene.name,
        scene.snapshot is None ==> described_scene(scene_record(scene)).snapshot is None,
        scene.snapshot is Some && !(scene.snapshot->0.sources.len() == 0
            && scene.snapshot->0.outputs.len() == 0 && scene.snapshot->0.routes.len() == 0)
            ==> described_scene(scene_record(scene)).snapshot == scene.snapshot,
{
    law_kinds_and_colors_come_back(source.kind, output.kind, source.color);
    law_kinds_and_colors_come_back(source.kind, output.kind, output.color);
    if let Some(snapshot) = scene.snapshot {
        assert forall|i: int| 0 <= i < snapshot.sources.len() implies #[trigger] kept_in(
            kept_records(snapshot.sources),
        )[i] == snapshot.sources[i] by {
            law_kinds_and_colors_come_back(source.kind, output.kind, snapshot.sources[i].color);
        }
        assert forall|i: int| 0 <= i < snapshot.outputs.len() implies #[trigger] kept_in(
            kept_records(snapshot.outputs),
        )[i] == snapshot.outputs[i] by {
            law_kinds_and_colors_come_back(source.kind, output.kind, snapshot.outputs[i].color);
        }
        assert(kept_in(kept_records(snapshot.sources)) =~= snapshot.sources);
        assert(kept_in(kept_records(snapshot.outputs)) =~= snapshot.outputs);
        assert(pairs_in(route_records(snapshot.routes)) =~= snapshot.routes);
    }
}

/// A mixer that was saved comes back, whatever state it is put into: every
/// channel and every bus with its controls and its binding, and between what is
/// bound every wanted route, as long as no two channels and no two buses share an
/// endpoint.
pub proof fn law_a_saved_mixer_comes_back(
    state: AppModel,
    document: SessionDocument,
    start: AppModel,
    at: int,
    bus: int,
)
    requires
        state.wf(),
        describes(document, state),
        0 <= at < state.sources.len(),
        0 <= bus < state.outputs.len(),
        scenes::sources_apart(state.sources),
        scenes::outputs_apart(state.outputs),
    ensures
        ({
            let back = applied(start, document);
            &&& back.sources.len() == state.sources.len()
            &&& back.outputs.len() == state.outputs.len()
            &&& scenes::kept_source(back.sources[at]) == scenes::kept_source(state.sources[at])
            &&& back.sources[at].kind == state.sources[at].kind
            &&& back.sources[at].endpoint_name == state.sources[at].endpoint_name
            &&& scenes::kept_output(back.outputs[bus]) == scenes::kept_output(state.outputs[bus])
            &&& back.outputs[bus].kind == state.outputs[bus].kind
            &&& back.outputs[bus].code == state.outputs[bus].code
            &&& back.outputs[bus].endpoint_name == state.outputs[bus].endpoint_name
            &&& scenes::ends(state.sources, state.outputs, at, bus) is Some ==> scenes::wanted(
                back.sources,
                at,
                bus,
            ) == scenes::wanted(state.sources, at, bus)
            &&& back.selected_scene == state.selected_scene
            &&& back.scenes.len() == state.scenes.len()
        }),
{
    let sources = sources_in(document::record_models(document.sources@), document.outputs@.len());
    let outputs = outputs_in(document::record_models(document.outputs@));
    assert(document::record_models(document.outputs@).len() == document.outputs@.len());
    assert(document::record_models(document.sources@).len() == document.sources@.len());
    assert(document::scene_records(document.scenes@).len() == document.scenes@.len());
    let scene = state.scenes[0];
    assert forall|i: int| 0 <= i < sources.len() implies (#[trigger] sources[i]).endpoint_id
        == state.sources[i].endpoint_id && sources[i].routes.len() == outputs.len()
        && scenes::kept_source(sources[i]) == scenes::kept_source(state.sources[i])
        && sources[i].kind == state.sources[i].kind && sources[i].endpoint_name
        == state.sources[i].endpoint_name by {
        assert(document::record_models(document.sources@)[i] == source_record(state.sources[i]));
        law_strips_and_scenes_come_back(state.sources[i], state.outputs[bus], scene);
    }
    assert forall|i: int| 0 <= i < outputs.len() implies (#[trigger] outputs[i]).endpoint_id
        == state.outputs[i].endpoint_id && scenes::kept_output(outputs[i]) == scenes::kept_output(
        state.outputs[i],
    ) && outputs[i].kind == state.outputs[i].kind && outputs[i].code == state.outputs[i].code
        && outputs[i].endpoint_name == state.outputs[i].endpoint_name by {
        assert(document::record_models(document.outputs@)[i] == output_record(state.outputs[i]));
        law_strips_and_scenes_come_back(state.sources[at], state.outputs[i], scene);
    }
    assert forall|i: int, j: int|
        0 <= i < j < sources.len() && (#[trigger] sources[i]).endpoint_id is Some implies
        sources[i].endpoint_id != (#[trigger] sources[j]).endpoint_id by {
        assert(state.sources[i].endpoint_id == sources[i].endpoint_id);
        assert(state.sources[j].endpoint_id == sources[j].endpoint_id);
    }
    assert forall|i: int, j: int|
        0 <= i < j < outputs.len() && (#[trigger] outputs[i]).endpoint_id is Some implies
        outputs[i].endpoint_id != (#[trigger] outputs[j]).endpoint_id by {
        assert(state.outputs[i].endpoint_id == outputs[i].endpoint_id);
        assert(state.outputs[j].endpoint_id == outputs[j].endpoint_id);
    }
    let pairs = scenes::wanted_pairs(state.sources, state.outputs, state.sources.len() as int);
    assert(pairs_in(route_records(pairs)) =~= pairs);
    scenes::lemma_with_pairs(sources, outputs, pairs);
    scenes::lemma_with_pairs(state.sources, state.outputs, pairs);
    let back = applied(start, document);
    assert(back.sources == scenes::with_pairs(sources, outputs, pairs));
    assert(back.sources[at] == (SourceModel { routes: back.sources[at].routes, ..sources[at] }));
    assert(scenes::ends(sources, outputs, at, bus) == scenes::ends(
        state.sources,
        state.outputs,
        at,
        bus,
    ));
    assert(outputs[bus].endpoint_id == state.outputs[bus].endpoint_id);
    if scenes::ends(state.sources, state.outputs, at, bus) is Some {
        scenes::law_wanted_routes_round_trip(state.sources, state.outputs, at, bus);
    }
}

/// A document says of a channel and of a bus what it holds, each under its own
/// name, and a strip takes each value from there.
pub proof fn law_records_hold_what_strips_hold(
    source: SourceModel,
    output: OutputModel,
    channel: RecordModel,
    buses: nat,
)
    ensures
        ({
            let record = source_record(source);
            &&& record.name == source.name
            &&& record.gain_db == source.gain_db
            &&& record.muted == source.muted
            &&& record.delay_ms == source.delay_ms
            &&& record.mode == source.mode
            &&& record.eq_low_db == source.eq.low_db
            &&& record.eq_mid_db == source.eq.mid_db
            &&& record.eq_high_db == source.eq.high_db
            &&& record.endpoint == source.endpoint_id
            &&& record.endpoint_name == source.endpoint_name
            &&& record.code is None
        }),
        ({
            let record = output_record(output);
            &&& record.name == output.name
            &&& record.gain_db == output.gain_db
            &&& record.muted == output.muted
            &&& record.delay_ms == output.delay_ms
            &&& record.mode == output.mode
            &&& record.eq_low_db == output.eq.low_db
            &&& record.eq_mid_db == output.eq.mid_db
            &&& record.eq_high_db == output.eq.high_db
            &&& record.endpoint == output.endpoint_id
            &&& record.endpoint_name == output.endpoint_name
            &&& record.code == Some(output.code)
        }),
        ({
            let strip = described_source(channel, buses);
            let bus = described_output(channel);
            let kept = described_kept(channel);
            &&& strip.name == channel.name && bus.name == channel.name && kept.name == channel.name
            &&& strip.gain_db == channel.gain_db && bus.gain_db == channel.gain_db && kept.gain_db
                == channel.gain_db
            &&& strip.muted == channel.muted && bus.muted == channel.muted && kept.muted
                == channel.muted
            &&& strip.delay_ms == channel.delay_ms && bus.delay_ms == channel.delay_ms
                && kept.delay_ms == channel.delay_ms
            &&& strip.mode == channel.mode && bus.mode == channel.mode && kept.mode == channel.mode
            &&& strip.eq.low_db == channel.eq_low_db && strip.eq.mid_db == channel.eq_mid_db
                && strip.eq.high_db == channel.eq_high_db
            &&& bus.eq == strip.eq && kept.eq == strip.eq
            &&& strip.endpoint_id == channel.endpoint && bus.endpoint_id == channel.endpoint
                && kept.endpoint_id == channel.endpoint
            &&& strip.user_bound == (channel.endpoint is Some) && bus.user_bound == (
            channel.endpoint is Some)
            &&& strip.routes.len() == buses
        }),
{
}

/// The words for the kinds, as a document holds them; a word that is none of
/// them stands for the physical kind.
pub proof fn law_kinds_have_their_words(word: Seq<char>)
    ensures
        source_kind_word(SourceKind::Physical) == "physical"@,
        source_kind_word(SourceKind::Desktop) == "desktop"@,
        source_kind_word(SourceKind::Application) == "application"@,
        source_kind_word(SourceKind::Virtual) == "virtual"@,
        bus_kind_word(BusKind::Physical) == "physical"@,
        bus_kind_word(BusKind::Virtual) == "virtual"@,
        word != "desktop"@ && word != "application"@ && word != "virtual"@ ==> source_kind_named(
            word,
        ) == SourceKind::Physical,
        word != "virtual"@ ==> bus_kind_named(word) == BusKind::Physical,
        color_with(0) == ChannelColor::Cyan,
{
}

/// A route is written down by its two ends, the source first, and read back
/// the same way.
pub proof fn law_routes_are_written_by_their_ends(
    pairs: Seq<EndpointPair>,
    routes: Seq<PersistedRoute>,
    at: int,
)
    ensures
        route_records(pairs).len() == pairs.len(),
        pairs_in(routes).len() == routes.len(),
        0 <= at < pairs.len() ==> route_records(pairs)[at].source == pairs[at].source
            && route_records(pairs)[at].destination == pairs[at].destination,
        0 <= at < routes.len() ==> pairs_in(routes)[at].source == routes[at].source && pairs_in(
            routes,
        )[at].destination == routes[at].destination,
{
}

/// The virtual devices that are written down are exactly those of the router,
/// in the order of the devices, each with its kind and name.
pub proof fn law_virtual_devices_are_written_down(devices: Seq<AudioEndpoint>)
    ensures
        device_records(devices) == devices.filter(
            |device: AudioEndpoint| device.virtual_device_id is Some,
        ).map_values(
            |device: AudioEndpoint|
                PersistedVirtualDevice {
                    virtual_device_id: device.virtual_device_id->0,
                    endpoint_type: device.endpoint_type,
                    name: device.name,
                },
        ),
    decreases devices.len(),
{
    reveal(Seq::filter);
    let own = |device: AudioEndpoint| device.virtual_device_id is Some;
    let written = |device: AudioEndpoint|
        PersistedVirtualDevice {
            virtual_device_id: device.virtual_device_id->0,
            endpoint_type: device.endpoint_type,
            name: device.name,
        };
    if devices.len() > 0 {
        law_virtual_devices_are_written_down(devices.drop_last());
        let rest = devices.drop_last().filter(own);
        if own(devices.last()) {
            assert(devices.filter(own) == rest.push(devices.last()));
            assert(rest.push(devices.last()).map_values(written) =~= rest.map_values(written).push(
                written(devices.last()),
            ));
        } else {
            assert(devices.filter(own) == rest);
        }
    }
    assert(device_records(devices) =~= devices.filter(own).map_values(written));
}

/// A rate and a buffer are written down only where the user chose them, and a
/// document that holds neither leaves them as they are. The width of the panel
/// and the master mute come back as they were saved.
pub proof fn law_chosen_settings_come_back(state: AppModel, start: AppModel)
    ensures
        ({
            let written = settings_record(state);
            let back = with_settings(start, written);
            &&& state.audio_overridden ==> written.sample_rate == state.sample_rate
                && written.buffer_size == state.buffer_size
            &&& !state.audio_overridden ==> written.sample_rate == 0 && written.buffer_size == 0
            &&& written.master_muted == state.master_muted
            &&& written.outputs_panel_width == state.outputs_panel_width
            &&& back.master_muted == state.master_muted
            &&& state.outputs_panel_width.bits != 0 ==> back.outputs_panel_width
                == state.outputs_panel_width
            &&& state.outputs_panel_width.bits == 0 ==> back.outputs_panel_width
                == start.outputs_panel_width
            &&& state.audio_overridden && state.sample_rate != 0 && state.buffer_size != 0 ==> {
                &&& back.sample_rate == state.sample_rate
                &&& back.buffer_size == state.buffer_size
                &&& back.audio_overridden
            }
            &&& !state.audio_overridden ==> {
                &&& back.sample_rate == start.sample_rate
                &&& back.buffer_size == start.buffer_size
                &&& back.audio_overridden == start.audio_overridden
            }
            &&& back.sources == start.sources
            &&& back.outputs == start.outputs
        }),
{
}

/// A document without strips leaves those that are there, one without scenes
/// leaves the scenes; a selection beyond the scenes becomes the last one. Once
/// a document was taken, nothing is to be saved.
pub proof fn law_an_empty_document_leaves_the_mixer(start: AppModel, document: SessionDocument)
    ensures
        ({
            let back = applied(start, document);
            &&& !back.dirty
            &&& document.sources@.len() == 0 && document.outputs@.len() == 0 ==> back.sources
                == start.sources && back.outputs == start.outputs
            &&& document.scenes@.len() == 0 ==> back.scenes == start.scenes && back.selected_scene
                == start.selected_scene
            &&& document.scenes@.len() > 0 ==> {
                &&& back.scenes.len() == document.scenes@.len()
                &&& document.selected_scene < document.scenes@.len() ==> back.selected_scene
                    == document.selected_scene
                &&& document.selected_scene >= document.scenes@.len() ==> back.selected_scene
                    == document.scenes@.len() - 1
            }
            &&& back.devices == start.devices
            &&& back.active_routes == start.active_routes
        }),
{
}

} // verus!
