//! Scenes: what of the mixer they keep, and how it is put back.
use vstd::prelude::*;

use super::inventory;
use super::labels::ChannelColor;
use super::strips::{EqBands, OutputBus, OutputModel, SourceModel, SourceStrip};
use super::strips;
use crate::domain::controls::ChannelMode;
use crate::domain::ids::{EndpointId, EndpointPair};
use crate::scalar::Scalar;
use crate::text::same_text;

verus! {

/// What a scene keeps of a channel.
#[derive(Debug)]
pub struct ChannelSnapshot {
    pub name: String,
    pub color: ChannelColor,
    pub gain_db: Scalar,
    pub muted: bool,
    pub delay_ms: Scalar,
    pub eq: EqBands,
    pub mode: ChannelMode,
    pub endpoint_id: Option<EndpointId>,
}

/// What a scene keeps of a channel, with its name as a sequence.
#[verifier::ext_equal]
pub struct ChannelModel {
    pub name: Seq<char>,
    pub color: ChannelColor,
    pub gain_db: Scalar,
    pub muted: bool,
    pub delay_ms: Scalar,
    pub eq: EqBands,
    pub mode: ChannelMode,
    pub endpoint_id: Option<EndpointId>,
}

impl View for ChannelSnapshot {
    type V = ChannelModel;

    open spec fn view(&self) -> ChannelModel {
        ChannelModel {
            name: self.name@,
            color: self.color,
            gain_db: self.gain_db,
            muted: self.muted,
            delay_ms: self.delay_ms,
            eq: self.eq,
            mode: self.mode,
            endpoint_id: self.endpoint_id,
        }
    }
}

impl Clone for ChannelSnapshot {
    fn clone(&self) -> (copy: Self)
        ensures
            copy == *self,
    {
        ChannelSnapshot {
            name: self.name.clone(),
            color: self.color,
            gain_db: self.gain_db,
            muted: self.muted,
            delay_ms: self.delay_ms,
            eq: self.eq,
            mode: self.mode,
            endpoint_id: self.endpoint_id,
        }
    }
}

/// What a scene keeps: channels, buses, and the wanted routes by their ends.
#[derive(Debug)]
pub struct SceneSnapshot {
    pub sources: Vec<ChannelSnapshot>,
    pub outputs: Vec<ChannelSnapshot>,
    pub routes: Vec<EndpointPair>,
}

#[verifier::ext_equal]
pub struct SnapshotModel {
    pub sources: Seq<ChannelModel>,
    pub outputs: Seq<ChannelModel>,
    pub routes: Seq<EndpointPair>,
}

/// The views of channels of a scene.
pub open spec fn channel_models(channels: Seq<ChannelSnapshot>) -> Seq<ChannelModel> {
    Seq::new(channels.len(), |i: int| channels[i]@)
}

impl View for SceneSnapshot {
    type V = SnapshotModel;

    open spec fn view(&self) -> SnapshotModel {
        SnapshotModel {
            sources: channel_models(self.sources@),
            outputs: channel_models(self.outputs@),
            routes: self.routes@,
        }
    }
}

fn copied_channels(channels: &Vec<ChannelSnapshot>) -> (copy: Vec<ChannelSnapshot>)
    ensures
        copy@ == channels@,
{
    let mut copy: Vec<ChannelSnapshot> = Vec::new();
    let mut at: usize = 0;
    while at < channels.len()
        invariant
            at <= channels@.len(),
            copy@ =~= channels@.take(at as int),
        decreases channels@.len() - at,
    {
        copy.push(channels[at].clone());
        at = at + 1;
    }
    assert(channels@.take(at as int) =~= channels@);
    copy
}

fn copied_pairs(pairs: &Vec<EndpointPair>) -> (copy: Vec<EndpointPair>)
    ensures
        copy@ == pairs@,
{
    let mut copy: Vec<EndpointPair> = Vec::new();
    let mut at: usize = 0;
    while at < pairs.len()
        invariant
            at <= pairs@.len(),
            copy@ =~= pairs@.take(at as int),
        decreases pairs@.len() - at,
    {
        copy.push(pairs[at]);
        at = at + 1;
    }
    assert(pairs@.take(at as int) =~= pairs@);
    copy
}

impl Clone for SceneSnapshot {
    fn clone(&self) -> (copy: Self)
        ensures
            copy@ == self@,
    {
        SceneSnapshot {
            sources: copied_channels(&self.sources),
            outputs: copied_channels(&self.outputs),
            routes: copied_pairs(&self.routes),
        }
    }
}

/// A scene. It keeps nothing until the mixer is saved into it.
#[derive(Debug)]
pub struct Scene {
    pub name: String,
    pub description: String,
    pub snapshot: Option<SceneSnapshot>,
}

#[verifier::ext_equal]
pub struct SceneModel {
    pub name: Seq<char>,
    pub description: Seq<char>,
    pub snapshot: Option<SnapshotModel>,
}

impl View for Scene {
    type V = SceneModel;

    open spec fn view(&self) -> SceneModel {
        SceneModel {
            name: self.name@,
            description: self.description@,
            snapshot: match self.snapshot {
                Some(snapshot) => Some(snapshot@),
                None => None,
            },
        }
    }
}

/// The views of scenes.
pub open spec fn scene_models(scenes: Seq<Scene>) -> Seq<SceneModel> {
    Seq::new(scenes.len(), |i: int| scenes[i]@)
}

/// What a scene keeps of a channel.
pub open spec fn kept_source(source: SourceModel) -> ChannelModel {
    ChannelModel {
        name: source.name,
        color: source.color,
        gain_db: source.gain_db,
        muted: source.muted,
        delay_ms: source.delay_ms,
        eq: source.eq,
        mode: source.mode,
        endpoint_id: source.endpoint_id,
    }
}

/// What a scene keeps of a bus.
pub open spec fn kept_output(output: OutputModel) -> ChannelModel {
    ChannelModel {
        name: output.name,
        color: output.color,
        gain_db: output.gain_db,
        muted: output.muted,
        delay_ms: output.delay_ms,
        eq: output.eq,
        mode: output.mode,
        endpoint_id: output.endpoint_id,
    }
}

/// Whether a route is wanted.
pub open spec fn wanted(sources: Seq<SourceModel>, source: int, output: int) -> bool {
    &&& 0 <= source < sources.len()
    &&& 0 <= output < sources[source].routes.len()
    &&& sources[source].routes[output]
}

/// The ends of a route, where both sides are bound.
pub open spec fn ends(
    sources: Seq<SourceModel>,
    outputs: Seq<OutputModel>,
    source: int,
    output: int,
) -> Option<EndpointPair> {
    if 0 <= source < sources.len() && 0 <= output < outputs.len() {
        match (sources[source].endpoint_id, outputs[output].endpoint_id) {
            (Some(source), Some(destination)) => Some(EndpointPair { source, destination }),
            _ => None,
        }
    } else {
        None
    }
}

/// The ends of the wanted routes of a channel to the first buses.
pub open spec fn pairs_of(
    sources: Seq<SourceModel>,
    outputs: Seq<OutputModel>,
    source: int,
    count: int,
) -> Seq<EndpointPair>
    decreases count,
{
    if count <= 0 {
        Seq::empty()
    } else {
        let before = pairs_of(sources, outputs, source, count - 1);
        match ends(sources, outputs, source, count - 1) {
            Some(pair) if wanted(sources, source, count - 1) => before.push(pair),
            _ => before,
        }
    }
}

/// The ends of the wanted routes of the first channels.
pub open spec fn wanted_pairs(
    sources: Seq<SourceModel>,
    outputs: Seq<OutputModel>,
    count: int,
) -> Seq<EndpointPair>
    decreases count,
{
    if count <= 0 {
        Seq::empty()
    } else {
        wanted_pairs(sources, outputs, count - 1) + pairs_of(
            sources,
            outputs,
            count - 1,
            outputs.len() as int,
        )
    }
}

/// What a scene keeps of a mixer.
pub open spec fn snapshot_of(sources: Seq<SourceModel>, outputs: Seq<OutputModel>) -> SnapshotModel {
    SnapshotModel {
        sources: Seq::new(sources.len(), |i: int| kept_source(sources[i])),
        outputs: Seq::new(outputs.len(), |i: int| kept_output(outputs[i])),
        routes: wanted_pairs(sources, outputs, sources.len() as int),
    }
}

/// Whether a route is wanted.
pub fn is_wanted(sources: &Vec<SourceStrip>, source: usize, output: usize) -> (result: bool)
    ensures
        result == wanted(inventory::source_models(sources@), source as int, output as int),
{
    source < sources.len() && output < sources[source].routes.len() && sources[source].routes[output]
}

/// The ends of a route, where both sides are bound.
pub fn route_ends(
    sources: &Vec<SourceStrip>,
    outputs: &Vec<OutputBus>,
    source: usize,
    output: usize,
) -> (pair: Option<EndpointPair>)
    ensures
        pair == ends(
            inventory::source_models(sources@),
            inventory::output_models(outputs@),
            source as int,
            output as int,
        ),
{
    if source >= sources.len() || output >= outputs.len() {
        return None;
    }
    match (sources[source].endpoint_id, outputs[output].endpoint_id) {
        (Some(source), Some(destination)) => Some(EndpointPair { source, destination }),
        _ => None,
    }
}

/// The ends of the wanted routes.
pub fn pairs_wanted(sources: &Vec<SourceStrip>, outputs: &Vec<OutputBus>) -> (pairs: Vec<
    EndpointPair,
>)
    ensures
        pairs@ == wanted_pairs(
            inventory::source_models(sources@),
            inventory::output_models(outputs@),
            sources@.len() as int,
        ),
{
    let ghost source_models = inventory::source_models(sources@);
    let ghost output_models = inventory::output_models(outputs@);
    let mut pairs: Vec<EndpointPair> = Vec::new();
    let mut source: usize = 0;
    while source < sources.len()
        invariant
            source <= sources@.len(),
            source_models == inventory::source_models(sources@),
            output_models == inventory::output_models(outputs@),
            pairs@ == wanted_pairs(source_models, output_models, source as int),
        decreases sources@.len() - source,
    {
        let ghost before = pairs@;
        let mut output: usize = 0;
        assert(before + pairs_of(source_models, output_models, source as int, 0) =~= before);
        while output < outputs.len()
            invariant
                output <= outputs@.len(),
                source < sources@.len(),
                source_models == inventory::source_models(sources@),
                output_models == inventory::output_models(outputs@),
                pairs@ == before + pairs_of(
                    source_models,
                    output_models,
                    source as int,
                    output as int,
                ),
            decreases outputs@.len() - output,
        {
            let ghost so_far = pairs_of(
                source_models,
                output_models,
                source as int,
                output as int,
            );
            if is_wanted(sources, source, output) {
                if let Some(pair) = route_ends(sources, outputs, source, output) {
                    pairs.push(pair);
                    assert((before + so_far).push(pair) =~= before + so_far.push(pair));
                }
            }
            output = output + 1;
        }
        source = source + 1;
    }
    pairs
}

/// Takes what a scene keeps of a mixer.
pub fn take_snapshot(sources: &Vec<SourceStrip>, outputs: &Vec<OutputBus>) -> (snapshot:
    SceneSnapshot)
    ensures
        snapshot@ == snapshot_of(
            inventory::source_models(sources@),
            inventory::output_models(outputs@),
        ),
{
    let mut kept_sources: Vec<ChannelSnapshot> = Vec::new();
    let mut at: usize = 0;
    while at < sources.len()
        invariant
            at <= sources@.len(),
            kept_sources@.len() == at,
            forall|i: int|
                0 <= i < at ==> (#[trigger] kept_sources@[i])@ == kept_source(sources@[i]@),
        decreases sources@.len() - at,
    {
        let source = &sources[at];
        kept_sources.push(
            ChannelSnapshot {
                name: source.name.clone(),
                color: source.color,
                gain_db: source.gain_db,
                muted: source.muted,
                delay_ms: source.delay_ms,
                eq: source.eq,
                mode: source.mode,
                endpoint_id: source.endpoint_id,
            },
        );
        at = at + 1;
    }
    let mut kept_outputs: Vec<ChannelSnapshot> = Vec::new();
    let mut next: usize = 0;
    while next < outputs.len()
        invariant
            next <= outputs@.len(),
            kept_outputs@.len() == next,
            forall|i: int|
                0 <= i < next ==> (#[trigger] kept_outputs@[i])@ == kept_output(outputs@[i]@),
        decreases outputs@.len() - next,
    {
        let output = &outputs[next];
        kept_outputs.push(
            ChannelSnapshot {
                name: output.name.clone(),
                color: output.color,
                gain_db: output.gain_db,
                muted: output.muted,
                delay_ms: output.delay_ms,
                eq: output.eq,
                mode: output.mode,
                endpoint_id: output.endpoint_id,
            },
        );
        next = next + 1;
    }
    let snapshot = SceneSnapshot {
        sources: kept_sources,
        outputs: kept_outputs,
        routes: pairs_wanted(sources, outputs),
    };
    proof {
        let wanted = snapshot_of(
            inventory::source_models(sources@),
            inventory::output_models(outputs@),
        );
        assert(snapshot@.sources =~= wanted.sources);
        assert(snapshot@.outputs =~= wanted.outputs);
    }
    snapshot
}

/// The first channel from a place on with a name.
pub open spec fn source_named(sources: Seq<SourceModel>, name: Seq<char>, from: int) -> Option<int>
    decreases sources.len() - from,
{
    if from < 0 || from >= sources.len() {
        None
    } else if sources[from].name == name {
        Some(from)
    } else {
        source_named(sources, name, from + 1)
    }
}

/// The first bus from a place on with a name.
pub open spec fn output_named(outputs: Seq<OutputModel>, name: Seq<char>, from: int) -> Option<int>
    decreases outputs.len() - from,
{
    if from < 0 || from >= outputs.len() {
        None
    } else if outputs[from].name == name {
        Some(from)
    } else {
        output_named(outputs, name, from + 1)
    }
}

/// A channel with what a scene kept. A binding that was kept counts as chosen
/// by the user.
pub open spec fn restored_source(source: SourceModel, saved: ChannelModel) -> SourceModel {
    SourceModel {
        gain_db: saved.gain_db,
        muted: saved.muted,
        delay_ms: saved.delay_ms,
        eq: saved.eq,
        mode: saved.mode,
        endpoint_id: if saved.endpoint_id is Some {
            saved.endpoint_id
        } else {
            source.endpoint_id
        },
        user_bound: source.user_bound || saved.endpoint_id is Some,
        ..source
    }
}

/// A bus with what a scene kept.
pub open spec fn restored_output(output: OutputModel, saved: ChannelModel) -> OutputModel {
    OutputModel {
        gain_db: saved.gain_db,
        muted: saved.muted,
        delay_ms: saved.delay_ms,
        eq: saved.eq,
        mode: saved.mode,
        endpoint_id: if saved.endpoint_id is Some {
            saved.endpoint_id
        } else {
            output.endpoint_id
        },
        user_bound: output.user_bound || saved.endpoint_id is Some,
        ..output
    }
}

/// The channels after each that was kept went to the first with its name.
pub open spec fn restored_sources(sources: Seq<SourceModel>, saved: Seq<ChannelModel>) -> Seq<
    SourceModel,
>
    decreases saved.len(),
{
    if saved.len() == 0 {
        sources
    } else {
        let before = restored_sources(sources, saved.drop_last());
        match source_named(before, saved.last().name, 0) {
            Some(at) => before.update(at, restored_source(before[at], saved.last())),
            None => before,
        }
    }
}

/// The buses after each that was kept went to the first with its name.
pub open spec fn restored_outputs(outputs: Seq<OutputModel>, saved: Seq<ChannelModel>) -> Seq<
    OutputModel,
>
    decreases saved.len(),
{
    if saved.len() == 0 {
        outputs
    } else {
        let before = restored_outputs(outputs, saved.drop_last());
        match output_named(before, saved.last().name, 0) {
            Some(at) => before.update(at, restored_output(before[at], saved.last())),
            None => before,
        }
    }
}

/// Puts back what a scene kept of the channels.
pub fn restore_sources(sources: &mut Vec<SourceStrip>, saved: &Vec<ChannelSnapshot>)
    ensures
        inventory::source_models(final(sources)@) == restored_sources(
            inventory::source_models(old(sources)@),
            channel_models(saved@),
        ),
{
    let ghost first = inventory::source_models(sources@);
    let ghost kept = channel_models(saved@);
    let mut at: usize = 0;
    assert(kept.take(0) =~= Seq::empty());
    while at < saved.len()
        invariant
            at <= saved@.len(),
            kept == channel_models(saved@),
            first == inventory::source_models(old(sources)@),
            inventory::source_models(sources@) == restored_sources(first, kept.take(at as int)),
        decreases saved@.len() - at,
    {
        let item = &saved[at];
        let ghost before = inventory::source_models(sources@);
        assert(kept.take(at + 1).drop_last() =~= kept.take(at as int));
        assert(kept.take(at + 1).last() == item@);
        let mut place: usize = 0;
        let mut searching = true;
        while searching && place < sources.len()
            invariant
                place <= sources@.len(),
                before == inventory::source_models(sources@),
                source_named(before, item.name@, 0) == source_named(
                    before,
                    item.name@,
                    place as int,
                ),
                !searching ==> place < sources@.len() && before[place as int].name == item.name@,
            decreases sources@.len() - place + if searching {
                1int
            } else {
                0int
            },
        {
            assert(before[place as int] == sources@[place as int]@);
            if same_text(sources[place].name.as_str(), item.name.as_str()) {
                searching = false;
            } else {
                place = place + 1;
            }
        }
        if !searching {
            let source = &mut sources[place];
            source.gain_db = item.gain_db;
            source.muted = item.muted;
            source.delay_ms = item.delay_ms;
            source.eq = item.eq;
            source.mode = item.mode;
            if item.endpoint_id.is_some() {
                source.endpoint_id = item.endpoint_id;
                source.user_bound = true;
            }
            assert(inventory::source_models(sources@) =~= before.update(
                place as int,
                restored_source(before[place as int], item@),
            ));
        }
        at = at + 1;
    }
    assert(kept.take(at as int) =~= kept);
}

/// Puts back what a scene kept of the buses.
pub fn restore_outputs(outputs: &mut Vec<OutputBus>, saved: &Vec<ChannelSnapshot>)
    ensures
        inventory::output_models(final(outputs)@) == restored_outputs(
            inventory::output_models(old(outputs)@),
            channel_models(saved@),
        ),
{
    let ghost first = inventory::output_models(outputs@);
    let ghost kept = channel_models(saved@);
    let mut at: usize = 0;
    assert(kept.take(0) =~= Seq::empty());
    while at < saved.len()
        invariant
            at <= saved@.len(),
            kept == channel_models(saved@),
            first == inventory::output_models(old(outputs)@),
            inventory::output_models(outputs@) == restored_outputs(first, kept.take(at as int)),
        decreases saved@.len() - at,
    {
        let item = &saved[at];
        let ghost before = inventory::output_models(outputs@);
        assert(kept.take(at + 1).drop_last() =~= kept.take(at as int));
        assert(kept.take(at + 1).last() == item@);
        let mut place: usize = 0;
        let mut searching = true;
        while searching && place < outputs.len()
            invariant
                place <= outputs@.len(),
                before == inventory::output_models(outputs@),
                output_named(before, item.name@, 0) == output_named(
                    before,
                    item.name@,
                    place as int,
                ),
                !searching ==> place < outputs@.len() && before[place as int].name == item.name@,
            decreases outputs@.len() - place + if searching {
                1int
            } else {
                0int
            },
        {
            assert(before[place as int] == outputs@[place as int]@);
            if same_text(outputs[place].name.as_str(), item.name.as_str()) {
                searching = false;
            } else {
                place = place + 1;
            }
        }
        if !searching {
            let output = &mut outputs[place];
            output.gain_db = item.gain_db;
            output.muted = item.muted;
            output.delay_ms = item.delay_ms;
            output.eq = item.eq;
            output.mode = item.mode;
            if item.endpoint_id.is_some() {
                output.endpoint_id = item.endpoint_id;
                output.user_bound = true;
            }
            assert(inventory::output_models(outputs@) =~= before.update(
                place as int,
                restored_output(before[place as int], item@),
            ));
        }
        at = at + 1;
    }
    assert(kept.take(at as int) =~= kept);
}

/// The first channel from a place on that is bound to an endpoint.
pub open spec fn source_bound(sources: Seq<SourceModel>, id: EndpointId, from: int) -> Option<int>
    decreases sources.len() - from,
{
    if from < 0 || from >= sources.len() {
        None
    } else if sources[from].endpoint_id == Some(id) {
        Some(from)
    } else {
        source_bound(sources, id, from + 1)
    }
}

/// The first bus from a place on that is bound to an endpoint.
pub open spec fn output_bound(outputs: Seq<OutputModel>, id: EndpointId, from: int) -> Option<int>
    decreases outputs.len() - from,
{
    if from < 0 || from >= outputs.len() {
        None
    } else if outputs[from].endpoint_id == Some(id) {
        Some(from)
    } else {
        output_bound(outputs, id, from + 1)
    }
}

/// The channels with one more route wanted, where both its ends are bound.
pub open spec fn with_pair(
    sources: Seq<SourceModel>,
    outputs: Seq<OutputModel>,
    pair: EndpointPair,
) -> Seq<SourceModel> {
    match (source_bound(sources, pair.source, 0), output_bound(outputs, pair.destination, 0)) {
        (Some(source), Some(output)) => sources.update(
            source,
            SourceModel {
                routes: sources[source].routes.update(output, true),
                ..sources[source]
            },
        ),
        _ => sources,
    }
}

/// The channels with no route wanted.
pub open spec fn unwanted(sources: Seq<SourceModel>) -> Seq<SourceModel> {
    Seq::new(
        sources.len(),
        |i: int|
            SourceModel { routes: strips::no_routes(sources[i].routes.len()), ..sources[i] },
    )
}

/// The channels with exactly the routes between some ends wanted.
pub open spec fn with_pairs(
    sources: Seq<SourceModel>,
    outputs: Seq<OutputModel>,
    pairs: Seq<EndpointPair>,
) -> Seq<SourceModel>
    decreases pairs.len(),
{
    if pairs.len() == 0 {
        unwanted(sources)
    } else {
        with_pair(with_pairs(sources, outputs, pairs.drop_last()), outputs, pairs.last())
    }
}

/// Whether every channel has a place for every bus.
pub open spec fn rectangular(sources: Seq<SourceModel>, outputs: nat) -> bool {
    forall|i: int| 0 <= i < sources.len() ==> (#[trigger] sources[i]).routes.len() == outputs
}

proof fn lemma_source_bound(sources: Seq<SourceModel>, id: EndpointId, from: int)
    requires
        0 <= from,
    ensures
        match source_bound(sources, id, from) {
            Some(at) => from <= at < sources.len() && sources[at].endpoint_id == Some(id) && (
            forall|i: int|
                from <= i < at ==> (#[trigger] sources[i]).endpoint_id != Some(id)),
            None => forall|i: int|
                from <= i < sources.len() ==> (#[trigger] sources[i]).endpoint_id != Some(id),
        },
    decreases sources.len() - from,
{
    if from < sources.len() && sources[from].endpoint_id != Some(id) {
        lemma_source_bound(sources, id, from + 1);
    }
}

proof fn lemma_output_bound(outputs: Seq<OutputModel>, id: EndpointId, from: int)
    requires
        0 <= from,
    ensures
        match output_bound(outputs, id, from) {
            Some(at) => from <= at < outputs.len() && outputs[at].endpoint_id == Some(id) && (
            forall|i: int|
                from <= i < at ==> (#[trigger] outputs[i]).endpoint_id != Some(id)),
            None => forall|i: int|
                from <= i < outputs.len() ==> (#[trigger] outputs[i]).endpoint_id != Some(id),
        },
    decreases outputs.len() - from,
{
    if from < outputs.len() && outputs[from].endpoint_id != Some(id) {
        lemma_output_bound(outputs, id, from + 1);
    }
}

fn find_source_bound(sources: &Vec<SourceStrip>, id: EndpointId) -> (place: Option<usize>)
    ensures
        match place {
            Some(at) => at < sources@.len() && source_bound(
                inventory::source_models(sources@),
                id,
                0,
            ) == Some(at as int),
            None => source_bound(inventory::source_models(sources@), id, 0) is None,
        },
{
    let ghost models = inventory::source_models(sources@);
    let mut at: usize = 0;
    while at < sources.len()
        invariant
            at <= sources@.len(),
            models == inventory::source_models(sources@),
            source_bound(models, id, 0) == source_bound(models, id, at as int),
        decreases sources@.len() - at,
    {
        assert(models[at as int] == sources@[at as int]@);
        if let Some(bound) = sources[at].endpoint_id {
            if bound == id {
                return Some(at);
            }
        }
        at = at + 1;
    }
    None
}

fn find_output_bound(outputs: &Vec<OutputBus>, id: EndpointId) -> (place: Option<usize>)
    ensures
        match place {
            Some(at) => at < outputs@.len() && output_bound(
                inventory::output_models(outputs@),
                id,
                0,
            ) == Some(at as int),
            None => output_bound(inventory::output_models(outputs@), id, 0) is None,
        },
{
    let ghost models = inventory::output_models(outputs@);
    let mut at: usize = 0;
    while at < outputs.len()
        invariant
            at <= outputs@.len(),
            models == inventory::output_models(outputs@),
            output_bound(models, id, 0) == output_bound(models, id, at as int),
        decreases outputs@.len() - at,
    {
        assert(models[at as int] == outputs@[at as int]@);
        if let Some(bound) = outputs[at].endpoint_id {
            if bound == id {
                return Some(at);
            }
        }
        at = at + 1;
    }
    None
}

/// Wants exactly the routes between some ends. Those whose ends are bound to
/// nothing are left out.
pub fn want_pairs(
    sources: &mut Vec<SourceStrip>,
    outputs: &Vec<OutputBus>,
    pairs: &Vec<EndpointPair>,
)
    requires
        rectangular(inventory::source_models(old(sources)@), outputs@.len()),
    ensures
        inventory::source_models(final(sources)@) == with_pairs(
            inventory::source_models(old(sources)@),
            inventory::output_models(outputs@),
            pairs@,
        ),
        rectangular(inventory::source_models(final(sources)@), outputs@.len()),
{
    let ghost first = inventory::source_models(sources@);
    let ghost output_models = inventory::output_models(outputs@);
    let count: usize = sources.len();
    let mut at: usize = 0;
    while at < count
        invariant
            at <= count == sources@.len(),
            first == inventory::source_models(old(sources)@),
            first.len() == count,
            forall|i: int|
                0 <= i < count ==> (#[trigger] sources@[i])@ == (if i < at {
                    unwanted(first)[i]
                } else {
                    first[i]
                }),
        decreases count - at,
    {
        let source = &mut sources[at];
        let width: usize = source.routes.len();
        source.routes = strips::unrouted(width);
        at = at + 1;
    }
    assert(inventory::source_models(sources@) =~= unwanted(first));
    assert forall|i: int| 0 <= i < count implies (#[trigger] inventory::source_models(
        sources@,
    )[i]).routes.len() == outputs@.len() by {
        assert(first[i].routes.len() == outputs@.len());
    }
    let mut next: usize = 0;
    assert(pairs@.take(0) =~= Seq::empty());
    while next < pairs.len()
        invariant
            next <= pairs@.len(),
            output_models == inventory::output_models(outputs@),
            inventory::source_models(sources@) == with_pairs(
                first,
                output_models,
                pairs@.take(next as int),
            ),
            rectangular(inventory::source_models(sources@), outputs@.len()),
        decreases pairs@.len() - next,
    {
        let pair = pairs[next];
        let ghost before = inventory::source_models(sources@);
        assert(pairs@.take(next + 1).drop_last() =~= pairs@.take(next as int));
        assert(pairs@.take(next + 1).last() == pair);
        let source = find_source_bound(sources, pair.source);
        let output = find_output_bound(outputs, pair.destination);
        if let (Some(source), Some(output)) = (source, output) {
            assert(before[source as int].routes.len() == outputs@.len());
            assert(sources@[source as int]@ == before[source as int]);
            let strip = &mut sources[source];
            strip.routes.set(output, true);
            assert(inventory::source_models(sources@) =~= with_pair(before, output_models, pair));
            assert forall|i: int|
                0 <= i < sources@.len() implies (#[trigger] inventory::source_models(
                sources@,
            )[i]).routes.len() == outputs@.len() by {
                assert(before[i].routes.len() == outputs@.len());
            }
        }
        next = next + 1;
    }
    assert(pairs@.take(next as int) =~= pairs@);
}

/// Whether no two channels have one name.
pub open spec fn names_differ(sources: Seq<SourceModel>) -> bool {
    forall|i: int, j: int|
        0 <= i < j < sources.len() ==> (#[trigger] sources[i]).name != (
        #[trigger] sources[j]).name
}

proof fn lemma_source_named(sources: Seq<SourceModel>, at: int, from: int)
    requires
        0 <= from <= at < sources.len(),
        names_differ(sources),
    ensures
        source_named(sources, sources[at].name, from) == Some(at),
    decreases at - from,
{
    if from < at {
        assert(sources[from].name != sources[at].name);
        lemma_source_named(sources, at, from + 1);
    }
}

/// What was kept of the channels comes back as it was, as long as their names
/// stay the same and differ from each other, whatever else was changed in
/// between.
pub proof fn law_scene_restores_controls(
    kept: Seq<SourceModel>,
    changed: Seq<SourceModel>,
    count: int,
)
    requires
        0 <= count <= kept.len(),
        kept.len() == changed.len(),
        names_differ(changed),
        forall|i: int|
            0 <= i < kept.len() ==> (#[trigger] kept[i]).name == changed[i].name,
    ensures
        ({
            let saved = Seq::new(kept.len(), |i: int| kept_source(kept[i]));
            let restored = restored_sources(changed, saved.take(count));
            &&& restored.len() == changed.len()
            &&& forall|i: int|
                0 <= i < kept.len() ==> (#[trigger] restored[i]) == (if i < count {
                    restored_source(changed[i], kept_source(kept[i]))
                } else {
                    changed[i]
                })
        }),
    decreases count,
{
    let saved = Seq::new(kept.len(), |i: int| kept_source(kept[i]));
    if count > 0 {
        law_scene_restores_controls(kept, changed, count - 1);
        let before = restored_sources(changed, saved.take(count - 1));
        assert(saved.take(count).drop_last() =~= saved.take(count - 1));
        assert(saved.take(count).last() == kept_source(kept[count - 1]));
        assert forall|i: int, j: int| 0 <= i < j < before.len() implies (#[trigger] before[i]).name
            != (#[trigger] before[j]).name by {
            assert(changed[i].name != changed[j].name);
        }
        assert(before[count - 1].name == kept[count - 1].name);
        lemma_source_named(before, count - 1, 0);
    } else {
        assert(saved.take(0) =~= Seq::empty());
    }
}

/// Whether no two buses have one name.
pub open spec fn bus_names_differ(outputs: Seq<OutputModel>) -> bool {
    forall|i: int, j: int|
        0 <= i < j < outputs.len() ==> (#[trigger] outputs[i]).name != (
        #[trigger] outputs[j]).name
}

proof fn lemma_output_named(outputs: Seq<OutputModel>, at: int, from: int)
    requires
        0 <= from <= at < outputs.len(),
        bus_names_differ(outputs),
    ensures
        output_named(outputs, outputs[at].name, from) == Some(at),
    decreases at - from,
{
    if from < at {
        assert(outputs[from].name != outputs[at].name);
        lemma_output_named(outputs, at, from + 1);
    }
}

/// What was kept of the buses comes back as it was, as long as their names
/// stay the same and differ from each other, whatever else was changed in
/// between.
pub proof fn law_scene_restores_buses(
    kept: Seq<OutputModel>,
    changed: Seq<OutputModel>,
    count: int,
)
    requires
        0 <= count <= kept.len(),
        kept.len() == changed.len(),
        bus_names_differ(changed),
        forall|i: int|
            0 <= i < kept.len() ==> (#[trigger] kept[i]).name == changed[i].name,
    ensures
        ({
            let saved = Seq::new(kept.len(), |i: int| kept_output(kept[i]));
            let restored = restored_outputs(changed, saved.take(count));
            &&& restored.len() == changed.len()
            &&& forall|i: int|
                0 <= i < kept.len() ==> (#[trigger] restored[i]) == (if i < count {
                    restored_output(changed[i], kept_output(kept[i]))
                } else {
                    changed[i]
                })
        }),
    decreases count,
{
    let saved = Seq::new(kept.len(), |i: int| kept_output(kept[i]));
    if count > 0 {
        law_scene_restores_buses(kept, changed, count - 1);
        let before = restored_outputs(changed, saved.take(count - 1));
        assert(saved.take(count).drop_last() =~= saved.take(count - 1));
        assert(saved.take(count).last() == kept_output(kept[count - 1]));
        assert forall|i: int, j: int| 0 <= i < j < before.len() implies (#[trigger] before[i]).name
            != (#[trigger] before[j]).name by {
            assert(changed[i].name != changed[j].name);
        }
        assert(before[count - 1].name == kept[count - 1].name);
        lemma_output_named(before, count - 1, 0);
    } else {
        assert(saved.take(0) =~= Seq::empty());
    }
}

/// Whether no two channels are bound to one endpoint.
pub open spec fn sources_apart(sources: Seq<SourceModel>) -> bool {
    forall|i: int, j: int|
        0 <= i < j < sources.len() && (#[trigger] sources[i]).endpoint_id is Some
            ==> sources[i].endpoint_id != (#[trigger] sources[j]).endpoint_id
}

/// Whether no two buses are bound to one endpoint.
pub open spec fn outputs_apart(outputs: Seq<OutputModel>) -> bool {
    forall|i: int, j: int|
        0 <= i < j < outputs.len() && (#[trigger] outputs[i]).endpoint_id is Some
            ==> outputs[i].endpoint_id != (#[trigger] outputs[j]).endpoint_id
}

proof fn lemma_pairs_of(
    sources: Seq<SourceModel>,
    outputs: Seq<OutputModel>,
    source: int,
    count: int,
    pair: EndpointPair,
)
    requires
        0 <= count <= outputs.len(),
    ensures
        pairs_of(sources, outputs, source, count).contains(pair) <==> exists|output: int|
            0 <= output < count && wanted(sources, source, output) && #[trigger] ends(
                sources,
                outputs,
                source,
                output,
            ) == Some(pair),
    decreases count,
{
    if count > 0 {
        lemma_pairs_of(sources, outputs, source, count - 1, pair);
        let before = pairs_of(sources, outputs, source, count - 1);
        let after = pairs_of(sources, outputs, source, count);
        if before.contains(pair) {
            let i = choose|i: int| 0 <= i < before.len() && before[i] == pair;
            assert(after[i] == pair);
        }
        if wanted(sources, source, count - 1) && ends(sources, outputs, source, count - 1) == Some(
            pair,
        ) {
            assert(after[before.len() as int] == pair);
        }
        if after.contains(pair) && !before.contains(pair) {
            let i = choose|i: int| 0 <= i < after.len() && after[i] == pair;
            if i < before.len() {
                assert(before[i] == pair);
            }
            assert(ends(sources, outputs, source, count - 1) == Some(pair));
        }
    }
}

proof fn lemma_wanted_pairs(
    sources: Seq<SourceModel>,
    outputs: Seq<OutputModel>,
    count: int,
    pair: EndpointPair,
)
    requires
        0 <= count <= sources.len(),
    ensures
        wanted_pairs(sources, outputs, count).contains(pair) <==> exists|source: int, output: int|
            0 <= source < count && 0 <= output < outputs.len() && wanted(sources, source, output)
                && #[trigger] ends(sources, outputs, source, output) == Some(pair),
    decreases count,
{
    if count > 0 {
        lemma_wanted_pairs(sources, outputs, count - 1, pair);
        lemma_pairs_of(sources, outputs, count - 1, outputs.len() as int, pair);
        let before = wanted_pairs(sources, outputs, count - 1);
        let own = pairs_of(sources, outputs, count - 1, outputs.len() as int);
        let after = wanted_pairs(sources, outputs, count);
        if before.contains(pair) {
            let i = choose|i: int| 0 <= i < before.len() && before[i] == pair;
            assert(after[i] == pair);
        }
        if own.contains(pair) {
            let i = choose|i: int| 0 <= i < own.len() && own[i] == pair;
            assert(after[before.len() + i] == pair);
        }
        if after.contains(pair) {
            let i = choose|i: int| 0 <= i < after.len() && after[i] == pair;
            if i < before.len() {
                assert(before[i] == pair);
            } else {
                assert(own[i - before.len()] == pair);
            }
        }
    }
}

pub proof fn lemma_with_pairs(
    sources: Seq<SourceModel>,
    outputs: Seq<OutputModel>,
    pairs: Seq<EndpointPair>,
)
    requires
        rectangular(sources, outputs.len()),
        sources_apart(sources),
        outputs_apart(outputs),
    ensures
        with_pairs(sources, outputs, pairs).len() == sources.len(),
        rectangular(with_pairs(sources, outputs, pairs), outputs.len()),
        forall|i: int|
            0 <= i < sources.len() ==> (#[trigger] with_pairs(sources, outputs, pairs)[i])
                == (SourceModel {
                routes: with_pairs(sources, outputs, pairs)[i].routes,
                ..sources[i]
            }),
        forall|source: int, output: int|
            0 <= source < sources.len() && 0 <= output < outputs.len() ==> (wanted(
                with_pairs(sources, outputs, pairs),
                source,
                output,
            ) <==> (#[trigger] ends(sources, outputs, source, output) matches Some(pair)
                && pairs.contains(pair))),
    decreases pairs.len(),
{
    let after = with_pairs(sources, outputs, pairs);
    if pairs.len() == 0 {
        assert forall|source: int, output: int|
            0 <= source < sources.len() && 0 <= output < outputs.len() implies (wanted(
            after,
            source,
            output,
        ) <==> (#[trigger] ends(sources, outputs, source, output) matches Some(pair)
            && pairs.contains(pair))) by {
            assert(after[source].routes[output] == false);
        }
    } else {
        let rest = pairs.drop_last();
        let last = pairs.last();
        lemma_with_pairs(sources, outputs, rest);
        let before = with_pairs(sources, outputs, rest);
        lemma_source_bound(before, last.source, 0);
        lemma_output_bound(outputs, last.destination, 0);
        let found_source = source_bound(before, last.source, 0);
        let found_output = output_bound(outputs, last.destination, 0);
        assert forall|i: int| 0 <= i < sources.len() implies (#[trigger] after[i]) == (
        SourceModel { routes: after[i].routes, ..sources[i] }) by {
            assert(before[i] == (SourceModel { routes: before[i].routes, ..sources[i] }));
        }
        assert forall|i: int| 0 <= i < after.len() implies (#[trigger] after[i]).routes.len()
            == outputs.len() by {
            assert(before[i].routes.len() == outputs.len());
        }
        assert forall|source: int, output: int|
            0 <= source < sources.len() && 0 <= output < outputs.len() implies (wanted(
            after,
            source,
            output,
        ) <==> (#[trigger] ends(sources, outputs, source, output) matches Some(pair)
            && pairs.contains(pair))) by {
            assert(before[source].routes.len() == outputs.len());
            assert(before[source].endpoint_id == sources[source].endpoint_id);
            match ends(sources, outputs, source, output) {
                Some(pair) => {
                    if rest.contains(pair) {
                        let i = choose|i: int| 0 <= i < rest.len() && rest[i] == pair;
                        assert(pairs[i] == pair);
                    }
                    if pairs.contains(pair) && pair != last {
                        let i = choose|i: int| 0 <= i < pairs.len() && pairs[i] == pair;
                        assert(rest[i] == pair);
                    }
                    if pair == last {
                        assert(pairs[pairs.len() - 1] == pair);
                        assert(found_source is Some && found_output is Some);
                        let s = found_source->0;
                        let o = found_output->0;
                        assert(before[s].endpoint_id == sources[s].endpoint_id);
                        if s != source {
                            assert(sources[if s < source { s } else { source }].endpoint_id
                                is Some);
                            assert(sources[s].endpoint_id != sources[source].endpoint_id);
                        }
                        if o != output {
                            assert(outputs[if o < output { o } else { output }].endpoint_id
                                is Some);
                            assert(outputs[o].endpoint_id != outputs[output].endpoint_id);
                        }
                        assert(after[source].routes[output]);
                    } else {
                        if found_source == Some(source) && found_output == Some(output) {
                            assert(sources[source].endpoint_id == Some(last.source));
                            assert(outputs[output].endpoint_id == Some(last.destination));
                            assert(pair == last);
                        }
                        assert(wanted(after, source, output) == wanted(before, source, output));
                    }
                },
                None => {
                    assert(!wanted(before, source, output));
                    if found_source == Some(source) && found_output == Some(output) {
                        assert(before[source].endpoint_id is Some);
                        assert(outputs[output].endpoint_id is Some);
                    }
                    assert(!wanted(after, source, output));
                },
            }
        }
    }
}

/// The wanted routes come back out of their ends: a route between bound
/// channels is wanted again exactly where it was, as long as no two channels
/// and no two buses share an endpoint.
pub proof fn law_wanted_routes_round_trip(
    sources: Seq<SourceModel>,
    outputs: Seq<OutputModel>,
    source: int,
    output: int,
)
    requires
        rectangular(sources, outputs.len()),
        sources_apart(sources),
        outputs_apart(outputs),
        ends(sources, outputs, source, output) is Some,
    ensures
        wanted(
            with_pairs(
                sources,
                outputs,
                wanted_pairs(sources, outputs, sources.len() as int),
            ),
            source,
            output,
        ) == wanted(sources, source, output),
{
    let pairs = wanted_pairs(sources, outputs, sources.len() as int);
    lemma_with_pairs(sources, outputs, pairs);
    let pair = ends(sources, outputs, source, output)->0;
    lemma_wanted_pairs(sources, outputs, sources.len() as int, pair);
    if pairs.contains(pair) {
        let (s, o) = choose|s: int, o: int|
            0 <= s < sources.len() && 0 <= o < outputs.len() && wanted(sources, s, o)
                && #[trigger] ends(sources, outputs, s, o) == Some(pair);
        assert(sources[s].endpoint_id == sources[source].endpoint_id);
        assert(outputs[o].endpoint_id == outputs[output].endpoint_id);
        assert(s == source);
        assert(o == output);
    } else if wanted(sources, source, output) {
        assert(ends(sources, outputs, source, output) == Some(pair));
    }
}

/// A scene keeps of a channel and of a bus its name, color, gain, mute, delay,
/// bands, mode and binding, each as it is.
pub proof fn law_a_scene_keeps_the_controls(source: SourceModel, output: OutputModel)
    ensures
        kept_source(source).name == source.name,
        kept_source(source).color == source.color,
        kept_source(source).gain_db == source.gain_db,
        kept_source(source).muted == source.muted,
        kept_source(source).delay_ms == source.delay_ms,
        kept_source(source).eq == source.eq,
        kept_source(source).mode == source.mode,
        kept_source(source).endpoint_id == source.endpoint_id,
        kept_output(output).name == output.name,
        kept_output(output).color == output.color,
        kept_output(output).gain_db == output.gain_db,
        kept_output(output).muted == output.muted,
        kept_output(output).delay_ms == output.delay_ms,
        kept_output(output).eq == output.eq,
        kept_output(output).mode == output.mode,
        kept_output(output).endpoint_id == output.endpoint_id,
{
}

/// What comes back of a channel and of a bus is gain, mute, delay, bands and
/// mode as they were kept, and the binding where one was kept; its name, its
/// color, its wanted routes and what it shows are left alone.
pub proof fn law_a_scene_puts_the_controls_back(
    source: SourceModel,
    output: OutputModel,
    saved: ChannelModel,
)
    ensures
        ({
            let back = restored_source(source, saved);
            &&& back.gain_db == saved.gain_db
            &&& back.muted == saved.muted
            &&& back.delay_ms == saved.delay_ms
            &&& back.eq == saved.eq
            &&& back.mode == saved.mode
            &&& saved.endpoint_id is Some ==> back.endpoint_id == saved.endpoint_id
                && back.user_bound
            &&& saved.endpoint_id is None ==> back.endpoint_id == source.endpoint_id
                && back.user_bound == source.user_bound
            &&& back == (SourceModel {
                gain_db: back.gain_db,
                muted: back.muted,
                delay_ms: back.delay_ms,
                eq: back.eq,
                mode: back.mode,
                endpoint_id: back.endpoint_id,
                user_bound: back.user_bound,
                ..source
            })
        }),
        ({
            let back = restored_output(output, saved);
            &&& back.gain_db == saved.gain_db
            &&& back.muted == saved.muted
            &&& back.delay_ms == saved.delay_ms
            &&& back.eq == saved.eq
            &&& back.mode == saved.mode
            &&& saved.endpoint_id is Some ==> back.endpoint_id == saved.endpoint_id
                && back.user_bound
            &&& saved.endpoint_id is None ==> back.endpoint_id == output.endpoint_id
                && back.user_bound == output.user_bound
            &&& back == (OutputModel {
                gain_db: back.gain_db,
                muted: back.muted,
                delay_ms: back.delay_ms,
                eq: back.eq,
                mode: back.mode,
                endpoint_id: back.endpoint_id,
                user_bound: back.user_bound,
                ..output
            })
        }),
{
}

/// The strip that something kept goes to is the first with its name from the
/// place on, and there is none exactly where no strip has that name.
pub proof fn law_the_first_strip_of_a_name_is_meant(
    sources: Seq<SourceModel>,
    outputs: Seq<OutputModel>,
    name: Seq<char>,
    from: int,
)
    requires
        0 <= from,
    ensures
        match source_named(sources, name, from) {
            Some(at) => from <= at < sources.len() && sources[at].name == name && forall|i: int|
                from <= i < at ==> (#[trigger] sources[i]).name != name,
            None => forall|i: int|
                from <= i < sources.len() ==> (#[trigger] sources[i]).name != name,
        },
        match output_named(outputs, name, from) {
            Some(at) => from <= at < outputs.len() && outputs[at].name == name && forall|i: int|
                from <= i < at ==> (#[trigger] outputs[i]).name != name,
            None => forall|i: int|
                from <= i < outputs.len() ==> (#[trigger] outputs[i]).name != name,
        },
{
    lemma_first_source_named(sources, name, from);
    lemma_first_output_named(outputs, name, from);
}

proof fn lemma_first_source_named(sources: Seq<SourceModel>, name: Seq<char>, from: int)
    requires
        0 <= from,
    ensures
        match source_named(sources, name, from) {
            Some(at) => from <= at < sources.len() && sources[at].name == name && forall|i: int|
                from <= i < at ==> (#[trigger] sources[i]).name != name,
            None => forall|i: int|
                from <= i < sources.len() ==> (#[trigger] sources[i]).name != name,
        },
    decreases sources.len() - from,
{
    if from < sources.len() && sources[from].name != name {
        lemma_first_source_named(sources, name, from + 1);
    }
}

proof fn lemma_first_output_named(outputs: Seq<OutputModel>, name: Seq<char>, from: int)
    requires
        0 <= from,
    ensures
        match output_named(outputs, name, from) {
            Some(at) => from <= at < outputs.len() && outputs[at].name == name && forall|i: int|
                from <= i < at ==> (#[trigger] outputs[i]).name != name,
            None => forall|i: int|
                from <= i < outputs.len() ==> (#[trigger] outputs[i]).name != name,
        },
    decreases outputs.len() - from,
{
    if from < outputs.len() && outputs[from].name != name {
        lemma_first_output_named(outputs, name, from + 1);
    }
}

/// A route is wanted exactly where its own cell says so, and its ends are what
/// its channel and its bus are bound to, the channel first.
pub proof fn law_a_cell_stands_for_its_route(
    sources: Seq<SourceModel>,
    outputs: Seq<OutputModel>,
    source: int,
    output: int,
)
    requires
        0 <= source < sources.len(),
        0 <= output < outputs.len(),
        sources[source].routes.len() == outputs.len(),
    ensures
        wanted(sources, source, output) == sources[source].routes[output],
        ends(sources, outputs, source, output) is Some <==> sources[source].endpoint_id is Some
            && outputs[output].endpoint_id is Some,
        ends(sources, outputs, source, output) matches Some(pair) ==> {
            &&& Some(pair.source) == sources[source].endpoint_id
            &&& Some(pair.destination) == outputs[output].endpoint_id
        },
{
}

/// The wanted routes are exactly those between a channel and a bus that are
/// both bound and whose cell is set, by what the two are bound to.
pub proof fn law_wanted_routes_are_the_set_cells(
    sources: Seq<SourceModel>,
    outputs: Seq<OutputModel>,
    pair: EndpointPair,
)
    requires
        rectangular(sources, outputs.len()),
    ensures
        wanted_pairs(sources, outputs, sources.len() as int).contains(pair) <==> exists|
            source: int,
            output: int,
        |
            0 <= source < sources.len() && 0 <= output < outputs.len() && (
            #[trigger] sources[source].routes[output]) && sources[source].endpoint_id == Some(
                pair.source,
            ) && outputs[output].endpoint_id == Some(pair.destination),
{
    lemma_wanted_pairs(sources, outputs, sources.len() as int, pair);
    if wanted_pairs(sources, outputs, sources.len() as int).contains(pair) {
        let (source, output) = choose|source: int, output: int|
            0 <= source < sources.len() && 0 <= output < outputs.len() && wanted(
                sources,
                source,
                output,
            ) && #[trigger] ends(sources, outputs, source, output) == Some(pair);
        assert(sources[source].routes[output]);
    }
    if exists|source: int, output: int|
        0 <= source < sources.len() && 0 <= output < outputs.len() && (
        #[trigger] sources[source].routes[output]) && sources[source].endpoint_id == Some(
            pair.source,
        ) && outputs[output].endpoint_id == Some(pair.destination) {
        let (source, output) = choose|source: int, output: int|
            0 <= source < sources.len() && 0 <= output < outputs.len() && (
            #[trigger] sources[source].routes[output]) && sources[source].endpoint_id == Some(
                pair.source,
            ) && outputs[output].endpoint_id == Some(pair.destination);
        assert(sources[source].routes.len() == outputs.len());
        assert(ends(sources, outputs, source, output) == Some(pair));
    }
}

/// Where routes are asked for by their ends, exactly the cells between those
/// ends are set; everything else of the channels stays. No two channels and no
/// two buses share an endpoint.
pub proof fn law_asked_routes_are_set(
    sources: Seq<SourceModel>,
    outputs: Seq<OutputModel>,
    pairs: Seq<EndpointPair>,
    source: int,
    output: int,
)
    requires
        rectangular(sources, outputs.len()),
        sources_apart(sources),
        outputs_apart(outputs),
        0 <= source < sources.len(),
        0 <= output < outputs.len(),
    ensures
        ({
            let after = with_pairs(sources, outputs, pairs);
            &&& after.len() == sources.len()
            &&& after[source] == (SourceModel { routes: after[source].routes, ..sources[source] })
            &&& after[source].routes.len() == outputs.len()
            &&& after[source].routes[output] <==> {
                &&& sources[source].endpoint_id is Some
                &&& outputs[output].endpoint_id is Some
                &&& pairs.contains(
                    EndpointPair {
                        source: sources[source].endpoint_id->0,
                        destination: outputs[output].endpoint_id->0,
                    },
                )
            }
        }),
{
    lemma_with_pairs(sources, outputs, pairs);
    let after = with_pairs(sources, outputs, pairs);
    assert(after[source].routes.len() == outputs.len());
    assert(ends(sources, outputs, source, output) is Some || ends(
        sources,
        outputs,
        source,
        output,
    ) is None);
    assert(wanted(after, source, output) == after[source].routes[output]);
}

} // verus!
