//! Saving the mixer into a scene, putting it back, and scenes that come and go.
use vstd::prelude::*;

use super::app::{AppModel, AppState};
use super::scenes::{restore_outputs, restore_sources, take_snapshot, Scene, SceneModel, SnapshotModel};
use super::scenes;
use super::strips::{OutputModel, SourceModel};
use crate::text::{joined3, push_decimal, trim};
use crate::text;

verus! {

/// What a scene says of what it keeps.
pub open spec fn snapshot_text(sources: nat, outputs: nat, routes: nat) -> Seq<char> {
    text::decimal(sources) + " sources · "@ + text::decimal(outputs) + " outputs · "@
        + text::decimal(routes) + " routes"@
}

pub(crate) fn snapshot_description(sources: usize, outputs: usize, routes: usize) -> (description: String)
    ensures
        description@ == snapshot_text(sources as nat, outputs as nat, routes as nat),
{
    let mut description = String::new();
    push_decimal(&mut description, sources as u64);
    assert(description@ =~= text::decimal(sources as nat));
    description.append(" sources · ");
    push_decimal(&mut description, outputs as u64);
    description.append(" outputs · ");
    push_decimal(&mut description, routes as u64);
    description.append(" routes");
    description
}

/// The state with the mixer saved into a scene.
pub open spec fn captured(state: AppModel, at: int, announce: bool) -> AppModel {
    if 0 <= at < state.scenes.len() {
        let snapshot = scenes::snapshot_of(state.sources, state.outputs);
        AppModel {
            scenes: state.scenes.update(
                at,
                SceneModel {
                    name: state.scenes[at].name,
                    description: snapshot_text(
                        snapshot.sources.len(),
                        snapshot.outputs.len(),
                        snapshot.routes.len(),
                    ),
                    snapshot: Some(snapshot),
                },
            ),
            dirty: true,
            status_message: if announce {
                "Scene '"@ + state.scenes[at].name + "' saved"@
            } else {
                state.status_message
            },
            ..state
        }
    } else {
        state
    }
}

/// The state with what a scene kept put back.
pub open spec fn recalled(state: AppModel, at: int, snapshot: SnapshotModel) -> AppModel {
    let sources = scenes::restored_sources(state.sources, snapshot.sources);
    let outputs = scenes::restored_outputs(state.outputs, snapshot.outputs);
    AppModel {
        sources: scenes::with_pairs(sources, outputs, snapshot.routes),
        outputs,
        selected_scene: at,
        dirty: true,
        ..state
    }
}

proof fn lemma_source_named(sources: Seq<SourceModel>, name: Seq<char>, from: int)
    requires
        0 <= from,
    ensures
        scenes::source_named(sources, name, from) matches Some(at) ==> from <= at < sources.len(),
    decreases sources.len() - from,
{
    if from < sources.len() && sources[from].name != name {
        lemma_source_named(sources, name, from + 1);
    }
}

proof fn lemma_output_named(outputs: Seq<OutputModel>, name: Seq<char>, from: int)
    requires
        0 <= from,
    ensures
        scenes::output_named(outputs, name, from) matches Some(at) ==> from <= at < outputs.len(),
    decreases outputs.len() - from,
{
    if from < outputs.len() && outputs[from].name != name {
        lemma_output_named(outputs, name, from + 1);
    }
}

proof fn lemma_restored_sources(
    sources: Seq<SourceModel>,
    saved: Seq<scenes::ChannelModel>,
    buses: nat,
)
    requires
        scenes::rectangular(sources, buses),
    ensures
        scenes::rectangular(scenes::restored_sources(sources, saved), buses),
        scenes::restored_sources(sources, saved).len() == sources.len(),
    decreases saved.len(),
{
    if saved.len() > 0 {
        lemma_restored_sources(sources, saved.drop_last(), buses);
        let before = scenes::restored_sources(sources, saved.drop_last());
        lemma_source_named(before, saved.last().name, 0);
        let after = scenes::restored_sources(sources, saved);
        assert forall|i: int| 0 <= i < after.len() implies (#[trigger] after[i]).routes.len()
            == buses by {
            assert(before[i].routes.len() == buses);
        }
    }
}

proof fn lemma_restored_outputs(outputs: Seq<OutputModel>, saved: Seq<scenes::ChannelModel>)
    ensures
        scenes::restored_outputs(outputs, saved).len() == outputs.len(),
    decreases saved.len(),
{
    if saved.len() > 0 {
        lemma_restored_outputs(outputs, saved.drop_last());
        let before = scenes::restored_outputs(outputs, saved.drop_last());
        lemma_output_named(before, saved.last().name, 0);
    }
}

impl AppState {
    /// Deletes a scene, and keeps the selection among those that are left. The
    /// last one stays: the mixer always has a scene.
    pub fn delete_scene(&mut self, index: usize)
        ensures
            final(self)@ == (if old(self)@.scenes.len() <= 1 || index >= old(self)@.scenes.len() {
                old(self)@
            } else {
                AppModel {
                    scenes: old(self)@.scenes.remove(index as int),
                    selected_scene: if old(self)@.selected_scene >= old(self)@.scenes.len() - 1 {
                        old(self)@.scenes.len() - 2
                    } else {
                        old(self)@.selected_scene
                    },
                    dirty: true,
                    ..old(self)@
                }
            }),
            old(self)@.wf() ==> final(self)@.wf(),
    {
        if self.scenes.len() <= 1 || index >= self.scenes.len() {
            return;
        }
        self.scenes.remove(index);
        assert(self@.scenes =~= old(self)@.scenes.remove(index as int));
        if self.selected_scene >= self.scenes.len() {
            self.selected_scene = self.scenes.len() - 1;
        }
        self.dirty = true;
    }

    /// Makes a scene with the name in the form, and saves the mixer into it.
    pub fn commit_scene_editor(&mut self)
        requires
            old(self)@.scenes.len() < usize::MAX,
        ensures
            final(self)@ == (match old(self)@.scene_editor {
                None => old(self)@,
                Some(name) => if text::trim_of(name).len() == 0 {
                    AppModel { scene_editor: None, ..old(self)@ }
                } else {
                    let count = old(self)@.scenes.len() as int;
                    AppModel {
                        dirty: true,
                        ..captured(
                            AppModel {
                                scene_editor: None,
                                scenes: old(self)@.scenes.push(
                                    SceneModel {
                                        name: text::trim_of(name),
                                        description: "Custom scene based on the current mixer"@,
                                        snapshot: None,
                                    },
                                ),
                                selected_scene: count,
                                ..old(self)@
                            },
                            count,
                            true,
                        )
                    }
                },
            }),
            old(self)@.wf() ==> final(self)@.wf(),
    {
        let mut editor: Option<String> = None;
        std::mem::swap(&mut editor, &mut self.scene_editor);
        if let Some(typed) = editor {
            let name = trim(typed.as_str()).to_owned();
            if name.as_str().unicode_len() == 0 {
                return;
            }
            let count: usize = self.scenes.len();
            let scene = Scene {
                name,
                description: "Custom scene based on the current mixer".to_owned(),
                snapshot: None,
            };
            self.scenes.push(scene);
            self.selected_scene = count;
            assert(self@.scenes =~= old(self)@.scenes.push(scene@));
            self.capture_scene(count);
            self.dirty = true;
        }
    }

    /// Saves the mixer into a scene.
    pub fn capture_scene(&mut self, index: usize)
        ensures
            final(self)@ == captured(old(self)@, index as int, true),
            old(self)@.wf() ==> final(self)@.wf(),
    {
        self.capture_scene_impl(index, true);
    }

    /// Saves the mixer into a scene without a word.
    pub fn capture_scene_silent(&mut self, index: usize)
        ensures
            final(self)@ == captured(old(self)@, index as int, false),
            old(self)@.wf() ==> final(self)@.wf(),
    {
        self.capture_scene_impl(index, false);
    }

    fn capture_scene_impl(&mut self, index: usize, announce: bool)
        ensures
            final(self)@ == captured(old(self)@, index as int, announce),
            old(self)@.wf() ==> final(self)@.wf(),
    {
        if index >= self.scenes.len() {
            return;
        }
        let snapshot = take_snapshot(&self.sources, &self.outputs);
        assert(snapshot@.sources.len() == snapshot.sources@.len());
        assert(snapshot@.outputs.len() == snapshot.outputs@.len());
        let description = snapshot_description(
            snapshot.sources.len(),
            snapshot.outputs.len(),
            snapshot.routes.len(),
        );
        assert(self@.scenes[index as int] == self.scenes@[index as int]@);
        let message = joined3("Scene '", self.scenes[index].name.as_str(), "' saved");
        let scene = &mut self.scenes[index];
        scene.snapshot = Some(snapshot);
        scene.description = description;
        self.dirty = true;
        if announce {
            self.status_message = message;
        }
        assert(self@.scenes =~= captured(old(self)@, index as int, announce).scenes);
    }

    /// Puts back what a scene kept, and selects it. The result tells whether
    /// there was anything to put back.
    pub fn apply_scene_controls(&mut self, index: usize) -> (applied: Option<()>)
        requires
            scenes::rectangular(old(self)@.sources, old(self)@.outputs.len()),
        ensures
            applied is Some == (index < old(self)@.scenes.len() && old(
                self,
            )@.scenes[index as int].snapshot is Some),
            final(self)@ == (if applied is Some {
                recalled(
                    old(self)@,
                    index as int,
                    old(self)@.scenes[index as int].snapshot->0,
                )
            } else {
                old(self)@
            }),
            old(self)@.wf() ==> final(self)@.wf(),
    {
        if index >= self.scenes.len() {
            return None;
        }
        assert(self@.scenes[index as int] == self.scenes@[index as int]@);
        let snapshot = match &self.scenes[index].snapshot {
            Some(snapshot) => snapshot.clone(),
            None => {
                return None;
            },
        };
        proof {
            lemma_restored_sources(self@.sources, snapshot@.sources, self@.outputs.len());
            lemma_restored_outputs(self@.outputs, snapshot@.outputs);
        }
        restore_sources(&mut self.sources, &snapshot.sources);
        restore_outputs(&mut self.outputs, &snapshot.outputs);
        self.set_desired_routes_from_pairs(&snapshot.routes);
        self.selected_scene = index;
        self.dirty = true;
        Some(())
    }
}

/// Saving a mixer and putting it back at once changes no control, no binding
/// and, between what is bound, no wanted route, as long as the names of the
/// channels and those of the buses differ, and no two share an endpoint.
pub proof fn law_saved_scene_restores_the_mixer(state: AppModel, scene: int, at: int, bus: int)
    requires
        state.wf(),
        0 <= scene < state.scenes.len(),
        0 <= at < state.sources.len(),
        0 <= bus < state.outputs.len(),
        scenes::names_differ(state.sources),
        scenes::bus_names_differ(state.outputs),
        scenes::sources_apart(state.sources),
        scenes::outputs_apart(state.outputs),
    ensures
        ({
            let saved = captured(state, scene, false);
            let back = recalled(saved, scene, saved.scenes[scene].snapshot->0);
            &&& saved.scenes[scene].snapshot is Some
            &&& back.sources.len() == state.sources.len()
            &&& back.outputs.len() == state.outputs.len()
            &&& back.sources[at] == (SourceModel {
                user_bound: back.sources[at].user_bound,
                routes: back.sources[at].routes,
                ..state.sources[at]
            })
            &&& back.outputs[bus] == (OutputModel {
                user_bound: back.outputs[bus].user_bound,
                ..state.outputs[bus]
            })
            &&& scenes::ends(state.sources, state.outputs, at, bus) is Some ==> scenes::wanted(
                back.sources,
                at,
                bus,
            ) == scenes::wanted(state.sources, at, bus)
        }),
{
    let saved = captured(state, scene, false);
    let snapshot = saved.scenes[scene].snapshot->0;
    scenes::law_scene_restores_controls(
        state.sources,
        state.sources,
        state.sources.len() as int,
    );
    scenes::law_scene_restores_buses(state.outputs, state.outputs, state.outputs.len() as int);
    let kept = Seq::new(state.sources.len(), |i: int| scenes::kept_source(state.sources[i]));
    assert(kept.take(state.sources.len() as int) =~= snapshot.sources);
    let buses = Seq::new(state.outputs.len(), |i: int| scenes::kept_output(state.outputs[i]));
    assert(buses.take(state.outputs.len() as int) =~= snapshot.outputs);
    let sources = scenes::restored_sources(state.sources, snapshot.sources);
    let outputs = scenes::restored_outputs(state.outputs, snapshot.outputs);
    lemma_restored_sources(state.sources, snapshot.sources, state.outputs.len());
    lemma_restored_outputs(state.outputs, snapshot.outputs);
    assert forall|i: int, j: int|
        0 <= i < j < sources.len() && (#[trigger] sources[i]).endpoint_id is Some implies
        sources[i].endpoint_id != (#[trigger] sources[j]).endpoint_id by {
        assert(state.sources[i].endpoint_id == sources[i].endpoint_id);
        assert(state.sources[j].endpoint_id == sources[j].endpoint_id);
    }
    assert forall|i: int, j: int|
        0 <= i < j < outputs.len() && (#[trigger] outputs[i]).endpoint_id is Some implies
        outputs[i].endpoint_id != (#[trigger] outputs[j]).endpoint_id by {
        assert(state.outputs[i].endpoint_id == outputs[i].endpoint_id);
        assert(state.outputs[j].endpoint_id == outputs[j].endpoint_id);
    }
    scenes::lemma_with_pairs(sources, outputs, snapshot.routes);
    scenes::lemma_with_pairs(state.sources, state.outputs, snapshot.routes);
    assert(scenes::ends(sources, outputs, at, bus) == scenes::ends(
        state.sources,
        state.outputs,
        at,
        bus,
    ));
    if scenes::ends(state.sources, state.outputs, at, bus) is Some {
        scenes::law_wanted_routes_round_trip(state.sources, state.outputs, at, bus);
    }
}

/// Saving into a scene touches that scene alone: it keeps its name, holds every
/// channel and every bus in order, says how many there are, and nothing of the
/// mixer changes.
pub proof fn law_a_scene_is_saved_in_its_place(
    state: AppModel,
    at: int,
    announce: bool,
    other: int,
)
    requires
        0 <= at < state.scenes.len(),
        0 <= other < state.scenes.len(),
        other != at,
    ensures
        ({
            let after = captured(state, at, announce);
            let kept = after.scenes[at].snapshot->0;
            &&& after.scenes.len() == state.scenes.len()
            &&& after.scenes[other] == state.scenes[other]
            &&& after.scenes[at].name == state.scenes[at].name
            &&& after.scenes[at].snapshot is Some
            &&& kept.sources.len() == state.sources.len()
            &&& kept.outputs.len() == state.outputs.len()
            &&& forall|i: int|
                0 <= i < state.sources.len() ==> (#[trigger] kept.sources[i]).name
                    == state.sources[i].name && kept.sources[i].muted == state.sources[i].muted
                    && kept.sources[i].gain_db == state.sources[i].gain_db
            &&& forall|i: int|
                0 <= i < state.outputs.len() ==> (#[trigger] kept.outputs[i]).name
                    == state.outputs[i].name && kept.outputs[i].muted == state.outputs[i].muted
                    && kept.outputs[i].gain_db == state.outputs[i].gain_db
            &&& after.scenes[at].description == text::decimal(state.sources.len())
                + " sources · "@ + text::decimal(state.outputs.len()) + " outputs · "@
                + text::decimal(kept.routes.len()) + " routes"@
            &&& after.sources == state.sources
            &&& after.outputs == state.outputs
            &&& after.selected_scene == state.selected_scene
            &&& after.dirty
            &&& announce ==> after.status_message == "Scene '"@ + state.scenes[at].name
                + "' saved"@
            &&& !announce ==> after.status_message == state.status_message
        }),
{
}

/// A scene that is put back becomes the selected one, and only channels, buses
/// and that selection change.
pub proof fn law_a_recalled_scene_is_selected(state: AppModel, at: int, snapshot: SnapshotModel)
    ensures
        ({
            let after = recalled(state, at, snapshot);
            &&& after.selected_scene == at
            &&& after.dirty
            &&& after == (AppModel {
                sources: after.sources,
                outputs: after.outputs,
                selected_scene: at,
                dirty: true,
                ..state
            })
        }),
{
}

} // verus!
