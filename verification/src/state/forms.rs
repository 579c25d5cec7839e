//! The forms: making a channel, renaming one, naming a scene, and the settings
//! of the audio.
use vstd::prelude::*;

use super::app::{
    AppModel, AppState, ChannelEditor, ClockSettings, EditorModel, StripPlace,
    MAX_PHYSICAL_INPUT_CHANNELS,
};
use super::app;
use super::inventory;
use super::labels::{
    format_sample_rate, ChannelColor, EditorRole, EditorStep, HubTab, SourceKind,
    BUFFER_SIZE_OPTIONS, SAMPLE_RATE_OPTIONS,
};
use super::labels;
use super::mixing;
use super::strips::{OutputModel, SourceModel};
use crate::domain::ids::EndpointId;
use crate::text::{decimal_text, joined, joined3, trim};
use crate::text;

verus! {

/// A name takes more text while it has fewer characters than this.
pub const NAME_LIMIT: usize = 24;

/// A name after some text was typed into it.
pub open spec fn typed(name: Seq<char>, input: Seq<char>) -> Seq<char> {
    if name.len() < NAME_LIMIT {
        name + input
    } else {
        name
    }
}

/// A name after its last character was taken back.
pub open spec fn shorter(name: Seq<char>) -> Seq<char> {
    if name.len() == 0 {
        name
    } else {
        name.drop_last()
    }
}

fn type_text(name: &mut String, input: &str)
    ensures
        final(name)@ == typed(old(name)@, input@),
{
    if name.as_str().unicode_len() < NAME_LIMIT {
        name.append(input);
    }
}

fn take_back(name: &mut String)
    ensures
        final(name)@ == shorter(old(name)@),
{
    let length: usize = name.as_str().unicode_len();
    if length > 0 {
        let rest = name.as_str().substring_char(0, length - 1).to_owned();
        assert(rest@ =~= name@.drop_last());
        *name = rest;
    }
}

/// The colors of channels.
pub open spec fn source_colors(sources: Seq<SourceModel>) -> Seq<ChannelColor> {
    Seq::new(sources.len(), |i: int| sources[i].color)
}

/// The colors of buses.
pub open spec fn output_colors(outputs: Seq<OutputModel>) -> Seq<ChannelColor> {
    Seq::new(outputs.len(), |i: int| outputs[i].color)
}

/// The first color from a place on that is not used; where all are, they come
/// round again.
pub open spec fn free_color(used: Seq<ChannelColor>, from: int) -> ChannelColor
    decreases 8 - from,
{
    if from < 0 || from >= 8 {
        labels::color_order()[used.len() as int % 8]
    } else if !used.contains(labels::color_order()[from]) {
        labels::color_order()[from]
    } else {
        free_color(used, from + 1)
    }
}

fn next_free_color(used: &Vec<ChannelColor>) -> (color: ChannelColor)
    ensures
        color == free_color(used@, 0),
{
    let mut place: usize = 0;
    while place < 8
        invariant
            place <= 8,
            free_color(used@, 0) == free_color(used@, place as int),
        decreases 8 - place,
    {
        let color = ChannelColor::at(place);
        let mut taken = false;
        let mut at: usize = 0;
        while at < used.len()
            invariant
                at <= used@.len(),
                taken == used@.take(at as int).contains(color),
            decreases used@.len() - at,
        {
            proof {
                let before = used@.take(at as int);
                let after = used@.take(at + 1);
                assert(after =~= before.push(used@[at as int]));
                if before.contains(color) {
                    let i = choose|i: int| 0 <= i < before.len() && before[i] == color;
                    assert(after[i] == color);
                }
                if used@[at as int] == color {
                    assert(after[at as int] == color);
                }
                if after.contains(color) && !before.contains(color) {
                    let i = choose|i: int| 0 <= i < after.len() && after[i] == color;
                    if i < at {
                        assert(before[i] == color);
                    }
                }
            }
            if used[at] == color {
                taken = true;
            }
            at = at + 1;
        }
        assert(used@.take(at as int) =~= used@);
        if !taken {
            return color;
        }
        place = place + 1;
    }
    ChannelColor::at(used.len() % 8)
}

/// What a new strip is called at first.
pub open spec fn first_name(state: AppModel, is_source: bool, role: EditorRole) -> Seq<char> {
    if is_source {
        match role {
            EditorRole::Physical => "Mic "@ + text::decimal(
                inventory::physical_sources(state.sources) + 1,
            ),
            EditorRole::Application => "Source "@ + text::decimal(state.sources.len() + 1),
            EditorRole::Virtual => "Virtual "@ + text::decimal(state.sources.len() + 1),
        }
    } else {
        match role {
            EditorRole::Physical => "Output "@ + text::decimal(state.outputs.len() + 1),
            _ => "Bus "@ + text::decimal(state.outputs.len() + 1),
        }
    }
}

/// The role that a new strip has at first: a microphone while there is room
/// for one, and for a bus a virtual device where there can be one.
pub open spec fn first_role(state: AppModel, is_source: bool) -> EditorRole {
    if is_source {
        if inventory::physical_sources(state.sources) < MAX_PHYSICAL_INPUT_CHANNELS {
            EditorRole::Physical
        } else {
            EditorRole::Application
        }
    } else if state.backend_capabilities.virtual_devices {
        EditorRole::Virtual
    } else {
        EditorRole::Physical
    }
}

/// Whether a form may take a role.
pub open spec fn role_allowed(state: AppModel, is_source: bool, role: EditorRole) -> bool {
    &&& !(is_source && role is Physical && inventory::physical_sources(state.sources)
        >= MAX_PHYSICAL_INPUT_CHANNELS)
    &&& !(role is Virtual && !state.backend_capabilities.virtual_devices)
}

/// The state with another name of a strip, where there is anything in it.
pub open spec fn renamed(state: AppModel, place: StripPlace, name: Seq<char>) -> AppModel {
    let name = text::trim_of(name);
    let at = place.index as int;
    if name.len() == 0 {
        state
    } else if place.source && at < state.sources.len() {
        mixing::with_source(state, at, SourceModel { name, ..state.sources[at] })
    } else if !place.source && at < state.outputs.len() {
        mixing::with_output(state, at, OutputModel { name, ..state.outputs[at] })
    } else {
        state
    }
}

/// Whether a rate can be chosen.
pub open spec fn rate_offered(rate: u32) -> bool {
    SAMPLE_RATE_OPTIONS@.contains(rate)
}

/// Whether a buffer can be chosen.
pub open spec fn buffer_offered(size: u32) -> bool {
    BUFFER_SIZE_OPTIONS@.contains(size)
}

fn offers_rate(rate: u32) -> (result: bool)
    ensures
        result == rate_offered(rate),
{
    let options = SAMPLE_RATE_OPTIONS;
    let mut at: usize = 0;
    while at < 10
        invariant
            at <= 10,
            options@ == SAMPLE_RATE_OPTIONS@,
            forall|i: int| 0 <= i < at ==> options@[i] != rate,
        decreases 10 - at,
    {
        if options[at] == rate {
            assert(options@[at as int] == rate);
            return true;
        }
        at = at + 1;
    }
    false
}

fn offers_buffer(size: u32) -> (result: bool)
    ensures
        result == buffer_offered(size),
{
    let options = BUFFER_SIZE_OPTIONS;
    let mut at: usize = 0;
    while at < 10
        invariant
            at <= 10,
            options@ == BUFFER_SIZE_OPTIONS@,
            forall|i: int| 0 <= i < at ==> options@[i] != size,
        decreases 10 - at,
    {
        if options[at] == size {
            assert(options@[at as int] == size);
            return true;
        }
        at = at + 1;
    }
    false
}

impl AppState {
    /// How many channels take a microphone.
    pub fn physical_source_count(&self) -> (count: usize)
        ensures
            count == inventory::physical_sources(self@.sources),
            count <= self@.sources.len(),
    {
        let ghost sources = self@.sources;
        let mut count: usize = 0;
        let mut at: usize = 0;
        assert(sources.take(0) =~= Seq::empty());
        while at < self.sources.len()
            invariant
                at <= self.sources@.len(),
                sources == self@.sources,
                count <= at,
                count == inventory::physical_sources(sources.take(at as int)),
            decreases self.sources@.len() - at,
        {
            assert(sources.take(at + 1).drop_last() =~= sources.take(at as int));
            assert(sources.take(at + 1).last() == self.sources@[at as int]@);
            if self.sources[at].kind == SourceKind::Physical {
                count = count + 1;
            }
            at = at + 1;
        }
        assert(sources.take(at as int) =~= sources);
        count
    }

    fn default_channel_name(&self, is_source: bool, role: EditorRole) -> (name: String)
        requires
            self@.sources.len() < usize::MAX,
            self@.outputs.len() < usize::MAX,
        ensures
            name@ == first_name(self@, is_source, role),
    {
        if is_source {
            match role {
                EditorRole::Physical => {
                    let number = decimal_text((self.physical_source_count() + 1) as u64);
                    joined("Mic ", number.as_str())
                },
                EditorRole::Application => {
                    let number = decimal_text((self.sources.len() + 1) as u64);
                    joined("Source ", number.as_str())
                },
                EditorRole::Virtual => {
                    let number = decimal_text((self.sources.len() + 1) as u64);
                    joined("Virtual ", number.as_str())
                },
            }
        } else {
            let number = decimal_text((self.outputs.len() + 1) as u64);
            match role {
                EditorRole::Physical => joined("Output ", number.as_str()),
                _ => joined("Bus ", number.as_str()),
            }
        }
    }

    fn used_colors(&self, is_source: bool) -> (colors: Vec<ChannelColor>)
        ensures
            colors@ == (if is_source {
                source_colors(self@.sources)
            } else {
                output_colors(self@.outputs)
            }),
    {
        let mut colors: Vec<ChannelColor> = Vec::new();
        let mut at: usize = 0;
        if is_source {
            while at < self.sources.len()
                invariant
                    at <= self.sources@.len(),
                    colors@.len() == at,
                    forall|i: int|
                        0 <= i < at ==> #[trigger] colors@[i] == self.sources@[i].color,
                decreases self.sources@.len() - at,
            {
                colors.push(self.sources[at].color);
                at = at + 1;
            }
            assert(colors@ =~= source_colors(self@.sources));
        } else {
            while at < self.outputs.len()
                invariant
                    at <= self.outputs@.len(),
                    colors@.len() == at,
                    forall|i: int|
                        0 <= i < at ==> #[trigger] colors@[i] == self.outputs@[i].color,
                decreases self.outputs@.len() - at,
            {
                colors.push(self.outputs[at].color);
                at = at + 1;
            }
            assert(colors@ =~= output_colors(self@.outputs));
        }
        colors
    }

    /// Opens the form that makes a channel or a bus.
    pub fn open_channel_editor(&mut self, is_source: bool)
        requires
            old(self)@.sources.len() < usize::MAX,
            old(self)@.outputs.len() < usize::MAX,
        ensures
            final(self)@ == (AppModel {
                channel_editor: Some(
                    EditorModel {
                        is_source,
                        step: EditorStep::Type,
                        role: first_role(old(self)@, is_source),
                        name: first_name(
                            old(self)@,
                            is_source,
                            first_role(old(self)@, is_source),
                        ),
                        color: free_color(
                            if is_source {
                                source_colors(old(self)@.sources)
                            } else {
                                output_colors(old(self)@.outputs)
                            },
                            0,
                        ),
                        endpoint: None,
                    },
                ),
                ..old(self)@
            }),
            old(self)@.wf() ==> final(self)@.wf(),
    {
        let role = if is_source {
            if self.physical_source_count() < MAX_PHYSICAL_INPUT_CHANNELS {
                EditorRole::Physical
            } else {
                EditorRole::Application
            }
        } else if self.backend_capabilities.virtual_devices {
            EditorRole::Virtual
        } else {
            EditorRole::Physical
        };
        let name = self.default_channel_name(is_source, role);
        let used = self.used_colors(is_source);
        let color = next_free_color(&used);
        self.channel_editor =
        Some(
            ChannelEditor { is_source, step: EditorStep::Type, role, name, color, endpoint: None },
        );
    }

    pub fn cancel_channel_editor(&mut self)
        ensures
            final(self)@ == (AppModel { channel_editor: None, ..old(self)@ }),
            old(self)@.wf() ==> final(self)@.wf(),
    {
        self.channel_editor = None;
    }

    /// The form at its next step.
    pub fn editor_next_step(&mut self)
        ensures
            final(self)@ == (AppModel {
                channel_editor: match old(self)@.channel_editor {
                    Some(editor) => Some(
                        EditorModel { step: labels::step_after(editor.step), ..editor },
                    ),
                    None => None,
                },
                ..old(self)@
            }),
            old(self)@.wf() ==> final(self)@.wf(),
    {
        if let Some(editor) = &mut self.channel_editor {
            editor.step = editor.step.next();
        }
    }

    /// The form at its step before.
    pub fn editor_prev_step(&mut self)
        ensures
            final(self)@ == (AppModel {
                channel_editor: match old(self)@.channel_editor {
                    Some(editor) => Some(
                        EditorModel { step: labels::step_before(editor.step), ..editor },
                    ),
                    None => None,
                },
                ..old(self)@
            }),
            old(self)@.wf() ==> final(self)@.wf(),
    {
        if let Some(editor) = &mut self.channel_editor {
            editor.step = editor.step.previous();
        }
    }

    /// Chooses a role in the form.
    pub fn editor_choose_role(&mut self, role: EditorRole)
        ensures
            final(self)@ == with_role(old(self)@, role),
            old(self)@.wf() ==> final(self)@.wf(),
    {
        self.editor_set_role(role);
    }

    /// Chooses a role in the form, where it is allowed.
    pub fn editor_set_role(&mut self, role: EditorRole)
        ensures
            final(self)@ == with_role(old(self)@, role),
            old(self)@.wf() ==> final(self)@.wf(),
    {
        let full = self.physical_source_count() >= MAX_PHYSICAL_INPUT_CHANNELS;
        let virtual_devices = self.backend_capabilities.virtual_devices;
        if let Some(editor) = &mut self.channel_editor {
            let refused = (editor.is_source && role == EditorRole::Physical && full) || (role
                == EditorRole::Virtual && !virtual_devices);
            if !refused {
                editor.role = role;
                editor.endpoint = None;
            }
        }
    }

    pub fn editor_set_color(&mut self, color: ChannelColor)
        ensures
            final(self)@ == (AppModel {
                channel_editor: match old(self)@.channel_editor {
                    Some(editor) => Some(EditorModel { color, ..editor }),
                    None => None,
                },
                ..old(self)@
            }),
            old(self)@.wf() ==> final(self)@.wf(),
    {
        if let Some(editor) = &mut self.channel_editor {
            editor.color = color;
        }
    }

    pub fn editor_name_input(&mut self, text: &str)
        ensures
            final(self)@ == (AppModel {
                channel_editor: match old(self)@.channel_editor {
                    Some(editor) => Some(
                        EditorModel { name: typed(editor.name, text@), ..editor },
                    ),
                    None => None,
                },
                ..old(self)@
            }),
            old(self)@.wf() ==> final(self)@.wf(),
    {
        if let Some(editor) = &mut self.channel_editor {
            type_text(&mut editor.name, text);
        }
    }

    pub fn editor_name_backspace(&mut self)
        ensures
            final(self)@ == (AppModel {
                channel_editor: match old(self)@.channel_editor {
                    Some(editor) => Some(EditorModel { name: shorter(editor.name), ..editor }),
                    None => None,
                },
                ..old(self)@
            }),
            old(self)@.wf() ==> final(self)@.wf(),
    {
        if let Some(editor) = &mut self.channel_editor {
            take_back(&mut editor.name);
        }
    }

    pub fn editor_select_endpoint(&mut self, endpoint_id: EndpointId)
        ensures
            final(self)@ == (AppModel {
                channel_editor: match old(self)@.channel_editor {
                    Some(editor) => Some(
                        EditorModel { endpoint: Some(endpoint_id), ..editor },
                    ),
                    None => None,
                },
                ..old(self)@
            }),
            old(self)@.wf() ==> final(self)@.wf(),
    {
        if let Some(editor) = &mut self.channel_editor {
            editor.endpoint = Some(endpoint_id);
        }
    }

    /// Takes the form where it has a name; it stays open where it has none.
    pub fn take_channel_editor(&mut self) -> (taken: Option<ChannelEditor>)
        ensures
            ({
                let complete = old(self)@.channel_editor matches Some(editor) && text::trim_of(
                    editor.name,
                ).len() > 0;
                &&& app::editor_model(taken) == (if complete {
                    old(self)@.channel_editor
                } else {
                    None
                })
                &&& final(self)@ == (if complete {
                    AppModel { channel_editor: None, ..old(self)@ }
                } else {
                    old(self)@
                })
            }),
            old(self)@.wf() ==> final(self)@.wf(),
    {
        let complete = match &self.channel_editor {
            Some(editor) => trim(editor.name.as_str()).unicode_len() > 0,
            None => false,
        };
        if complete {
            let mut taken: Option<ChannelEditor> = None;
            std::mem::swap(&mut taken, &mut self.channel_editor);
            taken
        } else {
            None
        }
    }

    pub fn set_hub_tab(&mut self, tab: HubTab)
        ensures
            final(self)@ == (AppModel { hub_tab: tab, ..old(self)@ }),
            old(self)@.wf() ==> final(self)@.wf(),
    {
        self.hub_tab = tab;
    }

    pub fn scene_editor_input(&mut self, text: &str)
        ensures
            final(self)@ == (AppModel {
                scene_editor: match old(self)@.scene_editor {
                    Some(name) => Some(typed(name, text@)),
                    None => None,
                },
                ..old(self)@
            }),
            old(self)@.wf() ==> final(self)@.wf(),
    {
        if let Some(name) = &mut self.scene_editor {
            type_text(name, text);
        }
    }

    pub fn scene_editor_backspace(&mut self)
        ensures
            final(self)@ == (AppModel {
                scene_editor: match old(self)@.scene_editor {
                    Some(name) => Some(shorter(name)),
                    None => None,
                },
                ..old(self)@
            }),
            old(self)@.wf() ==> final(self)@.wf(),
    {
        if let Some(name) = &mut self.scene_editor {
            take_back(name);
        }
    }

    /// Opens the form that renames a strip, with the name that it has.
    pub fn open_rename(&mut self, source: bool, index: usize)
        ensures
            final(self)@ == (if source && index < old(self)@.sources.len() {
                AppModel {
                    rename_target: Some(StripPlace { source, index }),
                    rename_buffer: old(self)@.sources[index as int].name,
                    ..old(self)@
                }
            } else if !source && index < old(self)@.outputs.len() {
                AppModel {
                    rename_target: Some(StripPlace { source, index }),
                    rename_buffer: old(self)@.outputs[index as int].name,
                    ..old(self)@
                }
            } else {
                old(self)@
            }),
            old(self)@.wf() ==> final(self)@.wf(),
    {
        if source {
            if index < self.sources.len() {
                self.rename_buffer = self.sources[index].name.clone();
                self.rename_target = Some(StripPlace { source, index });
            }
        } else if index < self.outputs.len() {
            self.rename_buffer = self.outputs[index].name.clone();
            self.rename_target = Some(StripPlace { source, index });
        }
    }

    pub fn cancel_rename(&mut self)
        ensures
            final(self)@ == (AppModel {
                rename_target: None,
                rename_buffer: Seq::empty(),
                ..old(self)@
            }),
            old(self)@.wf() ==> final(self)@.wf(),
    {
        self.rename_target = None;
        self.rename_buffer = String::new();
    }

    pub fn rename_input(&mut self, text: &str)
        ensures
            final(self)@ == (AppModel {
                rename_buffer: if old(self)@.rename_target is Some {
                    typed(old(self)@.rename_buffer, text@)
                } else {
                    old(self)@.rename_buffer
                },
                ..old(self)@
            }),
            old(self)@.wf() ==> final(self)@.wf(),
    {
        if self.rename_target.is_some() {
            type_text(&mut self.rename_buffer, text);
        }
    }

    pub fn rename_backspace(&mut self)
        ensures
            final(self)@ == (AppModel {
                rename_buffer: shorter(old(self)@.rename_buffer),
                ..old(self)@
            }),
            old(self)@.wf() ==> final(self)@.wf(),
    {
        take_back(&mut self.rename_buffer);
    }

    /// Renames the strip that the form was opened for.
    pub fn commit_rename(&mut self)
        ensures
            final(self)@ == (match old(self)@.rename_target {
                Some(place) => AppModel {
                    status_message: "Channel renamed"@,
                    ..renamed(
                        AppModel {
                            rename_target: None,
                            rename_buffer: Seq::empty(),
                            ..old(self)@
                        },
                        place,
                        old(self)@.rename_buffer,
                    )
                },
                None => AppModel { rename_buffer: Seq::empty(), ..old(self)@ },
            }),
            old(self)@.wf() ==> final(self)@.wf(),
    {
        let target = self.rename_target;
        let mut name = String::new();
        std::mem::swap(&mut name, &mut self.rename_buffer);
        if let Some(place) = target {
            self.rename_target = None;
            self.rename_channel(place.source, place.index, name.as_str());
            self.status_message = "Channel renamed".to_owned();
        }
    }

    /// Renames a strip. Blanks around the name do not count; without anything
    /// else the name stays.
    pub fn rename_channel(&mut self, source: bool, index: usize, name: &str)
        ensures
            final(self)@ == renamed(old(self)@, StripPlace { source, index }, name@),
            old(self)@.wf() ==> final(self)@.wf(),
    {
        let name = trim(name);
        if name.unicode_len() == 0 {
            return;
        }
        if source {
            if index < self.sources.len() {
                let strip = &mut self.sources[index];
                strip.name = name.to_owned();
                self.dirty = true;
            }
        } else if index < self.outputs.len() {
            let strip = &mut self.outputs[index];
            strip.name = name.to_owned();
            self.dirty = true;
        }
        proof {
            assert forall|i: int| 0 <= i < self@.sources.len() implies (
            #[trigger] self@.sources[i]).routes == old(self)@.sources[i].routes by {
                assert(self@.sources[i] == self.sources@[i]@);
            }
        }
    }

    /// Takes the clock that the backend reported; it counts unless the user
    /// chose another.
    pub fn apply_audio_settings(&mut self, rate: u32, quantum: u32)
        ensures
            final(self)@ == (if old(self)@.detected_audio == Some(
                ClockSettings { rate, quantum },
            ) {
                old(self)@
            } else {
                AppModel {
                    detected_audio: Some(ClockSettings { rate, quantum }),
                    sample_rate: if old(self)@.audio_overridden {
                        old(self)@.sample_rate
                    } else {
                        rate
                    },
                    buffer_size: if old(self)@.audio_overridden {
                        old(self)@.buffer_size
                    } else {
                        quantum
                    },
                    status_message: "PipeWire clock detected: "@ + labels::rate_text(rate) + " · "@
                        + text::decimal(quantum as nat) + " frames"@,
                    ..old(self)@
                }
            }),
            old(self)@.wf() ==> final(self)@.wf(),
    {
        if let Some(known) = self.detected_audio {
            if known.rate == rate && known.quantum == quantum {
                return;
            }
        }
        self.detected_audio = Some(ClockSettings { rate, quantum });
        if !self.audio_overridden {
            self.sample_rate = rate;
            self.buffer_size = quantum;
        }
        let clock = format_sample_rate(rate);
        let frames = decimal_text(quantum as u64);
        let head = joined3("PipeWire clock detected: ", clock.as_str(), " · ");
        self.status_message = joined3(head.as_str(), frames.as_str(), " frames");
    }

    /// Chooses the rate of new routes.
    pub fn set_sample_rate(&mut self, sample_rate: u32)
        ensures
            final(self)@ == (if rate_offered(sample_rate) && old(self)@.sample_rate
                != sample_rate {
                AppModel {
                    sample_rate,
                    audio_overridden: true,
                    dirty: true,
                    status_message: "Route sample rate set to "@ + labels::rate_text(sample_rate),
                    ..old(self)@
                }
            } else {
                old(self)@
            }),
            old(self)@.wf() ==> final(self)@.wf(),
    {
        if offers_rate(sample_rate) && self.sample_rate != sample_rate {
            self.sample_rate = sample_rate;
            self.audio_overridden = true;
            self.dirty = true;
            let rate = format_sample_rate(sample_rate);
            self.status_message = joined("Route sample rate set to ", rate.as_str());
        }
    }

    /// Chooses the buffer of new routes.
    pub fn set_buffer_size(&mut self, buffer_size: u32)
        ensures
            final(self)@ == (if buffer_offered(buffer_size) && old(self)@.buffer_size
                != buffer_size {
                AppModel {
                    buffer_size,
                    audio_overridden: true,
                    dirty: true,
                    status_message: "Route buffer set to "@ + text::decimal(buffer_size as nat)
                        + " frames for new routes"@,
                    ..old(self)@
                }
            } else {
                old(self)@
            }),
            old(self)@.wf() ==> final(self)@.wf(),
    {
        if offers_buffer(buffer_size) && self.buffer_size != buffer_size {
            self.buffer_size = buffer_size;
            self.audio_overridden = true;
            self.dirty = true;
            let frames = decimal_text(buffer_size as u64);
            self.status_message =
            joined3("Route buffer set to ", frames.as_str(), " frames for new routes");
        }
    }

    /// Goes back to the clock that the backend reported.
    pub fn reset_audio_settings(&mut self)
        ensures
            final(self)@ == (AppModel {
                audio_overridden: false,
                sample_rate: match old(self)@.detected_audio {
                    Some(clock) => clock.rate,
                    None => old(self)@.sample_rate,
                },
                buffer_size: match old(self)@.detected_audio {
                    Some(clock) => clock.quantum,
                    None => old(self)@.buffer_size,
                },
                dirty: true,
                status_message: "Audio engine reset to the detected system clock"@,
                ..old(self)@
            }),
            old(self)@.wf() ==> final(self)@.wf(),
    {
        self.audio_overridden = false;
        if let Some(clock) = self.detected_audio {
            self.sample_rate = clock.rate;
            self.buffer_size = clock.quantum;
        }
        self.dirty = true;
        self.status_message = "Audio engine reset to the detected system clock".to_owned();
    }
}

/// The state with another role in the form, where it is allowed. A chosen
/// endpoint is given up with the role.
pub open spec fn with_role(state: AppModel, role: EditorRole) -> AppModel {
    AppModel {
        channel_editor: match state.channel_editor {
            Some(editor) => Some(
                if role_allowed(state, editor.is_source, role) {
                    EditorModel { role, endpoint: None, ..editor }
                } else {
                    editor
                },
            ),
            None => None,
        },
        ..state
    }
}

/// A new strip gets a color that no other has, as long as there is one.
pub proof fn law_new_color_is_unused(used: Seq<ChannelColor>, free: int, from: int)
    requires
        0 <= from <= free < 8,
        !used.contains(labels::color_order()[free]),
    ensures
        !used.contains(free_color(used, from)),
    decreases 8 - from,
{
    if used.contains(labels::color_order()[from]) {
        law_new_color_is_unused(used, free, from + 1);
    }
}

/// A name takes what is typed while it has fewer than 24 characters, and what
/// is taken back is its last character.
pub proof fn law_names_grow_and_shrink_at_their_end(name: Seq<char>, input: Seq<char>)
    ensures
        name.len() < 24 ==> typed(name, input) == name + input,
        name.len() >= 24 ==> typed(name, input) == name,
        name.len() > 0 ==> shorter(name) == name.take(name.len() - 1),
        name.len() == 0 ==> shorter(name) == name,
        name.len() < 24 && input.len() == 1 ==> shorter(typed(name, input)) == name,
{
    if name.len() < 24 && input.len() == 1 {
        assert((name + input).drop_last() =~= name);
    }
}

/// A new channel is a microphone while there are fewer than two of them, and an
/// application then; a new bus is virtual where the backend makes virtual
/// devices. A role is refused exactly where there are two microphones already
/// or virtual devices cannot be made.
pub proof fn law_roles_are_offered_within_limits(state: AppModel, is_source: bool, role: EditorRole)
    ensures
        ({
            let microphones = state.sources.filter(
                |source: SourceModel| source.kind == SourceKind::Physical,
            ).len();
            let virtuals = state.backend_capabilities.virtual_devices;
            &&& first_role(state, true) == (if microphones < 2 {
                EditorRole::Physical
            } else {
                EditorRole::Application
            })
            &&& first_role(state, false) == (if virtuals {
                EditorRole::Virtual
            } else {
                EditorRole::Physical
            })
            &&& role_allowed(state, true, EditorRole::Physical) <==> microphones < 2
            &&& role_allowed(state, false, EditorRole::Physical)
            &&& role_allowed(state, is_source, EditorRole::Virtual) <==> virtuals
            &&& role_allowed(state, is_source, EditorRole::Application)
            &&& first_name(state, true, EditorRole::Physical) == "Mic "@ + text::decimal(
                microphones + 1,
            )
            &&& first_name(state, true, EditorRole::Application) == "Source "@ + text::decimal(
                state.sources.len() + 1,
            )
            &&& first_name(state, true, EditorRole::Virtual) == "Virtual "@ + text::decimal(
                state.sources.len() + 1,
            )
            &&& first_name(state, false, EditorRole::Physical) == "Output "@ + text::decimal(
                state.outputs.len() + 1,
            )
            &&& first_name(state, false, EditorRole::Virtual) == "Bus "@ + text::decimal(
                state.outputs.len() + 1,
            )
        }),
{
    lemma_microphones(state.sources);
}

proof fn lemma_microphones(sources: Seq<SourceModel>)
    ensures
        inventory::physical_sources(sources) == sources.filter(
            |source: SourceModel| source.kind == SourceKind::Physical,
        ).len(),
    decreases sources.len(),
{
    reveal(Seq::filter);
    if sources.len() > 0 {
        lemma_microphones(sources.drop_last());
    }
}

/// A role that is allowed is taken and gives up the endpoint that was chosen;
/// one that is not leaves the form as it is. Nothing else changes.
pub proof fn law_a_role_is_taken_where_it_is_allowed(state: AppModel, role: EditorRole)
    ensures
        ({
            let after = with_role(state, role);
            &&& after == (AppModel { channel_editor: after.channel_editor, ..state })
            &&& state.channel_editor is None ==> after.channel_editor is None
            &&& state.channel_editor matches Some(editor) ==> {
                &&& after.channel_editor is Some
                &&& role_allowed(state, editor.is_source, role) ==> {
                    &&& after.channel_editor->0.role == role
                    &&& after.channel_editor->0.endpoint is None
                    &&& after.channel_editor->0.name == editor.name
                    &&& after.channel_editor->0.color == editor.color
                    &&& after.channel_editor->0.step == editor.step
                    &&& after.channel_editor->0.is_source == editor.is_source
                }
                &&& !role_allowed(state, editor.is_source, role) ==> after.channel_editor->0
                    == editor
            }
        }),
{
}

/// A strip that is renamed has the new name without the blanks around it; the
/// other strips, and the rest of it, stay. A name of blanks changes nothing.
pub proof fn law_a_strip_is_renamed_alone(
    state: AppModel,
    place: StripPlace,
    name: Seq<char>,
    other: int,
)
    requires
        other != place.index,
    ensures
        ({
            let after = renamed(state, place, name);
            let at = place.index as int;
            let new_name = text::trim_of(name);
            &&& new_name.len() == 0 ==> after == state
            &&& new_name.len() > 0 && place.source && at < state.sources.len() ==> {
                &&& after.sources[at] == (SourceModel { name: new_name, ..state.sources[at] })
                &&& 0 <= other < state.sources.len() ==> after.sources[other]
                    == state.sources[other]
                &&& after.outputs == state.outputs
                &&& after.dirty
            }
            &&& new_name.len() > 0 && !place.source && at < state.outputs.len() ==> {
                &&& after.outputs[at] == (OutputModel { name: new_name, ..state.outputs[at] })
                &&& 0 <= other < state.outputs.len() ==> after.outputs[other]
                    == state.outputs[other]
                &&& after.sources == state.sources
                &&& after.dirty
            }
        }),
{
}

/// The colors in use are those of the strips, place by place; the first color
/// of the order that none of them has is taken.
pub proof fn law_the_first_unused_color_is_taken(
    sources: Seq<SourceModel>,
    outputs: Seq<OutputModel>,
    used: Seq<ChannelColor>,
    at: int,
)
    ensures
        source_colors(sources).len() == sources.len(),
        output_colors(outputs).len() == outputs.len(),
        0 <= at < sources.len() ==> source_colors(sources)[at] == sources[at].color,
        0 <= at < outputs.len() ==> output_colors(outputs)[at] == outputs[at].color,
        !used.contains(ChannelColor::Cyan) ==> free_color(used, 0) == ChannelColor::Cyan,
        used.contains(ChannelColor::Cyan) && !used.contains(ChannelColor::Blue) ==> free_color(
            used,
            0,
        ) == ChannelColor::Blue,
        used.contains(ChannelColor::Cyan) && used.contains(ChannelColor::Blue) && !used.contains(
            ChannelColor::Purple,
        ) ==> free_color(used, 0) == ChannelColor::Purple,
{
    reveal_with_fuel(free_color, 4);
}

/// The rates and buffers that can be chosen.
pub proof fn law_rates_and_buffers_are_offered(rate: u32, size: u32)
    ensures
        rate_offered(rate) <==> rate == 44_100 || rate == 48_000 || rate == 88_200 || rate == 96_000
            || rate == 176_400 || rate == 192_000 || rate == 352_800 || rate == 384_000 || rate
            == 705_600 || rate == 768_000,
        buffer_offered(size) <==> size == 32 || size == 64 || size == 128 || size == 256 || size
            == 512 || size == 1_024 || size == 2_048 || size == 4_096 || size == 8_192 || size
            == 16_384,
{
    let rates = SAMPLE_RATE_OPTIONS@;
    let sizes = BUFFER_SIZE_OPTIONS@;
    assert(rates[0] == 44_100 && rates[1] == 48_000 && rates[2] == 88_200 && rates[3] == 96_000
        && rates[4] == 176_400 && rates[5] == 192_000 && rates[6] == 352_800 && rates[7] == 384_000
        && rates[8] == 705_600 && rates[9] == 768_000);
    assert(sizes[0] == 32 && sizes[1] == 64 && sizes[2] == 128 && sizes[3] == 256 && sizes[4] == 512
        && sizes[5] == 1_024 && sizes[6] == 2_048 && sizes[7] == 4_096 && sizes[8] == 8_192
        && sizes[9] == 16_384);
}

} // verus!
