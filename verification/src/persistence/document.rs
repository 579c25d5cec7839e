//! What the settings file holds.
use vstd::prelude::*;

use super::store::PersistenceError;
use crate::backend::properties;
use crate::domain::controls::ChannelMode;
use crate::domain::endpoint::EndpointType;
use crate::domain::ids::{EndpointId, VirtualDeviceId};
use crate::scalar::Scalar;
use crate::text::{copied_text, joined};

verus! {

/// The version of the settings file that is written.
pub const SCHEMA_VERSION: u32 = 2;

/// The name of the schema file beside the settings file.
pub const SETTINGS_SCHEMA_FILE: &'static str = "settings.schema.json";

/// Where the settings file says that its schema is.
pub fn default_schema_ref() -> (reference: String)
    ensures
        reference@ == "./"@ + SETTINGS_SCHEMA_FILE@,
{
    joined("./", SETTINGS_SCHEMA_FILE)
}

#[derive(Clone, Copy, Debug, PartialEq, Eq, Structural)]
pub struct PersistedSettings {
    pub sample_rate: u32,
    pub buffer_size: u32,
    pub outputs_panel_width: Scalar,
    pub master_muted: bool,
}

/// Settings that were never set.
pub open spec fn unset() -> PersistedSettings {
    PersistedSettings {
        sample_rate: 0,
        buffer_size: 0,
        outputs_panel_width: Scalar { bits: 0 },
        master_muted: false,
    }
}

impl Default for PersistedSettings {
    fn default() -> (settings: Self)
        ensures
            settings == unset(),
    {
        PersistedSettings {
            sample_rate: 0,
            buffer_size: 0,
            outputs_panel_width: Scalar::zero(),
            master_muted: false,
        }
    }
}

/// A channel of the mixer, with the endpoint that it is bound to.
#[derive(Debug, PartialEq)]
pub struct PersistedChannel {
    pub name: String,
    pub color: u32,
    pub kind: String,
    pub gain_db: Scalar,
    pub muted: bool,
    pub delay_ms: Scalar,
    pub mode: ChannelMode,
    pub eq_low_db: Scalar,
    pub eq_mid_db: Scalar,
    pub eq_high_db: Scalar,
    pub endpoint: Option<EndpointId>,
    /// What the device is called, also while it is away.
    pub endpoint_name: Option<String>,
    pub code: Option<String>,
}

/// A channel of the mixer, with its texts as sequences.
#[verifier::ext_equal]
pub struct RecordModel {
    pub name: Seq<char>,
    pub color: u32,
    pub kind: Seq<char>,
    pub gain_db: Scalar,
    pub muted: bool,
    pub delay_ms: Scalar,
    pub mode: ChannelMode,
    pub eq_low_db: Scalar,
    pub eq_mid_db: Scalar,
    pub eq_high_db: Scalar,
    pub endpoint: Option<EndpointId>,
    pub endpoint_name: Option<Seq<char>>,
    pub code: Option<Seq<char>>,
}

impl View for PersistedChannel {
    type V = RecordModel;

    open spec fn view(&self) -> RecordModel {
        RecordModel {
            name: self.name@,
            color: self.color,
            kind: self.kind@,
            gain_db: self.gain_db,
            muted: self.muted,
            delay_ms: self.delay_ms,
            mode: self.mode,
            eq_low_db: self.eq_low_db,
            eq_mid_db: self.eq_mid_db,
            eq_high_db: self.eq_high_db,
            endpoint: self.endpoint,
            endpoint_name: properties::held(self.endpoint_name),
            code: properties::held(self.code),
        }
    }
}

/// The views of channels.
pub open spec fn record_models(channels: Seq<PersistedChannel>) -> Seq<RecordModel> {
    Seq::new(channels.len(), |i: int| channels[i]@)
}

impl Clone for PersistedChannel {
    fn clone(&self) -> (copy: Self)
        ensures
            copy == *self,
    {
        PersistedChannel {
            name: self.name.clone(),
            color: self.color,
            kind: self.kind.clone(),
            gain_db: self.gain_db,
            muted: self.muted,
            delay_ms: self.delay_ms,
            mode: self.mode,
            eq_low_db: self.eq_low_db,
            eq_mid_db: self.eq_mid_db,
            eq_high_db: self.eq_high_db,
            endpoint: self.endpoint,
            endpoint_name: copied_text(&self.endpoint_name),
            code: copied_text(&self.code),
        }
    }
}

#[derive(Debug, PartialEq)]
pub struct PersistedVirtualDevice {
    pub virtual_device_id: VirtualDeviceId,
    pub endpoint_type: EndpointType,
    pub name: String,
}

impl Clone for PersistedVirtualDevice {
    fn clone(&self) -> (copy: Self)
        ensures
            copy == *self,
    {
        PersistedVirtualDevice {
            virtual_device_id: self.virtual_device_id,
            endpoint_type: self.endpoint_type,
            name: self.name.clone(),
        }
    }
}

#[derive(Clone, Copy, Debug, PartialEq, Eq, Structural)]
pub struct PersistedRoute {
    pub source: EndpointId,
    pub destination: EndpointId,
}

#[derive(Debug, PartialEq)]
pub struct PersistedScene {
    pub name: String,
    pub sources: Vec<PersistedChannel>,
    pub outputs: Vec<PersistedChannel>,
    pub routes: Vec<PersistedRoute>,
}

/// A scene, with its name and its lists as sequences.
#[verifier::ext_equal]
pub struct SceneRecord {
    pub name: Seq<char>,
    pub sources: Seq<RecordModel>,
    pub outputs: Seq<RecordModel>,
    pub routes: Seq<PersistedRoute>,
}

impl View for PersistedScene {
    type V = SceneRecord;

    open spec fn view(&self) -> SceneRecord {
        SceneRecord {
            name: self.name@,
            sources: record_models(self.sources@),
            outputs: record_models(self.outputs@),
            routes: self.routes@,
        }
    }
}

/// The views of scenes.
pub open spec fn scene_records(scenes: Seq<PersistedScene>) -> Seq<SceneRecord> {
    Seq::new(scenes.len(), |i: int| scenes[i]@)
}

#[derive(Debug, PartialEq)]
pub struct SessionDocument {
    pub schema_ref: String,
    pub schema_version: u32,
    pub settings: PersistedSettings,
    pub sources: Vec<PersistedChannel>,
    pub outputs: Vec<PersistedChannel>,
    pub virtual_devices: Vec<PersistedVirtualDevice>,
    pub routes: Vec<PersistedRoute>,
    pub scenes: Vec<PersistedScene>,
    pub selected_scene: usize,
}

impl SessionDocument {
    /// Whether this is what a new installation begins with.
    pub open spec fn is_empty(self) -> bool {
        &&& self.schema_ref@ == "./"@ + SETTINGS_SCHEMA_FILE@
        &&& self.schema_version == SCHEMA_VERSION
        &&& self.settings == unset()
        &&& self.sources@.len() == 0
        &&& self.outputs@.len() == 0
        &&& self.virtual_devices@.len() == 0
        &&& self.routes@.len() == 0
        &&& self.scenes@.len() == 0
        &&& self.selected_scene == 0
    }

    /// A document of the current version.
    pub fn new(
        settings: PersistedSettings,
        sources: Vec<PersistedChannel>,
        outputs: Vec<PersistedChannel>,
        virtual_devices: Vec<PersistedVirtualDevice>,
        routes: Vec<PersistedRoute>,
        scenes: Vec<PersistedScene>,
        selected_scene: usize,
    ) -> (document: Self)
        ensures
            document.schema_ref@ == "./"@ + SETTINGS_SCHEMA_FILE@,
            document.schema_version == SCHEMA_VERSION,
            document.settings == settings,
            document.sources == sources,
            document.outputs == outputs,
            document.virtual_devices == virtual_devices,
            document.routes == routes,
            document.scenes == scenes,
            document.selected_scene == selected_scene,
    {
        SessionDocument {
            schema_ref: default_schema_ref(),
            schema_version: SCHEMA_VERSION,
            settings,
            sources,
            outputs,
            virtual_devices,
            routes,
            scenes,
            selected_scene,
        }
    }

    /// Refuses a document of another version.
    pub fn validate(&self) -> (result: Result<(), PersistenceError>)
        ensures
            result == (if self.schema_version == SCHEMA_VERSION {
                Ok::<(), PersistenceError>(())
            } else {
                Err(PersistenceError::UnsupportedVersion(self.schema_version))
            }),
    {
        if self.schema_version != SCHEMA_VERSION {
            return Err(PersistenceError::UnsupportedVersion(self.schema_version));
        }
        Ok(())
    }
}

impl Default for SessionDocument {
    fn default() -> (document: Self)
        ensures
            document.is_empty(),
    {
        SessionDocument {
            schema_ref: default_schema_ref(),
            schema_version: SCHEMA_VERSION,
            settings: PersistedSettings::default(),
            sources: Vec::new(),
            outputs: Vec::new(),
            virtual_devices: Vec::new(),
            routes: Vec::new(),
            scenes: Vec::new(),
            selected_scene: 0,
        }
    }
}

/// What a new installation begins with is of the second version, names its
/// schema, and has no settings, channels, devices, routes or scenes.
pub proof fn law_a_new_document_holds_nothing(document: SessionDocument)
    requires
        document.is_empty(),
    ensures
        document.schema_ref@ == "./"@ + "settings.schema.json"@,
        document.schema_version == 2,
        document.settings.sample_rate == 0,
        document.settings.buffer_size == 0,
        document.settings.outputs_panel_width.bits == 0,
        !document.settings.master_muted,
        document.sources@.len() == 0,
        document.outputs@.len() == 0,
        document.virtual_devices@.len() == 0,
        document.routes@.len() == 0,
        document.scenes@.len() == 0,
        document.selected_scene == 0,
{
}

/// Lists are looked at element by element, in their order.
pub proof fn law_records_stay_in_order(
    channels: Seq<PersistedChannel>,
    scenes: Seq<PersistedScene>,
    channel: int,
    scene: int,
)
    requires
        0 <= channel < channels.len(),
        0 <= scene < scenes.len(),
    ensures
        record_models(channels).len() == channels.len(),
        record_models(channels)[channel] == channels[channel]@,
        scene_records(scenes).len() == scenes.len(),
        scene_records(scenes)[scene] == scenes[scene]@,
        scenes[scene]@.name == scenes[scene].name@,
        scenes[scene]@.sources == record_models(scenes[scene].sources@),
        scenes[scene]@.outputs == record_models(scenes[scene].outputs@),
        scenes[scene]@.routes == scenes[scene].routes@,
{
}

/// A record is looked at field by field.
pub proof fn law_a_record_is_its_fields(channel: PersistedChannel)
    ensures
        channel@.name == channel.name@,
        channel@.color == channel.color,
        channel@.kind == channel.kind@,
        channel@.gain_db == channel.gain_db,
        channel@.muted == channel.muted,
        channel@.delay_ms == channel.delay_ms,
        channel@.mode == channel.mode,
        channel@.eq_low_db == channel.eq_low_db,
        channel@.eq_mid_db == channel.eq_mid_db,
        channel@.eq_high_db == channel.eq_high_db,
        channel@.endpoint == channel.endpoint,
        channel.endpoint_name matches Some(name) ==> channel@.endpoint_name == Some(name@),
        channel.endpoint_name is None ==> channel@.endpoint_name is None,
        channel.code matches Some(code) ==> channel@.code == Some(code@),
        channel.code is None ==> channel@.code is None,
{
}

} // verus!
