//! The decisions of the backend for platforms whose devices are polled:
//! enumeration, stream settings, connections and commands. The devices
//! themselves and their streams are outside.
use std::sync::Arc;

use vstd::prelude::*;

use super::pipewire::{
    route_command_error, stable_channel_ids, stable_device_id, stable_endpoint_id,
};
use super::pipewire;
use super::properties;
use crate::domain::controls::{GainDb, NormalizedBalance};
use crate::domain::endpoint::{AudioEndpoint, EndpointIdentity, EndpointState, EndpointType};
use crate::domain::endpoint;
use crate::domain::error::{AudioError, ErrorCode, ErrorModel, ErrorSeverity};
use crate::domain::ids::EndpointId;
use crate::domain::ids;
use crate::table::Table;
use crate::text::{copied_text, joined, joined3, same_text};

verus! {

/// The backend for platforms whose devices are polled.
#[derive(Clone, Copy, Debug, PartialEq, Eq, Structural)]
pub struct CpalBackend;

/// The stream settings that one side of a device has by default.
#[derive(Clone, Copy, Debug, PartialEq, Eq, Structural)]
pub struct DeviceConfig {
    pub channels: u16,
    pub sample_rate: u32,
}

/// What the platform says of a device.
#[derive(Debug)]
pub struct DeviceReport {
    pub id: Option<String>,
    pub name: String,
    pub input: Option<DeviceConfig>,
    pub output: Option<DeviceConfig>,
}

/// Sample rates that a device supports for streams of one shape.
#[derive(Clone, Copy, Debug, PartialEq, Eq, Structural)]
pub struct ConfigRange {
    pub channels: u16,
    /// The samples are single-precision numbers.
    pub float_samples: bool,
    pub min_sample_rate: u32,
    pub max_sample_rate: u32,
}

/// The settings for a new stream.
#[derive(Clone, Copy, Debug, PartialEq, Eq, Structural)]
pub struct StreamSettings {
    pub channels: u16,
    pub sample_rate: u32,
    pub buffer_frames: u32,
}

/// What is said when the platform itself fails.
pub fn backend_error(user: &str, technical: &str) -> (error: AudioError)
    ensures
        error@ == pipewire::route_fault(ErrorCode::BackendUnavailable, user@, technical@),
{
    AudioError::new(ErrorCode::BackendUnavailable, ErrorSeverity::Error, true, user, technical)
}

/// The settings of one side of a device.
pub open spec fn side(device: DeviceReport, input: bool) -> Option<DeviceConfig> {
    if input {
        device.input
    } else {
        device.output
    }
}

/// The direction of one side of a device.
pub open spec fn side_type(input: bool) -> EndpointType {
    if input {
        EndpointType::PhysicalInput
    } else {
        EndpointType::PhysicalOutput
    }
}

/// Whether an identity is that of a device.
pub open spec fn names_device(identity: EndpointIdentity, device: DeviceReport) -> bool {
    &&& identity.backend@ == "cpal"@
    &&& identity.serial == device.id
    &&& properties::held(identity.device_name) == Some(device.name@)
    &&& identity.bus is None
    &&& identity.vendor is None
    &&& identity.product is None
    &&& identity.node_name is None
    &&& identity.profile is None
    &&& identity.media_class is None
    &&& identity.alsa_path is None
}

/// The name from which the identifier of one side of a device is derived.
pub open spec fn device_key(device: DeviceReport, input: bool) -> Seq<char> {
    let empty = Seq::<char>::empty();
    endpoint::kind_name(side_type(input)) + "|"@ + crate::text::text_or_empty(device.id) + "|"@
        + empty + "|"@ + empty + "|"@ + empty + "|"@ + device.name@ + "|"@ + empty + "|"@ + empty
}

/// The identifier of one side of a device.
pub open spec fn device_endpoint_id(device: DeviceReport, input: bool) -> EndpointId {
    EndpointId { value: pipewire::derived_id(device_key(device, input)) }
}

fn identity_of(device: &DeviceReport) -> (identity: EndpointIdentity)
    ensures
        names_device(identity, *device),
{
    let mut identity = EndpointIdentity::new("cpal");
    identity.serial = copied_text(&device.id);
    identity.device_name = Some(device.name.clone());
    identity
}

fn endpoint_id_of(device: &DeviceReport, input: bool) -> (id: EndpointId)
    ensures
        id == device_endpoint_id(*device, input),
{
    let identity = identity_of(device);
    let kind = if input {
        EndpointType::PhysicalInput
    } else {
        EndpointType::PhysicalOutput
    };
    let id = stable_endpoint_id(&identity, kind);
    assert(pipewire::endpoint_key(identity, kind) == device_key(*device, input));
    id
}

/// Whether an endpoint is one side of a device.
pub open spec fn is_side(
    endpoint: AudioEndpoint,
    device: DeviceReport,
    input: bool,
    default: Option<String>,
) -> bool {
    &&& side(device, input) matches Some(config) && {
        &&& endpoint.channel_count == config.channels
        &&& endpoint.sample_rate == Some(config.sample_rate)
    }
    &&& endpoint.id == device_endpoint_id(device, input)
    &&& endpoint.runtime_id is None
    &&& endpoint.virtual_device_id is None
    &&& names_device(endpoint.identity, device)
    &&& endpoint.device_id == pipewire::derived_device(pipewire::device_key(endpoint.identity))
    &&& endpoint.name@ == device.name@
    &&& endpoint.description@ == device.name@
    &&& endpoint.endpoint_type == side_type(input)
    &&& endpoint.state == EndpointState::Available
    &&& endpoint.is_default == (properties::held(device.id) == properties::held(default))
    &&& endpoint.channels@ == pipewire::channel_ids(endpoint.id, endpoint.channel_count)
    &&& endpoint.gain.amount().bits == 0
    &&& !endpoint.muted
    &&& endpoint.balance.amount().bits == 0
}

/// The endpoint for one side of a device, where the device has that side.
pub fn device_endpoint(device: &DeviceReport, input: bool, default: &Option<String>) -> (found:
    Option<AudioEndpoint>)
    ensures
        match found {
            Some(endpoint) => is_side(endpoint, *device, input, *default),
            None => side(*device, input) is None,
        },
{
    let side = if input {
        device.input
    } else {
        device.output
    };
    let config = match side {
        Some(config) => config,
        None => {
            return None;
        },
    };
    let identity = identity_of(device);
    let id = endpoint_id_of(device, input);
    let channel_count: u32 = config.channels as u32;
    let is_default = match (&device.id, default) {
        (Some(id), Some(default)) => same_text(id.as_str(), default.as_str()),
        (None, None) => true,
        _ => false,
    };
    let device_id = stable_device_id(&identity);
    Some(
        AudioEndpoint {
            id,
            runtime_id: None,
            device_id,
            virtual_device_id: None,
            identity,
            name: device.name.clone(),
            description: device.name.clone(),
            endpoint_type: if input {
                EndpointType::PhysicalInput
            } else {
                EndpointType::PhysicalOutput
            },
            state: EndpointState::Available,
            channel_count,
            sample_rate: Some(config.sample_rate),
            is_default,
            channels: Arc::new(stable_channel_ids(id, channel_count)),
            gain: GainDb::default(),
            muted: false,
            balance: NormalizedBalance::default(),
        },
    )
}

/// The side of a device, among the first `count`, that stands for an endpoint:
/// the last one that has its identifier.
pub open spec fn last_side(
    devices: Seq<DeviceReport>,
    id: EndpointId,
    count: int,
) -> Option<(int, bool)>
    decreases count,
{
    if count <= 0 {
        None
    } else {
        let device = devices[count - 1];
        if device.output is Some && device_endpoint_id(device, false) == id {
            Some((count - 1, false))
        } else if device.input is Some && device_endpoint_id(device, true) == id {
            Some((count - 1, true))
        } else {
            last_side(devices, id, count - 1)
        }
    }
}

/// The application, among the first `count`, that stands for an endpoint: the
/// last one that has its identifier.
pub open spec fn last_application(
    applications: Seq<AudioEndpoint>,
    id: EndpointId,
    count: int,
) -> Option<int>
    decreases count,
{
    if count <= 0 {
        None
    } else if applications[count - 1].id == id {
        Some(count - 1)
    } else {
        last_application(applications, id, count - 1)
    }
}

/// Whether an identifier stands for what it should: an application where one
/// has it, else the side of a device, else nothing.
pub open spec fn stands_for(
    endpoints: Map<EndpointId, AudioEndpoint>,
    id: EndpointId,
    devices: Seq<DeviceReport>,
    sides: int,
    default_input: Option<String>,
    default_output: Option<String>,
    applications: Seq<AudioEndpoint>,
    count: int,
) -> bool {
    match last_application(applications, id, count) {
        Some(at) => endpoints.contains_key(id) && endpoints[id] == applications[at],
        None => match last_side(devices, id, sides) {
            Some((at, input)) => endpoints.contains_key(id) && is_side(
                endpoints[id],
                devices[at],
                input,
                if input {
                    default_input
                } else {
                    default_output
                },
            ),
            None => !endpoints.contains_key(id),
        },
    }
}

/// Turns the devices of the platform into endpoints, one for each side of each
/// device, and adds the applications that can be captured.
pub fn enumerate_endpoints(
    devices: &Vec<DeviceReport>,
    default_input: &Option<String>,
    default_output: &Option<String>,
    applications: &Vec<AudioEndpoint>,
) -> (endpoints: Table<EndpointId, AudioEndpoint>)
    ensures
        forall|id: EndpointId| #[trigger]
            stands_for(
                endpoints@,
                id,
                devices@,
                devices@.len() as int,
                *default_input,
                *default_output,
                applications@,
                applications@.len() as int,
            ),
        forall|id: EndpointId| #[trigger]
            endpoints@.contains_key(id) ==> endpoints@[id].id == id,
{
    let mut endpoints: Table<EndpointId, AudioEndpoint> = Table::new();
    let mut at: usize = 0;
    while at < devices.len()
        invariant
            at <= devices@.len(),
            forall|id: EndpointId| #[trigger]
                stands_for(
                    endpoints@,
                    id,
                    devices@,
                    at as int,
                    *default_input,
                    *default_output,
                    applications@,
                    0,
                ),
            forall|id: EndpointId| #[trigger]
                endpoints@.contains_key(id) ==> endpoints@[id].id == id,
        decreases devices@.len() - at,
    {
        let device = &devices[at];
        let ghost before = endpoints@;
        if let Some(endpoint) = device_endpoint(device, true, default_input) {
            endpoints.insert(endpoint.id, endpoint);
        }
        if let Some(endpoint) = device_endpoint(device, false, default_output) {
            endpoints.insert(endpoint.id, endpoint);
        }
        at = at + 1;
        assert forall|id: EndpointId| #[trigger]
            stands_for(
                endpoints@,
                id,
                devices@,
                at as int,
                *default_input,
                *default_output,
                applications@,
                0,
            ) by {
            assert(stands_for(
                before,
                id,
                devices@,
                at - 1,
                *default_input,
                *default_output,
                applications@,
                0,
            ));
        }
    }
    let mut next: usize = 0;
    while next < applications.len()
        invariant
            next <= applications@.len(),
            forall|id: EndpointId| #[trigger]
                stands_for(
                    endpoints@,
                    id,
                    devices@,
                    devices@.len() as int,
                    *default_input,
                    *default_output,
                    applications@,
                    next as int,
                ),
            forall|id: EndpointId| #[trigger]
                endpoints@.contains_key(id) ==> endpoints@[id].id == id,
        decreases applications@.len() - next,
    {
        let ghost before = endpoints@;
        let application = applications[next].clone();
        endpoints.insert(application.id, application);
        next = next + 1;
        assert forall|id: EndpointId| #[trigger]
            stands_for(
                endpoints@,
                id,
                devices@,
                devices@.len() as int,
                *default_input,
                *default_output,
                applications@,
                next as int,
            ) by {
            assert(stands_for(
                before,
                id,
                devices@,
                devices@.len() as int,
                *default_input,
                *default_output,
                applications@,
                next - 1,
            ));
        }
    }
    endpoints
}

/// Whether one of the ranges covers a rate, at a channel count and with
/// single-precision samples.
pub open spec fn covered(ranges: Seq<ConfigRange>, channels: u16, desired: u32) -> bool {
    exists|i: int|
        0 <= i < ranges.len() && (#[trigger] ranges[i]).channels == channels
            && ranges[i].float_samples && ranges[i].min_sample_rate <= desired
            <= ranges[i].max_sample_rate
}

/// Whether one of the ranges covers a rate, at a channel count and with
/// single-precision samples.
pub fn rate_in_ranges(ranges: &Vec<ConfigRange>, channels: u16, desired: u32) -> (result: bool)
    ensures
        result == covered(ranges@, channels, desired),
{
    let mut at: usize = 0;
    while at < ranges.len()
        invariant
            at <= ranges@.len(),
            forall|i: int|
                0 <= i < at ==> !((#[trigger] ranges@[i]).channels == channels
                    && ranges@[i].float_samples && ranges@[i].min_sample_rate <= desired
                    <= ranges@[i].max_sample_rate),
        decreases ranges@.len() - at,
    {
        let range = ranges[at];
        if range.channels == channels && range.float_samples && range.min_sample_rate <= desired
            && desired <= range.max_sample_rate {
            assert(ranges@[at as int].channels == channels);
            return true;
        }
        at = at + 1;
    }
    false
}

/// Settles the settings of a stream: the requested rate where the device
/// supports it, otherwise the rate of the device.
pub fn stream_config(
    default: Result<DeviceConfig, String>,
    ranges: &Vec<ConfigRange>,
    stream_rate: u32,
    buffer_frames: u32,
) -> (result: Result<StreamSettings, AudioError>)
    ensures
        match default {
            Err(detail) => result is Err && result->Err_0@ == pipewire::route_fault(
                ErrorCode::BackendUnavailable,
                "The selected device has no default audio configuration."@,
                "default config query failed: "@ + detail@,
            ),
            Ok(config) => if config.channels == 0 {
                result is Err && result->Err_0@ == pipewire::route_fault(
                    ErrorCode::BackendUnavailable,
                    "The selected device exposes no audio channels."@,
                    "device reports zero channels"@,
                )
            } else {
                result == Ok::<StreamSettings, AudioError>(
                    StreamSettings {
                        channels: config.channels,
                        sample_rate: if covered(ranges@, config.channels, stream_rate) {
                            stream_rate
                        } else {
                            config.sample_rate
                        },
                        buffer_frames,
                    },
                )
            },
        },
{
    let config = match default {
        Ok(config) => config,
        Err(detail) => {
            return Err(
                backend_error(
                    "The selected device has no default audio configuration.",
                    joined("default config query failed: ", detail.as_str()).as_str(),
                ),
            );
        },
    };
    if config.channels == 0 {
        return Err(
            backend_error(
                "The selected device exposes no audio channels.",
                "device reports zero channels",
            ),
        );
    }
    let sample_rate = if rate_in_ranges(ranges, config.channels, stream_rate) {
        stream_rate
    } else {
        config.sample_rate
    };
    Ok(StreamSettings { channels: config.channels, sample_rate, buffer_frames })
}

/// Finds the device of which an endpoint is a side.
pub fn find_device(devices: &Vec<DeviceReport>, endpoint_id: EndpointId, input: bool) -> (result:
    Result<usize, AudioError>)
    ensures
        match result {
            Ok(at) => {
                &&& at < devices@.len()
                &&& device_endpoint_id(devices@[at as int], input) == endpoint_id
                &&& forall|i: int|
                    0 <= i < at ==> device_endpoint_id(#[trigger] devices@[i], input) != endpoint_id
            },
            Err(error) => {
                &&& forall|i: int|
                    0 <= i < devices@.len() ==> device_endpoint_id(#[trigger] devices@[i], input)
                        != endpoint_id
                &&& error@ == pipewire::route_fault(
                    ErrorCode::EndpointNotFound,
                    "That device is no longer available."@,
                    "endpoint "@ + ids::hyphenated(endpoint_id.value)
                        + " not found in cpal enumeration"@,
                )
            },
        },
{
    let mut at: usize = 0;
    while at < devices.len()
        invariant
            at <= devices@.len(),
            forall|i: int|
                0 <= i < at ==> device_endpoint_id(#[trigger] devices@[i], input) != endpoint_id,
        decreases devices@.len() - at,
    {
        if endpoint_id_of(&devices[at], input) == endpoint_id {
            return Ok(at);
        }
        at = at + 1;
    }
    let id = endpoint_id.to_text();
    Err(
        route_command_error(
            ErrorCode::EndpointNotFound,
            "That device is no longer available.",
            joined3("endpoint ", id.as_str(), " not found in cpal enumeration").as_str(),
        ),
    )
}

/// How large the buffer of a stream is to be.
#[derive(Clone, Copy, Debug, PartialEq, Eq, Structural)]
pub enum BufferChoice {
    Fixed { frames: u32 },
    Default,
}

/// The buffer sizes to try in turn: some devices refuse a fixed one.
pub fn buffer_choices(frames: u32) -> (choices: Vec<BufferChoice>)
    ensures
        choices@ == seq![BufferChoice::Fixed { frames }, BufferChoice::Default],
{
    vec![BufferChoice::Fixed { frames }, BufferChoice::Default]
}

/// What goes wrong while a stream is opened.
#[derive(Clone, Copy, Debug, PartialEq, Eq, Structural)]
pub enum OpenFailure {
    /// The engine of the stream could not be made.
    Engine,
    /// The stream could not be started.
    Start,
    /// No buffer size was accepted.
    Build,
}

/// What is said when a stream cannot be opened.
pub open spec fn open_fault(
    endpoint: EndpointId,
    capture: bool,
    failure: OpenFailure,
    detail: Seq<char>,
) -> ErrorModel {
    let id = ids::hyphenated(endpoint.value);
    match failure {
        OpenFailure::Engine => pipewire::route_fault(
            ErrorCode::InvalidRoute,
            "Orion could not start realtime processing for that connection."@,
            (if capture {
                "failed to initialize source DSP: "@
            } else {
                "failed to initialize bus DSP: "@
            }) + detail,
        ),
        OpenFailure::Start => pipewire::route_fault(
            ErrorCode::InvalidRoute,
            if capture {
                "Orion could not start the input stream."@
            } else {
                "Orion could not start the output stream."@
            },
            (if capture {
                "failed to start capture stream for "@
            } else {
                "failed to start playback stream for "@
            }) + id + ": "@ + detail,
        ),
        OpenFailure::Build => pipewire::route_fault(
            ErrorCode::InvalidRoute,
            if capture {
                "Orion could not open the input device."@
            } else {
                "Orion could not open the output device."@
            },
            (if capture {
                "failed to build capture stream for "@
            } else {
                "failed to build playback stream for "@
            }) + id + ": "@ + detail,
        ),
    }
}

/// What is said when a stream cannot be opened.
pub fn open_error(endpoint: EndpointId, capture: bool, failure: OpenFailure, detail: &str) -> (error:
    AudioError)
    ensures
        error@ == open_fault(endpoint, capture, failure, detail@),
{
    let id = endpoint.to_text();
    match failure {
        OpenFailure::Engine => {
            let lead = if capture {
                "failed to initialize source DSP: "
            } else {
                "failed to initialize bus DSP: "
            };
            route_command_error(
                ErrorCode::InvalidRoute,
                "Orion could not start realtime processing for that connection.",
                joined(lead, detail).as_str(),
            )
        },
        OpenFailure::Start => {
            let lead = if capture {
                "failed to start capture stream for "
            } else {
                "failed to start playback stream for "
            };
            let mut technical = joined3(lead, id.as_str(), ": ");
            technical.append(detail);
            route_command_error(
                ErrorCode::InvalidRoute,
                if capture {
                    "Orion could not start the input stream."
                } else {
                    "Orion could not start the output stream."
                },
                technical.as_str(),
            )
        },
        OpenFailure::Build => {
            let lead = if capture {
                "failed to build capture stream for "
            } else {
                "failed to build playback stream for "
            };
            let mut technical = joined3(lead, id.as_str(), ": ");
            technical.append(detail);
            route_command_error(
                ErrorCode::InvalidRoute,
                if capture {
                    "Orion could not open the input device."
                } else {
                    "Orion could not open the output device."
                },
                technical.as_str(),
            )
        },
    }
}

/// What is said when a stream does not take its half of a ring.
pub fn inbox_full_error(endpoint: EndpointId, capture: bool) -> (error: AudioError)
    ensures
        error@ == pipewire::route_fault(
            ErrorCode::InvalidRoute,
            "Orion could not update that connection."@,
            (if capture {
                "capture inbox full for endpoint "@
            } else {
                "playback inbox full for endpoint "@
            }) + ids::hyphenated(endpoint.value),
        ),
{
    let id = endpoint.to_text();
    let lead = if capture {
        "capture inbox full for endpoint "
    } else {
        "playback inbox full for endpoint "
    };
    route_command_error(
        ErrorCode::InvalidRoute,
        "Orion could not update that connection.",
        joined(lead, id.as_str()).as_str(),
    )
}

/// The input side of a device is recorded from and the output side played to,
/// each with its own settings and under an identifier of its own name: the
/// direction first, then the identifier and the name of the device.
pub proof fn law_sides_have_their_own_settings(device: DeviceReport)
    ensures
        side(device, true) == device.input,
        side(device, false) == device.output,
        side_type(true) == EndpointType::PhysicalInput,
        side_type(false) == EndpointType::PhysicalOutput,
        device.id is Some ==> device_key(device, true) == "PhysicalInput"@ + "|"@ + device.id->0@
            + "|"@ + "|"@ + "|"@ + "|"@ + device.name@ + "|"@ + "|"@,
        device.id is Some ==> device_key(device, false) == "PhysicalOutput"@ + "|"@ + device.id->0@
            + "|"@ + "|"@ + "|"@ + "|"@ + device.name@ + "|"@ + "|"@,
{
    let empty = Seq::<char>::empty();
    assert(forall|text: Seq<char>| #[trigger] (text + empty) =~= text);
    if device.id is Some {
        assert(device_key(device, true) =~= "PhysicalInput"@ + "|"@ + device.id->0@ + "|"@ + "|"@
            + "|"@ + "|"@ + device.name@ + "|"@ + "|"@);
        assert(device_key(device, false) =~= "PhysicalOutput"@ + "|"@ + device.id->0@ + "|"@ + "|"@
            + "|"@ + "|"@ + device.name@ + "|"@ + "|"@);
    }
}

/// A side of a device is offered with the channels and the rate of that side,
/// under the name of the device, at unity gain, audible and centered. It is
/// the default where the platform names the device as the default of that side.
pub proof fn law_a_side_is_offered_as_it_is(
    endpoint: AudioEndpoint,
    device: DeviceReport,
    input: bool,
    default: Option<String>,
)
    requires
        is_side(endpoint, device, input, default),
    ensures
        input ==> device.input is Some && endpoint.channel_count == device.input->0.channels
            && endpoint.sample_rate == Some(device.input->0.sample_rate)
            && endpoint.endpoint_type == EndpointType::PhysicalInput,
        !input ==> device.output is Some && endpoint.channel_count == device.output->0.channels
            && endpoint.sample_rate == Some(device.output->0.sample_rate)
            && endpoint.endpoint_type == EndpointType::PhysicalOutput,
        endpoint.name@ == device.name@,
        endpoint.description@ == device.name@,
        endpoint.identity.backend@ == "cpal"@,
        endpoint.identity.serial == device.id,
        endpoint.state == EndpointState::Available,
        endpoint.is_default == (properties::held(device.id) == properties::held(default)),
        endpoint.channels@.len() == endpoint.channel_count,
        endpoint.gain.amount().bits == 0,
        !endpoint.muted,
        endpoint.balance.amount().bits == 0,
        endpoint.runtime_id is None,
        endpoint.virtual_device_id is None,
{
}

/// An identifier stands for the last application that has it, before any
/// device; else for the side of a device that has it, with the default of that
/// side; and where nothing has it, for nothing.
pub proof fn law_applications_come_before_devices(
    endpoints: Map<EndpointId, AudioEndpoint>,
    id: EndpointId,
    devices: Seq<DeviceReport>,
    default_input: Option<String>,
    default_output: Option<String>,
    applications: Seq<AudioEndpoint>,
    at: int,
)
    requires
        stands_for(
            endpoints,
            id,
            devices,
            devices.len() as int,
            default_input,
            default_output,
            applications,
            applications.len() as int,
        ),
    ensures
        0 <= at < applications.len() && applications[at].id == id && (forall|i: int|
            at < i < applications.len() ==> (#[trigger] applications[i]).id != id)
            ==> endpoints.contains_key(id) && endpoints[id] == applications[at],
        (forall|i: int| 0 <= i < applications.len() ==> (#[trigger] applications[i]).id != id)
            && endpoints.contains_key(id) ==> exists|k: int|
            0 <= k < devices.len() && (is_side(
                endpoints[id],
                #[trigger] devices[k],
                true,
                default_input,
            ) || is_side(endpoints[id], devices[k], false, default_output)),
        (forall|i: int| 0 <= i < applications.len() ==> (#[trigger] applications[i]).id != id) && (
        forall|k: int|
            0 <= k < devices.len() ==> (#[trigger] devices[k]).input is None && devices[k].output is None)
            ==> !endpoints.contains_key(id),
{
    lemma_last_application(applications, id, applications.len() as int);
    lemma_last_side(devices, id, devices.len() as int);
    if 0 <= at < applications.len() && applications[at].id == id && forall|i: int|
        at < i < applications.len() ==> (#[trigger] applications[i]).id != id {
        let found = last_application(applications, id, applications.len() as int);
        assert(found is Some);
        if found->0 < at {
            assert(applications[at].id != id);
        }
        assert(found->0 == at);
    }
}

proof fn lemma_last_application(applications: Seq<AudioEndpoint>, id: EndpointId, count: int)
    requires
        0 <= count <= applications.len(),
    ensures
        match last_application(applications, id, count) {
            Some(at) => 0 <= at < count && applications[at].id == id && forall|i: int|
                at < i < count ==> (#[trigger] applications[i]).id != id,
            None => forall|i: int| 0 <= i < count ==> (#[trigger] applications[i]).id != id,
        },
    decreases count,
{
    if count > 0 && applications[count - 1].id != id {
        lemma_last_application(applications, id, count - 1);
    }
}

proof fn lemma_last_side(devices: Seq<DeviceReport>, id: EndpointId, count: int)
    requires
        0 <= count <= devices.len(),
    ensures
        last_side(devices, id, count) matches Some((at, input)) ==> 0 <= at < count && (if input {
            devices[at].input is Some
        } else {
            devices[at].output is Some
        }),
    decreases count,
{
    if count > 0 {
        lemma_last_side(devices, id, count - 1);
    }
}

/// A rate is supported where one range of that channel count, for
/// single-precision samples, reaches from below it to above it.
pub proof fn law_a_rate_lies_within_a_range(
    ranges: Seq<ConfigRange>,
    channels: u16,
    desired: u32,
    at: int,
)
    requires
        0 <= at < ranges.len(),
    ensures
        ranges[at].channels == channels && ranges[at].float_samples && ranges[at].min_sample_rate
            <= desired <= ranges[at].max_sample_rate ==> covered(ranges, channels, desired),
        (forall|i: int|
            0 <= i < ranges.len() ==> (#[trigger] ranges[i]).channels != channels
                || !ranges[i].float_samples || desired < ranges[i].min_sample_rate
                || ranges[i].max_sample_rate < desired) ==> !covered(ranges, channels, desired),
{
}

/// What is said of a stream that does not open names its direction.
pub proof fn law_a_failed_stream_names_its_direction(endpoint: EndpointId, detail: Seq<char>)
    ensures
        open_fault(endpoint, true, OpenFailure::Start, detail).user_message
            == "Orion could not start the input stream."@,
        open_fault(endpoint, false, OpenFailure::Start, detail).user_message
            == "Orion could not start the output stream."@,
        open_fault(endpoint, true, OpenFailure::Build, detail).user_message
            == "Orion could not open the input device."@,
        open_fault(endpoint, false, OpenFailure::Build, detail).user_message
            == "Orion could not open the output device."@,
        forall|capture: bool, failure: OpenFailure| #[trigger]
            open_fault(endpoint, capture, failure, detail).code == ErrorCode::InvalidRoute,
        forall|capture: bool, failure: OpenFailure| #[trigger]
            open_fault(endpoint, capture, failure, detail).retryable,
{
}

/// Of several sides with one identifier the last device counts, and of one device
/// its output.
pub proof fn law_the_last_side_of_an_identifier_counts(
    devices: Seq<DeviceReport>,
    id: EndpointId,
    count: int,
)
    requires
        0 <= count <= devices.len(),
    ensures
        last_side(devices, id, count) matches Some((at, input)) ==> {
            &&& 0 <= at < count
            &&& input ==> devices[at].input is Some && device_endpoint_id(devices[at], true) == id
                && !(devices[at].output is Some && device_endpoint_id(devices[at], false) == id)
            &&& !input ==> devices[at].output is Some && device_endpoint_id(devices[at], false)
                == id
            &&& forall|i: int|
                at < i < count ==> !((#[trigger] devices[i]).input is Some && device_endpoint_id(
                    devices[i],
                    true,
                ) == id) && !(devices[i].output is Some && device_endpoint_id(devices[i], false)
                    == id)
        },
        last_side(devices, id, count) is None ==> forall|i: int|
            0 <= i < count ==> !((#[trigger] devices[i]).input is Some && device_endpoint_id(
                devices[i],
                true,
            ) == id) && !(devices[i].output is Some && device_endpoint_id(devices[i], false)
                == id),
    decreases count,
{
    if count > 0 {
        law_the_last_side_of_an_identifier_counts(devices, id, count - 1);
    }
}

/// Of several applications with one identifier the last counts.
pub proof fn law_the_last_application_of_an_identifier_counts(
    applications: Seq<AudioEndpoint>,
    id: EndpointId,
    count: int,
)
    requires
        0 <= count <= applications.len(),
    ensures
        last_application(applications, id, count) matches Some(at) ==> {
            &&& 0 <= at < count
            &&& applications[at].id == id
            &&& forall|i: int| at < i < count ==> (#[trigger] applications[i]).id != id
        },
        last_application(applications, id, count) is None ==> forall|i: int|
            0 <= i < count ==> (#[trigger] applications[i]).id != id,
    decreases count,
{
    if count > 0 {
        law_the_last_application_of_an_identifier_counts(applications, id, count - 1);
    }
}

/// The identity of a device holds its name and its identifier, and nothing that
/// the platform does not tell.
pub proof fn law_a_device_is_named_by_the_platform(identity: EndpointIdentity, device: DeviceReport)
    requires
        names_device(identity, device),
    ensures
        identity.backend@ == "cpal"@,
        identity.serial == device.id,
        identity.device_name is Some,
        identity.device_name->0@ == device.name@,
        identity.bus is None,
        identity.vendor is None,
        identity.product is None,
        identity.node_name is None,
        identity.profile is None,
        identity.media_class is None,
        identity.alsa_path is None,
{
}

} // verus!
