//! What the PipeWire backend knows of the audio server: its nodes, defaults,
//! clock and virtual devices. Connections to the server are outside.
use std::sync::Arc;

use vstd::prelude::*;

use super::properties::{parse_property, property_is, property_is_true, Properties};
use super::properties;
use crate::domain::controls::{GainDb, NormalizedBalance};
use crate::domain::endpoint::{AudioEndpoint, EndpointIdentity, EndpointState, EndpointType};
use crate::domain::endpoint;
use crate::domain::error::{AudioError, ErrorCode, ErrorModel, ErrorSeverity};
use crate::domain::ids::{uuid_of_name, uuid_of_text, ChannelId, DeviceId, EndpointId, VirtualDeviceId};
use crate::domain::ids;
use crate::json::json_text;
use crate::json;
use crate::text::{
    borrowed_or_empty, contains_text, decimal_text, is_blank_char, joined, joined3, same_text,
    starts_with, strip_prefix,
};
use crate::text;

verus! {

/// The namespace of the identifiers that are derived from names.
pub const ORION_ID_NAMESPACE: u128 = 0x56ef_da46_0a0a_4f64_a31e_3f76_74fc_b476;

/// The virtual input that there always is.
pub const DEFAULT_VIRTUAL_INPUT_ID: u128 = 0xa1e9_2d80_4a87_4a77_9a52_1cb5_3fce_0001;

/// The virtual output that there always is.
pub const DEFAULT_VIRTUAL_OUTPUT_ID: u128 = 0xb2fa_3e91_5b98_4b88_ab63_2dc6_40df_0001;

/// The backend of the PipeWire audio server.
#[derive(Clone, Copy, Debug, PartialEq, Eq, Structural)]
pub struct PipeWireBackend;

/// What a failed command of a route says; such a command may be tried again.
pub open spec fn route_fault(
    code: ErrorCode,
    user_message: Seq<char>,
    technical_message: Seq<char>,
) -> ErrorModel {
    ErrorModel {
        code,
        severity: ErrorSeverity::Error,
        retryable: true,
        user_message,
        technical_message,
    }
}

pub fn route_command_error(code: ErrorCode, user: &str, technical: &str) -> (error: AudioError)
    ensures
        error@ == route_fault(code, user@, technical@),
{
    AudioError::new(code, ErrorSeverity::Error, true, user, technical)
}

/// What a failure of a virtual device says.
pub open spec fn virtual_fault(user_message: Seq<char>, technical_message: Seq<char>) -> ErrorModel {
    route_fault(ErrorCode::UnsupportedOperation, user_message, technical_message)
}

pub fn virtual_error(user: &str, technical: &str) -> (error: AudioError)
    ensures
        error@ == virtual_fault(user@, technical@),
{
    AudioError::new(ErrorCode::UnsupportedOperation, ErrorSeverity::Error, true, user, technical)
}

/// The direction of a node, by its media class.
pub open spec fn class_type(media_class: Seq<char>, is_virtual: bool) -> Option<EndpointType> {
    if text::begins_with(media_class, "Audio/Source"@) {
        Some(
            if is_virtual {
                EndpointType::VirtualOutput
            } else {
                EndpointType::PhysicalInput
            },
        )
    } else if text::begins_with(media_class, "Audio/Sink"@) {
        Some(
            if is_virtual {
                EndpointType::VirtualInput
            } else {
                EndpointType::PhysicalOutput
            },
        )
    } else if text::begins_with(media_class, "Stream/Output/Audio"@) {
        Some(EndpointType::ApplicationOutput)
    } else if text::begins_with(media_class, "Stream/Input/Audio"@) {
        Some(EndpointType::ApplicationInput)
    } else {
        None
    }
}

/// The direction of a node, by its media class.
pub fn endpoint_type(media_class: &str, is_virtual: bool) -> (kind: Option<EndpointType>)
    ensures
        kind == class_type(media_class@, is_virtual),
{
    if starts_with(media_class, "Audio/Source") {
        Some(
            if is_virtual {
                EndpointType::VirtualOutput
            } else {
                EndpointType::PhysicalInput
            },
        )
    } else if starts_with(media_class, "Audio/Sink") {
        Some(
            if is_virtual {
                EndpointType::VirtualInput
            } else {
                EndpointType::PhysicalOutput
            },
        )
    } else if starts_with(media_class, "Stream/Output/Audio") {
        Some(EndpointType::ApplicationOutput)
    } else if starts_with(media_class, "Stream/Input/Audio") {
        Some(EndpointType::ApplicationInput)
    } else {
        None
    }
}

/// Whether the properties are those of a stream of this program.
pub open spec fn own_stream(props: Seq<(Seq<char>, Seq<char>)>) -> bool {
    &&& properties::property(props, "media.class"@) matches Some(class) && text::begins_with(
        class,
        "Stream/"@,
    )
    &&& properties::property(props, "application.id"@) == Some("io.github.gardun0.orion"@)
}

/// Whether the properties are those of a stream of this program.
pub fn is_orion_processing_stream(props: &Properties) -> (result: bool)
    ensures
        result == own_stream(props@),
{
    let is_stream = match props.get("media.class") {
        Some(media_class) => starts_with(media_class, "Stream/"),
        None => false,
    };
    is_stream && property_is(props.get("application.id"), "io.github.gardun0.orion")
}

/// The characters between the brackets at either end.
pub open spec fn unbracketed_start(value: Seq<char>) -> Seq<char>
    decreases value.len(),
{
    if value.len() > 0 && (value[0] == '[' || value[0] == ']') {
        unbracketed_start(value.skip(1))
    } else {
        value
    }
}

/// The characters before the brackets at the end.
pub open spec fn unbracketed_end(value: Seq<char>) -> Seq<char>
    decreases value.len(),
{
    if value.len() > 0 && (value.last() == '[' || value.last() == ']') {
        unbracketed_end(value.drop_last())
    } else {
        value
    }
}

/// Whether the last of the fields between commas holds more than blanks.
pub open spec fn last_field_filled(value: Seq<char>) -> bool
    decreases value.len(),
{
    value.len() > 0 && value.last() != ',' && (!text::is_blank(value.last()) || last_field_filled(
        value.drop_last(),
    ))
}

/// How many of the fields between commas hold more than blanks.
pub open spec fn filled_fields(value: Seq<char>) -> nat
    decreases value.len(),
{
    if value.len() == 0 {
        0
    } else {
        let before = filled_fields(value.drop_last());
        if last_field_filled(value) && !last_field_filled(value.drop_last()) {
            before + 1
        } else {
            before
        }
    }
}

/// How many channels a channel position list names.
pub open spec fn position_channels(position: Seq<char>) -> u32 {
    filled_fields(unbracketed_end(unbracketed_start(position))) as u32
}

proof fn lemma_filled_fields_bound(value: Seq<char>)
    ensures
        filled_fields(value) <= value.len(),
    decreases value.len(),
{
    if value.len() > 0 {
        lemma_filled_fields_bound(value.drop_last());
    }
}

fn count_filled_fields(value: &str) -> (count: usize)
    ensures
        count == filled_fields(value@),
{
    let total: usize = value.unicode_len();
    let mut count: usize = 0;
    let mut filled = false;
    let mut at: usize = 0;
    assert(value@.take(0) =~= Seq::<char>::empty());
    while at < total
        invariant
            at <= total == value@.len(),
            count == filled_fields(value@.take(at as int)),
            count <= at,
            filled == last_field_filled(value@.take(at as int)),
        decreases total - at,
    {
        let c = value.get_char(at);
        let was_filled = filled;
        assert(value@.take(at + 1).drop_last() =~= value@.take(at as int));
        assert(value@.take(at + 1).last() == c);
        filled = c != ',' && (!is_blank_char(c) || was_filled);
        if filled && !was_filled {
            count = count + 1;
        }
        at = at + 1;
    }
    assert(value@.take(at as int) =~= value@);
    count
}

fn channels_in_position(position: &str) -> (channels: u32)
    ensures
        channels == position_channels(position@),
{
    let total: usize = position.unicode_len();
    let mut start: usize = 0;
    assert(position@.skip(0) =~= position@);
    while start < total && (position.get_char(start) == '[' || position.get_char(start) == ']')
        invariant
            start <= total == position@.len(),
            unbracketed_start(position@) == unbracketed_start(position@.skip(start as int)),
        decreases total - start,
    {
        assert(position@.skip(start as int).skip(1) =~= position@.skip(start + 1));
        assert(position@.skip(start as int)[0] == position@[start as int]);
        start = start + 1;
    }
    let ghost rest = position@.skip(start as int);
    proof {
        if start < total {
            assert(rest[0] == position@[start as int]);
        }
    }
    assert(unbracketed_start(position@) == rest);
    let mut end: usize = total;
    assert(rest.take(end - start) =~= rest);
    while end > start && (position.get_char(end - 1) == '[' || position.get_char(end - 1) == ']')
        invariant
            start <= end <= total == position@.len(),
            rest == position@.skip(start as int),
            unbracketed_end(rest) == unbracketed_end(rest.take(end - start)),
        decreases end,
    {
        assert(rest.take(end - start).drop_last() =~= rest.take(end - start - 1));
        assert(rest.take(end - start).last() == position@[end - 1]);
        end = end - 1;
    }
    proof {
        if end > start {
            assert(rest.take(end - start).last() == position@[end - 1]);
        }
        assert(position@.subrange(start as int, end as int) =~= rest.take(end - start));
    }
    let inner = position.substring_char(start, end);
    count_filled_fields(inner) as u32
}

/// The channel count that the properties tell: the stated count, or that of
/// the position list, or two.
pub open spec fn told_channels(props: Seq<(Seq<char>, Seq<char>)>) -> u32 {
    let stated = properties::parsed_property(properties::property(props, "audio.channels"@));
    let found = if stated is Some {
        stated
    } else {
        match properties::property(props, "audio.position"@) {
            Some(position) => Some(position_channels(position)),
            None => None,
        }
    };
    match found {
        Some(channels) => if channels != 0 {
            channels
        } else {
            2
        },
        None => 2,
    }
}

/// The channel count that the properties tell.
pub fn inferred_channel_count(props: &Properties) -> (channels: u32)
    ensures
        channels == told_channels(props@),
        channels > 0,
{
    let found = match parse_property(props.get("audio.channels")) {
        Some(channels) => Some(channels),
        None => match props.get("audio.position") {
            Some(position) => Some(channels_in_position(position)),
            None => None,
        },
    };
    match found {
        Some(channels) => if channels != 0 {
            channels
        } else {
            2
        },
        None => 2,
    }
}

/// Whether an identity holds what the properties say of the device.
pub open spec fn identifies(
    identity: EndpointIdentity,
    props: Seq<(Seq<char>, Seq<char>)>,
    media_class: Seq<char>,
    node_name: Seq<char>,
) -> bool {
    &&& identity.backend@ == "pipewire"@
    &&& properties::held(identity.serial) == properties::property(props, "device.serial"@)
    &&& properties::held(identity.bus) == properties::property(props, "device.bus"@)
    &&& properties::held(identity.vendor) == properties::property(props, "device.vendor.id"@)
    &&& properties::held(identity.product) == properties::property(props, "device.product.id"@)
    &&& properties::held(identity.device_name) == properties::either(
        properties::property(props, "device.name"@),
        properties::property(props, "device.description"@),
    )
    &&& properties::held(identity.node_name) == Some(node_name)
    &&& properties::held(identity.profile) == properties::property(props, "device.profile.name"@)
    &&& properties::held(identity.media_class) == Some(media_class)
    &&& properties::held(identity.alsa_path) == properties::property(props, "api.alsa.path"@)
}

/// What the properties say of the device behind a node.
pub fn endpoint_identity(props: &Properties, media_class: &str, node_name: &str) -> (identity:
    EndpointIdentity)
    ensures
        identifies(identity, props@, media_class@, node_name@),
{
    let mut identity = EndpointIdentity::new("pipewire");
    identity.serial = props.get_owned("device.serial");
    identity.bus = props.get_owned("device.bus");
    identity.vendor = props.get_owned("device.vendor.id");
    identity.product = props.get_owned("device.product.id");
    identity.device_name = match props.get_owned("device.name") {
        Some(name) => Some(name),
        None => props.get_owned("device.description"),
    };
    identity.node_name = Some(node_name.to_owned());
    identity.profile = props.get_owned("device.profile.name");
    identity.media_class = Some(media_class.to_owned());
    identity.alsa_path = props.get_owned("api.alsa.path");
    identity
}

/// The name from which the identifier of an endpoint is derived.
pub open spec fn endpoint_key(identity: EndpointIdentity, kind: EndpointType) -> Seq<char> {
    endpoint::kind_name(kind) + "|"@ + text::text_or_empty(identity.serial) + "|"@
        + text::text_or_empty(identity.bus) + "|"@ + text::text_or_empty(identity.vendor) + "|"@
        + text::text_or_empty(identity.product) + "|"@ + text::text_or_empty(identity.device_name)
        + "|"@ + text::text_or_empty(identity.node_name) + "|"@ + text::text_or_empty(
        identity.profile,
    )
}

/// The identifier that is derived from a name.
pub open spec fn derived_id(name: Seq<char>) -> u128 {
    ids::uuid_from_name(ORION_ID_NAMESPACE, vstd::utf8::encode_utf8(name))
}

/// The identifier of an endpoint: the same for the same device and direction.
pub fn stable_endpoint_id(identity: &EndpointIdentity, kind: EndpointType) -> (id: EndpointId)
    ensures
        id.value == derived_id(endpoint_key(*identity, kind)),
{
    let mut key = joined3(kind.name(), "|", borrowed_or_empty(&identity.serial));
    key.append("|");
    key.append(borrowed_or_empty(&identity.bus));
    key.append("|");
    key.append(borrowed_or_empty(&identity.vendor));
    key.append("|");
    key.append(borrowed_or_empty(&identity.product));
    key.append("|");
    key.append(borrowed_or_empty(&identity.device_name));
    key.append("|");
    key.append(borrowed_or_empty(&identity.node_name));
    key.append("|");
    key.append(borrowed_or_empty(&identity.profile));
    EndpointId::from_uuid(uuid_of_name(ORION_ID_NAMESPACE, key.as_str()))
}

/// The name from which the identifier of a device is derived, where the device
/// has a serial number or a name.
pub open spec fn device_key(identity: EndpointIdentity) -> Option<Seq<char>> {
    match properties::either(
        properties::held(identity.serial),
        properties::held(identity.device_name),
    ) {
        Some(key) => Some("device|"@ + key),
        None => None,
    }
}

/// The identifier that is derived from an optional name.
pub open spec fn derived_device(key: Option<Seq<char>>) -> Option<DeviceId> {
    match key {
        Some(key) => Some(DeviceId { value: derived_id(key) }),
        None => None,
    }
}

/// The identifier of the device behind an endpoint.
pub fn stable_device_id(identity: &EndpointIdentity) -> (id: Option<DeviceId>)
    ensures
        id == derived_device(device_key(*identity)),
{
    let key = match &identity.serial {
        Some(serial) => Some(serial.as_str()),
        None => match &identity.device_name {
            Some(name) => Some(name.as_str()),
            None => None,
        },
    };
    match key {
        Some(key) => Some(
            DeviceId::from_uuid(uuid_of_name(ORION_ID_NAMESPACE, joined("device|", key).as_str())),
        ),
        None => None,
    }
}

/// The identifier of one channel of an endpoint.
pub open spec fn channel_id(endpoint: EndpointId, index: u32) -> ChannelId {
    ChannelId {
        value: derived_id(
            "channel|"@ + ids::hyphenated(endpoint.value) + "|"@ + text::decimal(index as nat),
        ),
    }
}

/// The identifier of one channel of an endpoint.
pub fn stable_channel_id(endpoint: EndpointId, index: u32) -> (id: ChannelId)
    ensures
        id == channel_id(endpoint, index),
{
    let endpoint_text = endpoint.to_text();
    let mut key = joined3("channel|", endpoint_text.as_str(), "|");
    key.append(decimal_text(index as u64).as_str());
    ChannelId::from_uuid(uuid_of_name(ORION_ID_NAMESPACE, key.as_str()))
}

/// The identifiers of the channels of an endpoint.
pub open spec fn channel_ids(endpoint: EndpointId, count: u32) -> Seq<ChannelId> {
    Seq::new(count as nat, |i: int| channel_id(endpoint, i as u32))
}

/// The identifiers of the channels of an endpoint.
pub fn stable_channel_ids(endpoint: EndpointId, count: u32) -> (channels: Vec<ChannelId>)
    ensures
        channels@ == channel_ids(endpoint, count),
{
    let mut channels: Vec<ChannelId> = Vec::new();
    let mut index: u32 = 0;
    while index < count
        invariant
            index <= count,
            channels@ =~= channel_ids(endpoint, index),
        decreases count - index,
    {
        channels.push(stable_channel_id(endpoint, index));
        index = index + 1;
    }
    channels
}

/// The virtual device that an optional UUID stands for.
pub open spec fn virtual_device(value: Option<u128>) -> Option<VirtualDeviceId> {
    match value {
        Some(value) => Some(VirtualDeviceId { value }),
        None => None,
    }
}

/// The virtual device that an optional text names.
pub open spec fn virtual_in(value: Option<Seq<char>>) -> Option<VirtualDeviceId> {
    match value {
        Some(value) => virtual_device(ids::uuid_in_text(value)),
        None => None,
    }
}

/// The virtual device that a node name ends with, after a prefix.
pub fn virtual_id_from_name(name: &str, prefix: &str) -> (id: Option<VirtualDeviceId>)
    ensures
        id == virtual_in(text::without_prefix(name@, prefix@)),
{
    match strip_prefix(name, prefix) {
        Some(rest) => match uuid_of_text(rest) {
            Some(value) => Some(VirtualDeviceId::from_uuid(value)),
            None => None,
        },
        None => None,
    }
}

/// The virtual device of a node: by its property, or else by its name.
pub open spec fn node_virtual_device(
    props: Seq<(Seq<char>, Seq<char>)>,
    node_name: Seq<char>,
) -> Option<VirtualDeviceId> {
    let stated = virtual_in(properties::property(props, "orion.virtual-device-id"@));
    let input = virtual_in(text::without_prefix(node_name, "orion.virtual-input."@));
    if stated is Some {
        stated
    } else if input is Some {
        input
    } else {
        virtual_in(text::without_prefix(node_name, "orion.virtual-output."@))
    }
}

fn stated_virtual_device(props: &Properties) -> (id: Option<VirtualDeviceId>)
    ensures
        id == virtual_in(properties::property(props@, "orion.virtual-device-id"@)),
{
    match props.get("orion.virtual-device-id") {
        Some(value) => match uuid_of_text(value) {
            Some(value) => Some(VirtualDeviceId::from_uuid(value)),
            None => None,
        },
        None => None,
    }
}

/// Whether a node counts as virtual.
pub open spec fn looks_virtual(
    props: Seq<(Seq<char>, Seq<char>)>,
    media_class: Seq<char>,
    node_name: Seq<char>,
) -> bool {
    text::holds_part(media_class, "Virtual"@) || properties::says_yes(
        properties::property(props, "node.virtual"@),
    ) || text::begins_with(node_name, "orion."@)
}

/// The direction of a node that is offered as an endpoint; nothing for every
/// other node.
pub open spec fn offered_type(props: Seq<(Seq<char>, Seq<char>)>) -> Option<EndpointType> {
    match (
        properties::property(props, "media.class"@),
        properties::property(props, "node.name"@),
    ) {
        (Some(media_class), Some(node_name)) => if own_stream(props) {
            None
        } else {
            class_type(media_class, looks_virtual(props, media_class, node_name))
        },
        _ => None,
    }
}

/// Whether an endpoint is what the properties of node `id` describe.
pub open spec fn describes(
    endpoint: AudioEndpoint,
    id: u32,
    props: Seq<(Seq<char>, Seq<char>)>,
) -> bool {
    let media_class = properties::property(props, "media.class"@)->0;
    let node_name = properties::property(props, "node.name"@)->0;
    let description = properties::property(props, "node.description"@);
    let media_name = properties::property(props, "media.name"@);
    &&& offered_type(props) == Some(endpoint.endpoint_type)
    &&& endpoint.runtime_id == Some(id)
    &&& identifies(endpoint.identity, props, media_class, node_name)
    &&& endpoint.id.value == derived_id(endpoint_key(endpoint.identity, endpoint.endpoint_type))
    &&& endpoint.device_id == derived_device(device_key(endpoint.identity))
    &&& endpoint.virtual_device_id == node_virtual_device(props, node_name)
    &&& endpoint.name@ == properties::or_else(
        properties::either(
            properties::either(description, properties::property(props, "node.nick"@)),
            media_name,
        ),
        node_name,
    )
    &&& endpoint.description@ == properties::or_else(
        properties::either(description, media_name),
        node_name,
    )
    &&& endpoint.state == EndpointState::Available
    &&& endpoint.channel_count == told_channels(props)
    &&& endpoint.channels@ == channel_ids(endpoint.id, endpoint.channel_count)
    &&& endpoint.sample_rate == properties::parsed_property(
        properties::property(props, "audio.rate"@),
    )
    &&& !endpoint.is_default
    &&& !endpoint.muted
    &&& endpoint.gain.amount().bits == 0
    &&& endpoint.balance.amount().bits == 0
}

/// The endpoint that a node stands for, where it stands for one.
pub fn endpoint_from_global(id: u32, props: &Properties) -> (endpoint: Option<AudioEndpoint>)
    ensures
        match endpoint {
            Some(endpoint) => describes(endpoint, id, props@),
            None => offered_type(props@) is None,
        },
{
    let media_class = match props.get("media.class") {
        Some(media_class) => media_class,
        None => {
            return None;
        },
    };
    let node_name = match props.get("node.name") {
        Some(node_name) => node_name,
        None => {
            return None;
        },
    };
    if is_orion_processing_stream(props) {
        return None;
    }
    let is_virtual = contains_text(media_class, "Virtual") || property_is_true(
        props.get("node.virtual"),
    ) || starts_with(node_name, "orion.");
    let endpoint_type = match endpoint_type(media_class, is_virtual) {
        Some(endpoint_type) => endpoint_type,
        None => {
            return None;
        },
    };
    let identity = endpoint_identity(props, media_class, node_name);
    let endpoint_id = stable_endpoint_id(&identity, endpoint_type);
    let channel_count = inferred_channel_count(props);
    let channels = stable_channel_ids(endpoint_id, channel_count);
    let virtual_device_id = match stated_virtual_device(props) {
        Some(id) => Some(id),
        None => match virtual_id_from_name(node_name, "orion.virtual-input.") {
            Some(id) => Some(id),
            None => virtual_id_from_name(node_name, "orion.virtual-output."),
        },
    };
    let name = match props.get("node.description") {
        Some(name) => name,
        None => match props.get("node.nick") {
            Some(name) => name,
            None => match props.get("media.name") {
                Some(name) => name,
                None => node_name,
            },
        },
    };
    let description = match props.get("node.description") {
        Some(description) => description,
        None => match props.get("media.name") {
            Some(description) => description,
            None => node_name,
        },
    };
    let device_id = stable_device_id(&identity);
    Some(
        AudioEndpoint {
            id: endpoint_id,
            runtime_id: Some(id),
            device_id,
            virtual_device_id,
            identity,
            name: name.to_owned(),
            description: description.to_owned(),
            endpoint_type,
            state: EndpointState::Available,
            channel_count,
            sample_rate: parse_property(props.get("audio.rate")),
            is_default: false,
            channels: Arc::new(channels),
            gain: GainDb::default(),
            muted: false,
            balance: NormalizedBalance::default(),
        },
    )
}

/// The state that the server reports of a node.
#[derive(Clone, Copy, Debug, PartialEq, Eq, Structural)]
pub enum NodeState {
    Creating,
    Suspended,
    Idle,
    Running,
    Error,
}

/// The endpoint state for a node state.
pub open spec fn state_of_node(state: NodeState) -> EndpointState {
    match state {
        NodeState::Creating => EndpointState::Available,
        NodeState::Suspended => EndpointState::Suspended,
        NodeState::Idle => EndpointState::Idle,
        NodeState::Running => EndpointState::Running,
        NodeState::Error => EndpointState::Error,
    }
}

pub fn endpoint_state(state: NodeState) -> (mapped: EndpointState)
    ensures
        mapped == state_of_node(state),
{
    match state {
        NodeState::Creating => EndpointState::Available,
        NodeState::Suspended => EndpointState::Suspended,
        NodeState::Idle => EndpointState::Idle,
        NodeState::Running => EndpointState::Running,
        NodeState::Error => EndpointState::Error,
    }
}

/// Whether `after` is `before` with what newer properties say: description,
/// channels and rate, each where it is there.
pub open spec fn follows_properties(
    before: AudioEndpoint,
    after: AudioEndpoint,
    props: Seq<(Seq<char>, Seq<char>)>,
) -> bool {
    let channels = properties::parsed_property(properties::property(props, "audio.channels"@));
    let rate = properties::parsed_property(properties::property(props, "audio.rate"@));
    &&& after == (AudioEndpoint {
        name: after.name,
        description: after.description,
        channel_count: after.channel_count,
        channels: after.channels,
        sample_rate: after.sample_rate,
        ..before
    })
    &&& match properties::property(props, "node.description"@) {
        Some(description) => after.name@ == description && after.description@ == description,
        None => after.name == before.name && after.description == before.description,
    }
    &&& match channels {
        Some(count) => after.channel_count == count && after.channels@ == channel_ids(
            before.id,
            count,
        ),
        None => after.channel_count == before.channel_count && after.channels == before.channels,
    }
    &&& after.sample_rate == (if rate is Some {
        rate
    } else {
        before.sample_rate
    })
}

/// Takes newer properties of a node over into its endpoint.
pub fn update_endpoint_properties(endpoint: &mut AudioEndpoint, props: &Properties)
    ensures
        follows_properties(*old(endpoint), *final(endpoint), props@),
{
    if let Some(description) = props.get("node.description") {
        endpoint.description = description.to_owned();
        endpoint.name = description.to_owned();
    }
    if let Some(channels) = parse_property(props.get("audio.channels")) {
        endpoint.channel_count = channels;
        endpoint.channels = Arc::new(stable_channel_ids(endpoint.id, channels));
    }
    if let Some(rate) = parse_property(props.get("audio.rate")) {
        endpoint.sample_rate = Some(rate);
    }
}

/// The node name in a default-device setting of the server.
pub open spec fn default_name(value: Option<Seq<char>>) -> Option<Seq<char>> {
    match value {
        Some(value) => json::json_text_under(value, "name"@),
        None => None,
    }
}

/// The node name in a default-device setting of the server.
pub fn default_node_name(value: Option<&str>) -> (name: Option<String>)
    ensures
        properties::held(name) == default_name(properties::shown(value)),
        value is None ==> name is None,
        value matches Some(value) ==> properties::held(name) == json::json_text_under(
            value@,
            "name"@,
        ),
{
    match value {
        Some(value) => json_text(value, "name"),
        None => None,
    }
}

/// The nodes that the server uses by default.
#[derive(Debug)]
pub struct DefaultEndpoints {
    pub source: Option<String>,
    pub sink: Option<String>,
}

/// Whether an endpoint is the default of its direction.
pub open spec fn is_default_of(
    kind: EndpointType,
    node_name: Option<Seq<char>>,
    source: Option<Seq<char>>,
    sink: Option<Seq<char>>,
) -> bool {
    match kind {
        EndpointType::PhysicalInput | EndpointType::VirtualOutput => source == node_name,
        EndpointType::PhysicalOutput | EndpointType::VirtualInput => sink == node_name,
        _ => false,
    }
}

/// The endpoint with its default mark set by these defaults.
pub open spec fn marked(endpoint: AudioEndpoint, defaults: DefaultEndpoints) -> AudioEndpoint {
    AudioEndpoint {
        is_default: is_default_of(
            endpoint.endpoint_type,
            properties::held(endpoint.identity.node_name),
            properties::held(defaults.source),
            properties::held(defaults.sink),
        ),
        ..endpoint
    }
}

fn same_name(left: &Option<String>, right: &Option<String>) -> (same: bool)
    ensures
        same == (properties::held(*left) == properties::held(*right)),
{
    match (left, right) {
        (Some(left), Some(right)) => same_text(left.as_str(), right.as_str()),
        (None, None) => true,
        _ => false,
    }
}

/// A node that records or plays out of the router is the default exactly where
/// the server names it as its default source, one that plays or records into the
/// router exactly where the server names it as its default sink; neither of the
/// two names has any influence on the other side, and applications and buses are
/// never the default.
pub proof fn law_defaults_are_marked_by_direction(
    endpoint: AudioEndpoint,
    defaults: DefaultEndpoints,
    other_source: Option<String>,
    other_sink: Option<String>,
)
    ensures
        ({
            let node = properties::held(endpoint.identity.node_name);
            let kind = endpoint.endpoint_type;
            let after = marked(endpoint, defaults);
            &&& kind == EndpointType::PhysicalOutput || kind == EndpointType::VirtualInput ==> {
                &&& after.is_default == (properties::held(defaults.sink) == node)
                &&& after == marked(
                    endpoint,
                    DefaultEndpoints { source: other_source, sink: defaults.sink },
                )
            }
            &&& kind == EndpointType::PhysicalInput || kind == EndpointType::VirtualOutput ==> {
                &&& after.is_default == (properties::held(defaults.source) == node)
                &&& after == marked(
                    endpoint,
                    DefaultEndpoints { source: defaults.source, sink: other_sink },
                )
            }
            &&& kind != EndpointType::PhysicalOutput && kind != EndpointType::VirtualInput && kind
                != EndpointType::PhysicalInput && kind != EndpointType::VirtualOutput
                ==> !after.is_default
            &&& after == (AudioEndpoint { is_default: after.is_default, ..endpoint })
        }),
{
}

/// Marks an endpoint as default or not.
pub fn apply_default(endpoint: &mut AudioEndpoint, defaults: &DefaultEndpoints)
    ensures
        *final(endpoint) == marked(*old(endpoint), *defaults),
        old(endpoint).endpoint_type == EndpointType::PhysicalOutput || old(endpoint).endpoint_type
            == EndpointType::VirtualInput ==> final(endpoint).is_default == (properties::held(
            defaults.sink,
        ) == properties::held(old(endpoint).identity.node_name)),
        old(endpoint).endpoint_type == EndpointType::PhysicalInput || old(endpoint).endpoint_type
            == EndpointType::VirtualOutput ==> final(endpoint).is_default == (properties::held(
            defaults.source,
        ) == properties::held(old(endpoint).identity.node_name)),
{
    endpoint.is_default = match endpoint.endpoint_type {
        EndpointType::PhysicalInput | EndpointType::VirtualOutput => same_name(
            &defaults.source,
            &endpoint.identity.node_name,
        ),
        EndpointType::PhysicalOutput | EndpointType::VirtualInput => same_name(
            &defaults.sink,
            &endpoint.identity.node_name,
        ),
        _ => false,
    };
}

/// The clock of the audio graph, as far as the server has told it.
#[derive(Clone, Copy, Debug, PartialEq, Eq, Structural)]
pub struct GraphClock {
    pub rate: Option<u32>,
    pub quantum: Option<u32>,
    pub min_quantum: Option<u32>,
    pub max_quantum: Option<u32>,
}

impl GraphClock {
    /// The clock, once rate and quantum are known.
    pub open spec fn told(self) -> Option<(u32, u32, u32, u32)> {
        match (self.rate, self.quantum) {
            (Some(rate), Some(quantum)) => Some(
                (
                    rate,
                    quantum,
                    match self.min_quantum {
                        Some(quantum) => quantum,
                        None => 32,
                    },
                    match self.max_quantum {
                        Some(quantum) => quantum,
                        None => 8192,
                    },
                ),
            ),
            _ => None,
        }
    }

    /// A clock of which nothing is known.
    pub fn unknown() -> (clock: Self)
        ensures
            clock == (GraphClock { rate: None, quantum: None, min_quantum: None, max_quantum: None }),
    {
        GraphClock { rate: None, quantum: None, min_quantum: None, max_quantum: None }
    }

    /// Rate, quantum, smallest and largest quantum, once the first two are
    /// known.
    pub fn complete(&self) -> (clock: Option<(u32, u32, u32, u32)>)
        ensures
            clock == self.told(),
    {
        match (self.rate, self.quantum) {
            (Some(rate), Some(quantum)) => Some(
                (rate, quantum, self.min_quantum.unwrap_or(32), self.max_quantum.unwrap_or(8192)),
            ),
            _ => None,
        }
    }
}

/// What the server calls a source is heard by the router and what it calls a
/// sink is played to; a virtual one of either stands the other way round. A
/// stream that applications play is an application output, one that they
/// record is an application input. No other node is offered.
pub proof fn law_classes_have_directions(media_class: Seq<char>, is_virtual: bool)
    ensures
        text::begins_with(media_class, "Audio/Source"@) ==> class_type(media_class, is_virtual)
            == Some(
            if is_virtual {
                EndpointType::VirtualOutput
            } else {
                EndpointType::PhysicalInput
            },
        ),
        text::begins_with(media_class, "Audio/Sink"@) ==> class_type(media_class, is_virtual)
            == Some(
            if is_virtual {
                EndpointType::VirtualInput
            } else {
                EndpointType::PhysicalOutput
            },
        ),
        text::begins_with(media_class, "Stream/Output/Audio"@) ==> class_type(
            media_class,
            is_virtual,
        ) == Some(EndpointType::ApplicationOutput),
        text::begins_with(media_class, "Stream/Input/Audio"@) ==> class_type(
            media_class,
            is_virtual,
        ) == Some(EndpointType::ApplicationInput),
        class_type(media_class, is_virtual) is Some <==> text::begins_with(
            media_class,
            "Audio/Source"@,
        ) || text::begins_with(media_class, "Audio/Sink"@) || text::begins_with(
            media_class,
            "Stream/Output/Audio"@,
        ) || text::begins_with(media_class, "Stream/Input/Audio"@),
{
    reveal_strlit("Audio/Source");
    reveal_strlit("Audio/Sink");
    reveal_strlit("Stream/Output/Audio");
    reveal_strlit("Stream/Input/Audio");
    text::law_a_prefix_comes_off(media_class, "Audio/Source"@);
    text::law_a_prefix_comes_off(media_class, "Audio/Sink"@);
    text::law_a_prefix_comes_off(media_class, "Stream/Output/Audio"@);
    text::law_a_prefix_comes_off(media_class, "Stream/Input/Audio"@);
    assert("Audio/Source"@[7] == 'o' && "Audio/Sink"@[7] == 'i');
    assert("Audio/Source"@[0] == 'A' && "Audio/Sink"@[0] == 'A');
    assert("Stream/Output/Audio"@[0] == 'S' && "Stream/Input/Audio"@[0] == 'S');
    assert("Stream/Output/Audio"@[7] == 'O' && "Stream/Input/Audio"@[7] == 'I');
}

/// The state that the server reports of a node is the state of its endpoint;
/// one that is being created is available.
pub proof fn law_node_states_are_kept()
    ensures
        state_of_node(NodeState::Creating) == EndpointState::Available,
        state_of_node(NodeState::Suspended) == EndpointState::Suspended,
        state_of_node(NodeState::Idle) == EndpointState::Idle,
        state_of_node(NodeState::Running) == EndpointState::Running,
        state_of_node(NodeState::Error) == EndpointState::Error,
{
}

/// The channel count is the stated one, else that of the position list, and
/// two where neither says anything or says none.
pub proof fn law_channels_are_stated_listed_or_two(props: Seq<(Seq<char>, Seq<char>)>)
    ensures
        ({
            let stated = properties::parsed_property(
                properties::property(props, "audio.channels"@),
            );
            let listed = properties::property(props, "audio.position"@);
            &&& stated is Some && stated->0 > 0 ==> told_channels(props) == stated->0
            &&& stated == Some(0u32) ==> told_channels(props) == 2
            &&& stated is None && listed is Some && position_channels(listed->0) > 0
                ==> told_channels(props) == position_channels(listed->0)
            &&& stated is None && listed is None ==> told_channels(props) == 2
            &&& told_channels(props) > 0
        }),
{
}

/// A field between commas is counted once, as soon as it holds something that
/// is no blank: a comma ends the field, a blank adds nothing, and any other
/// character counts where it is the first of its field.
pub proof fn law_fields_are_counted_once(front: Seq<char>, next: char)
    ensures
        filled_fields(Seq::<char>::empty()) == 0,
        filled_fields(front.push(',')) == filled_fields(front),
        !last_field_filled(front.push(',')),
        next != ',' && text::is_blank(next) ==> filled_fields(front.push(next)) == filled_fields(
            front,
        ) && last_field_filled(front.push(next)) == last_field_filled(front),
        next != ',' && !text::is_blank(next) ==> {
            &&& last_field_filled(front.push(next))
            &&& filled_fields(front.push(next)) == filled_fields(front) + (if last_field_filled(
                front,
            ) {
                0nat
            } else {
                1nat
            })
        },
{
    assert(front.push(next).drop_last() =~= front);
    assert(front.push(',').drop_last() =~= front);
}

/// A device is known by what the server says of it, each under its own key.
pub proof fn law_an_identity_holds_what_is_said(
    identity: EndpointIdentity,
    props: Seq<(Seq<char>, Seq<char>)>,
    media_class: Seq<char>,
    node_name: Seq<char>,
)
    requires
        identifies(identity, props, media_class, node_name),
    ensures
        identity.backend@ == "pipewire"@,
        properties::held(identity.serial) == properties::property(props, "device.serial"@),
        properties::held(identity.bus) == properties::property(props, "device.bus"@),
        properties::held(identity.vendor) == properties::property(props, "device.vendor.id"@),
        properties::held(identity.product) == properties::property(props, "device.product.id"@),
        properties::held(identity.profile) == properties::property(props, "device.profile.name"@),
        properties::held(identity.alsa_path) == properties::property(props, "api.alsa.path"@),
        properties::held(identity.node_name) == Some(node_name),
        properties::held(identity.media_class) == Some(media_class),
        properties::property(props, "device.name"@) is Some ==> properties::held(
            identity.device_name,
        ) == properties::property(props, "device.name"@),
        properties::property(props, "device.name"@) is None ==> properties::held(
            identity.device_name,
        ) == properties::property(props, "device.description"@),
{
}

/// An endpoint has the identifier of its direction, serial number, bus,
/// vendor, product, device, node and profile, in this order: two nodes that
/// agree in these have the same identifier, whatever else they say.
pub proof fn law_endpoints_keep_their_identifiers(
    one: EndpointIdentity,
    other: EndpointIdentity,
    kind: EndpointType,
)
    requires
        one.serial is Some,
        one.bus is Some,
        one.vendor is Some,
        one.product is Some,
        one.device_name is Some,
        one.node_name is Some,
        one.profile is Some,
    ensures
        endpoint_key(one, kind) == endpoint::kind_name(kind) + "|"@ + one.serial->0@ + "|"@
            + one.bus->0@ + "|"@ + one.vendor->0@ + "|"@ + one.product->0@ + "|"@
            + one.device_name->0@ + "|"@ + one.node_name->0@ + "|"@ + one.profile->0@,
        other.serial is Some && other.serial->0@ == one.serial->0@ && other.bus is Some
            && other.bus->0@ == one.bus->0@ && other.vendor is Some && other.vendor->0@
            == one.vendor->0@ && other.product is Some && other.product->0@ == one.product->0@
            && other.device_name is Some && other.device_name->0@ == one.device_name->0@
            && other.node_name is Some && other.node_name->0@ == one.node_name->0@
            && other.profile is Some && other.profile->0@ == one.profile->0@ ==> endpoint_key(
            one,
            kind,
        ) == endpoint_key(other, kind),
        device_key(one) == Some("device|"@ + one.serial->0@),
        other.serial is None && other.device_name is Some ==> device_key(other) == Some(
            "device|"@ + other.device_name->0@,
        ),
        other.serial is None && other.device_name is None ==> device_key(other) is None,
        derived_device(None) is None,
        derived_device(Some("device|"@ + one.serial->0@)) == Some(
            DeviceId {
                value: ids::uuid_from_name(
                    ORION_ID_NAMESPACE,
                    vstd::utf8::encode_utf8("device|"@ + one.serial->0@),
                ),
            },
        ),
{
}

/// The channels of an endpoint are numbered from zero, each identified by the
/// endpoint and its number.
pub proof fn law_channels_are_numbered(endpoint: EndpointId, count: u32, at: int)
    requires
        0 <= at < count,
    ensures
        channel_ids(endpoint, count).len() == count,
        channel_ids(endpoint, count)[at].value == ids::uuid_from_name(
            ORION_ID_NAMESPACE,
            vstd::utf8::encode_utf8(
                "channel|"@ + ids::hyphenated(endpoint.value) + "|"@ + text::decimal(at as nat),
            ),
        ),
{
}

/// A node is offered exactly where it has a class and a name, is no stream of
/// the router itself, and its class has a direction. It is virtual where its
/// class, its property or its name says so.
pub proof fn law_own_streams_are_not_offered(props: Seq<(Seq<char>, Seq<char>)>)
    ensures
        ({
            let class = properties::property(props, "media.class"@);
            let name = properties::property(props, "node.name"@);
            let owner = properties::property(props, "application.id"@);
            let is_virtual = text::holds_part(class->0, "Virtual"@) || properties::says_yes(
                properties::property(props, "node.virtual"@),
            ) || text::begins_with(name->0, "orion."@);
            &&& class is None || name is None ==> offered_type(props) is None
            &&& class is Some && text::begins_with(class->0, "Stream/"@) && owner == Some(
                "io.github.gardun0.orion"@,
            ) ==> offered_type(props) is None
            &&& class is Some && name is Some && (!text::begins_with(class->0, "Stream/"@) || owner
                != Some("io.github.gardun0.orion"@)) ==> offered_type(props) == class_type(
                class->0,
                is_virtual,
            )
        }),
{
}

/// The virtual device of a node is the one that its property names, else the
/// one in its name, as an input or as an output.
pub proof fn law_virtual_nodes_name_their_device(
    props: Seq<(Seq<char>, Seq<char>)>,
    node_name: Seq<char>,
    rest: Seq<char>,
    device: u128,
)
    ensures
        ({
            let stated = properties::property(props, "orion.virtual-device-id"@);
            let found = node_virtual_device(props, node_name);
            &&& stated is Some && ids::uuid_in_text(stated->0) == Some(device) ==> found == Some(
                VirtualDeviceId { value: device },
            )
            &&& stated is None && ids::uuid_in_text(rest) == Some(device) && node_name
                == "orion.virtual-input."@ + rest ==> found == Some(
                VirtualDeviceId { value: device },
            )
            &&& stated is None && ids::uuid_in_text(rest) == Some(device) && node_name
                == "orion.virtual-output."@ + rest ==> found == Some(
                VirtualDeviceId { value: device },
            )
            &&& stated is None && !text::begins_with(node_name, "orion.virtual-input."@)
                && !text::begins_with(node_name, "orion.virtual-output."@) ==> found is None
        }),
{
    reveal_strlit("orion.virtual-input.");
    reveal_strlit("orion.virtual-output.");
    assert("orion.virtual-input."@[14] == 'i' && "orion.virtual-output."@[14] == 'o');
    text::law_a_prefix_comes_off(rest, "orion.virtual-input."@);
    text::law_a_prefix_comes_off(rest, "orion.virtual-output."@);
    text::law_a_prefix_comes_off(node_name, "orion.virtual-input."@);
    if node_name == "orion.virtual-output."@ + rest {
        assert(node_name[14] == "orion.virtual-output."@[14]);
        if text::begins_with(node_name, "orion.virtual-input."@) {
            assert(node_name[14] == "orion.virtual-input."@[14]);
        }
    }
}

/// A new endpoint is called what the server describes it as, else by its nick,
/// else by its media, else by its node; it is available, at unity gain, audible
/// and centered, with the channels and the rate that were told.
pub proof fn law_a_new_endpoint_is_at_rest(
    endpoint: AudioEndpoint,
    id: u32,
    props: Seq<(Seq<char>, Seq<char>)>,
)
    requires
        describes(endpoint, id, props),
    ensures
        endpoint.runtime_id == Some(id),
        offered_type(props) == Some(endpoint.endpoint_type),
        endpoint.state == EndpointState::Available,
        !endpoint.is_default,
        !endpoint.muted,
        endpoint.gain.amount().bits == 0,
        endpoint.balance.amount().bits == 0,
        endpoint.channel_count == told_channels(props),
        endpoint.channels@.len() == endpoint.channel_count,
        endpoint.sample_rate == properties::parsed_property(
            properties::property(props, "audio.rate"@),
        ),
        properties::property(props, "node.description"@) matches Some(text) ==> {
            endpoint.name@ == text && endpoint.description@ == text
        },
        properties::property(props, "node.description"@) is None && properties::property(
            props,
            "node.nick"@,
        ) is Some ==> endpoint.name@ == properties::property(props, "node.nick"@)->0,
        properties::property(props, "node.description"@) is None && properties::property(
            props,
            "node.nick"@,
        ) is None && properties::property(props, "media.name"@) is Some ==> endpoint.name@
            == properties::property(props, "media.name"@)->0 && endpoint.description@
            == properties::property(props, "media.name"@)->0,
        properties::property(props, "node.description"@) is None && properties::property(
            props,
            "node.nick"@,
        ) is None && properties::property(props, "media.name"@) is None ==> endpoint.name@
            == properties::property(props, "node.name"@)->0 && endpoint.description@
            == properties::property(props, "node.name"@)->0,
{
}

/// Newer properties change what they say and nothing else: a description the
/// two names, a channel count the channels, a rate the rate.
pub proof fn law_newer_properties_are_followed(
    before: AudioEndpoint,
    after: AudioEndpoint,
    props: Seq<(Seq<char>, Seq<char>)>,
)
    requires
        follows_properties(before, after, props),
    ensures
        after.id == before.id,
        after.endpoint_type == before.endpoint_type,
        after.state == before.state,
        after.is_default == before.is_default,
        after.gain == before.gain,
        after.muted == before.muted,
        after.balance == before.balance,
        after.virtual_device_id == before.virtual_device_id,
        after.runtime_id == before.runtime_id,
        properties::property(props, "node.description"@) matches Some(text) ==> {
            after.name@ == text && after.description@ == text
        },
        properties::property(props, "node.description"@) is None ==> after.name == before.name
            && after.description == before.description,
        properties::parsed_property(properties::property(props, "audio.channels"@)) matches Some(
            count,
        ) ==> after.channel_count == count && after.channels@.len() == count,
        properties::property(props, "audio.channels"@) is None ==> after.channel_count
            == before.channel_count && after.channels == before.channels,
        properties::parsed_property(properties::property(props, "audio.rate"@)) is Some
            ==> after.sample_rate == properties::parsed_property(
            properties::property(props, "audio.rate"@),
        ),
        properties::property(props, "audio.rate"@) is None ==> after.sample_rate
            == before.sample_rate,
{
}

/// The clock is told once its rate and its quantum are known, each in its own
/// place; a bound that was not told is 32 below and 8192 above.
pub proof fn law_the_clock_is_told_in_order(clock: GraphClock)
    ensures
        clock.told() is Some <==> clock.rate is Some && clock.quantum is Some,
        clock.told() matches Some(told) ==> {
            &&& Some(told.0) == clock.rate
            &&& Some(told.1) == clock.quantum
            &&& clock.min_quantum is Some ==> Some(told.2) == clock.min_quantum
            &&& clock.min_quantum is None ==> told.2 == 32
            &&& clock.max_quantum is Some ==> Some(told.3) == clock.max_quantum
            &&& clock.max_quantum is None ==> told.3 == 8192
        },
{
}

/// Brackets come off both ends of a text and nowhere else.
pub proof fn law_brackets_come_off_the_ends(value: Seq<char>)
    ensures
        unbracketed_start(value).is_suffix_of(value),
        unbracketed_start(value).len() > 0 ==> unbracketed_start(value)[0] != '['
            && unbracketed_start(value)[0] != ']',
        forall|i: int|
            0 <= i < value.len() - unbracketed_start(value).len() ==> (#[trigger] value[i] == '['
                || value[i] == ']'),
        unbracketed_end(value).is_prefix_of(value),
        unbracketed_end(value).len() > 0 ==> unbracketed_end(value).last() != '['
            && unbracketed_end(value).last() != ']',
        forall|i: int|
            unbracketed_end(value).len() <= i < value.len() ==> (#[trigger] value[i] == '['
                || value[i] == ']'),
    decreases value.len(),
{
    if value.len() > 0 {
        let behind = value.skip(1);
        let before = value.drop_last();
        law_brackets_come_off_the_ends(behind);
        law_brackets_come_off_the_ends(before);
        assert forall|i: int| 1 <= i < value.len() implies (#[trigger] value[i]) == behind[i
            - 1] by {}
        assert forall|i: int| 0 <= i < value.len() - 1 implies (#[trigger] value[i])
            == before[i] by {}
        assert(value.last() == value[value.len() - 1]);
    }
}

/// A node looks virtual where its class says so, its property says so, or it bears
/// a name of the router; a stream is the router's own where it bears its
/// identifier; an identifier of a device is taken as it is read; and a channel is
/// known by its endpoint and its number.
pub proof fn law_nodes_are_known_by_what_they_say(
    props: Seq<(Seq<char>, Seq<char>)>,
    media_class: Seq<char>,
    node_name: Seq<char>,
    value: Option<u128>,
    stated: Option<Seq<char>>,
    endpoint: EndpointId,
    index: u32,
)
    ensures
        looks_virtual(props, media_class, node_name) <==> text::holds_part(
            media_class,
            "Virtual"@,
        ) || properties::says_yes(properties::property(props, "node.virtual"@))
            || text::begins_with(node_name, "orion."@),
        own_stream(props) ==> properties::property(props, "application.id"@) == Some(
            "io.github.gardun0.orion"@,
        ),
        properties::property(props, "application.id"@) == Some("io.github.gardun0.orion"@)
            && properties::property(props, "media.class"@) is Some && text::begins_with(
            properties::property(props, "media.class"@)->0,
            "Stream/"@,
        ) ==> own_stream(props),
        value is None ==> virtual_device(value) is None,
        value matches Some(number) ==> virtual_device(value) is Some && virtual_device(
            value,
        )->0.value == number,
        stated is None ==> virtual_in(stated) is None,
        stated matches Some(name) ==> virtual_in(stated) == virtual_device(
            ids::uuid_in_text(name),
        ),
        stated is None ==> default_name(stated) is None,
        stated matches Some(name) ==> default_name(stated) == json::json_text_under(
            name,
            "name"@,
        ),
        channel_id(endpoint, index).value == ids::uuid_from_name(
            ORION_ID_NAMESPACE,
            vstd::utf8::encode_utf8(
                "channel|"@ + ids::hyphenated(endpoint.value) + "|"@ + text::decimal(
                    index as nat,
                ),
            ),
        ),
{
}

} // verus!
