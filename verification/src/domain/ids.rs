//! Identifiers of devices, endpoints, routes, channels and commands.
use vstd::prelude::*;

use crate::table::Key;

verus! {

/// The hexadecimal digit number `place` of a UUID, the most significant first.
pub open spec fn nibble(value: u128, place: int) -> int {
    (value as int / vstd::arithmetic::power::pow(16, (31 - place) as nat)) % 16
}

/// The lower-case character of a hexadecimal digit.
pub open spec fn hex_char(digit: int) -> char {
    if digit < 10 {
        (48 + digit) as char
    } else {
        (87 + digit) as char
    }
}

/// The number of hyphens before position `at` of a hyphenated UUID.
pub open spec fn hyphens_before(at: int) -> int {
    if at <= 8 {
        0
    } else if at <= 13 {
        1
    } else if at <= 18 {
        2
    } else if at <= 23 {
        3
    } else {
        4
    }
}

/// A UUID as text: lower-case digits in groups of 8, 4, 4, 4 and 12.
pub open spec fn hyphenated(value: u128) -> Seq<char> {
    Seq::new(
        36,
        |at: int|
            if at == 8 || at == 13 || at == 18 || at == 23 {
                '-'
            } else {
                hex_char(nibble(value, at - hyphens_before(at)))
            },
    )
}

/// What `uuid::Uuid::parse_str` reads out of a text, as a number.
pub uninterp spec fn uuid_in_text(text: Seq<char>) -> Option<u128>;

/// What `uuid::Uuid::new_v5` derives from a namespace and a name, as a number.
pub uninterp spec fn uuid_from_name(namespace: u128, name: Seq<u8>) -> u128;

/// Calls `uuid::Uuid::new_v4`. The digits are random but for two: the version
/// digit is four, and the variant digit is one of 8, 9, a and b.
#[verifier::external_body]
fn random_uuid() -> (value: u128)
    ensures
        nibble(value, 12) == 4,
        8 <= nibble(value, 16) <= 11,
{
    uuid::Uuid::new_v4().as_u128()
}

/// Calls `uuid::Uuid::new_v5`: a hash of the namespace and the name, so the
/// same two give the same result everywhere.
#[verifier::external_body]
fn named_uuid(namespace: u128, name: &[u8]) -> (value: u128)
    ensures
        value == uuid_from_name(namespace, name@),
{
    uuid::Uuid::new_v5(&uuid::Uuid::from_u128(namespace), name).as_u128()
}

/// Calls the `Display` impl of `uuid::Uuid`, which writes the hyphenated form.
#[verifier::external_body]
fn hyphenated_text(value: u128) -> (text: String)
    ensures
        text@ == hyphenated(value),
{
    uuid::Uuid::from_u128(value).to_string()
}

/// Calls `uuid::Uuid::parse_str`. What it accepts depends on the text alone,
/// and it reads the hyphenated form of a UUID back as that UUID.
#[verifier::external_body]
fn parse_uuid_text(text: &str) -> (value: Option<u128>)
    ensures
        value == uuid_in_text(text@),
        forall|written: u128| text@ == #[trigger] hyphenated(written) ==> value == Some(written),
{
    uuid::Uuid::parse_str(text).ok().map(|value| value.as_u128())
}

/// A random UUID as text.
pub fn random_text() -> (text: String)
    ensures
        exists|value: u128|
            nibble(value, 12) == 4 && text@ == #[trigger] hyphenated(value),
{
    let value: u128 = random_uuid();
    let text = hyphenated_text(value);
    assert(text@ == hyphenated(value));
    text
}

/// Derives a UUID from a namespace and the bytes of a name.
pub fn uuid_of_name(namespace: u128, name: &str) -> (value: u128)
    ensures
        value == uuid_from_name(namespace, vstd::utf8::encode_utf8(name@)),
{
    named_uuid(namespace, name.as_bytes())
}

/// Reads a UUID out of a text.
pub fn uuid_of_text(text: &str) -> (value: Option<u128>)
    ensures
        value == uuid_in_text(text@),
        forall|written: u128| text@ == #[trigger] hyphenated(written) ==> value == Some(written),
{
    parse_uuid_text(text)
}

/// A hardware device.
#[derive(Clone, Copy, Debug, PartialEq, Eq, Hash, Structural)]
pub struct DeviceId {
    pub value: u128,
}

impl DeviceId {
    /// A new random identifier.
    pub fn new() -> (id: Self)
        ensures
            nibble(id.value, 12) == 4,
            8 <= nibble(id.value, 16) <= 11,
    {
        DeviceId { value: random_uuid() }
    }

    pub fn from_uuid(value: u128) -> (id: Self)
        ensures
            id.value == value,
    {
        DeviceId { value }
    }

    /// The identifier as a hyphenated UUID.
    pub fn to_text(&self) -> (text: String)
        ensures
            text@ == hyphenated(self.value),
    {
        hyphenated_text(self.value)
    }

    /// Reads an identifier back from its text.
    pub fn from_text(text: &str) -> (id: Option<Self>)
        ensures
            match id {
                Some(id) => uuid_in_text(text@) == Some(id.value),
                None => uuid_in_text(text@) is None,
            },
            forall|written: u128|
                text@ == #[trigger] hyphenated(written) ==> id == Some(DeviceId { value: written }),
    {
        match parse_uuid_text(text) {
            Some(value) => Some(DeviceId { value }),
            None => None,
        }
    }
}

impl Default for DeviceId {
    /// A new random identifier.
    fn default() -> (id: Self)
        ensures
            nibble(id.value, 12) == 4,
            8 <= nibble(id.value, 16) <= 11,
    {
        DeviceId::new()
    }
}

impl Key for DeviceId {
    fn same(&self, other: &Self) -> (same: bool) {
        self.value == other.value
    }
}

/// One audio endpoint: a side of a device, an application stream or a virtual device.
#[derive(Clone, Copy, Debug, PartialEq, Eq, Hash, Structural)]
pub struct EndpointId {
    pub value: u128,
}

impl EndpointId {
    /// A new random identifier.
    pub fn new() -> (id: Self)
        ensures
            nibble(id.value, 12) == 4,
            8 <= nibble(id.value, 16) <= 11,
    {
        EndpointId { value: random_uuid() }
    }

    pub fn from_uuid(value: u128) -> (id: Self)
        ensures
            id.value == value,
    {
        EndpointId { value }
    }

    /// The identifier as a hyphenated UUID.
    pub fn to_text(&self) -> (text: String)
        ensures
            text@ == hyphenated(self.value),
    {
        hyphenated_text(self.value)
    }

    /// Reads an identifier back from its text.
    pub fn from_text(text: &str) -> (id: Option<Self>)
        ensures
            match id {
                Some(id) => uuid_in_text(text@) == Some(id.value),
                None => uuid_in_text(text@) is None,
            },
            forall|written: u128|
                text@ == #[trigger] hyphenated(written) ==> id == Some(EndpointId { value: written }),
    {
        match parse_uuid_text(text) {
            Some(value) => Some(EndpointId { value }),
            None => None,
        }
    }
}

impl Default for EndpointId {
    /// A new random identifier.
    fn default() -> (id: Self)
        ensures
            nibble(id.value, 12) == 4,
            8 <= nibble(id.value, 16) <= 11,
    {
        EndpointId::new()
    }
}

impl Key for EndpointId {
    fn same(&self, other: &Self) -> (same: bool) {
        self.value == other.value
    }
}

/// One connection between two endpoints.
#[derive(Clone, Copy, Debug, PartialEq, Eq, Hash, Structural)]
pub struct RouteId {
    pub value: u128,
}

impl RouteId {
    /// A new random identifier.
    pub fn new() -> (id: Self)
        ensures
            nibble(id.value, 12) == 4,
            8 <= nibble(id.value, 16) <= 11,
    {
        RouteId { value: random_uuid() }
    }

    pub fn from_uuid(value: u128) -> (id: Self)
        ensures
            id.value == value,
    {
        RouteId { value }
    }

    /// The identifier as a hyphenated UUID.
    pub fn to_text(&self) -> (text: String)
        ensures
            text@ == hyphenated(self.value),
    {
        hyphenated_text(self.value)
    }

    /// Reads an identifier back from its text.
    pub fn from_text(text: &str) -> (id: Option<Self>)
        ensures
            match id {
                Some(id) => uuid_in_text(text@) == Some(id.value),
                None => uuid_in_text(text@) is None,
            },
            forall|written: u128|
                text@ == #[trigger] hyphenated(written) ==> id == Some(RouteId { value: written }),
    {
        match parse_uuid_text(text) {
            Some(value) => Some(RouteId { value }),
            None => None,
        }
    }
}

impl Default for RouteId {
    /// A new random identifier.
    fn default() -> (id: Self)
        ensures
            nibble(id.value, 12) == 4,
            8 <= nibble(id.value, 16) <= 11,
    {
        RouteId::new()
    }
}

impl Key for RouteId {
    fn same(&self, other: &Self) -> (same: bool) {
        self.value == other.value
    }
}

/// One audio channel of an endpoint.
#[derive(Clone, Copy, Debug, PartialEq, Eq, Hash, Structural)]
pub struct ChannelId {
    pub value: u128,
}

impl ChannelId {
    /// A new random identifier.
    pub fn new() -> (id: Self)
        ensures
            nibble(id.value, 12) == 4,
            8 <= nibble(id.value, 16) <= 11,
    {
        ChannelId { value: random_uuid() }
    }

    pub fn from_uuid(value: u128) -> (id: Self)
        ensures
            id.value == value,
    {
        ChannelId { value }
    }

    /// The identifier as a hyphenated UUID.
    pub fn to_text(&self) -> (text: String)
        ensures
            text@ == hyphenated(self.value),
    {
        hyphenated_text(self.value)
    }

    /// Reads an identifier back from its text.
    pub fn from_text(text: &str) -> (id: Option<Self>)
        ensures
            match id {
                Some(id) => uuid_in_text(text@) == Some(id.value),
                None => uuid_in_text(text@) is None,
            },
            forall|written: u128|
                text@ == #[trigger] hyphenated(written) ==> id == Some(ChannelId { value: written }),
    {
        match parse_uuid_text(text) {
            Some(value) => Some(ChannelId { value }),
            None => None,
        }
    }
}

impl Default for ChannelId {
    /// A new random identifier.
    fn default() -> (id: Self)
        ensures
            nibble(id.value, 12) == 4,
            8 <= nibble(id.value, 16) <= 11,
    {
        ChannelId::new()
    }
}

impl Key for ChannelId {
    fn same(&self, other: &Self) -> (same: bool) {
        self.value == other.value
    }
}

/// A virtual device that the router created.
#[derive(Clone, Copy, Debug, PartialEq, Eq, Hash, Structural)]
pub struct VirtualDeviceId {
    pub value: u128,
}

impl VirtualDeviceId {
    /// A new random identifier.
    pub fn new() -> (id: Self)
        ensures
            nibble(id.value, 12) == 4,
            8 <= nibble(id.value, 16) <= 11,
    {
        VirtualDeviceId { value: random_uuid() }
    }

    pub fn from_uuid(value: u128) -> (id: Self)
        ensures
            id.value == value,
    {
        VirtualDeviceId { value }
    }

    /// The identifier as a hyphenated UUID.
    pub fn to_text(&self) -> (text: String)
        ensures
            text@ == hyphenated(self.value),
    {
        hyphenated_text(self.value)
    }

    /// Reads an identifier back from its text.
    pub fn from_text(text: &str) -> (id: Option<Self>)
        ensures
            match id {
                Some(id) => uuid_in_text(text@) == Some(id.value),
                None => uuid_in_text(text@) is None,
            },
            forall|written: u128|
                text@ == #[trigger] hyphenated(written) ==> id == Some(VirtualDeviceId { value: written }),
    {
        match parse_uuid_text(text) {
            Some(value) => Some(VirtualDeviceId { value }),
            None => None,
        }
    }
}

impl Default for VirtualDeviceId {
    /// A new random identifier.
    fn default() -> (id: Self)
        ensures
            nibble(id.value, 12) == 4,
            8 <= nibble(id.value, 16) <= 11,
    {
        VirtualDeviceId::new()
    }
}

impl Key for VirtualDeviceId {
    fn same(&self, other: &Self) -> (same: bool) {
        self.value == other.value
    }
}

/// One command on its way to the engine.
#[derive(Clone, Copy, Debug, PartialEq, Eq, Hash, Structural)]
pub struct CommandId {
    pub value: u128,
}

impl CommandId {
    /// A new random identifier.
    pub fn new() -> (id: Self)
        ensures
            nibble(id.value, 12) == 4,
            8 <= nibble(id.value, 16) <= 11,
    {
        CommandId { value: random_uuid() }
    }

    pub fn from_uuid(value: u128) -> (id: Self)
        ensures
            id.value == value,
    {
        CommandId { value }
    }

    /// The identifier as a hyphenated UUID.
    pub fn to_text(&self) -> (text: String)
        ensures
            text@ == hyphenated(self.value),
    {
        hyphenated_text(self.value)
    }

    /// Reads an identifier back from its text.
    pub fn from_text(text: &str) -> (id: Option<Self>)
        ensures
            match id {
                Some(id) => uuid_in_text(text@) == Some(id.value),
                None => uuid_in_text(text@) is None,
            },
            forall|written: u128|
                text@ == #[trigger] hyphenated(written) ==> id == Some(CommandId { value: written }),
    {
        match parse_uuid_text(text) {
            Some(value) => Some(CommandId { value }),
            None => None,
        }
    }
}

impl Default for CommandId {
    /// A new random identifier.
    fn default() -> (id: Self)
        ensures
            nibble(id.value, 12) == 4,
            8 <= nibble(id.value, 16) <= 11,
    {
        CommandId::new()
    }
}

impl Key for CommandId {
    fn same(&self, other: &Self) -> (same: bool) {
        self.value == other.value
    }
}

/// A source and a destination: the two ends of a connection.
#[derive(Clone, Copy, Debug, PartialEq, Eq, Structural)]
pub struct EndpointPair {
    pub source: EndpointId,
    pub destination: EndpointId,
}

impl Key for EndpointPair {
    fn same(&self, other: &Self) -> (same: bool) {
        self.source.value == other.source.value && self.destination.value
            == other.destination.value
    }
}

/// The text of an identifier has 36 characters: lower-case digits in groups of
/// eight, four, four, four and twelve with hyphens between them, the most
/// significant digit first. The digits together are the identifier.
pub proof fn law_an_identifier_is_written_digit_by_digit(value: u128, place: int)
    requires
        0 <= place < 32,
    ensures
        ({
            let text = hyphenated(value);
            let at = place + (if place < 8 {
                0int
            } else if place < 12 {
                1
            } else if place < 16 {
                2
            } else if place < 20 {
                3
            } else {
                4
            });
            let digit = (value as int / vstd::arithmetic::power::pow(16, (31 - place) as nat)) % 16;
            &&& text.len() == 36
            &&& text[8] == '-' && text[13] == '-' && text[18] == '-' && text[23] == '-'
            &&& digit < 10 ==> text[at] as int == '0' as int + digit
            &&& digit >= 10 ==> text[at] as int == 'a' as int + digit - 10
        }),
{
    let digit = (value as int / vstd::arithmetic::power::pow(16, (31 - place) as nat)) % 16;
    assert(0 <= digit < 16);
}

} // verus!
