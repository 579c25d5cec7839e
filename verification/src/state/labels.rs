//! The choices that the mixer window offers, and what they are called.
use vstd::prelude::*;

use crate::domain::endpoint::EndpointType;
use crate::realtime::stage;
use crate::text::{decimal_text, joined, joined3};
use crate::text;

verus! {

/// The sample rates that can be chosen.
pub const SAMPLE_RATE_OPTIONS: [u32; 10] = [
    44_100,
    48_000,
    88_200,
    96_000,
    176_400,
    192_000,
    352_800,
    384_000,
    705_600,
    768_000,
];

/// The buffer sizes that can be chosen.
pub const BUFFER_SIZE_OPTIONS: [u32; 10] = [
    32,
    64,
    128,
    256,
    512,
    1_024,
    2_048,
    4_096,
    8_192,
    16_384,
];

#[derive(Clone, Copy, Debug, PartialEq, Eq, Structural)]
pub enum EqBand {
    Low,
    Mid,
    High,
}

/// What a band is called.
pub open spec fn band_label(band: EqBand) -> Seq<char> {
    match band {
        EqBand::Low => "Low"@,
        EqBand::Mid => "Mid"@,
        EqBand::High => "High"@,
    }
}

impl EqBand {
    pub fn label(self) -> (label: &'static str)
        ensures
            label@ == band_label(self),
    {
        match self {
            EqBand::Low => "Low",
            EqBand::Mid => "Mid",
            EqBand::High => "High",
        }
    }
}

#[derive(Clone, Copy, Debug, PartialEq, Eq, Structural)]
pub enum AppView {
    Mixer,
    Routing,
    Devices,
    Scenes,
    Settings,
}

impl AppView {
    pub const ALL: [AppView; 5] = [
        AppView::Mixer,
        AppView::Routing,
        AppView::Devices,
        AppView::Scenes,
        AppView::Settings,
    ];

    pub fn label(self) -> (label: &'static str)
        ensures
            label@ == (match self {
                AppView::Mixer => "Mixer"@,
                AppView::Routing => "Routing"@,
                AppView::Devices => "Channels"@,
                AppView::Scenes => "Scenes"@,
                AppView::Settings => "Settings"@,
            }),
    {
        match self {
            AppView::Mixer => "Mixer",
            AppView::Routing => "Routing",
            AppView::Devices => "Channels",
            AppView::Scenes => "Scenes",
            AppView::Settings => "Settings",
        }
    }
}

#[derive(Clone, Copy, Debug, PartialEq, Eq, Structural)]
pub enum SourceKind {
    Physical,
    Desktop,
    Application,
    Virtual,
}

/// The accent colors of channels.
#[derive(Clone, Copy, Debug, PartialEq, Eq, Structural)]
pub enum ChannelColor {
    Cyan,
    Blue,
    Purple,
    Teal,
    Amber,
    Red,
    Green,
    Pink,
}

/// The colors in their order.
pub open spec fn color_order() -> Seq<ChannelColor> {
    seq![
        ChannelColor::Cyan,
        ChannelColor::Blue,
        ChannelColor::Purple,
        ChannelColor::Teal,
        ChannelColor::Amber,
        ChannelColor::Red,
        ChannelColor::Green,
        ChannelColor::Pink,
    ]
}

/// The place of a color among all.
pub open spec fn color_place(color: ChannelColor) -> int {
    match color {
        ChannelColor::Cyan => 0,
        ChannelColor::Blue => 1,
        ChannelColor::Purple => 2,
        ChannelColor::Teal => 3,
        ChannelColor::Amber => 4,
        ChannelColor::Red => 5,
        ChannelColor::Green => 6,
        ChannelColor::Pink => 7,
    }
}

/// The red, green and blue of a color.
pub open spec fn color_value(color: ChannelColor) -> u32 {
    match color {
        ChannelColor::Cyan => 0x22D3EE,
        ChannelColor::Blue => 0x60A5FA,
        ChannelColor::Purple => 0xA78BFA,
        ChannelColor::Teal => 0x2DD4BF,
        ChannelColor::Amber => 0xF59E0B,
        ChannelColor::Red => 0xF87171,
        ChannelColor::Green => 0x34D399,
        ChannelColor::Pink => 0xF472B6,
    }
}

impl ChannelColor {
    pub const ALL: [ChannelColor; 8] = [
        ChannelColor::Cyan,
        ChannelColor::Blue,
        ChannelColor::Purple,
        ChannelColor::Teal,
        ChannelColor::Amber,
        ChannelColor::Red,
        ChannelColor::Green,
        ChannelColor::Pink,
    ];

    pub fn value(self) -> (value: u32)
        ensures
            value == color_value(self),
    {
        match self {
            ChannelColor::Cyan => 0x22D3EE,
            ChannelColor::Blue => 0x60A5FA,
            ChannelColor::Purple => 0xA78BFA,
            ChannelColor::Teal => 0x2DD4BF,
            ChannelColor::Amber => 0xF59E0B,
            ChannelColor::Red => 0xF87171,
            ChannelColor::Green => 0x34D399,
            ChannelColor::Pink => 0xF472B6,
        }
    }

    /// The next color in their order; the first follows the last.
    pub fn next(self) -> (color: Self)
        ensures
            color == color_order()[(color_place(self) + 1) % 8],
    {
        match self {
            ChannelColor::Cyan => ChannelColor::Blue,
            ChannelColor::Blue => ChannelColor::Purple,
            ChannelColor::Purple => ChannelColor::Teal,
            ChannelColor::Teal => ChannelColor::Amber,
            ChannelColor::Amber => ChannelColor::Red,
            ChannelColor::Red => ChannelColor::Green,
            ChannelColor::Green => ChannelColor::Pink,
            ChannelColor::Pink => ChannelColor::Cyan,
        }
    }

    /// The color at a place.
    pub fn at(place: usize) -> (color: Self)
        requires
            place < 8,
        ensures
            color == color_order()[place as int],
    {
        if place == 0 {
            ChannelColor::Cyan
        } else if place == 1 {
            ChannelColor::Blue
        } else if place == 2 {
            ChannelColor::Purple
        } else if place == 3 {
            ChannelColor::Teal
        } else if place == 4 {
            ChannelColor::Amber
        } else if place == 5 {
            ChannelColor::Red
        } else if place == 6 {
            ChannelColor::Green
        } else {
            ChannelColor::Pink
        }
    }

    /// The color with a value.
    pub fn with_value(value: u32) -> (color: Option<Self>)
        ensures
            match color {
                Some(color) => color_value(color) == value,
                None => forall|known: ChannelColor| #[trigger] color_value(known) != value,
            },
    {
        let mut place: usize = 0;
        while place < 8
            invariant
                place <= 8,
                forall|known: ChannelColor| #[trigger]
                    color_place(known) < place ==> color_value(known) != value,
            decreases 8 - place,
        {
            let color = ChannelColor::at(place);
            if color.value() == value {
                return Some(color);
            }
            assert forall|known: ChannelColor| #[trigger]
                color_place(known) < place + 1 implies color_value(known) != value by {
                assert(color_order()[color_place(known)] == known);
            }
            place = place + 1;
        }
        assert forall|known: ChannelColor| #[trigger] color_value(known) != value by {
            assert(color_place(known) < 8);
        }
        None
    }
}

/// The colors form one cycle of eight, and no two have the same value.
pub proof fn law_colors_form_one_cycle(first: ChannelColor, second: ChannelColor)
    ensures
        color_order()[color_place(first)] == first,
        color_value(first) == color_value(second) ==> first == second,
        color_order()[(color_place(first) + 8) % 8] == first,
{
}

/// What a channel captures, or where it plays.
#[derive(Clone, Copy, Debug, PartialEq, Eq, Structural)]
pub enum EditorRole {
    Physical,
    Application,
    Virtual,
}

impl EditorRole {
    pub const SOURCES: [EditorRole; 3] = [
        EditorRole::Physical,
        EditorRole::Application,
        EditorRole::Virtual,
    ];

    pub const OUTPUTS: [EditorRole; 2] = [EditorRole::Physical, EditorRole::Virtual];

    pub fn label(self) -> (label: &'static str)
        ensures
            label@ == (match self {
                EditorRole::Physical => "PHYSICAL"@,
                EditorRole::Application => "APPLICATION"@,
                EditorRole::Virtual => "VIRTUAL"@,
            }),
    {
        match self {
            EditorRole::Physical => "PHYSICAL",
            EditorRole::Application => "APPLICATION",
            EditorRole::Virtual => "VIRTUAL",
        }
    }
}

/// The steps in which a channel is made.
#[derive(Clone, Copy, Debug, PartialEq, Eq, Structural)]
pub enum EditorStep {
    Type,
    Endpoint,
    Details,
}

/// The step after a step; the last stays.
pub open spec fn step_after(step: EditorStep) -> EditorStep {
    match step {
        EditorStep::Type => EditorStep::Endpoint,
        EditorStep::Endpoint => EditorStep::Details,
        EditorStep::Details => EditorStep::Details,
    }
}

/// The step before a step; the first stays.
pub open spec fn step_before(step: EditorStep) -> EditorStep {
    match step {
        EditorStep::Type => EditorStep::Type,
        EditorStep::Endpoint => EditorStep::Type,
        EditorStep::Details => EditorStep::Endpoint,
    }
}

impl EditorStep {
    pub fn next(self) -> (step: Self)
        ensures
            step == step_after(self),
    {
        match self {
            EditorStep::Type => EditorStep::Endpoint,
            EditorStep::Endpoint => EditorStep::Details,
            EditorStep::Details => EditorStep::Details,
        }
    }

    pub fn previous(self) -> (step: Self)
        ensures
            step == step_before(self),
    {
        match self {
            EditorStep::Type => EditorStep::Type,
            EditorStep::Endpoint => EditorStep::Type,
            EditorStep::Details => EditorStep::Endpoint,
        }
    }
}

/// The tabs of the page of channels.
#[derive(Clone, Copy, Debug, PartialEq, Eq, Structural)]
pub enum HubTab {
    Channels,
    VirtualDevices,
}

#[derive(Clone, Copy, Debug, PartialEq, Eq, Structural)]
pub enum BusKind {
    Physical,
    Virtual,
}

#[derive(Clone, Copy, Debug, PartialEq, Eq, Structural)]
pub enum FaderTarget {
    Source(usize),
    Output(usize),
}

#[derive(Clone, Copy, Debug, PartialEq, Eq, Structural)]
pub enum EndpointPickerTarget {
    Source(usize),
    Output(usize),
}

/// What a knob sets.
#[derive(Clone, Copy, Debug, PartialEq, Eq, Structural)]
pub enum KnobParam {
    Delay,
    EqLow,
    EqMid,
    EqHigh,
}

impl KnobParam {
    pub fn label(self) -> (label: &'static str)
        ensures
            label@ == (match self {
                KnobParam::Delay => "DELAY"@,
                KnobParam::EqLow => "LOW"@,
                KnobParam::EqMid => "MID"@,
                KnobParam::EqHigh => "HIGH"@,
            }),
    {
        match self {
            KnobParam::Delay => "DELAY",
            KnobParam::EqLow => "LOW",
            KnobParam::EqMid => "MID",
            KnobParam::EqHigh => "HIGH",
        }
    }
}

/// A knob of a channel.
#[derive(Clone, Copy, Debug, PartialEq, Eq, Structural)]
pub struct KnobTarget {
    pub strip: FaderTarget,
    pub param: KnobParam,
}

/// The settings that open a list.
#[derive(Clone, Copy, Debug, PartialEq, Eq, Structural)]
pub enum SettingsSelect {
    SampleRate,
    BufferSize,
}

impl SettingsSelect {
    pub fn label(self) -> (label: &'static str)
        ensures
            label@ == (match self {
                SettingsSelect::SampleRate => "rate"@,
                SettingsSelect::BufferSize => "buffer"@,
            }),
    {
        match self {
            SettingsSelect::SampleRate => "rate",
            SettingsSelect::BufferSize => "buffer",
        }
    }
}

/// How the connection to the audio system stands.
#[derive(Debug, PartialEq, Eq)]
pub enum DeviceMonitorStatus {
    Connecting,
    Connected,
    Error(String),
}

/// Whether a channel of a kind can be bound to an endpoint.
pub open spec fn source_fits(kind: SourceKind, endpoint_type: EndpointType) -> bool {
    match kind {
        SourceKind::Physical => endpoint_type == EndpointType::PhysicalInput,
        SourceKind::Desktop => endpoint_type == EndpointType::ApplicationOutput || endpoint_type
            == EndpointType::VirtualInput,
        SourceKind::Application => endpoint_type == EndpointType::ApplicationOutput,
        SourceKind::Virtual => endpoint_type == EndpointType::VirtualInput,
    }
}

/// Whether a channel of a kind can be bound to an endpoint.
pub fn source_accepts(kind: SourceKind, endpoint_type: EndpointType) -> (result: bool)
    ensures
        result == source_fits(kind, endpoint_type),
{
    match kind {
        SourceKind::Physical => endpoint_type == EndpointType::PhysicalInput,
        SourceKind::Desktop => endpoint_type == EndpointType::ApplicationOutput || endpoint_type
            == EndpointType::VirtualInput,
        SourceKind::Application => endpoint_type == EndpointType::ApplicationOutput,
        SourceKind::Virtual => endpoint_type == EndpointType::VirtualInput,
    }
}

/// Whether a bus of a kind can be bound to an endpoint.
pub open spec fn output_fits(kind: BusKind, endpoint_type: EndpointType) -> bool {
    match kind {
        BusKind::Physical => endpoint_type == EndpointType::PhysicalOutput,
        BusKind::Virtual => endpoint_type == EndpointType::VirtualOutput,
    }
}

/// Whether a bus of a kind can be bound to an endpoint.
pub fn output_accepts(kind: BusKind, endpoint_type: EndpointType) -> (result: bool)
    ensures
        result == output_fits(kind, endpoint_type),
{
    match kind {
        BusKind::Physical => endpoint_type == EndpointType::PhysicalOutput,
        BusKind::Virtual => endpoint_type == EndpointType::VirtualOutput,
    }
}

/// Whether a new channel of a role can be bound to an endpoint.
pub fn editor_role_accepts_source(role: EditorRole, endpoint_type: EndpointType) -> (result: bool)
    ensures
        result == source_fits(role_kind(role), endpoint_type),
{
    match role {
        EditorRole::Physical => endpoint_type == EndpointType::PhysicalInput,
        EditorRole::Application => endpoint_type == EndpointType::ApplicationOutput,
        EditorRole::Virtual => endpoint_type == EndpointType::VirtualInput,
    }
}

/// Whether a new bus of a role can be bound to an endpoint.
pub fn editor_role_accepts_output(role: EditorRole, endpoint_type: EndpointType) -> (result: bool)
    ensures
        result == (match role {
            EditorRole::Physical => endpoint_type == EndpointType::PhysicalOutput,
            EditorRole::Virtual => endpoint_type == EndpointType::VirtualOutput,
            EditorRole::Application => false,
        }),
{
    match role {
        EditorRole::Physical => endpoint_type == EndpointType::PhysicalOutput,
        EditorRole::Virtual => endpoint_type == EndpointType::VirtualOutput,
        EditorRole::Application => false,
    }
}

/// The kind of channel for a role.
pub open spec fn role_kind(role: EditorRole) -> SourceKind {
    match role {
        EditorRole::Physical => SourceKind::Physical,
        EditorRole::Application => SourceKind::Application,
        EditorRole::Virtual => SourceKind::Virtual,
    }
}

/// The kind of channel for a role.
pub fn editor_role_source_kind(role: EditorRole) -> (kind: SourceKind)
    ensures
        kind == role_kind(role),
{
    match role {
        EditorRole::Physical => SourceKind::Physical,
        EditorRole::Application => SourceKind::Application,
        EditorRole::Virtual => SourceKind::Virtual,
    }
}

/// The kind of bus for a role.
pub fn editor_role_bus_kind(role: EditorRole) -> (kind: BusKind)
    ensures
        kind == (if role == EditorRole::Physical {
            BusKind::Physical
        } else {
            BusKind::Virtual
        }),
{
    match role {
        EditorRole::Physical => BusKind::Physical,
        EditorRole::Application => BusKind::Virtual,
        EditorRole::Virtual => BusKind::Virtual,
    }
}

/// What stands below a channel that is bound to nothing.
pub open spec fn source_hint(kind: SourceKind) -> Seq<char> {
    match kind {
        SourceKind::Physical => "Select a microphone"@,
        SourceKind::Desktop => "Select desktop or app audio"@,
        SourceKind::Application => "Select application"@,
        SourceKind::Virtual => "Select virtual input"@,
    }
}

/// What stands below a channel that is bound to nothing.
pub fn empty_source_detail(kind: SourceKind) -> (detail: &'static str)
    ensures
        detail@ == source_hint(kind),
{
    match kind {
        SourceKind::Physical => "Select a microphone",
        SourceKind::Desktop => "Select desktop or app audio",
        SourceKind::Application => "Select application",
        SourceKind::Virtual => "Select virtual input",
    }
}

/// What stands below a bus that is bound to nothing.
pub open spec fn output_hint(kind: BusKind) -> Seq<char> {
    match kind {
        BusKind::Physical => "Select a physical output"@,
        BusKind::Virtual => "Select a virtual output"@,
    }
}

/// What stands below a bus that is bound to nothing.
pub fn empty_output_detail(kind: BusKind) -> (detail: &'static str)
    ensures
        detail@ == output_hint(kind),
{
    match kind {
        BusKind::Physical => "Select a physical output",
        BusKind::Virtual => "Select a virtual output",
    }
}

/// The quotient closest to `value / divisor`; of two, the even one.
pub open spec fn nearest(value: int, divisor: int) -> int {
    stage::rounded_to(value, divisor) / divisor
}

/// The smallest doubling of a number that has 53 binary digits when it is
/// divided by a thousand, with the factor.
pub open spec fn scaled_up(value: int, factor: int) -> (int, int)
    decreases 9_007_199_254_740_992_000 - value,
{
    if value <= 0 || value >= 4_503_599_627_370_496_000 {
        (value, factor)
    } else {
        scaled_up(2 * value, 2 * factor)
    }
}

/// Thousands of a rate in tenths, as the double-precision quotient rounds.
pub open spec fn kilohertz_tenths(rate: int) -> int {
    let (scaled, factor) = scaled_up(rate, 1);
    nearest(10 * nearest(scaled, 1_000), factor)
}

/// A rate in kilohertz: whole where it is, otherwise with one digit after the
/// point.
pub open spec fn rate_text(rate: u32) -> Seq<char> {
    if rate % 1_000 == 0 {
        text::decimal((rate / 1_000) as nat) + " kHz"@
    } else {
        let tenths = kilohertz_tenths(rate as int);
        text::decimal((tenths / 10) as nat) + "."@ + text::decimal((tenths % 10) as nat)
            + " kHz"@
    }
}

fn nearest_quotient(value: u128, divisor: u128) -> (quotient: u128)
    requires
        divisor > 0,
        value + divisor <= 0xffff_ffff_ffff_ffff_ffff,
    ensures
        quotient == nearest(value as int, divisor as int),
        quotient <= value / divisor + 1,
{
    let low: u128 = value / divisor;
    let rest: u128 = value % divisor;
    assert(value == low * divisor + rest && rest < divisor && low <= value) by (nonlinear_arith)
        requires
            low == value as int / divisor as int,
            rest == value as int % divisor as int,
            divisor > 0,
    ;
    assert((low * divisor) / divisor as int == low && ((low + 1) * divisor) / divisor as int == low
        + 1) by (nonlinear_arith)
        requires
            divisor > 0,
    ;
    if 2 * rest < divisor || (2 * rest == divisor && low % 2 == 0) {
        low
    } else {
        low + 1
    }
}

/// A rate in kilohertz.
pub fn format_sample_rate(sample_rate: u32) -> (result: String)
    ensures
        result@ == rate_text(sample_rate),
{
    if sample_rate % 1_000 == 0 {
        let whole = decimal_text((sample_rate / 1_000) as u64);
        return joined(whole.as_str(), " kHz");
    }
    let mut scaled: u128 = sample_rate as u128;
    let mut factor: u128 = 1;
    while scaled < 4_503_599_627_370_496_000
        invariant
            0 < scaled < 9_007_199_254_740_992_000,
            scaled == sample_rate * factor,
            factor >= 1,
            factor <= scaled,
            scaled_up(sample_rate as int, 1) == scaled_up(scaled as int, factor as int),
        decreases 9_007_199_254_740_992_000 - scaled,
    {
        assert(2 * scaled == sample_rate * (2 * factor)) by (nonlinear_arith)
            requires
                scaled == sample_rate * factor,
        ;
        scaled = 2 * scaled;
        factor = 2 * factor;
    }
    let quotient: u128 = nearest_quotient(scaled, 1_000);
    let tenths: u128 = nearest_quotient(10 * quotient, factor);
    assert(tenths <= 10 * quotient + 1) by (nonlinear_arith)
        requires
            tenths <= (10 * quotient) / factor as int + 1,
            factor >= 1,
    ;
    let whole = decimal_text((tenths / 10) as u64);
    let digit = decimal_text((tenths % 10) as u64);
    let mut result = joined3(whole.as_str(), ".", digit.as_str());
    result.append(" kHz");
    result
}

/// A channel takes what it is made for: a microphone, an application, a
/// virtual input, or for the desktop either of the last two; a bus takes an
/// output of its own kind. A role makes the kind that it is named after.
pub proof fn law_strips_take_what_fits_them(endpoint_type: EndpointType)
    ensures
        source_fits(SourceKind::Physical, endpoint_type) <==> endpoint_type is PhysicalInput,
        source_fits(SourceKind::Application, endpoint_type) <==> endpoint_type is ApplicationOutput,
        source_fits(SourceKind::Virtual, endpoint_type) <==> endpoint_type is VirtualInput,
        source_fits(SourceKind::Desktop, endpoint_type) <==> endpoint_type is ApplicationOutput
            || endpoint_type is VirtualInput,
        output_fits(BusKind::Physical, endpoint_type) <==> endpoint_type is PhysicalOutput,
        output_fits(BusKind::Virtual, endpoint_type) <==> endpoint_type is VirtualOutput,
        role_kind(EditorRole::Physical) == SourceKind::Physical,
        role_kind(EditorRole::Application) == SourceKind::Application,
        role_kind(EditorRole::Virtual) == SourceKind::Virtual,
{
}

/// The steps lead from the type over the endpoint to the details and the same
/// way back, and stop at either end.
pub proof fn law_steps_lead_there_and_back(step: EditorStep)
    ensures
        step_after(EditorStep::Type) == EditorStep::Endpoint,
        step_after(EditorStep::Endpoint) == EditorStep::Details,
        step_after(EditorStep::Details) == EditorStep::Details,
        step_before(EditorStep::Type) == EditorStep::Type,
        step != EditorStep::Details ==> step_before(step_after(step)) == step,
        step != EditorStep::Type ==> step_after(step_before(step)) == step,
{
}

/// Bands, hints and colors are what they are called.
pub proof fn law_labels_say_what_they_label()
    ensures
        band_label(EqBand::Low) == "Low"@,
        band_label(EqBand::Mid) == "Mid"@,
        band_label(EqBand::High) == "High"@,
        source_hint(SourceKind::Physical) == "Select a microphone"@,
        source_hint(SourceKind::Desktop) == "Select desktop or app audio"@,
        source_hint(SourceKind::Application) == "Select application"@,
        source_hint(SourceKind::Virtual) == "Select virtual input"@,
        output_hint(BusKind::Physical) == "Select a physical output"@,
        output_hint(BusKind::Virtual) == "Select a virtual output"@,
        color_value(ChannelColor::Cyan) == 0x22D3EE,
        color_value(ChannelColor::Blue) == 0x60A5FA,
        color_value(ChannelColor::Purple) == 0xA78BFA,
        color_value(ChannelColor::Teal) == 0x2DD4BF,
        color_value(ChannelColor::Amber) == 0xF59E0B,
        color_value(ChannelColor::Red) == 0xF87171,
        color_value(ChannelColor::Green) == 0x34D399,
        color_value(ChannelColor::Pink) == 0xF472B6,
        color_place(ChannelColor::Cyan) == 0,
        color_place(ChannelColor::Blue) == 1,
        color_place(ChannelColor::Purple) == 2,
        color_place(ChannelColor::Teal) == 3,
        color_place(ChannelColor::Amber) == 4,
        color_place(ChannelColor::Red) == 5,
        color_place(ChannelColor::Green) == 6,
        color_place(ChannelColor::Pink) == 7,
{
}

/// A rate of whole kilohertz is written as their number.
pub proof fn law_whole_kilohertz_are_written_whole(kilohertz: u32)
    requires
        kilohertz <= 4_294_967,
    ensures
        rate_text((1_000 * kilohertz) as u32) == text::decimal(kilohertz as nat) + " kHz"@,
{
}

proof fn lemma_scaled_up(value: int, factor: int, rate: int)
    requires
        0 < rate,
        1 <= factor,
        value == rate * factor,
    ensures
        ({
            let (scaled, by) = scaled_up(value, factor);
            scaled == rate * by && scaled >= 4_503_599_627_370_496_000 && by >= factor
        }),
    decreases 9_007_199_254_740_992_000 - value,
{
    assert(value > 0) by (nonlinear_arith)
        requires
            0 < rate,
            1 <= factor,
            value == rate * factor,
    ;
    if value < 4_503_599_627_370_496_000 {
        assert(2 * value == rate * (2 * factor)) by (nonlinear_arith)
            requires
                value == rate * factor,
        ;
        lemma_scaled_up(2 * value, 2 * factor, rate);
    }
}

/// A rate that is no whole number of kilohertz is written with one decimal, which
/// is off by no more than half of its last digit.
pub proof fn law_rates_are_written_to_the_nearest_tenth(rate: u32)
    requires
        rate as int % 1_000 != 0,
    ensures
        ({
            let tenths = kilohertz_tenths(rate as int);
            &&& rate_text(rate) == text::decimal((tenths / 10) as nat) + "."@ + text::decimal(
                (tenths % 10) as nat,
            ) + " kHz"@
            &&& -50 <= 100 * tenths - rate <= 50
        }),
{
    let whole = rate as int;
    let (scaled, factor) = scaled_up(whole, 1);
    lemma_scaled_up(whole, 1, whole);
    let parts = nearest(scaled, 1_000);
    let tenths = nearest(10 * parts, factor);
    assert(factor > 1_000) by (nonlinear_arith)
        requires
            scaled == whole * factor,
            scaled >= 4_503_599_627_370_496_000,
            0 < whole <= 4_294_967_295,
    ;
    lemma_nearest(scaled, 1_000);
    lemma_nearest(10 * parts, factor);
    assert(-50 <= 100 * tenths - whole <= 50) by (nonlinear_arith)
        requires
            scaled == whole * factor,
            factor > 1_000,
            -1_000 <= 2 * (parts * 1_000 - scaled) <= 1_000,
            -factor <= 2 * (tenths * factor - 10 * parts) <= factor,
    ;
}

proof fn lemma_nearest(value: int, unit: int)
    requires
        0 < unit,
        0 <= value,
    ensures
        -unit <= 2 * (nearest(value, unit) * unit - value) <= unit,
{
    vstd::arithmetic::div_mod::lemma_fundamental_div_mod(value, unit);
    let low = value / unit;
    vstd::arithmetic::div_mod::lemma_div_by_multiple(low, unit);
    vstd::arithmetic::div_mod::lemma_div_by_multiple(low + 1, unit);
    assert((low + 1) * unit == low * unit + unit) by (nonlinear_arith);
    assert(unit * low == low * unit) by (nonlinear_arith);
}

} // verus!
