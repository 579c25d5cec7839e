//! The channels and buses of the mixer, and how one is bound to an endpoint.
use vstd::prelude::*;

use super::labels::{
    empty_output_detail, empty_source_detail, BusKind, ChannelColor, EqBand, SourceKind,
};
use super::labels;
use crate::backend::properties;
use crate::domain::controls::ChannelMode;
use crate::domain::endpoint::{AudioEndpoint, EndpointState};
use crate::domain::ids::EndpointId;
use crate::dsp::eq::{EQ_MAX_DB, EQ_MIN_DB};
use crate::scalar::Scalar;
use crate::text::{copied_text, joined};

verus! {

/// The longest delay of a channel in milliseconds, as a pattern: 500.
pub const MAX_DELAY_MS: u32 = 0x43fa_0000;

/// The gains of the three bands in decibels.
#[derive(Clone, Copy, Debug, PartialEq, Eq, Structural)]
pub struct EqBands {
    pub low_db: Scalar,
    pub mid_db: Scalar,
    pub high_db: Scalar,
}

/// Bands that change nothing.
pub open spec fn flat() -> EqBands {
    let zero = Scalar { bits: 0 };
    EqBands { low_db: zero, mid_db: zero, high_db: zero }
}

impl Default for EqBands {
    fn default() -> (bands: Self)
        ensures
            bands == flat(),
    {
        let zero = Scalar::zero();
        EqBands { low_db: zero, mid_db: zero, high_db: zero }
    }
}

/// A gain within the range of a band.
pub open spec fn band_gain(db: Scalar) -> Scalar {
    db.clamped(Scalar { bits: EQ_MIN_DB }, Scalar { bits: EQ_MAX_DB })
}

/// A gain within the range of a band.
pub fn clamp_band_gain(db: Scalar) -> (result: Scalar)
    ensures
        result == band_gain(db),
{
    db.clamp(Scalar { bits: EQ_MIN_DB }, Scalar { bits: EQ_MAX_DB })
}

/// A delay within its range.
pub open spec fn delay_in_range(delay_ms: Scalar) -> Scalar {
    delay_ms.clamped(Scalar { bits: 0 }, Scalar { bits: MAX_DELAY_MS })
}

/// A delay within its range.
pub fn clamp_delay(delay_ms: Scalar) -> (result: Scalar)
    ensures
        result == delay_in_range(delay_ms),
{
    delay_ms.clamp(Scalar::zero(), Scalar { bits: MAX_DELAY_MS })
}

impl EqBands {
    /// The gain of a band.
    pub open spec fn of(self, band: EqBand) -> Scalar {
        match band {
            EqBand::Low => self.low_db,
            EqBand::Mid => self.mid_db,
            EqBand::High => self.high_db,
        }
    }

    /// With another gain for a band.
    pub open spec fn with(self, band: EqBand, db: Scalar) -> EqBands {
        match band {
            EqBand::Low => EqBands { low_db: db, ..self },
            EqBand::Mid => EqBands { mid_db: db, ..self },
            EqBand::High => EqBands { high_db: db, ..self },
        }
    }

    pub fn get(&self, band: EqBand) -> (db: Scalar)
        ensures
            db == self.of(band),
    {
        match band {
            EqBand::Low => self.low_db,
            EqBand::Mid => self.mid_db,
            EqBand::High => self.high_db,
        }
    }

    /// Sets the gain of a band, clamped to its range, where it differs.
    /// `differs` tells whether the clamped gain and the one that is set differ
    /// by more than the precision of the numbers.
    pub fn set(&mut self, band: EqBand, db: Scalar, differs: bool) -> (stored: Option<Scalar>)
        ensures
            stored == (if differs {
                Some(band_gain(db))
            } else {
                None
            }),
            *final(self) == (if differs {
                old(self).with(band, band_gain(db))
            } else {
                *old(self)
            }),
    {
        if !differs {
            return None;
        }
        let db = clamp_band_gain(db);
        match band {
            EqBand::Low => {
                self.low_db = db;
            },
            EqBand::Mid => {
                self.mid_db = db;
            },
            EqBand::High => {
                self.high_db = db;
            },
        }
        Some(db)
    }
}

/// A channel of the mixer.
#[derive(Debug)]
pub struct SourceStrip {
    pub endpoint_id: Option<EndpointId>,
    /// What the device is called, also while it is away.
    pub endpoint_name: Option<String>,
    pub name: String,
    pub detail: String,
    pub kind: SourceKind,
    pub color: ChannelColor,
    /// The user chose the binding, so devices that come and go do not change it.
    pub user_bound: bool,
    pub gain_db: Scalar,
    pub muted: bool,
    pub delay_ms: Scalar,
    pub eq: EqBands,
    pub mode: ChannelMode,
    /// The buses that the user wants the channel on.
    pub routes: Vec<bool>,
    pub meter_l: Scalar,
    pub meter_r: Scalar,
    pub online: bool,
}

/// A channel, with its texts as sequences.
#[verifier::ext_equal]
pub struct SourceModel {
    pub endpoint_id: Option<EndpointId>,
    pub endpoint_name: Option<Seq<char>>,
    pub name: Seq<char>,
    pub detail: Seq<char>,
    pub kind: SourceKind,
    pub color: ChannelColor,
    pub user_bound: bool,
    pub gain_db: Scalar,
    pub muted: bool,
    pub delay_ms: Scalar,
    pub eq: EqBands,
    pub mode: ChannelMode,
    pub routes: Seq<bool>,
    pub meter_l: Scalar,
    pub meter_r: Scalar,
    pub online: bool,
}

impl View for SourceStrip {
    type V = SourceModel;

    open spec fn view(&self) -> SourceModel {
        SourceModel {
            endpoint_id: self.endpoint_id,
            endpoint_name: properties::held(self.endpoint_name),
            name: self.name@,
            detail: self.detail@,
            kind: self.kind,
            color: self.color,
            user_bound: self.user_bound,
            gain_db: self.gain_db,
            muted: self.muted,
            delay_ms: self.delay_ms,
            eq: self.eq,
            mode: self.mode,
            routes: self.routes@,
            meter_l: self.meter_l,
            meter_r: self.meter_r,
            online: self.online,
        }
    }
}

/// A bus of the mixer.
#[derive(Debug)]
pub struct OutputBus {
    pub endpoint_id: Option<EndpointId>,
    /// What the device is called, also while it is away.
    pub endpoint_name: Option<String>,
    pub code: String,
    pub name: String,
    pub detail: String,
    pub kind: BusKind,
    pub color: ChannelColor,
    /// The user chose the binding, so devices that come and go do not change it.
    pub user_bound: bool,
    pub gain_db: Scalar,
    pub muted: bool,
    pub delay_ms: Scalar,
    pub eq: EqBands,
    pub mode: ChannelMode,
    pub meter_l: Scalar,
    pub meter_r: Scalar,
    pub online: bool,
}

/// A bus, with its texts as sequences.
#[verifier::ext_equal]
pub struct OutputModel {
    pub endpoint_id: Option<EndpointId>,
    pub endpoint_name: Option<Seq<char>>,
    pub code: Seq<char>,
    pub name: Seq<char>,
    pub detail: Seq<char>,
    pub kind: BusKind,
    pub color: ChannelColor,
    pub user_bound: bool,
    pub gain_db: Scalar,
    pub muted: bool,
    pub delay_ms: Scalar,
    pub eq: EqBands,
    pub mode: ChannelMode,
    pub meter_l: Scalar,
    pub meter_r: Scalar,
    pub online: bool,
}

impl View for OutputBus {
    type V = OutputModel;

    open spec fn view(&self) -> OutputModel {
        OutputModel {
            endpoint_id: self.endpoint_id,
            endpoint_name: properties::held(self.endpoint_name),
            code: self.code@,
            name: self.name@,
            detail: self.detail@,
            kind: self.kind,
            color: self.color,
            user_bound: self.user_bound,
            gain_db: self.gain_db,
            muted: self.muted,
            delay_ms: self.delay_ms,
            eq: self.eq,
            mode: self.mode,
            meter_l: self.meter_l,
            meter_r: self.meter_r,
            online: self.online,
        }
    }
}

/// As many buses, none of them wanted.
pub open spec fn no_routes(count: nat) -> Seq<bool> {
    Seq::new(count, |_i: int| false)
}

/// As many buses, none of them wanted.
pub fn unrouted(count: usize) -> (routes: Vec<bool>)
    ensures
        routes@ == no_routes(count as nat),
{
    let mut routes: Vec<bool> = Vec::new();
    let mut at: usize = 0;
    while at < count
        invariant
            at <= count,
            routes@.len() == at,
            forall|i: int| 0 <= i < at ==> !routes@[i],
        decreases count - at,
    {
        routes.push(false);
        at = at + 1;
    }
    assert(routes@ =~= no_routes(count as nat));
    routes
}

/// A new channel.
pub open spec fn new_source(
    name: Seq<char>,
    detail: Seq<char>,
    kind: SourceKind,
    color: ChannelColor,
    buses: nat,
) -> SourceModel {
    let zero = Scalar { bits: 0 };
    SourceModel {
        endpoint_id: None,
        endpoint_name: None,
        name,
        detail,
        kind,
        color,
        user_bound: false,
        gain_db: zero,
        muted: false,
        delay_ms: zero,
        eq: flat(),
        mode: ChannelMode::Auto,
        routes: no_routes(buses),
        meter_l: zero,
        meter_r: zero,
        online: false,
    }
}

/// A new bus.
pub open spec fn new_output(
    code: Seq<char>,
    name: Seq<char>,
    detail: Seq<char>,
    kind: BusKind,
    color: ChannelColor,
) -> OutputModel {
    let zero = Scalar { bits: 0 };
    OutputModel {
        endpoint_id: None,
        endpoint_name: None,
        code,
        name,
        detail,
        kind,
        color,
        user_bound: false,
        gain_db: zero,
        muted: false,
        delay_ms: zero,
        eq: flat(),
        mode: ChannelMode::Auto,
        meter_l: zero,
        meter_r: zero,
        online: false,
    }
}

impl SourceStrip {
    pub fn new(name: &str, detail: &str, kind: SourceKind, color: ChannelColor, buses: usize) -> (
    strip: Self)
        ensures
            strip@ == new_source(name@, detail@, kind, color, buses as nat),
    {
        let zero = Scalar::zero();
        SourceStrip {
            endpoint_id: None,
            endpoint_name: None,
            name: name.to_owned(),
            detail: detail.to_owned(),
            kind,
            color,
            user_bound: false,
            gain_db: zero,
            muted: false,
            delay_ms: zero,
            eq: EqBands::default(),
            mode: ChannelMode::Auto,
            routes: unrouted(buses),
            meter_l: zero,
            meter_r: zero,
            online: false,
        }
    }
}

impl OutputBus {
    pub fn new(code: &str, name: &str, detail: &str, kind: BusKind, color: ChannelColor) -> (bus:
        Self)
        ensures
            bus@ == new_output(code@, name@, detail@, kind, color),
    {
        let zero = Scalar::zero();
        OutputBus {
            endpoint_id: None,
            endpoint_name: None,
            code: code.to_owned(),
            name: name.to_owned(),
            detail: detail.to_owned(),
            kind,
            color,
            user_bound: false,
            gain_db: zero,
            muted: false,
            delay_ms: zero,
            eq: EqBands::default(),
            mode: ChannelMode::Auto,
            meter_l: zero,
            meter_r: zero,
            online: false,
        }
    }
}

/// The first device with an identifier.
pub open spec fn device_place(devices: Seq<AudioEndpoint>, id: EndpointId) -> Option<int>
    decreases devices.len(),
{
    if devices.len() == 0 {
        None
    } else if device_place(devices.drop_last(), id) is Some {
        device_place(devices.drop_last(), id)
    } else if devices.last().id == id {
        Some(devices.len() - 1)
    } else {
        None
    }
}

pub proof fn lemma_device_place(devices: Seq<AudioEndpoint>, id: EndpointId)
    ensures
        match device_place(devices, id) {
            Some(at) => 0 <= at < devices.len() && devices[at].id == id,
            None => forall|i: int| 0 <= i < devices.len() ==> (#[trigger] devices[i]).id != id,
        },
    decreases devices.len(),
{
    if devices.len() > 0 {
        lemma_device_place(devices.drop_last(), id);
        if device_place(devices, id) is None {
            assert forall|i: int| 0 <= i < devices.len() implies (#[trigger] devices[i]).id
                != id by {
                if i < devices.len() - 1 {
                    assert(devices.drop_last()[i] == devices[i]);
                }
            }
        }
    }
}

/// Finds the first device with an identifier.
pub fn find_device(devices: &Vec<AudioEndpoint>, id: EndpointId) -> (place: Option<usize>)
    ensures
        match place {
            Some(at) => {
                &&& at < devices@.len()
                &&& devices@[at as int].id == id
                &&& device_place(devices@, id) == Some(at as int)
            },
            None => device_place(devices@, id) is None,
        },
{
    let mut found: Option<usize> = None;
    let mut at: usize = 0;
    while at < devices.len()
        invariant
            at <= devices@.len(),
            match found {
                Some(place) => {
                    &&& place < at
                    &&& devices@[place as int].id == id
                    &&& device_place(devices@.take(at as int), id) == Some(place as int)
                },
                None => device_place(devices@.take(at as int), id) is None,
            },
        decreases devices@.len() - at,
    {
        assert(devices@.take(at + 1).drop_last() =~= devices@.take(at as int));
        assert(devices@.take(at + 1).last() == devices@[at as int]);
        if found.is_none() && devices[at].id == id {
            found = Some(at);
        }
        at = at + 1;
    }
    assert(devices@.take(at as int) =~= devices@);
    found
}

/// Whether a device is there to be used.
pub open spec fn usable(state: EndpointState) -> bool {
    state != EndpointState::Disconnected && state != EndpointState::Error
}

/// The name, the detail and the presence that a binding shows: those of the
/// device where it is there, what is waited for where it is away, and a hint
/// where nothing is bound.
pub open spec fn shown_binding(
    endpoint_id: Option<EndpointId>,
    known_name: Option<Seq<char>>,
    devices: Seq<AudioEndpoint>,
    hint: Seq<char>,
) -> (Option<Seq<char>>, Seq<char>, bool) {
    match endpoint_id {
        None => (known_name, hint, false),
        Some(id) => match device_place(devices, id) {
            Some(at) => (Some(devices[at].name@), devices[at].name@, usable(devices[at].state)),
            None => (
                known_name,
                match known_name {
                    Some(name) => name + " — offline"@,
                    None => hint,
                },
                false,
            ),
        },
    }
}

fn binding_shown(
    endpoint_id: Option<EndpointId>,
    known_name: &Option<String>,
    devices: &Vec<AudioEndpoint>,
    hint: &str,
) -> (shown: (Option<String>, String, bool))
    ensures
        (properties::held(shown.0), shown.1@, shown.2) == shown_binding(
            endpoint_id,
            properties::held(*known_name),
            devices@,
            hint@,
        ),
{
    match endpoint_id {
        None => (copied_text(known_name), hint.to_owned(), false),
        Some(id) => match find_device(devices, id) {
            Some(at) => {
                let online = match devices[at].state {
                    EndpointState::Disconnected => false,
                    EndpointState::Error => false,
                    _ => true,
                };
                (Some(devices[at].name.clone()), devices[at].name.clone(), online)
            },
            None => {
                let detail = match known_name {
                    Some(name) => joined(name.as_str(), " — offline"),
                    None => hint.to_owned(),
                };
                (copied_text(known_name), detail, false)
            },
        },
    }
}

/// A channel that shows what it is bound to.
pub open spec fn shown_source(source: SourceModel, devices: Seq<AudioEndpoint>) -> SourceModel {
    let shown = shown_binding(
        source.endpoint_id,
        source.endpoint_name,
        devices,
        labels::source_hint(source.kind),
    );
    SourceModel { endpoint_name: shown.0, detail: shown.1, online: shown.2, ..source }
}

/// A bus that shows what it is bound to.
pub open spec fn shown_output(output: OutputModel, devices: Seq<AudioEndpoint>) -> OutputModel {
    let shown = shown_binding(
        output.endpoint_id,
        output.endpoint_name,
        devices,
        labels::output_hint(output.kind),
    );
    OutputModel { endpoint_name: shown.0, detail: shown.1, online: shown.2, ..output }
}

/// Lets a channel show what it is bound to.
pub fn update_source_binding(source: &mut SourceStrip, devices: &Vec<AudioEndpoint>)
    ensures
        final(source)@ == shown_source(old(source)@, devices@),
{
    let (name, detail, online) = binding_shown(
        source.endpoint_id,
        &source.endpoint_name,
        devices,
        empty_source_detail(source.kind),
    );
    source.endpoint_name = name;
    source.detail = detail;
    source.online = online;
}

/// Lets a bus show what it is bound to.
pub fn update_output_binding(output: &mut OutputBus, devices: &Vec<AudioEndpoint>)
    ensures
        final(output)@ == shown_output(old(output)@, devices@),
{
    let (name, detail, online) = binding_shown(
        output.endpoint_id,
        &output.endpoint_name,
        devices,
        empty_output_detail(output.kind),
    );
    output.endpoint_name = name;
    output.detail = detail;
    output.online = online;
}

/// A device that goes away keeps its name on what is bound to it, and is shown
/// again as it was when it comes back.
pub proof fn law_a_bound_device_is_waited_for(
    source: SourceModel,
    present: Seq<AudioEndpoint>,
    absent: Seq<AudioEndpoint>,
    id: EndpointId,
)
    requires
        source.endpoint_id == Some(id),
        device_place(present, id) is Some,
        device_place(absent, id) is None,
    ensures
        ({
            let here = shown_source(source, present);
            let gone = shown_source(here, absent);
            let back = shown_source(gone, present);
            &&& gone.endpoint_id == Some(id)
            &&& !gone.online
            &&& gone.detail == here.detail + " — offline"@
            &&& back == here
        }),
{
}

/// What is said of a channel and of a bus is what its fields hold.
pub proof fn law_strips_are_their_fields(source: SourceStrip, output: OutputBus)
    ensures
        source@.name == source.name@,
        source@.detail == source.detail@,
        source@.kind == source.kind,
        source@.color == source.color,
        source@.endpoint_id == source.endpoint_id,
        source@.user_bound == source.user_bound,
        source@.gain_db == source.gain_db,
        source@.muted == source.muted,
        source@.delay_ms == source.delay_ms,
        source@.eq == source.eq,
        source@.mode == source.mode,
        source@.routes == source.routes@,
        source@.meter_l == source.meter_l,
        source@.meter_r == source.meter_r,
        source@.online == source.online,
        output@.code == output.code@,
        output@.name == output.name@,
        output@.detail == output.detail@,
        output@.kind == output.kind,
        output@.color == output.color,
        output@.endpoint_id == output.endpoint_id,
        output@.user_bound == output.user_bound,
        output@.gain_db == output.gain_db,
        output@.muted == output.muted,
        output@.delay_ms == output.delay_ms,
        output@.eq == output.eq,
        output@.mode == output.mode,
        output@.meter_l == output.meter_l,
        output@.meter_r == output.meter_r,
        output@.online == output.online,
{
}

/// A band is set and read under its own name: what was set is read, and the
/// other two bands stay.
pub proof fn law_bands_are_kept_apart(bands: EqBands, db: Scalar)
    ensures
        bands.with(EqBand::Low, db) == (EqBands { low_db: db, ..bands }),
        bands.with(EqBand::Mid, db) == (EqBands { mid_db: db, ..bands }),
        bands.with(EqBand::High, db) == (EqBands { high_db: db, ..bands }),
        bands.of(EqBand::Low) == bands.low_db,
        bands.of(EqBand::Mid) == bands.mid_db,
        bands.of(EqBand::High) == bands.high_db,
        forall|band: EqBand| #[trigger] bands.with(band, db).of(band) == db,
        forall|band: EqBand| (#[trigger] flat().of(band)).bits == 0,
{
}

/// A gain of a band is at most twelve decibels either way and a delay at most
/// half a second; what is within stays, what is beyond becomes the nearer end.
pub proof fn law_bands_and_delays_are_bounded(value: Scalar)
    ensures
        !value.nan() && -0x4140_0000 <= value.rank() <= 0x4140_0000 ==> band_gain(value) == value,
        !value.nan() && value.rank() > 0x4140_0000 ==> band_gain(value).bits == 0x4140_0000,
        !value.nan() && value.rank() < -0x4140_0000 ==> band_gain(value).bits == 0xc140_0000,
        !value.nan() && 0 <= value.rank() <= 0x43fa_0000 ==> delay_in_range(value) == value,
        !value.nan() && value.rank() > 0x43fa_0000 ==> delay_in_range(value).bits == 0x43fa_0000,
        !value.nan() && value.rank() < 0 ==> delay_in_range(value).bits == 0,
{
}

/// A new channel is called what it was given, is bound to nothing, on no bus,
/// audible, at unity gain, undelayed and unfiltered; so is a new bus.
pub proof fn law_new_strips_are_at_rest(
    code: Seq<char>,
    name: Seq<char>,
    detail: Seq<char>,
    source_kind: SourceKind,
    bus_kind: BusKind,
    color: ChannelColor,
    buses: nat,
)
    ensures
        ({
            let source = new_source(name, detail, source_kind, color, buses);
            let output = new_output(code, name, detail, bus_kind, color);
            &&& source.name == name && source.detail == detail && source.kind == source_kind
                && source.color == color
            &&& source.endpoint_id is None && source.endpoint_name is None && !source.user_bound
                && !source.online
            &&& !source.muted && source.gain_db.bits == 0 && source.delay_ms.bits == 0
            &&& source.eq.low_db.bits == 0 && source.eq.mid_db.bits == 0 && source.eq.high_db.bits
                == 0
            &&& source.mode == ChannelMode::Auto
            &&& source.meter_l.bits == 0 && source.meter_r.bits == 0
            &&& source.routes.len() == buses
            &&& forall|i: int| 0 <= i < buses ==> !(#[trigger] source.routes[i])
            &&& output.code == code && output.name == name && output.detail == detail
                && output.kind == bus_kind && output.color == color
            &&& output.endpoint_id is None && output.endpoint_name is None && !output.user_bound
                && !output.online
            &&& !output.muted && output.gain_db.bits == 0 && output.delay_ms.bits == 0
            &&& output.eq.low_db.bits == 0 && output.eq.mid_db.bits == 0 && output.eq.high_db.bits
                == 0
            &&& output.mode == ChannelMode::Auto
            &&& output.meter_l.bits == 0 && output.meter_r.bits == 0
        }),
{
}

/// The device that is found is the first with its identifier, and none is
/// found exactly where no device has it.
pub proof fn law_the_first_device_is_found(devices: Seq<AudioEndpoint>, id: EndpointId)
    ensures
        device_place(devices, id) matches Some(at) ==> {
            &&& 0 <= at < devices.len()
            &&& devices[at].id == id
            &&& forall|i: int| 0 <= i < at ==> (#[trigger] devices[i]).id != id
        },
        device_place(devices, id) is None <==> forall|i: int|
            0 <= i < devices.len() ==> (#[trigger] devices[i]).id != id,
    decreases devices.len(),
{
    if devices.len() > 0 {
        let front = devices.drop_last();
        law_the_first_device_is_found(front, id);
        assert forall|i: int| 0 <= i < front.len() implies (#[trigger] front[i])
            == devices[i] by {}
        if device_place(front, id) is Some {
            let at = device_place(front, id)->0;
            assert(devices[at].id == id);
            assert forall|i: int| 0 <= i < at implies (#[trigger] devices[i]).id != id by {
                assert(front[i].id != id);
            }
        } else {
            assert forall|i: int| 0 <= i < front.len() implies (#[trigger] devices[i]).id
                != id by {
                assert(front[i].id != id);
            }
        }
    }
}

/// A strip shows the name of the device that it is bound to, is online exactly
/// while that device is there and neither disconnected nor broken, names what
/// it waits for while the device is away, and shows a hint where it is bound
/// to nothing. Nothing else of the strip changes.
pub proof fn law_strips_show_their_device(
    source: SourceModel,
    output: OutputModel,
    devices: Seq<AudioEndpoint>,
    at: int,
)
    ensures
        ({
            let shown = shown_source(source, devices);
            let bus = shown_output(output, devices);
            &&& shown == (SourceModel {
                endpoint_name: shown.endpoint_name,
                detail: shown.detail,
                online: shown.online,
                ..source
            })
            &&& bus == (OutputModel {
                endpoint_name: bus.endpoint_name,
                detail: bus.detail,
                online: bus.online,
                ..output
            })
            &&& source.endpoint_id is None ==> {
                &&& shown.detail == labels::source_hint(source.kind)
                &&& !shown.online
                &&& shown.endpoint_name == source.endpoint_name
            }
            &&& output.endpoint_id is None ==> {
                &&& bus.detail == labels::output_hint(output.kind)
                &&& !bus.online
                &&& bus.endpoint_name == output.endpoint_name
            }
            &&& 0 <= at < devices.len() && (forall|i: int|
                0 <= i < at ==> (#[trigger] devices[i]).id != devices[at].id) ==> {
                &&& source.endpoint_id == Some(devices[at].id) ==> {
                    &&& shown.detail == devices[at].name@
                    &&& shown.endpoint_name == Some(devices[at].name@)
                    &&& shown.online <==> !(devices[at].state is Disconnected) && !(
                    devices[at].state is Error)
                }
                &&& output.endpoint_id == Some(devices[at].id) ==> {
                    &&& bus.detail == devices[at].name@
                    &&& bus.endpoint_name == Some(devices[at].name@)
                    &&& bus.online <==> !(devices[at].state is Disconnected) && !(
                    devices[at].state is Error)
                }
            }
            &&& source.endpoint_id is Some && (forall|i: int|
                0 <= i < devices.len() ==> (#[trigger] devices[i]).id != source.endpoint_id->0) ==> {
                &&& !shown.online
                &&& shown.endpoint_name == source.endpoint_name
                &&& source.endpoint_name is Some ==> shown.detail == source.endpoint_name->0
                    + " — offline"@
                &&& source.endpoint_name is None ==> shown.detail == labels::source_hint(
                    source.kind,
                )
            }
            &&& output.endpoint_id is Some && (forall|i: int|
                0 <= i < devices.len() ==> (#[trigger] devices[i]).id != output.endpoint_id->0) ==> {
                &&& !bus.online
                &&& bus.endpoint_name == output.endpoint_name
                &&& output.endpoint_name is Some ==> bus.detail == output.endpoint_name->0
                    + " — offline"@
            }
        }),
{
    if source.endpoint_id is Some {
        law_the_first_device_is_found(devices, source.endpoint_id->0);
    }
    if output.endpoint_id is Some {
        law_the_first_device_is_found(devices, output.endpoint_id->0);
    }
    if 0 <= at < devices.len() {
        law_the_first_device_is_found(devices, devices[at].id);
        let found = device_place(devices, devices[at].id)->0;
        if forall|i: int| 0 <= i < at ==> (#[trigger] devices[i]).id != devices[at].id {
            if found < at {
                assert(devices[found].id != devices[at].id);
            }
            if at < found {
                assert(devices[at].id != devices[at].id);
            }
            assert(found == at);
        }
    }
}

/// A channel that is fed to no bus has every cell off.
pub proof fn law_no_routes_are_all_off(count: nat, at: int)
    requires
        0 <= at < count,
    ensures
        no_routes(count).len() == count,
        !no_routes(count)[at],
{
}

} // verus!
