//! Applications as sources: which processes are offered, how they are named,
//! and how the capture of one is set up and torn down.
use std::sync::Arc;

use vstd::prelude::*;

use super::pipewire::{route_command_error, stable_channel_ids, stable_endpoint_id};
use super::pipewire;
use super::properties;
use crate::domain::controls::{GainDb, NormalizedBalance};
use crate::domain::capability::BackendCapabilities;
use crate::domain::endpoint::{AudioEndpoint, EndpointIdentity, EndpointState, EndpointType};
use crate::domain::error::{AudioError, ErrorCode, ErrorModel};
use crate::domain::ids::EndpointId;
use crate::domain::ids;
use crate::text::{copied_text, decimal_text, joined, joined3, same_text, signed_text};
use crate::text;

verus! {

/// A platform whose devices are polled.
#[derive(Clone, Copy, Debug, PartialEq, Eq, Structural)]
pub enum Platform {
    Linux,
    Windows,
    /// Process taps came with one version of the system.
    MacOs { taps_available: bool },
}

/// Whether the audio of single applications can be captured: from the streams
/// of the audio server, by loopback, or by taps.
pub fn application_sources_supported(platform: Platform) -> (supported: bool)
    ensures
        supported == match platform {
            Platform::Linux => true,
            Platform::Windows => true,
            Platform::MacOs { taps_available } => taps_available,
        },
{
    match platform {
        Platform::Linux => true,
        Platform::Windows => true,
        Platform::MacOs { taps_available } => taps_available,
    }
}

/// What the backend of a platform can do. Only the audio server of Linux makes
/// virtual devices without a driver.
pub fn platform_capabilities(platform: Platform) -> (capabilities: BackendCapabilities)
    ensures
        capabilities.virtual_devices == (platform is Linux),
        capabilities.application_sources == !(platform matches Platform::MacOs { taps_available }
            && !taps_available),
{
    BackendCapabilities {
        virtual_devices: match platform {
            Platform::Linux => true,
            _ => false,
        },
        application_sources: application_sources_supported(platform),
    }
}

/// A process that the platform reports.
#[derive(Debug)]
pub struct ProcessReport {
    pub pid: u32,
    /// The name of the process, where it can be told.
    pub display: Option<String>,
    /// The process plays audio right now.
    pub playing: bool,
}

/// What is said when an application cannot be captured.
pub fn loopback_error(user: &str, technical: &str) -> (error: AudioError)
    ensures
        error@ == pipewire::route_fault(ErrorCode::InvalidRoute, user@, technical@),
{
    route_command_error(ErrorCode::InvalidRoute, user, technical)
}

/// What is said when an application cannot be tapped.
pub fn tap_error(user: &str, technical: &str) -> (error: AudioError)
    ensures
        error@ == pipewire::route_fault(ErrorCode::InvalidRoute, user@, technical@),
{
    route_command_error(ErrorCode::InvalidRoute, user, technical)
}

/// The last part of a path, after the last separator of either kind.
pub open spec fn last_part(path: Seq<char>) -> Seq<char>
    decreases path.len(),
{
    if path.len() == 0 || path.last() == '\\' || path.last() == '/' {
        Seq::empty()
    } else {
        last_part(path.drop_last()).push(path.last())
    }
}

/// A name without the extension of executables, as often as it is there.
pub open spec fn without_extensions(name: Seq<char>) -> Seq<char>
    decreases name.len(),
{
    if 4 <= name.len() && name.skip(name.len() - 4) =~= ".exe"@ {
        without_extensions(name.take(name.len() - 4))
    } else {
        name
    }
}

proof fn lemma_last_part(path: Seq<char>, start: int)
    requires
        0 <= start <= path.len(),
        start == 0 || path[start - 1] == '\\' || path[start - 1] == '/',
        forall|i: int|
            start <= i < path.len() ==> (#[trigger] path[i]) != '\\' && path[i] != '/',
    ensures
        last_part(path) =~= path.skip(start),
    decreases path.len(),
{
    if start < path.len() {
        assert forall|i: int| start <= i < path.drop_last().len() implies (
        #[trigger] path.drop_last()[i]) != '\\' && path.drop_last()[i] != '/' by {
            assert(path.drop_last()[i] == path[i]);
        }
        lemma_last_part(path.drop_last(), start);
        assert(path.drop_last().skip(start).push(path.last()) =~= path.skip(start));
    }
}

/// The name of a process, out of the path of its executable.
pub fn process_name(path: &str) -> (name: Option<String>)
    ensures
        match name {
            Some(name) => name@ == without_extensions(last_part(path@)) && name@.len() > 0,
            None => without_extensions(last_part(path@)).len() == 0,
        },
{
    let total: usize = path.unicode_len();
    let mut start: usize = total;
    while start > 0 && path.get_char(start - 1) != '\\' && path.get_char(start - 1) != '/'
        invariant
            start <= total == path@.len(),
            forall|i: int|
                start <= i < total ==> (#[trigger] path@[i]) != '\\' && path@[i] != '/',
        decreases start,
    {
        start = start - 1;
    }
    proof {
        lemma_last_part(path@, start as int);
        reveal_strlit(".exe");
    }
    let file = path.substring_char(start, total);
    assert(file@ =~= last_part(path@));
    let mut end: usize = file.unicode_len();
    assert(file@.take(end as int) =~= file@);
    while end >= 4 && same_text(file.substring_char(end - 4, end), ".exe")
        invariant
            end <= file@.len(),
            ".exe"@.len() == 4,
            without_extensions(file@) == without_extensions(file@.take(end as int)),
        decreases end,
    {
        assert(file@.take(end as int).skip(end - 4) =~= file@.subrange(end - 4, end as int));
        assert(file@.take(end as int).take(end - 4) =~= file@.take(end - 4));
        end = end - 4;
    }
    proof {
        if end >= 4 {
            assert(file@.take(end as int).skip(end - 4) =~= file@.subrange(end - 4, end as int));
        }
        assert(file@.subrange(0, end as int) =~= file@.take(end as int));
    }
    if end == 0 {
        None
    } else {
        Some(file.substring_char(0, end).to_owned())
    }
}

/// The name under which a process is offered.
pub open spec fn shown_name(report: ProcessReport) -> Seq<char> {
    match report.display {
        Some(display) => display@,
        None => "Process "@ + text::decimal(report.pid as nat),
    }
}

/// Whether an identity is that of a process. Its name is the stable key.
pub open spec fn names_process(
    identity: EndpointIdentity,
    backend: Seq<char>,
    report: ProcessReport,
) -> bool {
    &&& identity.backend@ == backend
    &&& identity.serial == report.display
    &&& properties::held(identity.device_name) == Some(shown_name(report))
    &&& identity.bus is None
    &&& identity.vendor is None
    &&& identity.product is None
    &&& identity.node_name is None
    &&& identity.profile is None
    &&& identity.media_class is None
    &&& identity.alsa_path is None
}

/// Whether an endpoint is the one for a process.
pub open spec fn is_application(
    endpoint: AudioEndpoint,
    backend: Seq<char>,
    report: ProcessReport,
) -> bool {
    &&& endpoint.id == (EndpointId {
        value: pipewire::derived_id(
            pipewire::endpoint_key(endpoint.identity, EndpointType::ApplicationOutput),
        ),
    })
    &&& endpoint.runtime_id == Some(report.pid)
    &&& endpoint.device_id is None
    &&& endpoint.virtual_device_id is None
    &&& names_process(endpoint.identity, backend, report)
    &&& endpoint.name@ == shown_name(report)
    &&& endpoint.description@ == shown_name(report)
    &&& endpoint.endpoint_type == EndpointType::ApplicationOutput
    &&& endpoint.state == EndpointState::Available
    &&& endpoint.channel_count == 2
    &&& endpoint.sample_rate is None
    &&& !endpoint.is_default
    &&& endpoint.channels@ == pipewire::channel_ids(endpoint.id, 2)
    &&& endpoint.gain.amount().bits == 0
    &&& !endpoint.muted
    &&& endpoint.balance.amount().bits == 0
}

/// The endpoint for a process.
pub fn application_endpoint(backend: &str, report: &ProcessReport) -> (endpoint: AudioEndpoint)
    ensures
        is_application(endpoint, backend@, *report),
{
    let name = match &report.display {
        Some(display) => display.clone(),
        None => {
            let pid = decimal_text(report.pid as u64);
            joined("Process ", pid.as_str())
        },
    };
    let mut identity = EndpointIdentity::new(backend);
    identity.serial = copied_text(&report.display);
    identity.device_name = Some(name.clone());
    let id = stable_endpoint_id(&identity, EndpointType::ApplicationOutput);
    AudioEndpoint {
        id,
        runtime_id: Some(report.pid),
        device_id: None,
        virtual_device_id: None,
        identity,
        name: name.clone(),
        description: name,
        endpoint_type: EndpointType::ApplicationOutput,
        state: EndpointState::Available,
        channel_count: 2,
        sample_rate: None,
        is_default: false,
        channels: Arc::new(stable_channel_ids(id, 2)),
        gain: GainDb::default(),
        muted: false,
        balance: NormalizedBalance::default(),
    }
}

/// Two instances of one application have the same identifier, so a route to it
/// comes back when the application plays again.
pub proof fn law_process_name_is_the_stable_key(
    first: AudioEndpoint,
    second: AudioEndpoint,
    backend: Seq<char>,
    before: ProcessReport,
    after: ProcessReport,
)
    requires
        is_application(first, backend, before),
        is_application(second, backend, after),
        before.display is Some,
        before.display == after.display,
    ensures
        first.id == second.id,
        first.channels@ == second.channels@,
{
    assert(pipewire::endpoint_key(first.identity, EndpointType::ApplicationOutput)
        == pipewire::endpoint_key(second.identity, EndpointType::ApplicationOutput));
}

/// Whether one of the reports is of the process with this number.
pub open spec fn reported(reports: Seq<ProcessReport>, pid: u32) -> bool {
    exists|i: int| 0 <= i < reports.len() && (#[trigger] reports[i]).pid == pid
}

/// The places of the sessions that are offered: the first of each process.
pub open spec fn offered_sessions(reports: Seq<ProcessReport>) -> Seq<int>
    decreases reports.len(),
{
    if reports.len() == 0 {
        Seq::empty()
    } else {
        let before = offered_sessions(reports.drop_last());
        let pid = reports.last().pid;
        if pid == 0 || reported(reports.drop_last(), pid) {
            before
        } else {
            before.push(reports.len() - 1)
        }
    }
}

/// Whether endpoints are those of the reports at some places.
pub open spec fn are_applications(
    endpoints: Seq<AudioEndpoint>,
    backend: Seq<char>,
    reports: Seq<ProcessReport>,
    places: Seq<int>,
) -> bool {
    &&& endpoints.len() == places.len()
    &&& forall|i: int|
        0 <= i < places.len() ==> is_listed(#[trigger] endpoints[i], backend, reports, places[i])
}

/// Whether an endpoint is the one for the report at a place.
pub open spec fn is_listed(
    endpoint: AudioEndpoint,
    backend: Seq<char>,
    reports: Seq<ProcessReport>,
    place: int,
) -> bool {
    0 <= place < reports.len() && is_application(endpoint, backend, reports[place])
}

proof fn lemma_one_more(
    endpoints: Seq<AudioEndpoint>,
    backend: Seq<char>,
    reports: Seq<ProcessReport>,
    places: Seq<int>,
    endpoint: AudioEndpoint,
    place: int,
)
    requires
        are_applications(endpoints, backend, reports, places),
        0 <= place < reports.len(),
        is_application(endpoint, backend, reports[place]),
    ensures
        are_applications(endpoints.push(endpoint), backend, reports, places.push(place)),
{
    let all = endpoints.push(endpoint);
    let found = places.push(place);
    assert forall|i: int| 0 <= i < found.len() implies is_listed(
        #[trigger] all[i],
        backend,
        reports,
        found[i],
    ) by {
        if i < places.len() {
            assert(all[i] == endpoints[i]);
            assert(found[i] == places[i]);
        } else {
            assert(all[i] == endpoint);
            assert(found[i] == place);
        }
    }
}

/// Turns the audio sessions of Windows into endpoints, one for each process.
pub fn enumerate_application_sessions(reports: &Vec<ProcessReport>) -> (endpoints: Vec<
    AudioEndpoint,
>)
    ensures
        are_applications(endpoints@, "wasapi"@, reports@, offered_sessions(reports@)),
{
    let mut endpoints: Vec<AudioEndpoint> = Vec::new();
    let mut seen: Vec<u32> = Vec::new();
    let mut at: usize = 0;
    while at < reports.len()
        invariant
            at <= reports@.len(),
            are_applications(
                endpoints@,
                "wasapi"@,
                reports@,
                offered_sessions(reports@.take(at as int)),
            ),
            forall|pid: u32|
                pid != 0 ==> (reported(reports@.take(at as int), pid)
                    <==> #[trigger] seen@.contains(pid)),
        decreases reports@.len() - at,
    {
        let report = &reports[at];
        let ghost before = reports@.take(at as int);
        let ghost here = reports@.take(at + 1);
        assert(here.drop_last() =~= before);
        assert(here.last() == *report);
        let known = holds_number(&seen, report.pid);
        proof {
            assert forall|pid: u32| reported(here, pid) <==> reported(before, pid) || pid
                == report.pid by {
                if reported(before, pid) {
                    let i = choose|i: int| 0 <= i < before.len() && (#[trigger] before[i]).pid == pid;
                    assert(here[i].pid == pid);
                }
                if pid == report.pid {
                    assert(here[at as int].pid == pid);
                }
                if reported(here, pid) && pid != report.pid {
                    let i = choose|i: int| 0 <= i < here.len() && (#[trigger] here[i]).pid == pid;
                    assert(before[i].pid == pid);
                }
            }
        }
        if report.pid != 0 && !known {
            let ghost held = seen@;
            seen.push(report.pid);
            proof {
                assert forall|pid: u32| pid != 0 implies (reported(here, pid)
                    <==> #[trigger] seen@.contains(pid)) by {
                    if held.contains(pid) {
                        let i = choose|i: int| 0 <= i < held.len() && held[i] == pid;
                        assert(seen@[i] == pid);
                    }
                    assert(seen@[held.len() as int] == report.pid);
                    if seen@.contains(pid) && pid != report.pid {
                        let i = choose|i: int| 0 <= i < seen@.len() && seen@[i] == pid;
                        assert(held[i] == pid);
                    }
                    assert(held.contains(pid) == reported(before, pid));
                }
            }
            let endpoint = application_endpoint("wasapi", report);
            proof {
                lemma_one_more(
                    endpoints@,
                    "wasapi"@,
                    reports@,
                    offered_sessions(before),
                    endpoint,
                    at as int,
                );
            }
            endpoints.push(endpoint);
        } else {
            assert(forall|pid: u32|
                pid != 0 ==> (reported(before, pid) <==> #[trigger] seen@.contains(pid)));
        }
        at = at + 1;
    }
    assert(reports@.take(at as int) =~= reports@);
    endpoints
}

fn holds_number(numbers: &Vec<u32>, wanted: u32) -> (found: bool)
    ensures
        found == numbers@.contains(wanted),
{
    let mut at: usize = 0;
    while at < numbers.len()
        invariant
            at <= numbers@.len(),
            forall|i: int| 0 <= i < at ==> numbers@[i] != wanted,
        decreases numbers@.len() - at,
    {
        if numbers[at] == wanted {
            assert(numbers@.contains(wanted));
            return true;
        }
        at = at + 1;
    }
    false
}

/// The places of the processes that are offered: those of others that play.
pub open spec fn offered_processes(reports: Seq<ProcessReport>, own_pid: u32) -> Seq<int>
    decreases reports.len(),
{
    if reports.len() == 0 {
        Seq::empty()
    } else {
        let before = offered_processes(reports.drop_last(), own_pid);
        let last = reports.last();
        if last.pid == own_pid || last.pid == 0 || !last.playing {
            before
        } else {
            before.push(reports.len() - 1)
        }
    }
}

/// Turns the processes that macOS reports into endpoints.
pub fn enumerate_application_processes(reports: &Vec<ProcessReport>, own_pid: u32) -> (endpoints:
    Vec<AudioEndpoint>)
    ensures
        are_applications(
            endpoints@,
            "coreaudio"@,
            reports@,
            offered_processes(reports@, own_pid),
        ),
{
    let mut endpoints: Vec<AudioEndpoint> = Vec::new();
    let mut at: usize = 0;
    while at < reports.len()
        invariant
            at <= reports@.len(),
            are_applications(
                endpoints@,
                "coreaudio"@,
                reports@,
                offered_processes(reports@.take(at as int), own_pid),
            ),
        decreases reports@.len() - at,
    {
        let report = &reports[at];
        assert(reports@.take(at + 1).drop_last() =~= reports@.take(at as int));
        assert(reports@.take(at + 1).last() == *report);
        if report.pid != own_pid && report.pid != 0 && report.playing {
            let endpoint = application_endpoint("coreaudio", report);
            proof {
                lemma_one_more(
                    endpoints@,
                    "coreaudio"@,
                    reports@,
                    offered_processes(reports@.take(at as int), own_pid),
                    endpoint,
                    at as int,
                );
            }
            endpoints.push(endpoint);
        }
        at = at + 1;
    }
    assert(reports@.take(at as int) =~= reports@);
    endpoints
}

/// What is said of an application without a process.
pub open spec fn gone_fault(technical: Seq<char>) -> ErrorModel {
    pipewire::route_fault(
        ErrorCode::InvalidRoute,
        "That application is no longer playing audio."@,
        technical,
    )
}

/// The process to capture for an application.
pub fn captured_process(endpoint: &AudioEndpoint) -> (result: Result<u32, AudioError>)
    ensures
        match endpoint.runtime_id {
            Some(pid) => result == Ok::<u32, AudioError>(pid),
            None => result is Err && result->Err_0@ == gone_fault(
                "application endpoint "@ + ids::hyphenated(endpoint.id.value)
                    + " has no process id"@,
            ),
        },
{
    match endpoint.runtime_id {
        Some(pid) => Ok(pid),
        None => {
            let id = endpoint.id.to_text();
            Err(
                loopback_error(
                    "That application is no longer playing audio.",
                    joined3("application endpoint ", id.as_str(), " has no process id").as_str(),
                ),
            )
        },
    }
}

/// What is said when the engine for an application cannot be made.
pub fn application_dsp_error(detail: &str) -> (error: AudioError)
    ensures
        error@ == pipewire::route_fault(
            ErrorCode::InvalidRoute,
            "Orion could not start realtime processing for that connection."@,
            "failed to initialize application capture DSP: "@ + detail@,
        ),
{
    loopback_error(
        "Orion could not start realtime processing for that connection.",
        joined("failed to initialize application capture DSP: ", detail).as_str(),
    )
}

/// The length of a loopback buffer in units of a hundred nanoseconds, at least
/// ten milliseconds.
pub fn buffer_duration(buffer_frames: u32, rate: u32) -> (duration: i64)
    ensures
        ({
            let per_second: int = if rate == 0 {
                1
            } else {
                rate as int
            };
            let exact = buffer_frames * 10_000_000 / per_second;
            duration == (if exact < 100_000 {
                100_000
            } else {
                exact
            })
        }),
{
    let per_second: u64 = if rate == 0 {
        1
    } else {
        rate as u64
    };
    let exact: u64 = buffer_frames as u64 * 10_000_000 / per_second;
    assert(exact <= buffer_frames as u64 * 10_000_000) by (nonlinear_arith)
        requires
            exact == buffer_frames as u64 * 10_000_000 / per_second as int,
            per_second >= 1,
    ;
    if exact < 100_000 {
        100_000
    } else {
        exact as i64
    }
}

/// The object of the first process with a number, among pairs of an object and
/// the number of its process.
pub open spec fn object_of(objects: Seq<(u32, Option<u32>)>, pid: u32) -> Option<u32>
    decreases objects.len(),
{
    if objects.len() == 0 {
        None
    } else if objects[0].1 == Some(pid) {
        Some(objects[0].0)
    } else {
        object_of(objects.skip(1), pid)
    }
}

/// Finds the object to tap for an application.
pub fn tapped_process(
    taps_available: bool,
    endpoint: &AudioEndpoint,
    objects: &Vec<(u32, Option<u32>)>,
) -> (result: Result<u32, AudioError>)
    ensures
        match result {
            Ok(object) => {
                &&& taps_available
                &&& endpoint.runtime_id matches Some(pid)
                &&& object_of(objects@, pid) == Some(object)
            },
            Err(error) => if !taps_available {
                error@ == pipewire::route_fault(
                    ErrorCode::InvalidRoute,
                    "Capturing an application's audio needs macOS 14.2 or later."@,
                    "CATapDescription is unavailable on this macOS"@,
                )
            } else {
                match endpoint.runtime_id {
                    None => error@ == gone_fault(
                        "application endpoint "@ + ids::hyphenated(endpoint.id.value)
                            + " has no process id"@,
                    ),
                    Some(pid) => object_of(objects@, pid) is None && error@ == gone_fault(
                        "no HAL process object for pid "@ + text::decimal(pid as nat),
                    ),
                }
            },
        },
{
    if !taps_available {
        return Err(
            tap_error(
                "Capturing an application's audio needs macOS 14.2 or later.",
                "CATapDescription is unavailable on this macOS",
            ),
        );
    }
    let pid = match captured_process(endpoint) {
        Ok(pid) => pid,
        Err(error) => {
            return Err(error);
        },
    };
    let mut at: usize = 0;
    assert(objects@.skip(0) =~= objects@);
    while at < objects.len()
        invariant
            at <= objects@.len(),
            taps_available,
            endpoint.runtime_id == Some(pid),
            object_of(objects@, pid) == object_of(objects@.skip(at as int), pid),
        decreases objects@.len() - at,
    {
        assert(objects@.skip(at as int)[0] == objects@[at as int]);
        assert(objects@.skip(at as int).skip(1) =~= objects@.skip(at + 1));
        if let Some(found) = objects[at].1 {
            if found == pid {
                return Ok(objects[at].0);
            }
        }
        at = at + 1;
    }
    let pid = decimal_text(pid as u64);
    Err(
        tap_error(
            "That application is no longer playing audio.",
            joined("no HAL process object for pid ", pid.as_str()).as_str(),
        ),
    )
}

/// The description of the device that carries a tap.
#[derive(Debug)]
pub struct TapDevice {
    pub name: String,
    pub uid: String,
    pub tap_autostart: bool,
    pub private: bool,
    pub stacked: bool,
}

/// Describes the device that carries a tap.
pub fn tap_device(endpoint_name: &str, tap: u32) -> (device: TapDevice)
    ensures
        device.name@ == "Orion Tap "@ + endpoint_name@,
        device.uid@ == "io.github.gardun0.orion.tap."@ + text::decimal(tap as nat),
        device.tap_autostart,
        device.private,
        !device.stacked,
{
    let number = decimal_text(tap as u64);
    TapDevice {
        name: joined("Orion Tap ", endpoint_name),
        uid: joined("io.github.gardun0.orion.tap.", number.as_str()),
        tap_autostart: true,
        private: true,
        stacked: false,
    }
}

/// The steps in which a tap is started.
#[derive(Clone, Copy, Debug, PartialEq, Eq, Structural)]
pub enum TapStep {
    CreateTap,
    ReadIdentity,
    CreateDevice,
    RegisterCallback,
    StartDevice,
}

/// What the capture of a tap holds.
#[derive(Clone, Copy, Debug, PartialEq, Eq, Structural)]
pub enum TapResource {
    Tap,
    Device,
    Context,
    Callback,
}

/// What is held when a step begins or fails, in the order in which it was made.
/// The context of a callback is made with the request to register it.
pub open spec fn held_at(step: TapStep) -> Seq<TapResource> {
    match step {
        TapStep::CreateTap => Seq::empty(),
        TapStep::ReadIdentity | TapStep::CreateDevice => seq![TapResource::Tap],
        TapStep::RegisterCallback => seq![
            TapResource::Tap,
            TapResource::Device,
            TapResource::Context,
        ],
        TapStep::StartDevice => seq![
            TapResource::Tap,
            TapResource::Device,
            TapResource::Context,
            TapResource::Callback,
        ],
    }
}

/// What is given back when a step fails, in this order. It is also what a
/// capture gives back at its end, once its device has stopped, by the last
/// step.
pub fn released_at(step: TapStep) -> (resources: Vec<TapResource>)
    ensures
        resources@ == held_at(step).reverse(),
{
    let mut resources: Vec<TapResource> = Vec::new();
    if step == TapStep::StartDevice {
        resources.push(TapResource::Callback);
    }
    if step == TapStep::StartDevice || step == TapStep::RegisterCallback {
        resources.push(TapResource::Context);
        resources.push(TapResource::Device);
    }
    if step != TapStep::CreateTap {
        resources.push(TapResource::Tap);
    }
    assert(resources@ =~= held_at(step).reverse());
    resources
}

/// The engine behind a callback outlives its registration.
pub proof fn law_callback_goes_before_its_context(step: TapStep, callback: int, context: int)
    requires
        0 <= callback < held_at(step).len(),
        0 <= context < held_at(step).len(),
        held_at(step).reverse()[callback] == TapResource::Callback,
        held_at(step).reverse()[context] == TapResource::Context,
    ensures
        callback < context,
{
}

/// What is said when a tap may have been denied.
pub open spec fn permission_fault(
    name: Seq<char>,
    status: int,
    operation: Seq<char>,
) -> ErrorModel {
    pipewire::route_fault(
        ErrorCode::InvalidRoute,
        "Orion could not capture "@ + name
            + ". If macOS asked about audio capture, allow Orion in System Settings → Privacy & Security → Screen & System Audio, then try again."@,
        operation + ": OSStatus "@ + text::signed_decimal(status),
    )
}

/// What is said when a tap may have been denied: it names the fix.
pub fn permission_or_tap_error(name: &str, status: i32, operation: &str) -> (error: AudioError)
    ensures
        error@ == permission_fault(name@, status as int, operation@),
{
    let status = signed_text(status);
    tap_error(
        joined3(
            "Orion could not capture ",
            name,
            ". If macOS asked about audio capture, allow Orion in System Settings → Privacy & Security → Screen & System Audio, then try again.",
        ).as_str(),
        joined3(operation, ": OSStatus ", status.as_str()).as_str(),
    )
}

/// What is said when a step of starting a tap fails.
pub fn tap_step_error(step: TapStep, endpoint_name: &str, tap: u32, device: u32, status: i32) -> (
error: AudioError)
    ensures
        error@ == match step {
            TapStep::CreateTap => permission_fault(
                endpoint_name@,
                status as int,
                "failed to create process tap"@,
            ),
            TapStep::ReadIdentity => pipewire::route_fault(
                ErrorCode::InvalidRoute,
                "Orion could not read the tap's identity."@,
                "tap "@ + text::decimal(tap as nat) + " has no UID property"@,
            ),
            TapStep::CreateDevice => permission_fault(
                endpoint_name@,
                status as int,
                "failed to create the tap aggregate device"@,
            ),
            TapStep::RegisterCallback => pipewire::route_fault(
                ErrorCode::InvalidRoute,
                "Orion could not attach to the application's audio."@,
                "IOProc registration failed on aggregate "@ + text::decimal(device as nat) + ": "@
                    + text::signed_decimal(status as int),
            ),
            TapStep::StartDevice => permission_fault(
                endpoint_name@,
                status as int,
                "failed to start the tap aggregate device"@,
            ),
        },
{
    match step {
        TapStep::CreateTap => permission_or_tap_error(
            endpoint_name,
            status,
            "failed to create process tap",
        ),
        TapStep::ReadIdentity => {
            let tap = decimal_text(tap as u64);
            tap_error(
                "Orion could not read the tap's identity.",
                joined3("tap ", tap.as_str(), " has no UID property").as_str(),
            )
        },
        TapStep::CreateDevice => permission_or_tap_error(
            endpoint_name,
            status,
            "failed to create the tap aggregate device",
        ),
        TapStep::RegisterCallback => {
            let device = decimal_text(device as u64);
            let status = signed_text(status);
            let mut technical = joined3(
                "IOProc registration failed on aggregate ",
                device.as_str(),
                ": ",
            );
            technical.append(status.as_str());
            tap_error(
                "Orion could not attach to the application's audio.",
                technical.as_str(),
            )
        },
        TapStep::StartDevice => permission_or_tap_error(
            endpoint_name,
            status,
            "failed to start the tap aggregate device",
        ),
    }
}

/// How many samples of a tapped buffer are processed. A tap delivers
/// interleaved stereo; anything else is dropped.
pub fn tapped_samples(buffers: u32, has_data: bool, channels: u32, byte_size: u32) -> (samples:
    Option<usize>)
    ensures
        samples == (if buffers == 0 || !has_data || channels != 2 {
            None
        } else {
            Some((byte_size / 4) as usize)
        }),
{
    if buffers == 0 || !has_data || channels != 2 {
        None
    } else {
        Some((byte_size / 4) as usize)
    }
}

/// The last part of a path is what follows the last separator of either kind,
/// and a name without one is itself.
pub proof fn law_a_name_follows_the_last_separator(front: Seq<char>, name: Seq<char>)
    requires
        forall|i: int| 0 <= i < name.len() ==> (#[trigger] name[i]) != '\\' && name[i] != '/',
    ensures
        last_part(front.push('/') + name) == name,
        last_part(front.push('\\') + name) == name,
        last_part(name) == name,
{
    let slashed = front.push('/') + name;
    lemma_last_part(slashed, front.len() as int + 1);
    assert(slashed.skip(front.len() as int + 1) =~= name);
    let backslashed = front.push('\\') + name;
    lemma_last_part(backslashed, front.len() as int + 1);
    assert(backslashed.skip(front.len() as int + 1) =~= name);
    lemma_last_part(name, 0);
    assert(name.skip(0) =~= name);
}

/// The extension of an executable comes off a name, and nothing else does.
pub proof fn law_the_extension_comes_off(name: Seq<char>)
    ensures
        without_extensions(name + ".exe"@) == without_extensions(name),
        (name.len() < 4 || name.skip(name.len() - 4) != ".exe"@) ==> without_extensions(name)
            == name,
{
    reveal_strlit(".exe");
    let full = name + ".exe"@;
    assert(full.skip(full.len() - 4) =~= ".exe"@);
    assert(full.take(full.len() - 4) =~= name);
}

/// A process is offered as an application that plays: under its own name, or
/// under its number where it has none, in stereo, at unity gain, audible and
/// centered.
pub proof fn law_a_process_is_offered_as_it_is_named(
    endpoint: AudioEndpoint,
    backend: Seq<char>,
    report: ProcessReport,
)
    requires
        is_application(endpoint, backend, report),
    ensures
        endpoint.endpoint_type == EndpointType::ApplicationOutput,
        endpoint.runtime_id == Some(report.pid),
        endpoint.identity.backend@ == backend,
        endpoint.identity.serial == report.display,
        endpoint.state == EndpointState::Available,
        endpoint.channel_count == 2,
        endpoint.channels@.len() == 2,
        endpoint.gain.amount().bits == 0,
        !endpoint.muted,
        endpoint.balance.amount().bits == 0,
        !endpoint.is_default,
        endpoint.virtual_device_id is None,
        report.display is Some ==> endpoint.name@ == report.display->0@ && endpoint.description@
            == report.display->0@,
        report.display is None ==> endpoint.name@ == "Process "@ + text::decimal(
            report.pid as nat,
        ),
{
}

/// Of the sessions, exactly the first of each process is offered, and none of
/// the system itself.
pub proof fn law_a_process_is_offered_once(reports: Seq<ProcessReport>, at: int)
    requires
        0 <= at < reports.len(),
    ensures
        offered_sessions(reports).contains(at) <==> reports[at].pid != 0 && forall|k: int|
            0 <= k < at ==> (#[trigger] reports[k]).pid != reports[at].pid,
        forall|i: int|
            0 <= i < offered_sessions(reports).len() ==> 0 <= (
            #[trigger] offered_sessions(reports)[i]) < reports.len(),
    decreases reports.len(),
{
    let front = reports.drop_last();
    let before = offered_sessions(front);
    let all = offered_sessions(reports);
    let last = reports.len() - 1;
    assert forall|k: int| 0 <= k < last implies (#[trigger] front[k]) == reports[k] by {}
    if front.len() > 0 {
        law_a_process_is_offered_once(
            front,
            if at < last {
                at
            } else {
                0
            },
        );
    }
    assert forall|i: int| 0 <= i < all.len() implies 0 <= (#[trigger] all[i]) < reports.len() by {
        if i < before.len() {
            assert(all[i] == before[i]);
        }
    }
    if all.contains(at) {
        let i = choose|i: int| 0 <= i < all.len() && all[i] == at;
        if i < before.len() {
            assert(before[i] == at);
        }
    }
    if at < last {
        assert(front[at] == reports[at]);
        if before.contains(at) {
            let i = choose|i: int| 0 <= i < before.len() && before[i] == at;
            assert(all[i] == at);
            assert forall|k: int| 0 <= k < at implies (#[trigger] reports[k]).pid
                != reports[at].pid by {
                assert(front[k].pid != front[at].pid);
            }
        }
    } else {
        if all.len() > before.len() {
            assert(all[before.len() as int] == at);
            assert forall|k: int| 0 <= k < at implies (#[trigger] reports[k]).pid
                != reports[at].pid by {
                assert(front[k].pid != reports[at].pid);
            }
        } else if reported(front, reports[at].pid) {
            let k = choose|k: int|
                0 <= k < front.len() && (#[trigger] front[k]).pid == reports[at].pid;
            assert(reports[k].pid == reports[at].pid);
        }
    }
}

/// Of the processes, exactly those of others that play are offered, in order.
pub proof fn law_playing_processes_of_others_are_offered(
    reports: Seq<ProcessReport>,
    own_pid: u32,
    at: int,
)
    requires
        0 <= at < reports.len(),
    ensures
        offered_processes(reports, own_pid).contains(at) <==> reports[at].playing
            && reports[at].pid != 0 && reports[at].pid != own_pid,
        forall|i: int|
            0 <= i < offered_processes(reports, own_pid).len() ==> 0 <= (
            #[trigger] offered_processes(reports, own_pid)[i]) < reports.len(),
    decreases reports.len(),
{
    let front = reports.drop_last();
    let before = offered_processes(front, own_pid);
    let all = offered_processes(reports, own_pid);
    let last = reports.len() - 1;
    if front.len() > 0 {
        law_playing_processes_of_others_are_offered(
            front,
            own_pid,
            if at < last {
                at
            } else {
                0
            },
        );
    }
    assert forall|i: int| 0 <= i < all.len() implies 0 <= (#[trigger] all[i]) < reports.len() by {
        if i < before.len() {
            assert(all[i] == before[i]);
        }
    }
    if at < last {
        assert(front[at] == reports[at]);
        if before.contains(at) {
            let i = choose|i: int| 0 <= i < before.len() && before[i] == at;
            assert(all[i] == at);
        }
        if all.contains(at) {
            let i = choose|i: int| 0 <= i < all.len() && all[i] == at;
            if i < before.len() {
                assert(before[i] == at);
            }
        }
    } else {
        if all.contains(at) {
            let i = choose|i: int| 0 <= i < all.len() && all[i] == at;
            if i < before.len() {
                assert(before[i] == at);
            }
        }
        if all.len() > before.len() {
            assert(all[before.len() as int] == at);
        }
    }
}

/// The object that is tapped is the first one of the process, and none is
/// where the process has none.
pub proof fn law_the_object_of_a_process_is_tapped(
    objects: Seq<(u32, Option<u32>)>,
    pid: u32,
    at: int,
)
    requires
        0 <= at < objects.len(),
    ensures
        objects[at].1 == Some(pid) && (forall|i: int|
            0 <= i < at ==> (#[trigger] objects[i]).1 != Some(pid)) ==> object_of(objects, pid)
            == Some(objects[at].0),
        (forall|i: int| 0 <= i < objects.len() ==> (#[trigger] objects[i]).1 != Some(pid))
            ==> object_of(objects, pid) is None,
    decreases objects.len(),
{
    let rest = objects.skip(1);
    assert forall|i: int| 0 <= i < rest.len() implies (#[trigger] rest[i]) == objects[i + 1] by {}
    if objects[0].1 != Some(pid) {
        if at > 0 {
            assert(rest[at - 1] == objects[at]);
            law_the_object_of_a_process_is_tapped(rest, pid, at - 1);
        } else if rest.len() > 0 {
            law_the_object_of_a_process_is_tapped(rest, pid, 0);
        }
    } else if at > 0 {
        assert(objects[0].1 == Some(pid));
    }
}

/// What was made is what is held, in the order in which it is made: a step
/// adds to what the one before it held and takes nothing away.
pub proof fn law_a_tap_holds_what_it_made()
    ensures
        held_at(TapStep::CreateTap).len() == 0,
        held_at(TapStep::ReadIdentity) == seq![TapResource::Tap],
        held_at(TapStep::CreateDevice) == held_at(TapStep::ReadIdentity),
        held_at(TapStep::RegisterCallback) == held_at(TapStep::CreateDevice).push(
            TapResource::Device,
        ).push(TapResource::Context),
        held_at(TapStep::StartDevice) == held_at(TapStep::RegisterCallback).push(
            TapResource::Callback,
        ),
{
}

/// A process is shown by the name that it has, or by its number; its identity
/// holds that name and nothing that it does not have; and what went wrong with a
/// tap names the application, the call and its status.
pub proof fn law_processes_are_named(
    report: ProcessReport,
    identity: EndpointIdentity,
    backend: Seq<char>,
    technical: Seq<char>,
    name: Seq<char>,
    operation: Seq<char>,
    status: int,
)
    ensures
        report.display matches Some(display) ==> shown_name(report) == display@,
        report.display is None ==> shown_name(report) == "Process "@ + text::decimal(
            report.pid as nat,
        ),
        names_process(identity, backend, report) ==> {
            &&& identity.backend@ == backend
            &&& identity.serial == report.display
            &&& identity.device_name is Some
            &&& identity.device_name->0@ == shown_name(report)
            &&& identity.bus is None && identity.vendor is None && identity.product is None
            &&& identity.node_name is None && identity.profile is None
            &&& identity.media_class is None && identity.alsa_path is None
        },
        gone_fault(technical).code == ErrorCode::InvalidRoute,
        gone_fault(technical).user_message == "That application is no longer playing audio."@,
        gone_fault(technical).technical_message == technical,
        permission_fault(name, status, operation).code == ErrorCode::InvalidRoute,
        permission_fault(name, status, operation).technical_message == operation
            + ": OSStatus "@ + text::signed_decimal(status),
{
}

} // verus!
