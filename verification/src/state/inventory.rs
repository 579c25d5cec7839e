//! The devices in their order, and the channels that follow them.
use vstd::prelude::*;

use super::labels::{BusKind, SourceKind};
use super::strips::{
    find_device, update_output_binding, update_source_binding, OutputBus, OutputModel, SourceModel,
    SourceStrip,
};
use super::strips;
use crate::domain::endpoint::{AudioEndpoint, EndpointState, EndpointType};
use crate::domain::ids::EndpointId;

verus! {

/// A text in lower case, as `str::to_lowercase` writes it.
pub uninterp spec fn lowercased(text: Seq<char>) -> Seq<char>;

/// Calls `str::to_lowercase`, whose result depends on the text alone.
#[verifier::external_body]
fn lowercase(text: &str) -> (lower: String)
    ensures
        lower@ == lowercased(text@),
{
    text.to_lowercase()
}

/// Whether a text comes before another: at the first character in which they
/// differ, or where it ends first.
pub open spec fn text_less(left: Seq<char>, right: Seq<char>) -> bool
    decreases left.len(),
{
    if right.len() == 0 {
        false
    } else if left.len() == 0 {
        true
    } else if left[0] != right[0] {
        (left[0] as int) < right[0] as int
    } else {
        text_less(left.skip(1), right.skip(1))
    }
}

fn text_before(left: &str, right: &str) -> (result: bool)
    ensures
        result == text_less(left@, right@),
{
    let left_len: usize = left.unicode_len();
    let right_len: usize = right.unicode_len();
    let mut at: usize = 0;
    assert(left@.skip(0) =~= left@);
    assert(right@.skip(0) =~= right@);
    while at < left_len && at < right_len
        invariant
            at <= left_len == left@.len(),
            at <= right_len == right@.len(),
            text_less(left@, right@) == text_less(left@.skip(at as int), right@.skip(at as int)),
        decreases left_len - at,
    {
        let first = left.get_char(at);
        let second = right.get_char(at);
        assert(left@.skip(at as int)[0] == first);
        assert(right@.skip(at as int)[0] == second);
        if first != second {
            return (first as u32) < (second as u32);
        }
        assert(left@.skip(at as int).skip(1) =~= left@.skip(at + 1));
        assert(right@.skip(at as int).skip(1) =~= right@.skip(at + 1));
        at = at + 1;
    }
    at < right_len
}

proof fn lemma_text_less_orders(a: Seq<char>, b: Seq<char>, c: Seq<char>)
    ensures
        !(text_less(a, b) && text_less(b, a)),
        text_less(a, b) && text_less(b, c) ==> text_less(a, c),
    decreases a.len(),
{
    if a.len() > 0 && b.len() > 0 && c.len() > 0 {
        lemma_text_less_orders(a.skip(1), b.skip(1), c.skip(1));
    } else if a.len() > 0 && b.len() > 0 {
        lemma_text_less_orders(a.skip(1), b.skip(1), c);
    }
}

/// Whether a device comes before another: default devices first, then by name
/// without regard to case.
pub open spec fn precedes(left: AudioEndpoint, right: AudioEndpoint) -> bool {
    if left.is_default != right.is_default {
        left.is_default
    } else {
        text_less(lowercased(left.name@), lowercased(right.name@))
    }
}

fn comes_before(left: &AudioEndpoint, right: &AudioEndpoint) -> (result: bool)
    ensures
        result == precedes(*left, *right),
{
    if left.is_default != right.is_default {
        left.is_default
    } else {
        let first = lowercase(left.name.as_str());
        let second = lowercase(right.name.as_str());
        text_before(first.as_str(), second.as_str())
    }
}

/// Where a device goes: before the first that comes after it.
pub open spec fn insertion_place(sorted: Seq<AudioEndpoint>, device: AudioEndpoint, from: int) -> int
    decreases sorted.len() - from,
{
    if from < 0 || from >= sorted.len() {
        sorted.len() as int
    } else if precedes(device, sorted[from]) {
        from
    } else {
        insertion_place(sorted, device, from + 1)
    }
}

/// The devices in their order; devices that are equal in it keep the order in
/// which they came.
pub open spec fn arranged(devices: Seq<AudioEndpoint>) -> Seq<AudioEndpoint>
    decreases devices.len(),
{
    if devices.len() == 0 {
        Seq::empty()
    } else {
        let before = arranged(devices.drop_last());
        before.insert(insertion_place(before, devices.last(), 0), devices.last())
    }
}

proof fn lemma_insertion_place(sorted: Seq<AudioEndpoint>, device: AudioEndpoint, from: int)
    requires
        0 <= from <= sorted.len(),
    ensures
        from <= insertion_place(sorted, device, from) <= sorted.len(),
        forall|i: int|
            from <= i < insertion_place(sorted, device, from) ==> !precedes(
                device,
                #[trigger] sorted[i],
            ),
        insertion_place(sorted, device, from) < sorted.len() ==> precedes(
            device,
            sorted[insertion_place(sorted, device, from)],
        ),
    decreases sorted.len() - from,
{
    if from < sorted.len() && !precedes(device, sorted[from]) {
        lemma_insertion_place(sorted, device, from + 1);
    }
}

/// The devices in their order are the devices, no one comes before an earlier
/// one, and every one is there once for each time that it came.
pub proof fn law_arranged_devices_are_sorted(devices: Seq<AudioEndpoint>)
    ensures
        arranged(devices).len() == devices.len(),
        arranged(devices).to_multiset() == devices.to_multiset(),
        forall|i: int, j: int|
            0 <= i < j < arranged(devices).len() ==> !precedes(
                #[trigger] arranged(devices)[j],
                #[trigger] arranged(devices)[i],
            ),
    decreases devices.len(),
{
    broadcast use vstd::seq_lib::group_to_multiset_ensures;

    if devices.len() > 0 {
        let rest = devices.drop_last();
        let device = devices.last();
        law_arranged_devices_are_sorted(rest);
        let before = arranged(rest);
        lemma_insertion_place(before, device, 0);
        let place = insertion_place(before, device, 0);
        let after = arranged(devices);
        assert(devices =~= rest.push(device));
        assert(after.remove(place) =~= before);
        assert(after[place] == device);
        assert(after.to_multiset() =~= before.to_multiset().insert(device)) by {
            assert(after.to_multiset().contains(device));
        }
        assert forall|i: int, j: int| 0 <= i < j < after.len() implies !precedes(
            #[trigger] after[j],
            #[trigger] after[i],
        ) by {
            let first = if i < place {
                before[i]
            } else if i == place {
                device
            } else {
                before[i - 1]
            };
            assert(after[i] == first);
            if j == place {
                assert(after[j] == device);
                assert(!precedes(device, before[i]));
            } else if i == place {
                assert(after[j] == before[j - 1]);
                lemma_precedes_orders(before[j - 1], device, before[place]);
                if j - 1 > place {
                    assert(!precedes(before[j - 1], before[place]));
                }
            } else {
                let second = if j < place {
                    j
                } else {
                    j - 1
                };
                let earlier = if i < place {
                    i
                } else {
                    i - 1
                };
                assert(after[j] == before[second]);
                assert(after[i] == before[earlier]);
                assert(!precedes(before[second], before[earlier]));
            }
        }
    }
}

proof fn lemma_precedes_orders(a: AudioEndpoint, b: AudioEndpoint, c: AudioEndpoint)
    ensures
        !(precedes(a, b) && precedes(b, a)),
        precedes(a, b) && precedes(b, c) ==> precedes(a, c),
{
    lemma_text_less_orders(lowercased(a.name@), lowercased(b.name@), lowercased(c.name@));
}

/// Puts devices in their order.
pub fn arrange_devices(devices: Vec<AudioEndpoint>) -> (sorted: Vec<AudioEndpoint>)
    ensures
        sorted@ == arranged(devices@),
{
    let mut sorted: Vec<AudioEndpoint> = Vec::new();
    let mut at: usize = 0;
    while at < devices.len()
        invariant
            at <= devices@.len(),
            sorted@ == arranged(devices@.take(at as int)),
        decreases devices@.len() - at,
    {
        let device = devices[at].clone();
        assert(devices@.take(at + 1).drop_last() =~= devices@.take(at as int));
        assert(devices@.take(at + 1).last() == device);
        let mut place: usize = 0;
        let mut searching = true;
        while searching && place < sorted.len()
            invariant
                place <= sorted@.len(),
                insertion_place(sorted@, device, 0) == insertion_place(
                    sorted@,
                    device,
                    place as int,
                ),
                !searching ==> place < sorted@.len() && precedes(device, sorted@[place as int]),
            decreases sorted@.len() - place + if searching {
                1int
            } else {
                0int
            },
        {
            if comes_before(&device, &sorted[place]) {
                searching = false;
            } else {
                place = place + 1;
            }
        }
        assert(place == insertion_place(sorted@, device, 0));
        sorted.insert(place, device);
        at = at + 1;
    }
    assert(devices@.take(at as int) =~= devices@);
    sorted
}

/// The devices of a type that are not disconnected, in order.
pub open spec fn online_of(devices: Seq<AudioEndpoint>, kind: EndpointType) -> Seq<EndpointId>
    decreases devices.len(),
{
    if devices.len() == 0 {
        Seq::empty()
    } else {
        let before = online_of(devices.drop_last(), kind);
        if devices.last().endpoint_type == kind && devices.last().state
            != EndpointState::Disconnected {
            before.push(devices.last().id)
        } else {
            before
        }
    }
}

/// The devices that are offered are exactly those of the type that are not
/// disconnected, in the order of the list.
pub proof fn law_offered_devices_are_online(devices: Seq<AudioEndpoint>, kind: EndpointType)
    ensures
        online_of(devices, kind) == devices.filter(
            |device: AudioEndpoint|
                device.endpoint_type == kind && device.state != EndpointState::Disconnected,
        ).map_values(|device: AudioEndpoint| device.id),
    decreases devices.len(),
{
    let offered = |device: AudioEndpoint|
        device.endpoint_type == kind && device.state != EndpointState::Disconnected;
    let id = |device: AudioEndpoint| device.id;
    reveal(Seq::filter);
    if devices.len() > 0 {
        law_offered_devices_are_online(devices.drop_last(), kind);
        let before = devices.drop_last().filter(offered);
        if offered(devices.last()) {
            assert(before.push(devices.last()).map_values(id) =~= before.map_values(id).push(
                devices.last().id,
            ));
        }
    }
    assert(online_of(devices, kind) =~= devices.filter(offered).map_values(id));
}

/// The devices of a type that are not disconnected.
pub fn online_endpoints(devices: &Vec<AudioEndpoint>, kind: EndpointType) -> (ids: Vec<EndpointId>)
    ensures
        ids@ == online_of(devices@, kind),
{
    let mut ids: Vec<EndpointId> = Vec::new();
    let mut at: usize = 0;
    while at < devices.len()
        invariant
            at <= devices@.len(),
            ids@ == online_of(devices@.take(at as int), kind),
        decreases devices@.len() - at,
    {
        assert(devices@.take(at + 1).drop_last() =~= devices@.take(at as int));
        assert(devices@.take(at + 1).last() == devices@[at as int]);
        if devices[at].endpoint_type == kind && devices[at].state != EndpointState::Disconnected {
            ids.push(devices[at].id);
        }
        at = at + 1;
    }
    assert(devices@.take(at as int) =~= devices@);
    ids
}

/// Whether what is bound is among the devices.
pub open spec fn present(devices: Seq<AudioEndpoint>, endpoint: Option<EndpointId>) -> bool {
    endpoint matches Some(id) && strips::device_place(devices, id) is Some
}

/// Whether what is bound is among the devices.
pub fn endpoint_still_present(devices: &Vec<AudioEndpoint>, endpoint: Option<EndpointId>) -> (
result: bool)
    ensures
        result == present(devices@, endpoint),
{
    match endpoint {
        Some(id) => match find_device(devices, id) {
            Some(_) => true,
            None => false,
        },
        None => false,
    }
}

/// The binding of something that takes the device at a place of its kind: that
/// device, or what it has as long as that is there.
pub open spec fn bound_in_order(
    endpoint: Option<EndpointId>,
    offered: Seq<EndpointId>,
    place: int,
    devices: Seq<AudioEndpoint>,
) -> Option<EndpointId> {
    if 0 <= place < offered.len() {
        Some(offered[place])
    } else if endpoint is Some && !present(devices, endpoint) {
        None
    } else {
        endpoint
    }
}

/// The binding of something that follows the first device of a kind: it takes
/// that where it has none, and lets go of what is no longer there.
pub open spec fn bound_to_first(
    endpoint: Option<EndpointId>,
    offered: Seq<EndpointId>,
    devices: Seq<AudioEndpoint>,
) -> Option<EndpointId> {
    match endpoint {
        None => if offered.len() > 0 {
            Some(offered[0])
        } else {
            None
        },
        Some(_) => if present(devices, endpoint) {
            endpoint
        } else {
            None
        },
    }
}

/// How many channels before a place are physical.
pub open spec fn physical_sources(sources: Seq<SourceModel>) -> nat
    decreases sources.len(),
{
    if sources.len() == 0 {
        0
    } else {
        physical_sources(sources.drop_last()) + if sources.last().kind == SourceKind::Physical {
            1nat
        } else {
            0nat
        }
    }
}

/// How many buses are of a kind.
pub open spec fn outputs_of_kind(outputs: Seq<OutputModel>, kind: BusKind) -> nat
    decreases outputs.len(),
{
    if outputs.len() == 0 {
        0
    } else {
        outputs_of_kind(outputs.drop_last(), kind) + if outputs.last().kind == kind {
            1nat
        } else {
            0nat
        }
    }
}

/// As many buses: the wanted ones among the first stay, new ones are not
/// wanted.
pub open spec fn resized(routes: Seq<bool>, count: nat) -> Seq<bool> {
    Seq::new(count, |i: int| i < routes.len() && routes[i])
}

/// The endpoint that a channel has with some devices. What the user chose
/// stays; otherwise physical channels take the physical inputs in turn, virtual
/// and desktop channels follow the first virtual input, and applications are
/// never chosen for the user.
pub open spec fn source_endpoint(
    source: SourceModel,
    physical_before: nat,
    devices: Seq<AudioEndpoint>,
) -> Option<EndpointId> {
    if source.user_bound {
        source.endpoint_id
    } else {
        match source.kind {
            SourceKind::Physical => bound_in_order(
                source.endpoint_id,
                online_of(devices, EndpointType::PhysicalInput),
                physical_before as int,
                devices,
            ),
            SourceKind::Desktop | SourceKind::Virtual => bound_to_first(
                source.endpoint_id,
                online_of(devices, EndpointType::VirtualInput),
                devices,
            ),
            SourceKind::Application => source.endpoint_id,
        }
    }
}

/// The endpoint that a bus has with some devices. What the user chose stays;
/// otherwise the buses of a kind take the outputs of that kind in turn.
pub open spec fn output_endpoint(
    output: OutputModel,
    same_before: nat,
    devices: Seq<AudioEndpoint>,
) -> Option<EndpointId> {
    if output.user_bound {
        output.endpoint_id
    } else {
        let offered = online_of(
            devices,
            if output.kind == BusKind::Physical {
                EndpointType::PhysicalOutput
            } else {
                EndpointType::VirtualOutput
            },
        );
        bound_in_order(output.endpoint_id, offered, same_before as int, devices)
    }
}

/// A channel after it followed the devices.
pub open spec fn followed_source(
    sources: Seq<SourceModel>,
    at: int,
    devices: Seq<AudioEndpoint>,
    buses: nat,
) -> SourceModel {
    let source = sources[at];
    let bound = SourceModel {
        endpoint_id: source_endpoint(source, physical_sources(sources.take(at)), devices),
        ..source
    };
    SourceModel { routes: resized(source.routes, buses), ..strips::shown_source(bound, devices) }
}

/// A bus after it followed the devices.
pub open spec fn followed_output(
    outputs: Seq<OutputModel>,
    at: int,
    devices: Seq<AudioEndpoint>,
) -> OutputModel {
    let output = outputs[at];
    let bound = OutputModel {
        endpoint_id: output_endpoint(
            output,
            outputs_of_kind(outputs.take(at), output.kind),
            devices,
        ),
        ..output
    };
    strips::shown_output(bound, devices)
}

/// What the user bound stays bound, whatever devices there are, and nothing but
/// the binding, what it shows and the width of the routes changes.
pub proof fn law_user_binding_stays(
    sources: Seq<SourceModel>,
    outputs: Seq<OutputModel>,
    at: int,
    devices: Seq<AudioEndpoint>,
    buses: nat,
)
    ensures
        sources[at].user_bound ==> followed_source(sources, at, devices, buses).endpoint_id
            == sources[at].endpoint_id,
        outputs[at].user_bound ==> followed_output(outputs, at, devices).endpoint_id
            == outputs[at].endpoint_id,
        ({
            let after = followed_source(sources, at, devices, buses);
            after == (SourceModel {
                endpoint_id: after.endpoint_id,
                endpoint_name: after.endpoint_name,
                detail: after.detail,
                online: after.online,
                routes: after.routes,
                ..sources[at]
            })
        }),
        ({
            let after = followed_output(outputs, at, devices);
            after == (OutputModel {
                endpoint_id: after.endpoint_id,
                endpoint_name: after.endpoint_name,
                detail: after.detail,
                online: after.online,
                ..outputs[at]
            })
        }),
{
}

/// How many physical channels there are.
proof fn lemma_physical_sources(sources: Seq<SourceModel>)
    ensures
        physical_sources(sources) == sources.filter(
            |source: SourceModel| source.kind == SourceKind::Physical,
        ).len(),
    decreases sources.len(),
{
    reveal(Seq::filter);
    if sources.len() > 0 {
        lemma_physical_sources(sources.drop_last());
    }
}

/// How many buses of a kind there are.
proof fn lemma_outputs_of_kind(outputs: Seq<OutputModel>, kind: BusKind)
    ensures
        outputs_of_kind(outputs, kind) == outputs.filter(
            |output: OutputModel| output.kind == kind,
        ).len(),
    decreases outputs.len(),
{
    reveal(Seq::filter);
    if outputs.len() > 0 {
        lemma_outputs_of_kind(outputs.drop_last(), kind);
    }
}

/// A physical channel that the user did not bind takes the physical input with
/// its own number: with as many physical channels before it as there are inputs
/// before that one.
pub proof fn law_channels_take_the_inputs_in_turn(
    sources: Seq<SourceModel>,
    at: int,
    devices: Seq<AudioEndpoint>,
    buses: nat,
)
    requires
        0 <= at < sources.len(),
        sources[at].kind == SourceKind::Physical,
        !sources[at].user_bound,
    ensures
        ({
            let number = sources.take(at).filter(
                |source: SourceModel| source.kind == SourceKind::Physical,
            ).len();
            let inputs = devices.filter(
                |device: AudioEndpoint|
                    device.endpoint_type == EndpointType::PhysicalInput && device.state
                        != EndpointState::Disconnected,
            );
            number < inputs.len() ==> followed_source(sources, at, devices, buses).endpoint_id
                == Some(inputs[number as int].id)
        }),
{
    lemma_physical_sources(sources.take(at));
    law_offered_devices_are_online(devices, EndpointType::PhysicalInput);
}

/// A bus that the user did not bind takes the output of its kind with its own
/// number.
pub proof fn law_buses_take_the_outputs_in_turn(
    outputs: Seq<OutputModel>,
    at: int,
    devices: Seq<AudioEndpoint>,
)
    requires
        0 <= at < outputs.len(),
        !outputs[at].user_bound,
    ensures
        ({
            let kind = outputs[at].kind;
            let number = outputs.take(at).filter(|output: OutputModel| output.kind == kind).len();
            let offered = devices.filter(
                |device: AudioEndpoint|
                    device.state != EndpointState::Disconnected && device.endpoint_type == (
                    if kind == BusKind::Physical {
                        EndpointType::PhysicalOutput
                    } else {
                        EndpointType::VirtualOutput
                    }),
            );
            number < offered.len() ==> followed_output(outputs, at, devices).endpoint_id == Some(
                offered[number as int].id,
            )
        }),
{
    let kind = outputs[at].kind;
    let wanted = if kind == BusKind::Physical {
        EndpointType::PhysicalOutput
    } else {
        EndpointType::VirtualOutput
    };
    lemma_outputs_of_kind(outputs.take(at), kind);
    law_offered_devices_are_online(devices, wanted);
    let one = |device: AudioEndpoint|
        device.state != EndpointState::Disconnected && device.endpoint_type == (
        if kind == BusKind::Physical {
            EndpointType::PhysicalOutput
        } else {
            EndpointType::VirtualOutput
        });
    let other = |device: AudioEndpoint|
        device.endpoint_type == wanted && device.state != EndpointState::Disconnected;
    lemma_same_filter(devices, one, other);
}

proof fn lemma_same_filter<T>(items: Seq<T>, one: spec_fn(T) -> bool, other: spec_fn(T) -> bool)
    requires
        forall|item: T| #[trigger] one(item) == other(item),
    ensures
        items.filter(one) == items.filter(other),
    decreases items.len(),
{
    reveal(Seq::filter);
    if items.len() > 0 {
        lemma_same_filter(items.drop_last(), one, other);
        assert(one(items.last()) == other(items.last()));
    }
}

proof fn lemma_filtered_prefix<T>(items: Seq<T>, keep: spec_fn(T) -> bool, one: int, two: int)
    requires
        0 <= one < two <= items.len(),
        keep(items[one]),
    ensures
        items.take(one).filter(keep).len() < items.take(two).filter(keep).len(),
    decreases two,
{
    reveal(Seq::filter);
    assert(items.take(two).drop_last() =~= items.take(two - 1));
    assert(items.take(two).last() == items[two - 1]);
    if one < two - 1 {
        lemma_filtered_prefix(items, keep, one, two - 1);
    }
}

proof fn lemma_filtered_apart(devices: Seq<AudioEndpoint>, keep: spec_fn(AudioEndpoint) -> bool)
    requires
        forall|i: int, j: int|
            0 <= i < j < devices.len() ==> (#[trigger] devices[i]).id != (
            #[trigger] devices[j]).id,
    ensures
        forall|i: int, j: int|
            0 <= i < j < devices.filter(keep).len() ==> (#[trigger] devices.filter(keep)[i]).id
                != (#[trigger] devices.filter(keep)[j]).id,
        forall|i: int|
            0 <= i < devices.filter(keep).len() ==> devices.contains(
                #[trigger] devices.filter(keep)[i],
            ),
    decreases devices.len(),
{
    reveal(Seq::filter);
    if devices.len() > 0 {
        let rest = devices.drop_last();
        lemma_filtered_apart(rest, keep);
        let before = rest.filter(keep);
        let after = devices.filter(keep);
        assert forall|i: int| 0 <= i < after.len() implies devices.contains(
            #[trigger] after[i],
        ) by {
            if i < before.len() {
                assert(rest.contains(before[i]));
                let k = choose|k: int| 0 <= k < rest.len() && rest[k] == before[i];
                assert(devices[k] == after[i]);
            } else {
                assert(devices[devices.len() - 1] == after[i]);
            }
        }
        assert forall|i: int, j: int| 0 <= i < j < after.len() implies (#[trigger] after[i]).id
            != (#[trigger] after[j]).id by {
            if j >= before.len() {
                assert(rest.contains(before[i]));
                let k = choose|k: int| 0 <= k < rest.len() && rest[k] == before[i];
                assert(devices[k] == before[i]);
            } else {
                assert(before[i].id != before[j].id);
            }
        }
    }
}

/// Following the devices never binds two physical channels, nor two buses of a
/// kind, to one device, as long as there is one for each of them.
pub proof fn law_followers_share_no_device(
    sources: Seq<SourceModel>,
    outputs: Seq<OutputModel>,
    one: int,
    two: int,
    devices: Seq<AudioEndpoint>,
    buses: nat,
)
    requires
        forall|i: int, j: int|
            0 <= i < j < devices.len() ==> (#[trigger] devices[i]).id != (
            #[trigger] devices[j]).id,
        0 <= one < two,
    ensures
        two < sources.len() && sources[one].kind == SourceKind::Physical && sources[two].kind
            == SourceKind::Physical && !sources[one].user_bound && !sources[two].user_bound
            && sources.filter(|source: SourceModel| source.kind == SourceKind::Physical).len()
            <= devices.filter(
            |device: AudioEndpoint|
                device.endpoint_type == EndpointType::PhysicalInput && device.state
                    != EndpointState::Disconnected,
        ).len() ==> followed_source(sources, one, devices, buses).endpoint_id != followed_source(
            sources,
            two,
            devices,
            buses,
        ).endpoint_id,
        two < outputs.len() && outputs[one].kind == outputs[two].kind && !outputs[one].user_bound
            && !outputs[two].user_bound && outputs.filter(
            |output: OutputModel| output.kind == outputs[one].kind,
        ).len() <= devices.filter(
            |device: AudioEndpoint|
                device.state != EndpointState::Disconnected && device.endpoint_type == (
                if outputs[one].kind == BusKind::Physical {
                    EndpointType::PhysicalOutput
                } else {
                    EndpointType::VirtualOutput
                }),
        ).len() ==> followed_output(outputs, one, devices).endpoint_id != followed_output(
            outputs,
            two,
            devices,
        ).endpoint_id,
{
    if two < sources.len() && sources[one].kind == SourceKind::Physical && sources[two].kind
        == SourceKind::Physical && !sources[one].user_bound && !sources[two].user_bound {
        let physical = |source: SourceModel| source.kind == SourceKind::Physical;
        let online = |device: AudioEndpoint|
            device.endpoint_type == EndpointType::PhysicalInput && device.state
                != EndpointState::Disconnected;
        law_channels_take_the_inputs_in_turn(sources, one, devices, buses);
        law_channels_take_the_inputs_in_turn(sources, two, devices, buses);
        lemma_filtered_prefix(sources, physical, one, two);
        lemma_filtered_prefix(sources, physical, two, sources.len() as int);
        assert(sources.take(sources.len() as int) =~= sources);
        lemma_filtered_apart(devices, online);
        let first = sources.take(one).filter(physical).len() as int;
        let second = sources.take(two).filter(physical).len() as int;
        if sources.filter(physical).len() <= devices.filter(online).len() {
            assert(devices.filter(online)[first].id != devices.filter(online)[second].id);
        }
    }
    if two < outputs.len() && outputs[one].kind == outputs[two].kind && !outputs[one].user_bound
        && !outputs[two].user_bound {
        let kind = outputs[one].kind;
        let same = |output: OutputModel| output.kind == outputs[one].kind;
        let own = |output: OutputModel| output.kind == kind;
        let online = |device: AudioEndpoint|
            device.state != EndpointState::Disconnected && device.endpoint_type == (
            if outputs[one].kind == BusKind::Physical {
                EndpointType::PhysicalOutput
            } else {
                EndpointType::VirtualOutput
            });
        let offered = |device: AudioEndpoint|
            device.state != EndpointState::Disconnected && device.endpoint_type == (
            if kind == BusKind::Physical {
                EndpointType::PhysicalOutput
            } else {
                EndpointType::VirtualOutput
            });
        law_buses_take_the_outputs_in_turn(outputs, one, devices);
        law_buses_take_the_outputs_in_turn(outputs, two, devices);
        lemma_same_filter(outputs, same, own);
        lemma_same_filter(devices, online, offered);
        lemma_filtered_prefix(outputs, own, one, two);
        lemma_filtered_prefix(outputs, own, two, outputs.len() as int);
        assert(outputs.take(outputs.len() as int) =~= outputs);
        lemma_filtered_apart(devices, offered);
        let first = outputs.take(one).filter(own).len() as int;
        let second = outputs.take(two).filter(own).len() as int;
        if outputs.filter(own).len() <= devices.filter(offered).len() {
            assert(devices.filter(offered)[first].id != devices.filter(offered)[second].id);
        }
    }
}

/// A desktop or virtual channel that the user did not bind takes the first
/// virtual input where it has none, and keeps what it has as long as that is
/// there. A channel for an application is never bound by the devices.
pub proof fn law_virtual_channels_follow_the_first_input(
    sources: Seq<SourceModel>,
    at: int,
    devices: Seq<AudioEndpoint>,
    buses: nat,
)
    requires
        0 <= at < sources.len(),
        !sources[at].user_bound,
    ensures
        ({
            let source = sources[at];
            let after = followed_source(sources, at, devices, buses);
            let inputs = devices.filter(
                |device: AudioEndpoint|
                    device.endpoint_type == EndpointType::VirtualInput && device.state
                        != EndpointState::Disconnected,
            );
            &&& source.kind == SourceKind::Application ==> after.endpoint_id == source.endpoint_id
            &&& source.kind == SourceKind::Desktop || source.kind == SourceKind::Virtual ==> {
                &&& source.endpoint_id is None && inputs.len() > 0 ==> after.endpoint_id == Some(
                    inputs[0].id,
                )
                &&& source.endpoint_id is None && inputs.len() == 0 ==> after.endpoint_id is None
                &&& source.endpoint_id is Some && (exists|i: int|
                    0 <= i < devices.len() && Some((#[trigger] devices[i]).id)
                        == source.endpoint_id) ==> after.endpoint_id == source.endpoint_id
                &&& source.endpoint_id is Some && (forall|i: int|
                    0 <= i < devices.len() ==> Some((#[trigger] devices[i]).id)
                        != source.endpoint_id) ==> after.endpoint_id is None
            }
        }),
{
    law_offered_devices_are_online(devices, EndpointType::VirtualInput);
    if let Some(id) = sources[at].endpoint_id {
        strips::lemma_device_place(devices, id);
    }
}

/// The views of channels.
pub open spec fn source_models(sources: Seq<SourceStrip>) -> Seq<SourceModel> {
    Seq::new(sources.len(), |i: int| sources[i]@)
}

/// The views of buses.
pub open spec fn output_models(outputs: Seq<OutputBus>) -> Seq<OutputModel> {
    Seq::new(outputs.len(), |i: int| outputs[i]@)
}

fn in_order(
    endpoint: Option<EndpointId>,
    offered: &Vec<EndpointId>,
    place: usize,
    devices: &Vec<AudioEndpoint>,
) -> (bound: Option<EndpointId>)
    ensures
        bound == bound_in_order(endpoint, offered@, place as int, devices@),
{
    if place < offered.len() {
        Some(offered[place])
    } else if endpoint.is_some() && !endpoint_still_present(devices, endpoint) {
        None
    } else {
        endpoint
    }
}

fn to_first(
    endpoint: Option<EndpointId>,
    offered: &Vec<EndpointId>,
    devices: &Vec<AudioEndpoint>,
) -> (bound: Option<EndpointId>)
    ensures
        bound == bound_to_first(endpoint, offered@, devices@),
{
    match endpoint {
        None => if offered.len() > 0 {
            Some(offered[0])
        } else {
            None
        },
        Some(_) => if endpoint_still_present(devices, endpoint) {
            endpoint
        } else {
            None
        },
    }
}

fn resize_routes(routes: &mut Vec<bool>, count: usize)
    ensures
        final(routes)@ == resized(old(routes)@, count as nat),
{
    while routes.len() > count
        invariant
            routes@.len() <= old(routes)@.len(),
            routes@.len() >= count || routes@.len() == old(routes)@.len(),
            routes@ =~= old(routes)@.take(routes@.len() as int),
        decreases routes@.len(),
    {
        routes.pop();
    }
    let ghost kept = routes@.len() as int;
    while routes.len() < count
        invariant
            kept <= routes@.len() <= count || routes@.len() == kept,
            kept <= old(routes)@.len(),
            kept == count || kept == old(routes)@.len(),
            kept <= count,
            forall|i: int|
                0 <= i < routes@.len() ==> (#[trigger] routes@[i]) == (i < kept && old(
                    routes)@[i]),
        decreases count - routes@.len(),
    {
        routes.push(false);
    }
    assert(routes@ =~= resized(old(routes)@, count as nat));
}

/// Lets the channels follow the devices.
pub fn follow_sources(
    sources: &mut Vec<SourceStrip>,
    devices: &Vec<AudioEndpoint>,
    physical_inputs: &Vec<EndpointId>,
    virtual_inputs: &Vec<EndpointId>,
    buses: usize,
)
    requires
        physical_inputs@ == online_of(devices@, EndpointType::PhysicalInput),
        virtual_inputs@ == online_of(devices@, EndpointType::VirtualInput),
    ensures
        source_models(final(sources)@) == Seq::new(
            old(sources)@.len(),
            |i: int| followed_source(source_models(old(sources)@), i, devices@, buses as nat),
        ),
{
    let ghost models = source_models(sources@);
    let count: usize = sources.len();
    let mut physical: usize = 0;
    let mut at: usize = 0;
    while at < count
        invariant
            at <= count == sources@.len(),
            models == source_models(old(sources)@),
            models.len() == count,
            physical <= at,
            physical == physical_sources(models.take(at as int)),
            physical_inputs@ == online_of(devices@, EndpointType::PhysicalInput),
            virtual_inputs@ == online_of(devices@, EndpointType::VirtualInput),
            forall|i: int|
                0 <= i < count ==> (#[trigger] sources@[i])@ == (if i < at {
                    followed_source(models, i, devices@, buses as nat)
                } else {
                    models[i]
                }),
        decreases count - at,
    {
        proof {
            assert(models.take(at + 1).drop_last() =~= models.take(at as int));
            assert(models.take(at + 1).last() == models[at as int]);
            assert(sources@[at as int]@ == models[at as int]);
        }
        let source = &mut sources[at];
        if !source.user_bound {
            match source.kind {
                SourceKind::Physical => {
                    source.endpoint_id = in_order(
                        source.endpoint_id,
                        physical_inputs,
                        physical,
                        devices,
                    );
                },
                SourceKind::Desktop => {
                    source.endpoint_id = to_first(source.endpoint_id, virtual_inputs, devices);
                },
                SourceKind::Virtual => {
                    source.endpoint_id = to_first(source.endpoint_id, virtual_inputs, devices);
                },
                SourceKind::Application => {},
            }
        }
        if source.kind == SourceKind::Physical {
            physical = physical + 1;
        }
        update_source_binding(source, devices);
        resize_routes(&mut source.routes, buses);
        at = at + 1;
    }
    assert(source_models(sources@) =~= Seq::new(
        old(sources)@.len(),
        |i: int| followed_source(source_models(old(sources)@), i, devices@, buses as nat),
    ));
}

/// Lets the buses follow the devices.
pub fn follow_outputs(
    outputs: &mut Vec<OutputBus>,
    devices: &Vec<AudioEndpoint>,
    physical_outputs: &Vec<EndpointId>,
    virtual_outputs: &Vec<EndpointId>,
)
    requires
        physical_outputs@ == online_of(devices@, EndpointType::PhysicalOutput),
        virtual_outputs@ == online_of(devices@, EndpointType::VirtualOutput),
    ensures
        output_models(final(outputs)@) == Seq::new(
            old(outputs)@.len(),
            |i: int| followed_output(output_models(old(outputs)@), i, devices@),
        ),
{
    let ghost models = output_models(outputs@);
    let count: usize = outputs.len();
    let mut physical: usize = 0;
    let mut virtual_count: usize = 0;
    let mut at: usize = 0;
    while at < count
        invariant
            at <= count == outputs@.len(),
            models == output_models(old(outputs)@),
            models.len() == count,
            physical <= at,
            virtual_count <= at,
            physical == outputs_of_kind(models.take(at as int), BusKind::Physical),
            virtual_count == outputs_of_kind(models.take(at as int), BusKind::Virtual),
            physical_outputs@ == online_of(devices@, EndpointType::PhysicalOutput),
            virtual_outputs@ == online_of(devices@, EndpointType::VirtualOutput),
            forall|i: int|
                0 <= i < count ==> (#[trigger] outputs@[i])@ == (if i < at {
                    followed_output(models, i, devices@)
                } else {
                    models[i]
                }),
        decreases count - at,
    {
        proof {
            assert(models.take(at + 1).drop_last() =~= models.take(at as int));
            assert(models.take(at + 1).last() == models[at as int]);
            assert(outputs@[at as int]@ == models[at as int]);
        }
        let output = &mut outputs[at];
        match output.kind {
            BusKind::Physical => {
                if !output.user_bound {
                    output.endpoint_id = in_order(
                        output.endpoint_id,
                        physical_outputs,
                        physical,
                        devices,
                    );
                }
                physical = physical + 1;
            },
            BusKind::Virtual => {
                if !output.user_bound {
                    output.endpoint_id = in_order(
                        output.endpoint_id,
                        virtual_outputs,
                        virtual_count,
                        devices,
                    );
                }
                virtual_count = virtual_count + 1;
            },
        }
        update_output_binding(output, devices);
        at = at + 1;
    }
    assert(output_models(outputs@) =~= Seq::new(
        old(outputs)@.len(),
        |i: int| followed_output(output_models(old(outputs)@), i, devices@),
    ));
}

/// A text comes before another at the first character in which the two differ,
/// or where it is the beginning of the other; a text never comes before itself.
pub proof fn law_texts_are_ordered_by_their_characters(
    common: Seq<char>,
    left: Seq<char>,
    right: Seq<char>,
)
    ensures
        left.len() > 0 && right.len() > 0 && left[0] != right[0] ==> (text_less(
            common + left,
            common + right,
        ) <==> (left[0] as int) < (right[0] as int)),
        right.len() > 0 ==> text_less(common, common + right),
        !text_less(common, common),
        !text_less(common + left, common),
    decreases common.len(),
{
    assert(common + Seq::<char>::empty() =~= common);
    if common.len() > 0 {
        let rest = common.skip(1);
        law_texts_are_ordered_by_their_characters(rest, left, right);
        assert((common + left).skip(1) =~= rest + left);
        assert((common + right).skip(1) =~= rest + right);
    } else {
        assert(common + left =~= left);
        assert(common + right =~= right);
    }
}

/// Default devices come first; among those that are and among those that are
/// not, the names decide, whatever their case.
pub proof fn law_default_devices_come_first(left: AudioEndpoint, right: AudioEndpoint)
    ensures
        left.is_default && !right.is_default ==> precedes(left, right) && !precedes(right, left),
        left.is_default == right.is_default ==> precedes(left, right) == text_less(
            lowercased(left.name@),
            lowercased(right.name@),
        ),
{
}

/// A channel keeps which of the first buses it is on, for as many as there
/// are; it is on none of the new ones.
pub proof fn law_routes_keep_their_places(routes: Seq<bool>, count: nat, at: int)
    requires
        0 <= at < count,
    ensures
        resized(routes, count).len() == count,
        at < routes.len() ==> resized(routes, count)[at] == routes[at],
        at >= routes.len() ==> !resized(routes, count)[at],
{
}

/// An endpoint is present where a device has its identifier, and no endpoint is
/// never present.
pub proof fn law_an_endpoint_is_present_with_its_device(
    devices: Seq<AudioEndpoint>,
    endpoint: EndpointId,
)
    ensures
        present(devices, Some(endpoint)) <==> exists|i: int|
            0 <= i < devices.len() && (#[trigger] devices[i]).id == endpoint,
        !present(devices, None),
{
    strips::law_the_first_device_is_found(devices, endpoint);
}

} // verus!
