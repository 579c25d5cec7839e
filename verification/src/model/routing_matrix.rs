//! The routing matrix.
use vstd::prelude::*;

use super::channel::ChannelId;
use super::route::Route;
use super::virtual_channel::{VirtualChannel, VirtualIoManager};
use super::virtual_channel;
use crate::device::DeviceDescriptor;
use crate::scalar::{Scalar, ONE_BITS};
use crate::table::{Key, Table};
use crate::table;

verus! {

/// The pattern of two, the highest gain.
pub const MAX_GAIN: u32 = 0x4000_0000;

/// A place in the matrix.
#[derive(Clone, Copy, Debug, PartialEq, Eq, Structural)]
pub struct MatrixCell {
    pub row: usize,
    pub col: usize,
}

impl Key for MatrixCell {
    fn same(&self, other: &Self) -> (same: bool) {
        self.row == other.row && self.col == other.col
    }
}

/// Inputs, outputs, and the routes between them.
pub struct RoutingMatrix {
    pub inputs: Vec<ChannelId>,
    pub outputs: Vec<ChannelId>,
    pub routes: Table<MatrixCell, Route>,
}

/// The devices for one direction as channels, in order.
pub open spec fn physical(devices: Seq<DeviceDescriptor>, input: bool) -> Seq<ChannelId>
    decreases devices.len(),
{
    if devices.len() == 0 {
        Seq::empty()
    } else {
        let before = physical(devices.drop_last(), input);
        let device = devices.last();
        if (input && device.is_input) || (!input && device.is_output) {
            before.push(ChannelId::Physical(device.name))
        } else {
            before
        }
    }
}

/// Whether channels are those of devices, followed by two virtual ones.
pub open spec fn channels_for(
    channels: Seq<ChannelId>,
    devices: Seq<ChannelId>,
    first: Seq<char>,
    second: Seq<char>,
) -> bool {
    &&& channels.len() == devices.len() + 2
    &&& channels.take(devices.len() as int) == devices
    &&& channels[devices.len() as int] is Virtual
    &&& channels[devices.len() as int].name() == first
    &&& channels[devices.len() as int + 1] is Virtual
    &&& channels[devices.len() as int + 1].name() == second
}

fn physical_channels(devices: &Vec<DeviceDescriptor>, input: bool) -> (channels: Vec<ChannelId>)
    ensures
        channels@ == physical(devices@, input),
{
    let mut channels: Vec<ChannelId> = Vec::new();
    let mut at: usize = 0;
    while at < devices.len()
        invariant
            at <= devices@.len(),
            channels@ == physical(devices@.take(at as int), input),
        decreases devices@.len() - at,
    {
        assert(devices@.take(at + 1).drop_last() =~= devices@.take(at as int));
        assert(devices@.take(at + 1).last() == devices@[at as int]);
        if (input && devices[at].is_input) || (!input && devices[at].is_output) {
            channels.push(ChannelId::Physical(devices[at].name.clone()));
        }
        at = at + 1;
    }
    assert(devices@.take(at as int) =~= devices@);
    channels
}

fn push_virtual(channels: &mut Vec<ChannelId>, added: &Vec<VirtualChannel>)
    ensures
        final(channels)@.len() == old(channels)@.len() + added@.len(),
        final(channels)@.take(old(channels)@.len() as int) == old(channels)@,
        forall|i: int|
            0 <= i < added@.len() ==> (#[trigger] added@[i]).name@ == final(
                channels)@[old(channels)@.len() + i].name() && final(channels)@[old(
                channels)@.len() + i] is Virtual,
{
    let ghost first = channels@.len() as int;
    let mut at: usize = 0;
    assert(channels@.take(first) =~= channels@);
    while at < added.len()
        invariant
            at <= added@.len(),
            first == old(channels)@.len(),
            channels@.len() == first + at,
            channels@.take(first) =~= old(channels)@,
            forall|i: int|
                0 <= i < at ==> (#[trigger] added@[i]).name@ == channels@[first + i].name()
                    && channels@[first + i] is Virtual,
        decreases added@.len() - at,
    {
        channels.push(ChannelId::Virtual(added[at].name.clone()));
        at = at + 1;
    }
}

/// The enabled routes among the entries of a matrix, in their order.
pub open spec fn enabled_among(entries: Seq<(MatrixCell, Route)>) -> Seq<Route>
    decreases entries.len(),
{
    if entries.len() == 0 {
        Seq::empty()
    } else {
        let before = enabled_among(entries.drop_last());
        if entries.last().1.enabled {
            before.push(entries.last().1)
        } else {
            before
        }
    }
}

impl RoutingMatrix {
    /// The routes with the one at a place switched, or made.
    pub open spec fn toggled(self, row: usize, col: usize) -> Map<MatrixCell, Route> {
        let cell = MatrixCell { row, col };
        let routes = self.routes@;
        if row >= self.inputs@.len() || col >= self.outputs@.len() {
            routes
        } else if routes.contains_key(cell) {
            routes.insert(cell, Route { enabled: !routes[cell].enabled, ..routes[cell] })
        } else {
            routes.insert(
                cell,
                Route {
                    src: self.inputs@[row as int],
                    dst: self.outputs@[col as int],
                    gain_linear: Scalar { bits: ONE_BITS },
                    enabled: true,
                },
            )
        }
    }

    /// Whether the route at a place is there and switched on.
    pub open spec fn enabled_at(self, row: usize, col: usize) -> bool {
        self.routes@.contains_key(MatrixCell { row, col })
            && self.routes@[MatrixCell { row, col }].enabled
    }

    /// The matrix over the devices of the machine and the virtual channels,
    /// without routes.
    pub fn from_devices(devices: &Vec<DeviceDescriptor>) -> (matrix: Self)
        ensures
            channels_for(
                matrix.inputs@,
                physical(devices@, true),
                "Virtual Input 1"@,
                "Virtual Input 2"@,
            ),
            channels_for(
                matrix.outputs@,
                physical(devices@, false),
                "Virtual Output 1"@,
                "Virtual Output 2"@,
            ),
            matrix.routes@ == Map::<MatrixCell, Route>::empty(),
    {
        let virtual_io = VirtualIoManager::with_defaults();
        proof {
            reveal_with_fuel(virtual_channel::towards, 6);
            let all = virtual_io@;
            assert(all.drop_last().drop_last().drop_last().drop_last() =~= Seq::empty());
            assert(all.drop_last().last() == all[2]);
            assert(all.drop_last().drop_last().last() == all[1]);
            assert(all.drop_last().drop_last().drop_last().last() == all[0]);
        }
        let mut inputs = physical_channels(devices, true);
        let mut outputs = physical_channels(devices, false);
        let virtual_inputs = virtual_io.inputs();
        let virtual_outputs = virtual_io.outputs();
        proof {
            assert(virtual_inputs@ =~= seq![virtual_io@[0], virtual_io@[1]]);
            assert(virtual_outputs@ =~= seq![virtual_io@[2], virtual_io@[3]]);
        }
        push_virtual(&mut inputs, &virtual_inputs);
        push_virtual(&mut outputs, &virtual_outputs);
        proof {
            assert(virtual_inputs@[0].name@ == "Virtual Input 1"@);
            assert(virtual_inputs@[1].name@ == "Virtual Input 2"@);
            assert(virtual_outputs@[0].name@ == "Virtual Output 1"@);
            assert(virtual_outputs@[1].name@ == "Virtual Output 2"@);
        }
        RoutingMatrix { inputs, outputs, routes: Table::new() }
    }

    /// Switches the route at a place, or makes one there. A place outside the
    /// matrix is left alone. The result says whether anything changed.
    pub fn toggle(&mut self, row: usize, col: usize) -> (changed: bool)
        ensures
            final(self).inputs == old(self).inputs,
            final(self).outputs == old(self).outputs,
            changed == (row < old(self).inputs@.len() && col < old(self).outputs@.len()),
            final(self).routes@ == old(self).toggled(row, col),
    {
        if row >= self.inputs.len() || col >= self.outputs.len() {
            return false;
        }
        let cell = MatrixCell { row, col };
        let route = match self.routes.get(&cell) {
            Some(route) => {
                let mut route = route.clone();
                route.enabled = !route.enabled;
                route
            },
            None => Route::new(self.inputs[row].clone(), self.outputs[col].clone()),
        };
        self.routes.insert(cell, route);
        true
    }

    /// Sets the gain of a route, clamped to its range. The result says whether
    /// there is a route.
    pub fn set_gain(&mut self, row: usize, col: usize, gain: Scalar) -> (changed: bool)
        ensures
            final(self).inputs == old(self).inputs,
            final(self).outputs == old(self).outputs,
            changed == old(self).routes@.contains_key(MatrixCell { row, col }),
            final(self).routes@ == ({
                let cell = MatrixCell { row, col };
                let routes = old(self).routes@;
                if changed {
                    routes.insert(
                        cell,
                        Route {
                            gain_linear: gain.clamped(
                                Scalar { bits: 0 },
                                Scalar { bits: MAX_GAIN },
                            ),
                            ..routes[cell]
                        },
                    )
                } else {
                    routes
                }
            }),
    {
        let cell = MatrixCell { row, col };
        let route = match self.routes.get(&cell) {
            Some(route) => route.clone(),
            None => {
                return false;
            },
        };
        let mut route = route;
        route.gain_linear = gain.clamp(Scalar::zero(), Scalar { bits: MAX_GAIN });
        self.routes.insert(cell, route);
        true
    }

    pub fn is_enabled(&self, row: usize, col: usize) -> (enabled: bool)
        ensures
            enabled == self.enabled_at(row, col),
    {
        match self.routes.get(&MatrixCell { row, col }) {
            Some(route) => route.enabled,
            None => false,
        }
    }

    /// The gain of a route, or unity where there is none.
    pub fn gain(&self, row: usize, col: usize) -> (gain: Scalar)
        ensures
            gain == (if self.routes@.contains_key(MatrixCell { row, col }) {
                self.routes@[MatrixCell { row, col }].gain_linear
            } else {
                Scalar { bits: ONE_BITS }
            }),
    {
        match self.routes.get(&MatrixCell { row, col }) {
            Some(route) => route.gain_linear,
            None => Scalar::one(),
        }
    }

    pub fn add_input(&mut self, id: ChannelId)
        ensures
            final(self).inputs@ == old(self).inputs@.push(id),
            final(self).outputs == old(self).outputs,
            final(self).routes == old(self).routes,
    {
        self.inputs.push(id);
    }

    pub fn add_output(&mut self, id: ChannelId)
        ensures
            final(self).outputs@ == old(self).outputs@.push(id),
            final(self).inputs == old(self).inputs,
            final(self).routes == old(self).routes,
    {
        self.outputs.push(id);
    }

    /// The routes that are switched on.
    pub fn snapshot(&self) -> (routes: Vec<Route>)
        ensures
            routes@ == enabled_among(self.routes.entries()),
    {
        let mut routes: Vec<Route> = Vec::new();
        let mut at: usize = 0;
        while at < self.routes.len()
            invariant
                at <= self.routes.entries().len(),
                routes@ == enabled_among(self.routes.entries().take(at as int)),
            decreases self.routes.entries().len() - at,
        {
            let route = self.routes.value_at(at);
            if route.enabled {
                routes.push(route.clone());
            }
            assert(self.routes.entries().take(at + 1).drop_last() =~= self.routes.entries().take(
                at as int,
            ));
            at = at + 1;
        }
        assert(self.routes.entries().take(at as int) =~= self.routes.entries());
        routes
    }
}

/// A snapshot holds the enabled routes and no others.
pub proof fn law_snapshot_holds_the_enabled_routes(
    matrix: RoutingMatrix,
    row: usize,
    col: usize,
    at: int,
)
    ensures
        matrix.enabled_at(row, col) ==> enabled_among(matrix.routes.entries()).contains(
            matrix.routes@[MatrixCell { row, col }],
        ),
        0 <= at < enabled_among(matrix.routes.entries()).len() ==> {
            let route = enabled_among(matrix.routes.entries())[at];
            route.enabled && exists|i: int|
                0 <= i < matrix.routes.entries().len() && (
                #[trigger] matrix.routes.entries()[i]).1 == route
        },
{
    let entries = matrix.routes.entries();
    lemma_enabled_among(entries);
    if matrix.enabled_at(row, col) {
        let place = table::place_of(entries, MatrixCell { row, col });
        assert(entries[place].0 == MatrixCell { row, col });
    }
}

proof fn lemma_enabled_among(entries: Seq<(MatrixCell, Route)>)
    ensures
        forall|i: int|
            0 <= i < entries.len() && (#[trigger] entries[i]).1.enabled ==> enabled_among(
                entries,
            ).contains(entries[i].1),
        forall|k: int|
            0 <= k < enabled_among(entries).len() ==> (#[trigger] enabled_among(
                entries,
            )[k]).enabled && exists|i: int|
                0 <= i < entries.len() && (#[trigger] entries[i]).1 == enabled_among(entries)[k],
    decreases entries.len(),
{
    if entries.len() > 0 {
        let before = entries.drop_last();
        let found = enabled_among(entries);
        lemma_enabled_among(before);
        if entries.last().1.enabled {
            assert(found[found.len() - 1] == entries.last().1);
        }
        assert forall|i: int|
            0 <= i < entries.len() && (#[trigger] entries[i]).1.enabled implies found.contains(
            entries[i].1,
        ) by {
            if i < before.len() {
                assert(before[i] == entries[i]);
                let k = choose|k: int|
                    0 <= k < enabled_among(before).len() && enabled_among(before)[k]
                        == entries[i].1;
                assert(found[k] == entries[i].1);
            }
        }
        assert forall|k: int| 0 <= k < found.len() implies (#[trigger] found[k]).enabled && exists|
            i: int,
        |
            0 <= i < entries.len() && (#[trigger] entries[i]).1 == found[k] by {
            if k < enabled_among(before).len() {
                assert(enabled_among(before)[k] == found[k]);
                let i = choose|i: int|
                    0 <= i < before.len() && (#[trigger] before[i]).1 == found[k];
                assert(entries[i] == before[i]);
            } else {
                assert(entries[entries.len() - 1].1 == found[k]);
            }
        }
    }
}

/// Switching a place changes that place and no other; switching it again
/// restores whether it is on.
pub proof fn law_toggling_twice_restores(
    matrix: RoutingMatrix,
    once: RoutingMatrix,
    twice: RoutingMatrix,
    row: usize,
    col: usize,
    other_row: usize,
    other_col: usize,
)
    requires
        row < matrix.inputs@.len(),
        col < matrix.outputs@.len(),
        once.inputs == matrix.inputs,
        once.outputs == matrix.outputs,
        once.routes@ == matrix.toggled(row, col),
        twice.routes@ == once.toggled(row, col),
    ensures
        once.enabled_at(row, col) == !matrix.enabled_at(row, col),
        twice.enabled_at(row, col) == matrix.enabled_at(row, col),
        (other_row != row || other_col != col) ==> once.enabled_at(other_row, other_col)
            == matrix.enabled_at(other_row, other_col),
{
}

/// The channels of one direction are the devices for that direction, in their
/// order and by their names.
pub proof fn law_devices_are_channels_of_their_direction(
    devices: Seq<DeviceDescriptor>,
    input: bool,
)
    ensures
        input ==> physical(devices, input) == devices.filter(
            |device: DeviceDescriptor| device.is_input,
        ).map_values(|device: DeviceDescriptor| ChannelId::Physical(device.name)),
        !input ==> physical(devices, input) == devices.filter(
            |device: DeviceDescriptor| device.is_output,
        ).map_values(|device: DeviceDescriptor| ChannelId::Physical(device.name)),
    decreases devices.len(),
{
    let takes_in = |device: DeviceDescriptor| device.is_input;
    let gives_out = |device: DeviceDescriptor| device.is_output;
    let f = |device: DeviceDescriptor| ChannelId::Physical(device.name);
    reveal(Seq::filter);
    if devices.len() == 0 {
        assert(devices.filter(takes_in).map_values(f) =~= Seq::<ChannelId>::empty());
        assert(devices.filter(gives_out).map_values(f) =~= Seq::<ChannelId>::empty());
    } else {
        let last = devices.last();
        law_devices_are_channels_of_their_direction(devices.drop_last(), input);
        if last.is_input {
            let rest = devices.drop_last().filter(takes_in);
            assert(devices.filter(takes_in) == rest.push(last));
            assert(rest.push(last).map_values(f) =~= rest.map_values(f).push(f(last)));
        }
        if last.is_output {
            let rest = devices.drop_last().filter(gives_out);
            assert(devices.filter(gives_out) == rest.push(last));
            assert(rest.push(last).map_values(f) =~= rest.map_values(f).push(f(last)));
        }
    }
}

/// The channels of a matrix are those of the devices in their places, and behind
/// them two virtual ones with the names that were asked for.
pub proof fn law_two_virtual_channels_follow_the_devices(
    channels: Seq<ChannelId>,
    devices: Seq<ChannelId>,
    first: Seq<char>,
    second: Seq<char>,
    at: int,
)
    requires
        channels_for(channels, devices, first, second),
    ensures
        channels.len() == devices.len() + 2,
        0 <= at < devices.len() ==> channels[at] == devices[at],
        channels[channels.len() - 2] matches ChannelId::Virtual(name) && name@ == first,
        channels[channels.len() - 1] matches ChannelId::Virtual(name) && name@ == second,
{
    if 0 <= at < devices.len() {
        assert(channels.take(devices.len() as int)[at] == channels[at]);
    }
}

/// A place that is switched for the first time holds a route at unity gain from
/// the input of its row to the output of its column; one that holds a route keeps
/// its ends and its gain; every other place keeps its route, and a place outside
/// the matrix changes nothing.
pub proof fn law_a_switched_place_joins_its_row_and_column(
    matrix: RoutingMatrix,
    row: usize,
    col: usize,
    other: MatrixCell,
)
    ensures
        row >= matrix.inputs@.len() || col >= matrix.outputs@.len() ==> matrix.toggled(row, col)
            == matrix.routes@,
        row < matrix.inputs@.len() && col < matrix.outputs@.len() ==> {
            let cell = MatrixCell { row, col };
            let after = matrix.toggled(row, col);
            &&& after.contains_key(cell)
            &&& !matrix.routes@.contains_key(cell) ==> {
                &&& after[cell].src == matrix.inputs@[row as int]
                &&& after[cell].dst == matrix.outputs@[col as int]
                &&& after[cell].gain_linear.bits == 0x3f80_0000
                &&& after[cell].enabled
            }
            &&& matrix.routes@.contains_key(cell) ==> {
                &&& after[cell].src == matrix.routes@[cell].src
                &&& after[cell].dst == matrix.routes@[cell].dst
                &&& after[cell].gain_linear == matrix.routes@[cell].gain_linear
                &&& after[cell].enabled == !matrix.routes@[cell].enabled
            }
            &&& other != cell ==> (after.contains_key(other) <==> matrix.routes@.contains_key(
                other,
            ))
            &&& other != cell && matrix.routes@.contains_key(other) ==> after[other]
                == matrix.routes@[other]
        },
{
}

/// A snapshot is the entries that are switched on, in their order.
pub proof fn law_a_snapshot_keeps_the_order(entries: Seq<(MatrixCell, Route)>)
    ensures
        enabled_among(entries) == entries.filter(
            |entry: (MatrixCell, Route)| entry.1.enabled,
        ).map_values(|entry: (MatrixCell, Route)| entry.1),
    decreases entries.len(),
{
    let on = |entry: (MatrixCell, Route)| entry.1.enabled;
    let f = |entry: (MatrixCell, Route)| entry.1;
    reveal(Seq::filter);
    if entries.len() == 0 {
        assert(entries.filter(on).map_values(f) =~= Seq::<Route>::empty());
    } else {
        law_a_snapshot_keeps_the_order(entries.drop_last());
        let last = entries.last();
        if last.1.enabled {
            let rest = entries.drop_last().filter(on);
            assert(entries.filter(on) == rest.push(last));
            assert(rest.push(last).map_values(f) =~= rest.map_values(f).push(f(last)));
        }
    }
}

} // verus!
