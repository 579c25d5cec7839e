//! The devices of the machine.
use vstd::prelude::*;

use crate::text::same_text;

verus! {

/// A device, by its name. A device for both directions is one device.
#[derive(Debug)]
pub struct DeviceDescriptor {
    pub name: String,
    pub is_input: bool,
    pub is_output: bool,
    pub default_sample_rate: u32,
    pub channel_count: u16,
}

impl Clone for DeviceDescriptor {
    fn clone(&self) -> (copy: Self)
        ensures
            copy == *self,
    {
        DeviceDescriptor {
            name: self.name.clone(),
            is_input: self.is_input,
            is_output: self.is_output,
            default_sample_rate: self.default_sample_rate,
            channel_count: self.channel_count,
        }
    }
}

/// One side of a device, as the platform reports it.
#[derive(Debug)]
pub struct DeviceSide {
    pub name: String,
    pub sample_rate: u32,
    pub channel_count: u16,
}

/// The descriptor for one side of a device.
pub fn describe_device(side: &DeviceSide, is_input: bool, is_output: bool) -> (descriptor:
    DeviceDescriptor)
    ensures
        descriptor == (DeviceDescriptor {
            name: side.name,
            is_input,
            is_output,
            default_sample_rate: side.sample_rate,
            channel_count: side.channel_count,
        }),
{
    DeviceDescriptor {
        name: side.name.clone(),
        is_input,
        is_output,
        default_sample_rate: side.sample_rate,
        channel_count: side.channel_count,
    }
}

/// The first device with a name.
pub open spec fn named(devices: Seq<DeviceDescriptor>, name: Seq<char>) -> Option<int>
    decreases devices.len(),
{
    if devices.len() == 0 {
        None
    } else if named(devices.drop_last(), name) is Some {
        named(devices.drop_last(), name)
    } else if devices.last().name@ == name {
        Some(devices.len() - 1)
    } else {
        None
    }
}

/// The devices with one more output side: that of a device that is there, or a
/// new device.
pub open spec fn with_output(devices: Seq<DeviceDescriptor>, side: DeviceSide) -> Seq<
    DeviceDescriptor,
> {
    match named(devices, side.name@) {
        Some(at) => devices.update(
            at,
            DeviceDescriptor { is_output: true, ..devices[at] },
        ),
        None => devices.push(
            DeviceDescriptor {
                name: side.name,
                is_input: false,
                is_output: true,
                default_sample_rate: side.sample_rate,
                channel_count: side.channel_count,
            },
        ),
    }
}

/// The devices with more output sides.
pub open spec fn with_outputs(devices: Seq<DeviceDescriptor>, sides: Seq<DeviceSide>) -> Seq<
    DeviceDescriptor,
>
    decreases sides.len(),
{
    if sides.len() == 0 {
        devices
    } else {
        with_output(with_outputs(devices, sides.drop_last()), sides.last())
    }
}

/// The input sides as devices.
pub open spec fn inputs_of(sides: Seq<DeviceSide>) -> Seq<DeviceDescriptor> {
    Seq::new(
        sides.len(),
        |i: int|
            DeviceDescriptor {
                name: sides[i].name,
                is_input: true,
                is_output: false,
                default_sample_rate: sides[i].sample_rate,
                channel_count: sides[i].channel_count,
            },
    )
}

proof fn lemma_named(devices: Seq<DeviceDescriptor>, name: Seq<char>)
    ensures
        match named(devices, name) {
            Some(at) => 0 <= at < devices.len() && devices[at].name@ == name,
            None => forall|i: int| 0 <= i < devices.len() ==> (#[trigger] devices[i]).name@ != name,
        },
    decreases devices.len(),
{
    if devices.len() > 0 {
        lemma_named(devices.drop_last(), name);
        if named(devices, name) is None {
            assert forall|i: int| 0 <= i < devices.len() implies (#[trigger] devices[i]).name@
                != name by {
                if i < devices.len() - 1 {
                    assert(devices.drop_last()[i] == devices[i]);
                }
            }
        }
    }
}

fn find_named(devices: &Vec<DeviceDescriptor>, name: &str) -> (place: Option<usize>)
    ensures
        match place {
            Some(at) => at < devices@.len() && named(devices@, name@) == Some(at as int),
            None => named(devices@, name@) is None,
        },
{
    let mut at: usize = 0;
    let mut found: Option<usize> = None;
    while at < devices.len()
        invariant
            at <= devices@.len(),
            match found {
                Some(place) => place < at && named(devices@.take(at as int), name@) == Some(
                    place as int,
                ),
                None => named(devices@.take(at as int), name@) is None,
            },
        decreases devices@.len() - at,
    {
        assert(devices@.take(at + 1).drop_last() =~= devices@.take(at as int));
        assert(devices@.take(at + 1).last() == devices@[at as int]);
        if found.is_none() && same_text(devices[at].name.as_str(), name) {
            found = Some(at);
        }
        at = at + 1;
    }
    assert(devices@.take(at as int) =~= devices@);
    found
}

/// Puts the sides of the devices together. The two sides of a device for both
/// directions become one device, with the rate and channels of its input.
pub fn enumerate_all(inputs: &Vec<DeviceSide>, outputs: &Vec<DeviceSide>) -> (devices: Vec<
    DeviceDescriptor,
>)
    ensures
        devices@ == with_outputs(inputs_of(inputs@), outputs@),
{
    let mut devices: Vec<DeviceDescriptor> = Vec::new();
    let mut at: usize = 0;
    while at < inputs.len()
        invariant
            at <= inputs@.len(),
            devices@ =~= inputs_of(inputs@).take(at as int),
        decreases inputs@.len() - at,
    {
        devices.push(describe_device(&inputs[at], true, false));
        at = at + 1;
    }
    assert(inputs_of(inputs@).take(at as int) =~= inputs_of(inputs@));
    let mut next: usize = 0;
    assert(outputs@.take(0) =~= Seq::empty());
    while next < outputs.len()
        invariant
            next <= outputs@.len(),
            devices@ == with_outputs(inputs_of(inputs@), outputs@.take(next as int)),
        decreases outputs@.len() - next,
    {
        let side = &outputs[next];
        assert(outputs@.take(next + 1).drop_last() =~= outputs@.take(next as int));
        assert(outputs@.take(next + 1).last() == *side);
        match find_named(&devices, side.name.as_str()) {
            Some(place) => {
                let mut device = devices[place].clone();
                device.is_output = true;
                devices.set(place, device);
            },
            None => {
                devices.push(describe_device(side, false, true));
            },
        }
        next = next + 1;
    }
    assert(outputs@.take(next as int) =~= outputs@);
    devices
}

/// A device that is reported as an output is listed as one, and no device is
/// lost by it.
pub proof fn law_every_output_is_listed(devices: Seq<DeviceDescriptor>, side: DeviceSide)
    ensures
        exists|i: int|
            0 <= i < with_output(devices, side).len() && (#[trigger] with_output(
                devices,
                side,
            )[i]).name@ == side.name@ && with_output(devices, side)[i].is_output,
        forall|i: int|
            0 <= i < devices.len() ==> (#[trigger] with_output(devices, side)[i]).name@
                == devices[i].name@ && with_output(devices, side)[i].is_input
                == devices[i].is_input,
{
    lemma_named(devices, side.name@);
    let after = with_output(devices, side);
    match named(devices, side.name@) {
        Some(at) => {
            assert(after[at].is_output);
        },
        None => {
            assert(after[devices.len() as int].is_output);
        },
    }
}

/// The device with a name is the first that has it.
pub proof fn law_the_first_device_of_a_name_is_meant(
    devices: Seq<DeviceDescriptor>,
    name: Seq<char>,
    at: int,
)
    requires
        0 <= at < devices.len(),
        devices[at].name@ == name,
        forall|i: int| 0 <= i < at ==> (#[trigger] devices[i]).name@ != name,
    ensures
        named(devices, name) == Some(at),
    decreases devices.len(),
{
    let rest = devices.drop_last();
    if at < rest.len() {
        assert(rest[at] == devices[at]);
        assert forall|i: int| 0 <= i < at implies (#[trigger] rest[i]).name@ != name by {
            assert(rest[i] == devices[i]);
        }
        law_the_first_device_of_a_name_is_meant(rest, name, at);
    } else {
        lemma_named(rest, name);
        if named(rest, name) is Some {
            let before = named(rest, name)->0;
            assert(rest[before] == devices[before]);
        }
    }
}

/// An input side is a device that takes in and does not give out, with the name,
/// the rate and the channels of the side.
pub proof fn law_an_input_side_is_an_input_device(sides: Seq<DeviceSide>, at: int)
    requires
        0 <= at < sides.len(),
    ensures
        inputs_of(sides).len() == sides.len(),
        inputs_of(sides)[at].name == sides[at].name,
        inputs_of(sides)[at].is_input,
        !inputs_of(sides)[at].is_output,
        inputs_of(sides)[at].default_sample_rate == sides[at].sample_rate,
        inputs_of(sides)[at].channel_count == sides[at].channel_count,
{
}

/// An output side marks the first device with its name as an output and changes
/// nothing else, or is a new device at the end where no device has its name.
pub proof fn law_an_output_side_marks_its_device(
    devices: Seq<DeviceDescriptor>,
    side: DeviceSide,
    at: int,
    other: int,
)
    requires
        0 <= at < devices.len() ==> devices[at].name@ == side.name@ && (forall|i: int|
            0 <= i < at ==> (#[trigger] devices[i]).name@ != side.name@),
        !(0 <= at < devices.len()) ==> forall|i: int|
            0 <= i < devices.len() ==> (#[trigger] devices[i]).name@ != side.name@,
        0 <= other < devices.len(),
    ensures
        0 <= at < devices.len() ==> {
            &&& with_output(devices, side).len() == devices.len()
            &&& with_output(devices, side)[at].is_output
            &&& with_output(devices, side)[at].name == devices[at].name
            &&& with_output(devices, side)[at].is_input == devices[at].is_input
            &&& with_output(devices, side)[at].default_sample_rate
                == devices[at].default_sample_rate
            &&& with_output(devices, side)[at].channel_count == devices[at].channel_count
        },
        !(0 <= at < devices.len()) ==> {
            &&& with_output(devices, side).len() == devices.len() + 1
            &&& with_output(devices, side).last().name == side.name
            &&& with_output(devices, side).last().is_output
            &&& !with_output(devices, side).last().is_input
            &&& with_output(devices, side).last().default_sample_rate == side.sample_rate
            &&& with_output(devices, side).last().channel_count == side.channel_count
        },
        other != at ==> with_output(devices, side)[other] == devices[other],
{
    if 0 <= at < devices.len() {
        law_the_first_device_of_a_name_is_meant(devices, side.name@, at);
    } else {
        lemma_named(devices, side.name@);
    }
}

/// However many output sides there are, the devices that were there keep their
/// places, and each side is listed as an output under its name.
pub proof fn law_all_outputs_are_listed(
    devices: Seq<DeviceDescriptor>,
    sides: Seq<DeviceSide>,
)
    ensures
        with_outputs(devices, sides).len() >= devices.len(),
        forall|i: int|
            0 <= i < devices.len() ==> {
                let device = #[trigger] with_outputs(devices, sides)[i];
                &&& device.name == devices[i].name
                &&& device.is_input == devices[i].is_input
                &&& device.default_sample_rate == devices[i].default_sample_rate
                &&& device.channel_count == devices[i].channel_count
                &&& devices[i].is_output ==> device.is_output
            },
        forall|i: int|
            devices.len() <= i < with_outputs(devices, sides).len() ==> {
                let device = #[trigger] with_outputs(devices, sides)[i];
                device.is_output && !device.is_input
            },
        forall|j: int|
            0 <= j < sides.len() ==> lists_output(
                with_outputs(devices, sides),
                (#[trigger] sides[j]).name@,
            ),
    decreases sides.len(),
{
    if sides.len() > 0 {
        let rest = sides.drop_last();
        let before = with_outputs(devices, rest);
        let after = with_outputs(devices, sides);
        law_all_outputs_are_listed(devices, rest);
        law_every_output_is_listed(before, sides.last());
        lemma_named(before, sides.last().name@);
        assert forall|j: int| 0 <= j < sides.len() implies lists_output(
            after,
            (#[trigger] sides[j]).name@,
        ) by {
            if j < rest.len() {
                assert(rest[j] == sides[j]);
                let i = choose|i: int|
                    0 <= i < before.len() && (#[trigger] before[i]).name@ == sides[j].name@
                        && before[i].is_output;
                assert(after[i].name@ == before[i].name@ && after[i].is_output);
            } else {
                assert(sides[j] == sides.last());
            }
        }
    }
}

/// Whether an output with a name is among devices.
pub open spec fn lists_output(devices: Seq<DeviceDescriptor>, name: Seq<char>) -> bool {
    exists|i: int|
        0 <= i < devices.len() && (#[trigger] devices[i]).name@ == name && devices[i].is_output
}

} // verus!
