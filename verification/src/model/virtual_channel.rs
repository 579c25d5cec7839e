//! Virtual channels of the matrix.
use vstd::prelude::*;

verus! {

#[derive(Clone, Copy, Debug, PartialEq, Eq, Structural)]
pub enum Direction {
    Input,
    Output,
}

#[derive(Debug)]
pub struct VirtualChannel {
    pub name: String,
    pub direction: Direction,
    pub channel_count: u16,
}

/// What a virtual channel is.
pub struct VirtualModel {
    pub name: Seq<char>,
    pub direction: Direction,
    pub channel_count: u16,
}

impl View for VirtualChannel {
    type V = VirtualModel;

    open spec fn view(&self) -> VirtualModel {
        VirtualModel {
            name: self.name@,
            direction: self.direction,
            channel_count: self.channel_count,
        }
    }
}

/// A stereo channel.
pub open spec fn stereo(name: Seq<char>, direction: Direction) -> VirtualModel {
    VirtualModel { name, direction, channel_count: 2 }
}

impl VirtualChannel {
    pub fn input(name: &str) -> (channel: Self)
        ensures
            channel@ == stereo(name@, Direction::Input),
    {
        VirtualChannel { name: name.to_owned(), direction: Direction::Input, channel_count: 2 }
    }

    pub fn output(name: &str) -> (channel: Self)
        ensures
            channel@ == stereo(name@, Direction::Output),
    {
        VirtualChannel { name: name.to_owned(), direction: Direction::Output, channel_count: 2 }
    }
}

impl Clone for VirtualChannel {
    fn clone(&self) -> (copy: Self)
        ensures
            copy == *self,
    {
        VirtualChannel {
            name: self.name.clone(),
            direction: self.direction,
            channel_count: self.channel_count,
        }
    }
}

/// The virtual channels.
#[derive(Debug)]
pub struct VirtualIoManager {
    pub channels: Vec<VirtualChannel>,
}

impl View for VirtualIoManager {
    type V = Seq<VirtualChannel>;

    open spec fn view(&self) -> Seq<VirtualChannel> {
        self.channels@
    }
}

/// The channels in one direction, in order.
pub open spec fn towards(channels: Seq<VirtualChannel>, direction: Direction) -> Seq<VirtualChannel>
    decreases channels.len(),
{
    if channels.len() == 0 {
        Seq::empty()
    } else {
        let before = towards(channels.drop_last(), direction);
        if channels.last().direction == direction {
            before.push(channels.last())
        } else {
            before
        }
    }
}

impl VirtualIoManager {
    /// Two inputs and two outputs.
    pub fn with_defaults() -> (manager: Self)
        ensures
            manager@.len() == 4,
            manager@[0]@ == stereo("Virtual Input 1"@, Direction::Input),
            manager@[1]@ == stereo("Virtual Input 2"@, Direction::Input),
            manager@[2]@ == stereo("Virtual Output 1"@, Direction::Output),
            manager@[3]@ == stereo("Virtual Output 2"@, Direction::Output),
    {
        let mut channels: Vec<VirtualChannel> = Vec::new();
        channels.push(VirtualChannel::input("Virtual Input 1"));
        channels.push(VirtualChannel::input("Virtual Input 2"));
        channels.push(VirtualChannel::output("Virtual Output 1"));
        channels.push(VirtualChannel::output("Virtual Output 2"));
        VirtualIoManager { channels }
    }

    fn select(&self, direction: Direction) -> (selected: Vec<VirtualChannel>)
        ensures
            selected@ == towards(self@, direction),
    {
        let mut selected: Vec<VirtualChannel> = Vec::new();
        let mut at: usize = 0;
        while at < self.channels.len()
            invariant
                at <= self.channels@.len(),
                selected@ == towards(self.channels@.take(at as int), direction),
            decreases self.channels@.len() - at,
        {
            assert(self.channels@.take(at + 1).drop_last() =~= self.channels@.take(at as int));
            assert(self.channels@.take(at + 1).last() == self.channels@[at as int]);
            if self.channels[at].direction == direction {
                selected.push(self.channels[at].clone());
            }
            at = at + 1;
        }
        assert(self.channels@.take(at as int) =~= self.channels@);
        selected
    }

    pub fn inputs(&self) -> (inputs: Vec<VirtualChannel>)
        ensures
            inputs@ == towards(self@, Direction::Input),
    {
        self.select(Direction::Input)
    }

    pub fn outputs(&self) -> (outputs: Vec<VirtualChannel>)
        ensures
            outputs@ == towards(self@, Direction::Output),
    {
        self.select(Direction::Output)
    }

    /// Adds a stereo channel.
    pub fn add(&mut self, direction: Direction, name: &str)
        ensures
            final(self)@.len() == old(self)@.len() + 1,
            final(self)@.drop_last() == old(self)@,
            final(self)@.last()@ == stereo(name@, direction),
    {
        self.channels.push(VirtualChannel { name: name.to_owned(), direction, channel_count: 2 });
        assert(self@.drop_last() =~= old(self)@);
    }

    /// Removes a channel; a place behind the last is left alone.
    pub fn remove(&mut self, idx: usize)
        ensures
            final(self)@ == (if idx < old(self)@.len() {
                old(self)@.remove(idx as int)
            } else {
                old(self)@
            }),
    {
        if idx < self.channels.len() {
            self.channels.remove(idx);
        }
    }
}

/// The channels in one direction are all those that have it, in their order, and
/// a new one has two channels.
pub proof fn law_channels_are_chosen_by_direction(
    channels: Seq<VirtualChannel>,
    direction: Direction,
    name: Seq<char>,
)
    ensures
        towards(channels, direction) == channels.filter(
            |channel: VirtualChannel| channel.direction == direction,
        ),
        stereo(name, direction).name == name,
        stereo(name, direction).direction == direction,
        stereo(name, direction).channel_count == 2,
    decreases channels.len(),
{
    reveal(Seq::filter);
    if channels.len() > 0 {
        law_channels_are_chosen_by_direction(channels.drop_last(), direction, name);
    }
}

} // verus!
