//! Channels of the matrix.
use vstd::prelude::*;

use crate::text::same_text;

verus! {

/// A channel, by its name.
#[derive(Debug, PartialEq, Eq, Hash)]
pub enum ChannelId {
    Physical(String),
    Virtual(String),
}

impl ChannelId {
    /// The name of the channel.
    pub open spec fn name(self) -> Seq<char> {
        match self {
            ChannelId::Physical(name) => name@,
            ChannelId::Virtual(name) => name@,
        }
    }

    /// Whether two channels are of one sort and have one name.
    pub open spec fn same_as(self, other: ChannelId) -> bool {
        self is Virtual == other is Virtual && self.name() == other.name()
    }

    pub fn same(&self, other: &ChannelId) -> (same: bool)
        ensures
            same == self.same_as(*other),
    {
        self.is_virtual() == other.is_virtual() && same_text(self.label(), other.label())
    }

    pub fn label(&self) -> (label: &str)
        ensures
            label@ == self.name(),
    {
        match self {
            ChannelId::Physical(name) => name.as_str(),
            ChannelId::Virtual(name) => name.as_str(),
        }
    }

    pub fn is_virtual(&self) -> (result: bool)
        ensures
            result == (self is Virtual),
    {
        match self {
            ChannelId::Physical(_) => false,
            ChannelId::Virtual(_) => true,
        }
    }
}

impl Clone for ChannelId {
    fn clone(&self) -> (copy: Self)
        ensures
            copy == *self,
    {
        match self {
            ChannelId::Physical(name) => ChannelId::Physical(name.clone()),
            ChannelId::Virtual(name) => ChannelId::Virtual(name.clone()),
        }
    }
}

/// A device and a virtual channel are never the same, and two of one sort are
/// where their names are.
pub proof fn law_channels_are_told_apart_by_sort_and_name(first: String, second: String)
    ensures
        ChannelId::Physical(first).same_as(ChannelId::Physical(second)) <==> first@ == second@,
        ChannelId::Virtual(first).same_as(ChannelId::Virtual(second)) <==> first@ == second@,
        !ChannelId::Physical(first).same_as(ChannelId::Virtual(second)),
        !ChannelId::Virtual(first).same_as(ChannelId::Physical(second)),
{
}

} // verus!
