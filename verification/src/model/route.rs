//! Routes of the matrix.
use vstd::prelude::*;

use super::channel::ChannelId;
use crate::scalar::{Scalar, ONE_BITS};

verus! {

/// A route between two channels.
#[derive(Debug)]
pub struct Route {
    pub src: ChannelId,
    pub dst: ChannelId,
    pub gain_linear: Scalar,
    pub enabled: bool,
}

impl Route {
    /// A route at unity gain.
    pub fn new(src: ChannelId, dst: ChannelId) -> (route: Self)
        ensures
            route == (Route { src, dst, gain_linear: Scalar { bits: ONE_BITS }, enabled: true }),
    {
        Route { src, dst, gain_linear: Scalar::one(), enabled: true }
    }
}

impl Clone for Route {
    fn clone(&self) -> (copy: Self)
        ensures
            copy == *self,
    {
        Route {
            src: self.src.clone(),
            dst: self.dst.clone(),
            gain_linear: self.gain_linear,
            enabled: self.enabled,
        }
    }
}

} // verus!
