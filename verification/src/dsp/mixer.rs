//! The mixer: what is checked before a block is mixed, and which input
//! channels go into an output channel.
use vstd::prelude::*;

use super::buffer::{AudioBuffer, ProcessConfig, ProcessContext};
use super::buffer;
use super::error::DspError;
use crate::scalar::Scalar;

verus! {

/// A buffer and the gain with which it is mixed.
#[derive(Debug)]
pub struct MixRoute {
    pub input: AudioBuffer,
    pub gain: Scalar,
}

impl MixRoute {
    pub fn new(input: AudioBuffer, gain: Scalar) -> (result: Result<Self, DspError>)
        ensures
            result == (if gain.finite() {
                Ok::<Self, DspError>(MixRoute { input, gain })
            } else {
                Err(DspError::InvalidParameter("route gain"))
            }),
    {
        match validate_route_gain(gain) {
            Ok(()) => Ok(MixRoute { input, gain }),
            Err(error) => Err(error),
        }
    }

    pub fn input(&self) -> (input: &AudioBuffer)
        ensures
            *input == self.input,
    {
        &self.input
    }

    pub fn gain(&self) -> (gain: Scalar)
        ensures
            gain == self.gain,
    {
        self.gain
    }

    pub fn set_gain(&mut self, gain: Scalar) -> (result: Result<(), DspError>)
        ensures
            result == (if gain.finite() {
                Ok::<(), DspError>(())
            } else {
                Err(DspError::InvalidParameter("route gain"))
            }),
            *final(self) == (if gain.finite() {
                MixRoute { gain, ..*old(self) }
            } else {
                *old(self)
            }),
    {
        match validate_route_gain(gain) {
            Ok(()) => {
                self.gain = gain;
                Ok(())
            },
            Err(error) => Err(error),
        }
    }
}

/// Sums routes into a buffer.
#[derive(Debug)]
pub struct Mixer {
    pub prepared: Option<ProcessConfig>,
}

/// Why a route cannot be mixed.
pub open spec fn route_fault(context: ProcessContext, route: MixRoute) -> Option<DspError> {
    if route.input@[0].len() != context.length() {
        Some(
            DspError::FrameCountMismatch {
                expected: context.length(),
                actual: route.input@[0].len() as usize,
            },
        )
    } else if !route.gain.finite() {
        Some(DspError::InvalidParameter("route gain"))
    } else {
        None
    }
}

/// Why the first of the routes that cannot be mixed cannot.
pub open spec fn routes_fault(context: ProcessContext, routes: Seq<MixRoute>) -> Option<DspError>
    decreases routes.len(),
{
    if routes.len() == 0 {
        None
    } else if routes_fault(context, routes.drop_last()) is Some {
        routes_fault(context, routes.drop_last())
    } else {
        route_fault(context, routes.last())
    }
}

/// Why a block cannot be mixed.
pub open spec fn mix_fault(
    prepared: Option<ProcessConfig>,
    context: ProcessContext,
    routes: Seq<MixRoute>,
    output: Seq<Seq<Scalar>>,
) -> Option<DspError> {
    let shape = buffer::block_fault(
        prepared,
        context,
        output.len() as int,
        output[0].len() as int,
    );
    if shape is Some {
        shape
    } else {
        routes_fault(context, routes)
    }
}

proof fn lemma_fault_stays(context: ProcessContext, routes: Seq<MixRoute>, count: int)
    requires
        0 <= count <= routes.len(),
        routes_fault(context, routes.take(count)) is Some,
    ensures
        routes_fault(context, routes) == routes_fault(context, routes.take(count)),
    decreases routes.len() - count,
{
    if count < routes.len() {
        assert(routes.take(count + 1).drop_last() =~= routes.take(count));
        lemma_fault_stays(context, routes, count + 1);
    } else {
        assert(routes.take(count) =~= routes);
    }
}

impl Mixer {
    pub fn new() -> (mixer: Self)
        ensures
            mixer.prepared is None,
    {
        Mixer { prepared: None }
    }

    pub fn prepare(&mut self, config: ProcessConfig)
        ensures
            final(self).prepared == Some(config),
    {
        self.prepared = Some(config);
    }

    /// Keeps what the mixer was prepared for: it has no other state.
    pub fn reset(&mut self)
        ensures
            *final(self) == *old(self),
    {
    }

    pub fn latency_frames(&self) -> (frames: usize)
        ensures
            frames == 0,
    {
        0
    }

    /// Checks a block and, where it can be mixed, clears the output for the
    /// sum. Otherwise the output is left as it is.
    pub fn begin(
        &self,
        context: &ProcessContext,
        routes: &Vec<MixRoute>,
        output: &mut AudioBuffer,
    ) -> (result: Result<(), DspError>)
        requires
            old(output).wf(),
            forall|i: int| 0 <= i < routes@.len() ==> (#[trigger] routes@[i]).input.wf(),
        ensures
            final(output).wf(),
            match mix_fault(self.prepared, *context, routes@, old(output)@) {
                Some(error) => result == Err::<(), DspError>(error) && final(output)@ == old(
                    output,
                )@,
                None => result == Ok::<(), DspError>(()) && final(output)@ == buffer::silent(
                    old(output)@,
                ),
            },
    {
        let config = match self.prepared {
            Some(config) => config,
            None => {
                return Err(DspError::NotPrepared);
            },
        };
        if !context.config().same(config) {
            return Err(DspError::ConfigurationMismatch);
        }
        let channels: usize = output.channel_count();
        if channels != config.channel_count() {
            return Err(
                DspError::ChannelCountMismatch {
                    expected: config.channel_count(),
                    actual: channels,
                },
            );
        }
        match validate_frames(context, output.frames()) {
            Ok(()) => {},
            Err(error) => {
                return Err(error);
            },
        }
        let mut at: usize = 0;
        while at < routes.len()
            invariant
                at <= routes@.len(),
                *output == *old(output),
                output.wf(),
                forall|i: int| 0 <= i < routes@.len() ==> (#[trigger] routes@[i]).input.wf(),
                buffer::block_fault(
                    self.prepared,
                    *context,
                    output@.len() as int,
                    output@[0].len() as int,
                ) is None,
                routes_fault(*context, routes@.take(at as int)) is None,
            decreases routes@.len() - at,
        {
            proof {
                assert(routes@.take(at + 1).drop_last() =~= routes@.take(at as int));
                assert(routes@.take(at + 1).last() == routes@[at as int]);
                if routes_fault(*context, routes@.take(at + 1)) is Some {
                    lemma_fault_stays(*context, routes@, at + 1);
                }
            }
            match validate_frames(context, routes[at].input.frames()) {
                Ok(()) => {},
                Err(error) => {
                    return Err(error);
                },
            }
            match validate_route_gain(routes[at].gain) {
                Ok(()) => {},
                Err(error) => {
                    return Err(error);
                },
            }
            at = at + 1;
        }
        assert(routes@.take(at as int) =~= routes@);
        output.silence();
        Ok(())
    }
}

impl Default for Mixer {
    fn default() -> (mixer: Self)
        ensures
            mixer.prepared is None,
    {
        Mixer::new()
    }
}

/// Checks the length of a buffer.
pub fn validate_frames(context: &ProcessContext, frames: usize) -> (result: Result<(), DspError>)
    ensures
        result == (if frames == context.length() {
            Ok::<(), DspError>(())
        } else {
            Err(DspError::FrameCountMismatch { expected: context.length(), actual: frames })
        }),
{
    let expected: usize = context.frames();
    if frames == expected {
        Ok(())
    } else {
        Err(DspError::FrameCountMismatch { expected, actual: frames })
    }
}

/// Refuses a gain that is not a finite number.
pub fn validate_route_gain(gain: Scalar) -> (result: Result<(), DspError>)
    ensures
        result == (if gain.finite() {
            Ok::<(), DspError>(())
        } else {
            Err(DspError::InvalidParameter("route gain"))
        }),
{
    if gain.is_finite() {
        Ok(())
    } else {
        Err(DspError::InvalidParameter("route gain"))
    }
}

/// What of a route goes into one output channel.
#[derive(Debug, Clone, Copy, PartialEq, Eq, Structural)]
pub enum MixTerm {
    /// One input channel.
    Channel(usize),
    /// The mean of the two input channels.
    Mean,
}

/// What of a route goes into an output channel: mono feeds every channel,
/// stereo into mono is averaged, and stereo keeps its sides.
pub fn mix_route(input_channels: usize, output_channels: usize, output_channel: usize) -> (term:
    MixTerm)
    requires
        1 <= input_channels <= 2,
        1 <= output_channels <= 2,
        output_channel < output_channels,
    ensures
        term == (if input_channels == 1 {
            MixTerm::Channel(0)
        } else if output_channels == 1 {
            MixTerm::Mean
        } else {
            MixTerm::Channel(output_channel)
        }),
        term matches MixTerm::Channel(channel) ==> channel < input_channels,
{
    if input_channels == 1 {
        MixTerm::Channel(0)
    } else if output_channels == 1 {
        MixTerm::Mean
    } else {
        MixTerm::Channel(output_channel)
    }
}

/// A block is mixed exactly where its shape fits and every route has as many
/// frames and a finite gain; otherwise the first thing that does not hold is
/// told, the shape before the routes and the routes in order.
pub proof fn law_a_mix_names_its_first_fault(
    prepared: Option<ProcessConfig>,
    context: ProcessContext,
    routes: Seq<MixRoute>,
    output: Seq<Seq<Scalar>>,
    at: int,
)
    requires
        0 <= at < routes.len(),
        forall|i: int| 0 <= i < routes.len() ==> (#[trigger] routes[i]).input@[0].len() <= usize::MAX,
    ensures
        ({
            let shape = buffer::block_fault(
                prepared,
                context,
                output.len() as int,
                output[0].len() as int,
            );
            let fault = mix_fault(prepared, context, routes, output);
            let fits = |route: MixRoute|
                route.input@[0].len() == context.length() && route.gain.finite();
            &&& shape is Some ==> fault == shape
            &&& shape is None ==> (fault is None <==> forall|i: int|
                0 <= i < routes.len() ==> fits(#[trigger] routes[i]))
            &&& shape is None && !fits(routes[at]) && (forall|i: int|
                0 <= i < at ==> fits(#[trigger] routes[i])) ==> fault == Some(
                if routes[at].input@[0].len() != context.length() {
                    DspError::FrameCountMismatch {
                        expected: context.length(),
                        actual: routes[at].input@[0].len() as usize,
                    }
                } else {
                    DspError::InvalidParameter("route gain")
                },
            )
        }),
{
    lemma_routes_fit(context, routes);
    let fits = |route: MixRoute|
        route.input@[0].len() == context.length() && route.gain.finite();
    if !fits(routes[at]) && forall|i: int| 0 <= i < at ==> fits(#[trigger] routes[i]) {
        let until = routes.take(at + 1);
        assert(until.drop_last() =~= routes.take(at));
        assert(until.last() == routes[at]);
        lemma_routes_fit(context, routes.take(at));
        assert forall|i: int| 0 <= i < at implies route_fault(
            context,
            #[trigger] routes.take(at)[i],
        ) is None by {
            assert(fits(routes[i]));
        }
        assert(routes_fault(context, until) == route_fault(context, routes[at]));
        lemma_fault_stays(context, routes, at + 1);
    }
}

proof fn lemma_routes_fit(context: ProcessContext, routes: Seq<MixRoute>)
    ensures
        routes_fault(context, routes) is None <==> forall|i: int|
            0 <= i < routes.len() ==> route_fault(context, #[trigger] routes[i]) is None,
    decreases routes.len(),
{
    if routes.len() > 0 {
        let front = routes.drop_last();
        lemma_routes_fit(context, front);
        assert forall|i: int| 0 <= i < front.len() implies (#[trigger] front[i]) == routes[i] by {}
        if routes_fault(context, routes) is None {
            assert forall|i: int| 0 <= i < routes.len() implies route_fault(
                context,
                #[trigger] routes[i],
            ) is None by {
                if i < front.len() {
                    assert(front[i] == routes[i]);
                }
            }
        }
        if forall|i: int|
            0 <= i < routes.len() ==> route_fault(context, #[trigger] routes[i]) is None {
            assert forall|i: int| 0 <= i < front.len() implies route_fault(
                context,
                #[trigger] front[i],
            ) is None by {
                assert(route_fault(context, routes[i]) is None);
            }
            assert(routes[routes.len() - 1] == routes.last());
        }
    }
}

} // verus!
