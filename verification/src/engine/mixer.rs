//! The mix over the matrix.
use vstd::prelude::*;

use crate::model::channel::ChannelId;
use crate::model::route::Route;
use crate::scalar::Scalar;

verus! {

/// The first place of a channel among others.
pub open spec fn place_among(channels: Seq<ChannelId>, wanted: ChannelId) -> Option<usize>
    decreases channels.len(),
{
    if channels.len() == 0 {
        None
    } else if place_among(channels.drop_last(), wanted) is Some {
        place_among(channels.drop_last(), wanted)
    } else if channels.last().same_as(wanted) {
        Some((channels.len() - 1) as usize)
    } else {
        None
    }
}

/// What an output is the sum of: of every enabled route that ends there, in
/// order, the place of its source among the inputs and its gain. A route whose
/// source is not among the inputs has no part in it.
pub open spec fn terms_of(snapshot: Seq<Route>, inputs: Seq<ChannelId>, output: ChannelId) -> Seq<
    (usize, Scalar),
>
    decreases snapshot.len(),
{
    if snapshot.len() == 0 {
        Seq::empty()
    } else {
        let before = terms_of(snapshot.drop_last(), inputs, output);
        let route = snapshot.last();
        match place_among(inputs, route.src) {
            Some(place) if route.enabled && route.dst.same_as(output) => before.push(
                (place, route.gain_linear),
            ),
            _ => before,
        }
    }
}

proof fn lemma_first_place(channels: Seq<ChannelId>, wanted: ChannelId, count: int)
    requires
        0 <= count <= channels.len(),
        place_among(channels.take(count), wanted) is Some,
    ensures
        place_among(channels, wanted) == place_among(channels.take(count), wanted),
    decreases channels.len() - count,
{
    if count < channels.len() {
        assert(channels.take(count + 1).drop_last() =~= channels.take(count));
        lemma_first_place(channels, wanted, count + 1);
    } else {
        assert(channels.take(count) =~= channels);
    }
}

fn find_channel(channels: &Vec<ChannelId>, wanted: &ChannelId) -> (place: Option<usize>)
    ensures
        place == place_among(channels@, *wanted),
        place matches Some(at) ==> at < channels@.len(),
{
    let mut at: usize = 0;
    while at < channels.len()
        invariant
            at <= channels@.len(),
            place_among(channels@.take(at as int), *wanted) is None,
        decreases channels@.len() - at,
    {
        assert(channels@.take(at + 1).drop_last() =~= channels@.take(at as int));
        assert(channels@.take(at + 1).last() == channels@[at as int]);
        if channels[at].same(wanted) {
            proof {
                lemma_first_place(channels@, *wanted, at + 1);
            }
            return Some(at);
        }
        at = at + 1;
    }
    assert(channels@.take(at as int) =~= channels@);
    None
}

/// What an output is the sum of.
pub fn mix_terms(
    snapshot: &Vec<Route>,
    inputs: &Vec<ChannelId>,
    outputs: &Vec<ChannelId>,
    output: usize,
) -> (terms: Vec<(usize, Scalar)>)
    requires
        output < outputs@.len(),
    ensures
        terms@ == terms_of(snapshot@, inputs@, outputs@[output as int]),
        forall|i: int| 0 <= i < terms@.len() ==> (#[trigger] terms@[i]).0 < inputs@.len(),
{
    let mut terms: Vec<(usize, Scalar)> = Vec::new();
    let mut at: usize = 0;
    while at < snapshot.len()
        invariant
            at <= snapshot@.len(),
            output < outputs@.len(),
            terms@ == terms_of(snapshot@.take(at as int), inputs@, outputs@[output as int]),
            forall|i: int| 0 <= i < terms@.len() ==> (#[trigger] terms@[i]).0 < inputs@.len(),
        decreases snapshot@.len() - at,
    {
        assert(snapshot@.take(at + 1).drop_last() =~= snapshot@.take(at as int));
        assert(snapshot@.take(at + 1).last() == snapshot@[at as int]);
        let place = find_channel(inputs, &snapshot[at].src);
        if snapshot[at].enabled && snapshot[at].dst.same(&outputs[output]) {
            if let Some(place) = place {
                terms.push((place, snapshot[at].gain_linear));
            }
        }
        at = at + 1;
    }
    assert(snapshot@.take(at as int) =~= snapshot@);
    terms
}

/// Mixes inputs into outputs along the routes of a snapshot. `sums` has for
/// every output the sum over its `mix_terms`: of the gain times the sample of
/// the input at that place. An output in which no route ends stays as it is.
pub fn mix(
    snapshot: &Vec<Route>,
    inputs: &Vec<ChannelId>,
    outputs: &Vec<ChannelId>,
    sums: &Vec<Vec<Scalar>>,
    buffers: &mut Vec<Vec<Scalar>>,
)
    requires
        sums@.len() == outputs@.len(),
        old(buffers)@.len() == outputs@.len(),
        forall|j: int|
            0 <= j < sums@.len() ==> (#[trigger] sums@[j])@.len() == old(buffers)@[j]@.len(),
    ensures
        final(buffers)@.len() == old(buffers)@.len(),
        forall|j: int|
            0 <= j < outputs@.len() ==> (#[trigger] final(buffers)@[j])@ == (if terms_of(
                snapshot@,
                inputs@,
                outputs@[j],
            ).len() == 0 {
                old(buffers)@[j]@
            } else {
                sums@[j]@
            }),
{
    let mut output: usize = 0;
    while output < outputs.len()
        invariant
            output <= outputs@.len(),
            sums@.len() == outputs@.len(),
            buffers@.len() == old(buffers)@.len() == outputs@.len(),
            forall|j: int|
                0 <= j < outputs@.len() ==> (#[trigger] buffers@[j])@ == (if j >= output
                    || terms_of(snapshot@, inputs@, outputs@[j]).len() == 0 {
                    old(buffers)@[j]@
                } else {
                    sums@[j]@
                }),
        decreases outputs@.len() - output,
    {
        let terms = mix_terms(snapshot, inputs, outputs, output);
        if terms.len() > 0 {
            buffers.set(output, copied(&sums[output]));
        }
        output = output + 1;
    }
}

fn copied(samples: &Vec<Scalar>) -> (copy: Vec<Scalar>)
    ensures
        copy@ == samples@,
{
    let mut copy: Vec<Scalar> = Vec::new();
    let mut at: usize = 0;
    while at < samples.len()
        invariant
            at <= samples@.len(),
            copy@ =~= samples@.take(at as int),
        decreases samples@.len() - at,
    {
        copy.push(samples[at]);
        at = at + 1;
    }
    assert(samples@.take(at as int) =~= samples@);
    copy
}

/// A route that is switched off adds nothing, and one that is on adds its
/// source at its gain to its own output alone.
pub proof fn law_a_route_adds_to_its_output_alone(
    snapshot: Seq<Route>,
    route: Route,
    inputs: Seq<ChannelId>,
    output: ChannelId,
)
    ensures
        terms_of(snapshot.push(route), inputs, output) == (if route.enabled && route.dst.same_as(
            output,
        ) && place_among(inputs, route.src) is Some {
            terms_of(snapshot, inputs, output).push(
                (place_among(inputs, route.src)->0, route.gain_linear),
            )
        } else {
            terms_of(snapshot, inputs, output)
        }),
{
    assert(snapshot.push(route).drop_last() =~= snapshot);
}

/// The place of a channel is the first one with its sort and name, and a channel
/// that is not there has none.
pub proof fn law_the_first_place_of_a_channel_counts(
    channels: Seq<ChannelId>,
    wanted: ChannelId,
    at: int,
)
    requires
        0 <= at <= channels.len(),
        channels.len() <= usize::MAX,
        at < channels.len() ==> channels[at].same_as(wanted),
        forall|i: int| 0 <= i < at ==> !(#[trigger] channels[i]).same_as(wanted),
    ensures
        at < channels.len() ==> place_among(channels, wanted) == Some(at as usize),
        at == channels.len() ==> place_among(channels, wanted) is None,
    decreases channels.len(),
{
    if channels.len() > 0 {
        let rest = channels.drop_last();
        let within = if at < rest.len() {
            at
        } else {
            rest.len() as int
        };
        assert forall|i: int| 0 <= i < within implies !(#[trigger] rest[i]).same_as(wanted) by {
            assert(rest[i] == channels[i]);
        }
        if within < rest.len() {
            assert(rest[within] == channels[within]);
        }
        law_the_first_place_of_a_channel_counts(rest, wanted, within);
        assert(channels.last() == channels[channels.len() - 1]);
    }
}

} // verus!
