//! A ring of samples between two threads.
use vstd::prelude::*;

use crate::realtime::rings::{filled_slots, free_slots, pop_sample, push_sample, sample_ring};
use crate::realtime::rings;
use crate::scalar::Scalar;

verus! {

pub struct AudioProducer(pub rtrb::Producer<u32>);

pub struct AudioConsumer(pub rtrb::Consumer<u32>);

pub struct RingPair;

/// The patterns of samples.
pub open spec fn patterns(samples: Seq<Scalar>) -> Seq<u32> {
    Seq::new(samples.len(), |i: int| samples[i].bits)
}

impl RingPair {
    /// The two halves of an empty ring.
    pub fn new(capacity: usize) -> (halves: (AudioProducer, AudioConsumer))
        requires
            capacity * 4 <= isize::MAX,
        ensures
            rings::ring_written(halves.0.0) == Seq::<u32>::empty(),
            rings::ring_room(halves.0.0) == capacity,
            rings::ring_read(halves.1.0) == Seq::<u32>::empty(),
            rings::ring_ready(halves.1.0) == 0,
            rings::joined(halves.0.0, halves.1.0),
            rings::written_in_order(halves.0.0),
            rings::read_in_order(halves.1.0),
    {
        let (producer, consumer) = sample_ring(capacity);
        (AudioProducer(producer), AudioConsumer(consumer))
    }
}

impl AudioProducer {
    /// Writes samples and drops those at the end that do not fit. The result is
    /// how many were written.
    pub fn push_slice(&mut self, samples: &Vec<Scalar>) -> (count: usize)
        ensures
            count <= samples@.len(),
            rings::ring_written(final(self).0) == rings::ring_written(old(self).0) + patterns(
                samples@.take(count as int),
            ),
            rings::ring_room(old(self).0) >= samples@.len() ==> count == samples@.len(),
            count < samples@.len() ==> count >= rings::ring_room(old(self).0),
            rings::writer_goes_on(old(self).0, final(self).0),
    {
        let available: usize = free_slots(&mut self.0);
        let wanted: usize = samples.len();
        let count: usize = if wanted < available {
            wanted
        } else {
            available
        };
        let ghost before = rings::ring_written(self.0);
        let mut at: usize = 0;
        assert(before + patterns(samples@.take(0)) =~= before);
        while at < count
            invariant
                at <= count <= samples@.len(),
                count <= available,
                rings::ring_room(self.0) == available - at,
                rings::ring_written(self.0) == before + patterns(samples@.take(at as int)),
                rings::writer_goes_on(old(self).0, self.0),
            decreases count - at,
        {
            push_sample(&mut self.0, samples[at].bits);
            assert((before + patterns(samples@.take(at as int))).push(samples@[at as int].bits)
                =~= before + patterns(samples@.take(at + 1)));
            at = at + 1;
        }
        count
    }
}

impl AudioConsumer {
    /// Reads as many samples as there are, at most as many as the buffer holds,
    /// and puts them at its start. The result is how many were read.
    pub fn read_into(&mut self, buffer: &mut Vec<Scalar>) -> (count: usize)
        ensures
            count <= old(buffer)@.len(),
            final(buffer)@.len() == old(buffer)@.len(),
            final(buffer)@.skip(count as int) == old(buffer)@.skip(count as int),
            rings::ring_read(final(self).0) == rings::ring_read(old(self).0) + patterns(
                final(buffer)@.take(count as int),
            ),
            count < old(buffer)@.len() ==> count >= rings::ring_ready(old(self).0),
            rings::reader_goes_on(old(self).0, final(self).0),
    {
        let available: usize = filled_slots(&mut self.0);
        let wanted: usize = buffer.len();
        let count: usize = if wanted < available {
            wanted
        } else {
            available
        };
        let ghost before = rings::ring_read(self.0);
        let mut at: usize = 0;
        assert(before + patterns(buffer@.take(0)) =~= before);
        while at < count
            invariant
                at <= count <= buffer@.len(),
                count <= available,
                buffer@.len() == old(buffer)@.len(),
                buffer@.skip(at as int) =~= old(buffer)@.skip(at as int),
                rings::ring_ready(self.0) == available - at,
                rings::ring_read(self.0) == before + patterns(buffer@.take(at as int)),
                rings::reader_goes_on(old(self).0, self.0),
            decreases count - at,
        {
            let ghost held = buffer@;
            if let Some(bits) = pop_sample(&mut self.0) {
                buffer.set(at, Scalar::from_bits(bits));
                assert((before + patterns(held.take(at as int))).push(bits) =~= before + patterns(
                    buffer@.take(at + 1),
                ));
                assert(buffer@.skip(at + 1) =~= held.skip(at as int).skip(1));
                assert(old(buffer)@.skip(at + 1) =~= old(buffer)@.skip(at as int).skip(1));
            }
            at = at + 1;
        }
        count
    }
}

/// A ring takes the pattern of each sample in its place, so two blocks with the
/// same patterns are the same block.
pub proof fn law_patterns_stand_for_their_samples(
    samples: Seq<Scalar>,
    others: Seq<Scalar>,
    at: int,
)
    requires
        0 <= at < samples.len(),
    ensures
        patterns(samples).len() == samples.len(),
        patterns(samples)[at] == samples[at].bits,
        patterns(samples) == patterns(others) ==> samples == others,
{
    if patterns(samples) == patterns(others) {
        assert(others.len() == patterns(others).len());
        assert forall|i: int| 0 <= i < samples.len() implies samples[i] == others[i] by {
            assert(patterns(samples)[i] == samples[i].bits);
            assert(patterns(others)[i] == others[i].bits);
        }
        assert(samples =~= others);
    }
}

} // verus!
