//! The rings between threads, on top of `rtrb`.
use vstd::prelude::*;

use crate::scalar::Scalar;

verus! {

/// The writing half of a ring.
#[verifier::external_type_specification]
#[verifier::external_body]
#[verifier::reject_recursive_types(T)]
pub struct ExProducer<T>(rtrb::Producer<T>);

/// The reading half of a ring.
#[verifier::external_type_specification]
#[verifier::external_body]
#[verifier::reject_recursive_types(T)]
pub struct ExConsumer<T>(rtrb::Consumer<T>);

/// The samples that went into a ring through its writing half, oldest first.
pub uninterp spec fn ring_written(producer: rtrb::Producer<u32>) -> Seq<u32>;

/// The slots that the writing half has seen to be free and not yet filled.
pub uninterp spec fn ring_room(producer: rtrb::Producer<u32>) -> nat;

/// The samples that came out of a ring through its reading half, oldest first.
pub uninterp spec fn ring_read(consumer: rtrb::Consumer<u32>) -> Seq<u32>;

/// The samples that the reading half has seen to be there and not yet taken.
pub uninterp spec fn ring_ready(consumer: rtrb::Consumer<u32>) -> nat;

/// All the samples that go through a ring while it lives, oldest first, as its
/// writing half has it.
pub uninterp spec fn ring_life_in(producer: rtrb::Producer<u32>) -> Seq<u32>;

/// All the samples that go through a ring while it lives, oldest first, as its
/// reading half has it.
pub uninterp spec fn ring_life_out(consumer: rtrb::Consumer<u32>) -> Seq<u32>;

/// Whether two halves are the ends of one ring.
pub open spec fn joined(producer: rtrb::Producer<u32>, consumer: rtrb::Consumer<u32>) -> bool {
    ring_life_in(producer) == ring_life_out(consumer)
}

/// Whether what was written is the beginning of all that goes through the ring.
pub open spec fn written_in_order(producer: rtrb::Producer<u32>) -> bool {
    ring_written(producer).is_prefix_of(ring_life_in(producer))
}

/// Whether what was read is the beginning of all that goes through the ring.
pub open spec fn read_in_order(consumer: rtrb::Consumer<u32>) -> bool {
    ring_read(consumer).is_prefix_of(ring_life_out(consumer))
}

/// Whether a writing half is still the end of the same ring, and still writes
/// in order.
pub open spec fn writer_goes_on(
    before: rtrb::Producer<u32>,
    after: rtrb::Producer<u32>,
) -> bool {
    &&& ring_life_in(after) == ring_life_in(before)
    &&& written_in_order(before) ==> written_in_order(after)
}

/// Whether a reading half is still the end of the same ring, and still reads in
/// order.
pub open spec fn reader_goes_on(
    before: rtrb::Consumer<u32>,
    after: rtrb::Consumer<u32>,
) -> bool {
    &&& ring_life_out(after) == ring_life_out(before)
    &&& read_in_order(before) ==> read_in_order(after)
}

/// What comes out of a ring is what went in, in order: the sample at every place
/// that was both written and read is the same.
pub proof fn law_a_ring_gives_back_what_was_written(
    producer: rtrb::Producer<u32>,
    consumer: rtrb::Consumer<u32>,
    at: int,
)
    requires
        joined(producer, consumer),
        written_in_order(producer),
        read_in_order(consumer),
        0 <= at < ring_written(producer).len(),
        at < ring_read(consumer).len(),
    ensures
        ring_read(consumer)[at] == ring_written(producer)[at],
{
    assert(ring_written(producer)[at] == ring_life_in(producer)[at]);
    assert(ring_read(consumer)[at] == ring_life_out(consumer)[at]);
}

/// Calls `rtrb::RingBuffer::new` for samples: an empty ring with as many free
/// slots as it was asked for, and its two ends. One half alone writes and one
/// alone reads, and the ring keeps the order, so one sequence goes through both.
/// The slots of four bytes have to fit in memory.
#[verifier::external_body]
pub(crate) fn sample_ring(capacity: usize) -> (halves: (
    rtrb::Producer<u32>,
    rtrb::Consumer<u32>,
))
    requires
        capacity * 4 <= isize::MAX,
    ensures
        ring_written(halves.0) == Seq::<u32>::empty(),
        ring_room(halves.0) == capacity,
        ring_read(halves.1) == Seq::<u32>::empty(),
        ring_ready(halves.1) == 0,
        joined(halves.0, halves.1),
{
    rtrb::RingBuffer::new(capacity)
}

/// Calls `rtrb::Producer::slots` for samples: the slots that are free. Only the
/// writing half fills slots, so at least that many stay free until it does.
#[verifier::external_body]
pub(crate) fn free_slots(producer: &mut rtrb::Producer<u32>) -> (count: usize)
    ensures
        ring_room(*final(producer)) == count,
        count >= ring_room(*old(producer)),
        ring_written(*final(producer)) == ring_written(*old(producer)),
        ring_life_in(*final(producer)) == ring_life_in(*old(producer)),
{
    producer.slots()
}

/// Calls `rtrb::Producer::push` for samples. It fails where no slot is free,
/// which cannot be where one was seen to be free; a sample goes in behind the
/// others, or nothing does. What went in is the beginning of all that goes
/// through the ring.
#[verifier::external_body]
pub(crate) fn push_sample(producer: &mut rtrb::Producer<u32>, sample: u32) -> (pushed: bool)
    ensures
        ring_room(*old(producer)) > 0 ==> pushed && ring_room(*final(producer)) == ring_room(
            *old(producer),
        ) - 1,
        ring_written(*final(producer)) == (if pushed {
            ring_written(*old(producer)).push(sample)
        } else {
            ring_written(*old(producer))
        }),
        ring_life_in(*final(producer)) == ring_life_in(*old(producer)),
        pushed ==> written_in_order(*final(producer)),
{
    producer.push(sample).is_ok()
}

/// Calls `rtrb::Consumer::slots` for samples: the samples that are there. Only
/// the reading half takes samples, so at least that many stay until it does.
#[verifier::external_body]
pub(crate) fn filled_slots(consumer: &mut rtrb::Consumer<u32>) -> (count: usize)
    ensures
        ring_ready(*final(consumer)) == count,
        count >= ring_ready(*old(consumer)),
        ring_read(*final(consumer)) == ring_read(*old(consumer)),
        ring_life_out(*final(consumer)) == ring_life_out(*old(consumer)),
{
    consumer.slots()
}

/// Calls `rtrb::Consumer::pop` for samples. It fails where none is there, which
/// cannot be where one was seen; the oldest comes out, or nothing does. What came
/// out is the beginning of all that goes through the ring.
#[verifier::external_body]
pub(crate) fn pop_sample(consumer: &mut rtrb::Consumer<u32>) -> (sample: Option<u32>)
    ensures
        ring_ready(*old(consumer)) > 0 ==> sample is Some && ring_ready(*final(consumer))
            == ring_ready(*old(consumer)) - 1,
        ring_read(*final(consumer)) == (match sample {
            Some(sample) => ring_read(*old(consumer)).push(sample),
            None => ring_read(*old(consumer)),
        }),
        ring_life_out(*final(consumer)) == ring_life_out(*old(consumer)),
        sample is Some ==> read_in_order(*final(consumer)),
{
    consumer.pop().ok()
}

/// Writes a whole frame where all of it fits, otherwise nothing.
pub fn write_frame(producer: &mut rtrb::Producer<u32>, frame: &Vec<u32>) -> (written: bool)
    ensures
        ring_room(*old(producer)) >= frame@.len() ==> written,
        ring_written(*final(producer)) == (if written {
            ring_written(*old(producer)) + frame@
        } else {
            ring_written(*old(producer))
        }),
        writer_goes_on(*old(producer), *final(producer)),
{
    let width: usize = frame.len();
    if free_slots(producer) < width {
        return false;
    }
    let ghost before = ring_written(*producer);
    let ghost room = ring_room(*producer);
    let mut at: usize = 0;
    assert(before + frame@.take(0) =~= before);
    while at < width
        invariant
            at <= width == frame@.len(),
            room >= width,
            ring_room(*producer) == room - at,
            ring_written(*producer) == before + frame@.take(at as int),
            writer_goes_on(*old(producer), *producer),
        decreases width - at,
    {
        push_sample(producer, frame[at]);
        assert(before + frame@.take(at as int).push(frame@[at as int]) =~= before + frame@.take(
            at + 1,
        ));
        assert((before + frame@.take(at as int)).push(frame@[at as int]) =~= before + frame@.take(
            at + 1,
        ));
        at = at + 1;
    }
    assert(frame@.take(width as int) =~= frame@);
    true
}

/// The patterns of the samples that came for the channels of a frame.
pub open spec fn came(pulled: Seq<Option<Scalar>>) -> Seq<u32>
    decreases pulled.len(),
{
    if pulled.len() == 0 {
        Seq::empty()
    } else {
        match pulled.last() {
            Some(sample) => came(pulled.drop_last()).push(sample.bits),
            None => came(pulled.drop_last()),
        }
    }
}

/// Asks for one sample for each channel of a frame. What `frame` held before is
/// dropped; its memory is used again.
pub fn read_frame(
    consumer: &mut rtrb::Consumer<u32>,
    channels: usize,
    frame: &mut Vec<Option<Scalar>>,
)
    ensures
        final(frame)@.len() == channels,
        ring_read(*final(consumer)) == ring_read(*old(consumer)) + came(final(frame)@),
        forall|i: int|
            0 <= i < channels && i < ring_ready(*old(consumer)) ==> (#[trigger] final(frame)@[i])
                is Some,
        ring_ready(*old(consumer)) >= channels ==> ring_ready(*final(consumer)) == ring_ready(
            *old(consumer),
        ) - channels,
        reader_goes_on(*old(consumer), *final(consumer)),
{
    frame.clear();
    assert(ring_read(*consumer) + came(frame@) =~= ring_read(*consumer));
    let mut at: usize = 0;
    while at < channels
        invariant
            at <= channels,
            frame@.len() == at,
            ring_read(*consumer) == ring_read(*old(consumer)) + came(frame@),
            ring_ready(*old(consumer)) >= at ==> ring_ready(*consumer) == ring_ready(*old(consumer))
                - at,
            forall|i: int|
                0 <= i < at && i < ring_ready(*old(consumer)) ==> #[trigger] frame@[i] is Some,
            reader_goes_on(*old(consumer), *consumer),
        decreases channels - at,
    {
        let ghost before = frame@;
        let sample = match pop_sample(consumer) {
            Some(bits) => Some(Scalar::from_bits(bits)),
            None => None,
        };
        frame.push(sample);
        assert(frame@.drop_last() =~= before);
        assert(ring_read(*consumer) =~= ring_read(*old(consumer)) + came(frame@));
        at = at + 1;
    }
}

/// How many whole frames are there to be read.
pub fn frames_ready(consumer: &mut rtrb::Consumer<u32>, channels: usize) -> (frames: usize)
    requires
        channels > 0,
    ensures
        ring_ready(*final(consumer)) >= frames * channels,
        ring_ready(*final(consumer)) < (frames + 1) * channels,
        ring_read(*final(consumer)) == ring_read(*old(consumer)),
        reader_goes_on(*old(consumer), *final(consumer)),
{
    let count: usize = filled_slots(consumer);
    let frames: usize = count / channels;
    assert(frames * channels <= count < (frames + 1) * channels) by (nonlinear_arith)
        requires
            frames == count as int / channels as int,
            channels > 0,
    ;
    frames
}

/// Where every sample of a frame came, what came is the frame, channel by channel.
pub proof fn law_what_came_is_in_order(pulled: Seq<Option<Scalar>>)
    requires
        forall|i: int| 0 <= i < pulled.len() ==> (#[trigger] pulled[i]) is Some,
    ensures
        came(pulled).len() == pulled.len(),
        forall|i: int| 0 <= i < pulled.len() ==> (#[trigger] came(pulled)[i]) == pulled[i]->0.bits,
    decreases pulled.len(),
{
    if pulled.len() > 0 {
        let rest = pulled.drop_last();
        assert forall|i: int| 0 <= i < rest.len() implies (#[trigger] rest[i]) is Some by {
            assert(rest[i] == pulled[i]);
        }
        law_what_came_is_in_order(rest);
        assert(pulled.last() == pulled[pulled.len() - 1]);
        assert(came(pulled) == came(rest).push(pulled.last()->0.bits));
    }
}

/// A half that goes on is an end of the same ring, and stays in order.
pub proof fn law_a_half_stays_at_its_ring(
    producer: rtrb::Producer<u32>,
    written: rtrb::Producer<u32>,
    consumer: rtrb::Consumer<u32>,
    read: rtrb::Consumer<u32>,
    at: int,
)
    requires
        joined(producer, consumer),
        written_in_order(producer),
        read_in_order(consumer),
        writer_goes_on(producer, written),
        reader_goes_on(consumer, read),
        0 <= at < ring_written(written).len(),
        at < ring_read(read).len(),
    ensures
        ring_life_in(written) == ring_life_out(read),
        ring_read(read)[at] == ring_written(written)[at],
{
    law_a_ring_gives_back_what_was_written(written, read, at);
}

} // verus!
