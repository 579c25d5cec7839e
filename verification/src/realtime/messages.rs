//! The rings that carry halves of routes to a callback and back again.
//!
//! The thread behind a callback writes deliveries into its inbox; the callback
//! writes halves that went out of use into its outbox, so that they are let go
//! on the other thread. What a ring carries is spoken of over its whole life, so
//! what one thread takes out is what the other sent.
use vstd::prelude::*;

use super::engine::{DrawHalf, FeedHalf};
use super::roster::{Delivery, Retired, Roster};
use super::roster;

verus! {

/// The deliveries that went into the inbox of a source, oldest first.
pub uninterp spec fn feeds_sent(writer: rtrb::Producer<Delivery<FeedHalf>>) -> Seq<
    Delivery<FeedHalf>,
>;

/// The slots of the inbox of a source that its writing half has seen to be free
/// and not yet filled.
pub uninterp spec fn feeds_room(writer: rtrb::Producer<Delivery<FeedHalf>>) -> nat;

/// The deliveries that came out of the inbox of a source, oldest first.
pub uninterp spec fn feeds_taken(reader: rtrb::Consumer<Delivery<FeedHalf>>) -> Seq<
    Delivery<FeedHalf>,
>;

/// The deliveries that the reading half of the inbox of a source has seen to be
/// there and not yet taken.
pub uninterp spec fn feeds_ready(reader: rtrb::Consumer<Delivery<FeedHalf>>) -> nat;

/// All that goes through the inbox of a source while it lives, oldest first, as
/// its writing half has it.
pub uninterp spec fn feeds_life_in(writer: rtrb::Producer<Delivery<FeedHalf>>) -> Seq<
    Delivery<FeedHalf>,
>;

/// All that goes through the inbox of a source while it lives, oldest first, as
/// its reading half has it.
pub uninterp spec fn feeds_life_out(reader: rtrb::Consumer<Delivery<FeedHalf>>) -> Seq<
    Delivery<FeedHalf>,
>;

/// Whether two halves are the ends of the inbox of a source.
pub open spec fn feeds_joined(
    writer: rtrb::Producer<Delivery<FeedHalf>>,
    reader: rtrb::Consumer<Delivery<FeedHalf>>,
) -> bool {
    feeds_life_in(writer) == feeds_life_out(reader)
}

/// Whether what was sent is the beginning of all that goes through the inbox of
/// a source.
pub open spec fn feeds_sent_in_order(writer: rtrb::Producer<Delivery<FeedHalf>>) -> bool {
    feeds_sent(writer).is_prefix_of(feeds_life_in(writer))
}

/// Whether what was taken out is the beginning of all that goes through the
/// inbox of a source.
pub open spec fn feeds_taken_in_order(reader: rtrb::Consumer<Delivery<FeedHalf>>) -> bool {
    feeds_taken(reader).is_prefix_of(feeds_life_out(reader))
}

/// Whether a writing half is still the end of the same ring, and still sends in
/// order.
pub open spec fn feeds_writer_goes_on(
    before: rtrb::Producer<Delivery<FeedHalf>>,
    after: rtrb::Producer<Delivery<FeedHalf>>,
) -> bool {
    &&& feeds_life_in(after) == feeds_life_in(before)
    &&& feeds_sent_in_order(before) ==> feeds_sent_in_order(after)
}

/// Whether a reading half is still the end of the same ring, and still takes
/// out in order.
pub open spec fn feeds_reader_goes_on(
    before: rtrb::Consumer<Delivery<FeedHalf>>,
    after: rtrb::Consumer<Delivery<FeedHalf>>,
) -> bool {
    &&& feeds_life_out(after) == feeds_life_out(before)
    &&& feeds_taken_in_order(before) ==> feeds_taken_in_order(after)
}

/// What a source takes out of its inbox is what was sent, in order: the whole
/// half of a route, with its ring, and not only its name.
pub proof fn law_feeds_arrive_as_they_were_sent(
    writer: rtrb::Producer<Delivery<FeedHalf>>,
    reader: rtrb::Consumer<Delivery<FeedHalf>>,
    at: int,
)
    requires
        feeds_joined(writer, reader),
        feeds_sent_in_order(writer),
        feeds_taken_in_order(reader),
        0 <= at < feeds_sent(writer).len(),
        at < feeds_taken(reader).len(),
    ensures
        feeds_taken(reader)[at] == feeds_sent(writer)[at],
{
    assert(feeds_sent(writer)[at] == feeds_life_in(writer)[at]);
    assert(feeds_taken(reader)[at] == feeds_life_out(reader)[at]);
}

/// Calls `rtrb::RingBuffer::new` for the inbox of a source: an empty ring with
/// as many free slots as it was asked for, and its two ends. One half alone
/// writes and one alone reads, and the ring keeps the order, so one sequence
/// goes through both.
#[verifier::external_body]
pub(crate) fn feed_ring(capacity: usize) -> (halves: (
    rtrb::Producer<Delivery<FeedHalf>>,
    rtrb::Consumer<Delivery<FeedHalf>>,
))
    requires
        capacity <= 64,
    ensures
        feeds_sent(halves.0) == Seq::<Delivery<FeedHalf>>::empty(),
        feeds_room(halves.0) == capacity,
        feeds_taken(halves.1) == Seq::<Delivery<FeedHalf>>::empty(),
        feeds_ready(halves.1) == 0,
        feeds_joined(halves.0, halves.1),
{
    rtrb::RingBuffer::new(capacity)
}

/// Calls `rtrb::Producer::push` for the inbox of a source. What is written goes
/// in behind the others. It comes back where no slot is free, which cannot be
/// where one was seen to be free. What went in is the beginning of all that
/// goes through the ring.
#[verifier::external_body]
pub(crate) fn push_feed(
    writer: &mut rtrb::Producer<Delivery<FeedHalf>>,
    message: Delivery<FeedHalf>,
) -> (result: Result<(), Delivery<FeedHalf>>)
    ensures
        match result {
            Ok(()) => {
                &&& feeds_sent(*final(writer)) == feeds_sent(*old(writer)).push(message)
                &&& feeds_sent_in_order(*final(writer))
            },
            Err(back) => {
                &&& back == message
                &&& feeds_sent(*final(writer)) == feeds_sent(*old(writer))
                &&& feeds_room(*old(writer)) == 0
            },
        },
        feeds_room(*old(writer)) > 0 ==> feeds_room(*final(writer)) == feeds_room(
            *old(writer),
        ) - 1,
        feeds_life_in(*final(writer)) == feeds_life_in(*old(writer)),
{
    match writer.push(message) {
        Ok(()) => Ok(()),
        Err(rtrb::PushError::Full(back)) => Err(back),
    }
}

/// Calls `rtrb::Consumer::pop` for the inbox of a source. It fails where
/// nothing is there, which it has then seen, and which cannot be where
/// something was seen before; the oldest comes out, or nothing does. What came
/// out is the beginning of all that goes through the ring.
#[verifier::external_body]
pub(crate) fn pop_feed(
    reader: &mut rtrb::Consumer<Delivery<FeedHalf>>,
) -> (result: Option<Delivery<FeedHalf>>)
    ensures
        match result {
            Some(message) => {
                &&& feeds_taken(*final(reader)) == feeds_taken(*old(reader)).push(message)
                &&& feeds_taken_in_order(*final(reader))
            },
            None => {
                &&& feeds_taken(*final(reader)) == feeds_taken(*old(reader))
                &&& feeds_ready(*final(reader)) == 0
            },
        },
        feeds_ready(*old(reader)) > 0 ==> result is Some && feeds_ready(*final(reader))
            == feeds_ready(*old(reader)) - 1,
        feeds_life_out(*final(reader)) == feeds_life_out(*old(reader)),
{
    reader.pop().ok()
}

/// The deliveries that went into the inbox of a bus, oldest first.
pub uninterp spec fn draws_sent(writer: rtrb::Producer<Delivery<DrawHalf>>) -> Seq<
    Delivery<DrawHalf>,
>;

/// The slots of the inbox of a bus that its writing half has seen to be free
/// and not yet filled.
pub uninterp spec fn draws_room(writer: rtrb::Producer<Delivery<DrawHalf>>) -> nat;

/// The deliveries that came out of the inbox of a bus, oldest first.
pub uninterp spec fn draws_taken(reader: rtrb::Consumer<Delivery<DrawHalf>>) -> Seq<
    Delivery<DrawHalf>,
>;

/// The deliveries that the reading half of the inbox of a bus has seen to be
/// there and not yet taken.
pub uninterp spec fn draws_ready(reader: rtrb::Consumer<Delivery<DrawHalf>>) -> nat;

/// All that goes through the inbox of a bus while it lives, oldest first, as
/// its writing half has it.
pub uninterp spec fn draws_life_in(writer: rtrb::Producer<Delivery<DrawHalf>>) -> Seq<
    Delivery<DrawHalf>,
>;

/// All that goes through the inbox of a bus while it lives, oldest first, as
/// its reading half has it.
pub uninterp spec fn draws_life_out(reader: rtrb::Consumer<Delivery<DrawHalf>>) -> Seq<
    Delivery<DrawHalf>,
>;

/// Whether two halves are the ends of the inbox of a bus.
pub open spec fn draws_joined(
    writer: rtrb::Producer<Delivery<DrawHalf>>,
    reader: rtrb::Consumer<Delivery<DrawHalf>>,
) -> bool {
    draws_life_in(writer) == draws_life_out(reader)
}

/// Whether what was sent is the beginning of all that goes through the inbox of
/// a bus.
pub open spec fn draws_sent_in_order(writer: rtrb::Producer<Delivery<DrawHalf>>) -> bool {
    draws_sent(writer).is_prefix_of(draws_life_in(writer))
}

/// Whether what was taken out is the beginning of all that goes through the
/// inbox of a bus.
pub open spec fn draws_taken_in_order(reader: rtrb::Consumer<Delivery<DrawHalf>>) -> bool {
    draws_taken(reader).is_prefix_of(draws_life_out(reader))
}

/// Whether a writing half is still the end of the same ring, and still sends in
/// order.
pub open spec fn draws_writer_goes_on(
    before: rtrb::Producer<Delivery<DrawHalf>>,
    after: rtrb::Producer<Delivery<DrawHalf>>,
) -> bool {
    &&& draws_life_in(after) == draws_life_in(before)
    &&& draws_sent_in_order(before) ==> draws_sent_in_order(after)
}

/// Whether a reading half is still the end of the same ring, and still takes
/// out in order.
pub open spec fn draws_reader_goes_on(
    before: rtrb::Consumer<Delivery<DrawHalf>>,
    after: rtrb::Consumer<Delivery<DrawHalf>>,
) -> bool {
    &&& draws_life_out(after) == draws_life_out(before)
    &&& draws_taken_in_order(before) ==> draws_taken_in_order(after)
}

/// What a bus takes out of its inbox is what was sent, in order.
pub proof fn law_draws_arrive_as_they_were_sent(
    writer: rtrb::Producer<Delivery<DrawHalf>>,
    reader: rtrb::Consumer<Delivery<DrawHalf>>,
    at: int,
)
    requires
        draws_joined(writer, reader),
        draws_sent_in_order(writer),
        draws_taken_in_order(reader),
        0 <= at < draws_sent(writer).len(),
        at < draws_taken(reader).len(),
    ensures
        draws_taken(reader)[at] == draws_sent(writer)[at],
{
    assert(draws_sent(writer)[at] == draws_life_in(writer)[at]);
    assert(draws_taken(reader)[at] == draws_life_out(reader)[at]);
}

/// Calls `rtrb::RingBuffer::new` for the inbox of a bus: an empty ring with as
/// many free slots as it was asked for, and its two ends. One half alone writes
/// and one alone reads, and the ring keeps the order, so one sequence goes
/// through both.
#[verifier::external_body]
pub(crate) fn draw_ring(capacity: usize) -> (halves: (
    rtrb::Producer<Delivery<DrawHalf>>,
    rtrb::Consumer<Delivery<DrawHalf>>,
))
    requires
        capacity <= 64,
    ensures
        draws_sent(halves.0) == Seq::<Delivery<DrawHalf>>::empty(),
        draws_room(halves.0) == capacity,
        draws_taken(halves.1) == Seq::<Delivery<DrawHalf>>::empty(),
        draws_ready(halves.1) == 0,
        draws_joined(halves.0, halves.1),
{
    rtrb::RingBuffer::new(capacity)
}

/// Calls `rtrb::Producer::push` for the inbox of a bus. What is written goes in
/// behind the others. It comes back where no slot is free, which cannot be
/// where one was seen to be free. What went in is the beginning of all that
/// goes through the ring.
#[verifier::external_body]
pub(crate) fn push_draw(
    writer: &mut rtrb::Producer<Delivery<DrawHalf>>,
    message: Delivery<DrawHalf>,
) -> (result: Result<(), Delivery<DrawHalf>>)
    ensures
        match result {
            Ok(()) => {
                &&& draws_sent(*final(writer)) == draws_sent(*old(writer)).push(message)
                &&& draws_sent_in_order(*final(writer))
            },
            Err(back) => {
                &&& back == message
                &&& draws_sent(*final(writer)) == draws_sent(*old(writer))
                &&& draws_room(*old(writer)) == 0
            },
        },
        draws_room(*old(writer)) > 0 ==> draws_room(*final(writer)) == draws_room(
            *old(writer),
        ) - 1,
        draws_life_in(*final(writer)) == draws_life_in(*old(writer)),
{
    match writer.push(message) {
        Ok(()) => Ok(()),
        Err(rtrb::PushError::Full(back)) => Err(back),
    }
}

/// Calls `rtrb::Consumer::pop` for the inbox of a bus. It fails where nothing
/// is there, which it has then seen, and which cannot be where something was
/// seen before; the oldest comes out, or nothing does. What came out is the
/// beginning of all that goes through the ring.
#[verifier::external_body]
pub(crate) fn pop_draw(
    reader: &mut rtrb::Consumer<Delivery<DrawHalf>>,
) -> (result: Option<Delivery<DrawHalf>>)
    ensures
        match result {
            Some(message) => {
                &&& draws_taken(*final(reader)) == draws_taken(*old(reader)).push(message)
                &&& draws_taken_in_order(*final(reader))
            },
            None => {
                &&& draws_taken(*final(reader)) == draws_taken(*old(reader))
                &&& draws_ready(*final(reader)) == 0
            },
        },
        draws_ready(*old(reader)) > 0 ==> result is Some && draws_ready(*final(reader))
            == draws_ready(*old(reader)) - 1,
        draws_life_out(*final(reader)) == draws_life_out(*old(reader)),
{
    reader.pop().ok()
}

/// The halves that went into the outbox of a source, oldest first.
pub uninterp spec fn old_feeds_sent(writer: rtrb::Producer<Retired<FeedHalf>>) -> Seq<
    Retired<FeedHalf>,
>;

/// The slots of the outbox of a source that its writing half has seen to be
/// free and not yet filled.
pub uninterp spec fn old_feeds_room(writer: rtrb::Producer<Retired<FeedHalf>>) -> nat;

/// The halves that came out of the outbox of a source, oldest first.
pub uninterp spec fn old_feeds_taken(reader: rtrb::Consumer<Retired<FeedHalf>>) -> Seq<
    Retired<FeedHalf>,
>;

/// The halves that the reading half of the outbox of a source has seen to be
/// there and not yet taken.
pub uninterp spec fn old_feeds_ready(reader: rtrb::Consumer<Retired<FeedHalf>>) -> nat;

/// All that goes through the outbox of a source while it lives, oldest first,
/// as its writing half has it.
pub uninterp spec fn old_feeds_life_in(writer: rtrb::Producer<Retired<FeedHalf>>) -> Seq<
    Retired<FeedHalf>,
>;

/// All that goes through the outbox of a source while it lives, oldest first,
/// as its reading half has it.
pub uninterp spec fn old_feeds_life_out(reader: rtrb::Consumer<Retired<FeedHalf>>) -> Seq<
    Retired<FeedHalf>,
>;

/// Whether two halves are the ends of the outbox of a source.
pub open spec fn old_feeds_joined(
    writer: rtrb::Producer<Retired<FeedHalf>>,
    reader: rtrb::Consumer<Retired<FeedHalf>>,
) -> bool {
    old_feeds_life_in(writer) == old_feeds_life_out(reader)
}

/// Whether what was sent is the beginning of all that goes through the outbox
/// of a source.
pub open spec fn old_feeds_sent_in_order(writer: rtrb::Producer<Retired<FeedHalf>>) -> bool {
    old_feeds_sent(writer).is_prefix_of(old_feeds_life_in(writer))
}

/// Whether what was taken out is the beginning of all that goes through the
/// outbox of a source.
pub open spec fn old_feeds_taken_in_order(reader: rtrb::Consumer<Retired<FeedHalf>>) -> bool {
    old_feeds_taken(reader).is_prefix_of(old_feeds_life_out(reader))
}

/// Whether a writing half is still the end of the same ring, and still sends in
/// order.
pub open spec fn old_feeds_writer_goes_on(
    before: rtrb::Producer<Retired<FeedHalf>>,
    after: rtrb::Producer<Retired<FeedHalf>>,
) -> bool {
    &&& old_feeds_life_in(after) == old_feeds_life_in(before)
    &&& old_feeds_sent_in_order(before) ==> old_feeds_sent_in_order(after)
}

/// Whether a reading half is still the end of the same ring, and still takes
/// out in order.
pub open spec fn old_feeds_reader_goes_on(
    before: rtrb::Consumer<Retired<FeedHalf>>,
    after: rtrb::Consumer<Retired<FeedHalf>>,
) -> bool {
    &&& old_feeds_life_out(after) == old_feeds_life_out(before)
    &&& old_feeds_taken_in_order(before) ==> old_feeds_taken_in_order(after)
}

/// What comes back from a source is what it sent back, in order.
pub proof fn law_old_feeds_arrive_as_they_were_sent(
    writer: rtrb::Producer<Retired<FeedHalf>>,
    reader: rtrb::Consumer<Retired<FeedHalf>>,
    at: int,
)
    requires
        old_feeds_joined(writer, reader),
        old_feeds_sent_in_order(writer),
        old_feeds_taken_in_order(reader),
        0 <= at < old_feeds_sent(writer).len(),
        at < old_feeds_taken(reader).len(),
    ensures
        old_feeds_taken(reader)[at] == old_feeds_sent(writer)[at],
{
    assert(old_feeds_sent(writer)[at] == old_feeds_life_in(writer)[at]);
    assert(old_feeds_taken(reader)[at] == old_feeds_life_out(reader)[at]);
}

/// Calls `rtrb::RingBuffer::new` for the outbox of a source: an empty ring with
/// as many free slots as it was asked for, and its two ends. One half alone
/// writes and one alone reads, and the ring keeps the order, so one sequence
/// goes through both.
#[verifier::external_body]
pub(crate) fn old_feed_ring(capacity: usize) -> (halves: (
    rtrb::Producer<Retired<FeedHalf>>,
    rtrb::Consumer<Retired<FeedHalf>>,
))
    requires
        capacity <= 64,
    ensures
        old_feeds_sent(halves.0) == Seq::<Retired<FeedHalf>>::empty(),
        old_feeds_room(halves.0) == capacity,
        old_feeds_taken(halves.1) == Seq::<Retired<FeedHalf>>::empty(),
        old_feeds_ready(halves.1) == 0,
        old_feeds_joined(halves.0, halves.1),
{
    rtrb::RingBuffer::new(capacity)
}

/// Calls `rtrb::Producer::push` for the outbox of a source. What is written
/// goes in behind the others. It comes back where no slot is free, which cannot
/// be where one was seen to be free. What went in is the beginning of all that
/// goes through the ring.
#[verifier::external_body]
pub(crate) fn push_old_feed(
    writer: &mut rtrb::Producer<Retired<FeedHalf>>,
    message: Retired<FeedHalf>,
) -> (result: Result<(), Retired<FeedHalf>>)
    ensures
        match result {
            Ok(()) => {
                &&& old_feeds_sent(*final(writer)) == old_feeds_sent(*old(writer)).push(message)
                &&& old_feeds_sent_in_order(*final(writer))
            },
            Err(back) => {
                &&& back == message
                &&& old_feeds_sent(*final(writer)) == old_feeds_sent(*old(writer))
                &&& old_feeds_room(*old(writer)) == 0
            },
        },
        old_feeds_room(*old(writer)) > 0 ==> old_feeds_room(*final(writer)) == old_feeds_room(
            *old(writer),
        ) - 1,
        old_feeds_life_in(*final(writer)) == old_feeds_life_in(*old(writer)),
{
    match writer.push(message) {
        Ok(()) => Ok(()),
        Err(rtrb::PushError::Full(back)) => Err(back),
    }
}

/// Calls `rtrb::Consumer::pop` for the outbox of a source. It fails where
/// nothing is there, which it has then seen, and which cannot be where
/// something was seen before; the oldest comes out, or nothing does. What came
/// out is the beginning of all that goes through the ring.
#[verifier::external_body]
pub(crate) fn pop_old_feed(
    reader: &mut rtrb::Consumer<Retired<FeedHalf>>,
) -> (result: Option<Retired<FeedHalf>>)
    ensures
        match result {
            Some(message) => {
                &&& old_feeds_taken(*final(reader)) == old_feeds_taken(*old(reader)).push(message)
                &&& old_feeds_taken_in_order(*final(reader))
            },
            None => {
                &&& old_feeds_taken(*final(reader)) == old_feeds_taken(*old(reader))
                &&& old_feeds_ready(*final(reader)) == 0
            },
        },
        old_feeds_ready(*old(reader)) > 0 ==> result is Some && old_feeds_ready(*final(reader))
            == old_feeds_ready(*old(reader)) - 1,
        old_feeds_life_out(*final(reader)) == old_feeds_life_out(*old(reader)),
{
    reader.pop().ok()
}

/// The halves that went into the outbox of a bus, oldest first.
pub uninterp spec fn old_draws_sent(writer: rtrb::Producer<Retired<DrawHalf>>) -> Seq<
    Retired<DrawHalf>,
>;

/// The slots of the outbox of a bus that its writing half has seen to be free
/// and not yet filled.
pub uninterp spec fn old_draws_room(writer: rtrb::Producer<Retired<DrawHalf>>) -> nat;

/// The halves that came out of the outbox of a bus, oldest first.
pub uninterp spec fn old_draws_taken(reader: rtrb::Consumer<Retired<DrawHalf>>) -> Seq<
    Retired<DrawHalf>,
>;

/// The halves that the reading half of the outbox of a bus has seen to be there
/// and not yet taken.
pub uninterp spec fn old_draws_ready(reader: rtrb::Consumer<Retired<DrawHalf>>) -> nat;

/// All that goes through the outbox of a bus while it lives, oldest first, as
/// its writing half has it.
pub uninterp spec fn old_draws_life_in(writer: rtrb::Producer<Retired<DrawHalf>>) -> Seq<
    Retired<DrawHalf>,
>;

/// All that goes through the outbox of a bus while it lives, oldest first, as
/// its reading half has it.
pub uninterp spec fn old_draws_life_out(reader: rtrb::Consumer<Retired<DrawHalf>>) -> Seq<
    Retired<DrawHalf>,
>;

/// Whether two halves are the ends of the outbox of a bus.
pub open spec fn old_draws_joined(
    writer: rtrb::Producer<Retired<DrawHalf>>,
    reader: rtrb::Consumer<Retired<DrawHalf>>,
) -> bool {
    old_draws_life_in(writer) == old_draws_life_out(reader)
}

/// Whether what was sent is the beginning of all that goes through the outbox
/// of a bus.
pub open spec fn old_draws_sent_in_order(writer: rtrb::Producer<Retired<DrawHalf>>) -> bool {
    old_draws_sent(writer).is_prefix_of(old_draws_life_in(writer))
}

/// Whether what was taken out is the beginning of all that goes through the
/// outbox of a bus.
pub open spec fn old_draws_taken_in_order(reader: rtrb::Consumer<Retired<DrawHalf>>) -> bool {
    old_draws_taken(reader).is_prefix_of(old_draws_life_out(reader))
}

/// Whether a writing half is still the end of the same ring, and still sends in
/// order.
pub open spec fn old_draws_writer_goes_on(
    before: rtrb::Producer<Retired<DrawHalf>>,
    after: rtrb::Producer<Retired<DrawHalf>>,
) -> bool {
    &&& old_draws_life_in(after) == old_draws_life_in(before)
    &&& old_draws_sent_in_order(before) ==> old_draws_sent_in_order(after)
}

/// Whether a reading half is still the end of the same ring, and still takes
/// out in order.
pub open spec fn old_draws_reader_goes_on(
    before: rtrb::Consumer<Retired<DrawHalf>>,
    after: rtrb::Consumer<Retired<DrawHalf>>,
) -> bool {
    &&& old_draws_life_out(after) == old_draws_life_out(before)
    &&& old_draws_taken_in_order(before) ==> old_draws_taken_in_order(after)
}

/// What comes back from a bus is what it sent back, in order.
pub proof fn law_old_draws_arrive_as_they_were_sent(
    writer: rtrb::Producer<Retired<DrawHalf>>,
    reader: rtrb::Consumer<Retired<DrawHalf>>,
    at: int,
)
    requires
        old_draws_joined(writer, reader),
        old_draws_sent_in_order(writer),
        old_draws_taken_in_order(reader),
        0 <= at < old_draws_sent(writer).len(),
        at < old_draws_taken(reader).len(),
    ensures
        old_draws_taken(reader)[at] == old_draws_sent(writer)[at],
{
    assert(old_draws_sent(writer)[at] == old_draws_life_in(writer)[at]);
    assert(old_draws_taken(reader)[at] == old_draws_life_out(reader)[at]);
}

/// Calls `rtrb::RingBuffer::new` for the outbox of a bus: an empty ring with as
/// many free slots as it was asked for, and its two ends. One half alone writes
/// and one alone reads, and the ring keeps the order, so one sequence goes
/// through both.
#[verifier::external_body]
pub(crate) fn old_draw_ring(capacity: usize) -> (halves: (
    rtrb::Producer<Retired<DrawHalf>>,
    rtrb::Consumer<Retired<DrawHalf>>,
))
    requires
        capacity <= 64,
    ensures
        old_draws_sent(halves.0) == Seq::<Retired<DrawHalf>>::empty(),
        old_draws_room(halves.0) == capacity,
        old_draws_taken(halves.1) == Seq::<Retired<DrawHalf>>::empty(),
        old_draws_ready(halves.1) == 0,
        old_draws_joined(halves.0, halves.1),
{
    rtrb::RingBuffer::new(capacity)
}

/// Calls `rtrb::Producer::push` for the outbox of a bus. What is written goes
/// in behind the others. It comes back where no slot is free, which cannot be
/// where one was seen to be free. What went in is the beginning of all that
/// goes through the ring.
#[verifier::external_body]
pub(crate) fn push_old_draw(
    writer: &mut rtrb::Producer<Retired<DrawHalf>>,
    message: Retired<DrawHalf>,
) -> (result: Result<(), Retired<DrawHalf>>)
    ensures
        match result {
            Ok(()) => {
                &&& old_draws_sent(*final(writer)) == old_draws_sent(*old(writer)).push(message)
                &&& old_draws_sent_in_order(*final(writer))
            },
            Err(back) => {
                &&& back == message
                &&& old_draws_sent(*final(writer)) == old_draws_sent(*old(writer))
                &&& old_draws_room(*old(writer)) == 0
            },
        },
        old_draws_room(*old(writer)) > 0 ==> old_draws_room(*final(writer)) == old_draws_room(
            *old(writer),
        ) - 1,
        old_draws_life_in(*final(writer)) == old_draws_life_in(*old(writer)),
{
    match writer.push(message) {
        Ok(()) => Ok(()),
        Err(rtrb::PushError::Full(back)) => Err(back),
    }
}

/// Calls `rtrb::Consumer::pop` for the outbox of a bus. It fails where nothing
/// is there, which it has then seen, and which cannot be where something was
/// seen before; the oldest comes out, or nothing does. What came out is the
/// beginning of all that goes through the ring.
#[verifier::external_body]
pub(crate) fn pop_old_draw(
    reader: &mut rtrb::Consumer<Retired<DrawHalf>>,
) -> (result: Option<Retired<DrawHalf>>)
    ensures
        match result {
            Some(message) => {
                &&& old_draws_taken(*final(reader)) == old_draws_taken(*old(reader)).push(message)
                &&& old_draws_taken_in_order(*final(reader))
            },
            None => {
                &&& old_draws_taken(*final(reader)) == old_draws_taken(*old(reader))
                &&& old_draws_ready(*final(reader)) == 0
            },
        },
        old_draws_ready(*old(reader)) > 0 ==> result is Some && old_draws_ready(*final(reader))
            == old_draws_ready(*old(reader)) - 1,
        old_draws_life_out(*final(reader)) == old_draws_life_out(*old(reader)),
{
    reader.pop().ok()
}

impl Roster<FeedHalf> {
    /// Hands the halves on their way back to the thread that made them, each
    /// tried once. Those for which the outbox has no room stay for the next
    /// time.
    pub fn hand_back(&mut self, outbox: &mut rtrb::Producer<Retired<FeedHalf>>) -> (handed: usize)
        requires
            old(self)@.wf(),
        ensures
            final(self)@.wf(),
            exists|gone: Seq<Retired<FeedHalf>>|
                {
                    &&& #[trigger] roster::handed_back(old(self)@, gone, final(self)@)
                    &&& old_feeds_sent(*final(outbox)) == old_feeds_sent(*old(outbox)) + gone
                    &&& gone.len() == handed
                },
            old_feeds_room(*old(outbox)) >= old(self)@.retiring.len() ==> final(
                self)@.retiring.len() == 0,
            handed >= old_feeds_room(*old(outbox)) || final(self)@.retiring.len() == 0,
            old_feeds_writer_goes_on(*old(outbox), *final(outbox)),
    {
        let mut handed: usize = 0;
        let mut left: usize = self.retiring.len();
        let ghost mut gone: Seq<Retired<FeedHalf>> = Seq::empty();
        proof {
            roster::lemma_none_gone(self.retiring@);
            assert(old_feeds_sent(*outbox) =~= old_feeds_sent(*old(outbox)) + gone);
        }
        while left > 0
            invariant
                old(self)@.wf(),
                left <= self.retiring@.len(),
                handed + self.retiring@.len() == old(self)@.retiring.len(),
                self.active@ == old(self)@.active,
                self.pending@ == old(self)@.pending,
                roster::retired_halves(self.retiring@).add(roster::retired_halves(gone))
                    == roster::retired_halves(old(self)@.retiring),
                old_feeds_sent(*outbox) == old_feeds_sent(*old(outbox)) + gone,
                gone.len() == handed,
                old_feeds_writer_goes_on(*old(outbox), *outbox),
                old_feeds_room(*outbox) + handed >= old_feeds_room(*old(outbox)),
                handed < old_feeds_room(*old(outbox)) ==> self.retiring@.len() == left,
            decreases left,
        {
            left = left - 1;
            let ghost before = self.retiring@;
            let ghost sent = old_feeds_sent(*outbox);
            let retired = self.retiring.swap_remove(left);
            proof {
                roster::lemma_one_gone(before, left as int, gone);
                roster::lemma_one_back(self.retiring@, retired);
            }
            match push_old_feed(outbox, retired) {
                Ok(()) => {
                    handed = handed + 1;
                    proof {
                        gone = gone.push(retired);
                        assert(old_feeds_sent(*outbox) =~= old_feeds_sent(*old(outbox)) + gone);
                    }
                },
                Err(back) => {
                    self.retiring.push(back);
                },
            }
        }
        assert(roster::handed_back(old(self)@, gone, self@));
        handed
    }
}

impl Roster<DrawHalf> {
    /// Hands the halves on their way back to the thread that made them, each
    /// tried once. Those for which the outbox has no room stay for the next
    /// time.
    pub fn hand_back(&mut self, outbox: &mut rtrb::Producer<Retired<DrawHalf>>) -> (handed: usize)
        requires
            old(self)@.wf(),
        ensures
            final(self)@.wf(),
            exists|gone: Seq<Retired<DrawHalf>>|
                {
                    &&& #[trigger] roster::handed_back(old(self)@, gone, final(self)@)
                    &&& old_draws_sent(*final(outbox)) == old_draws_sent(*old(outbox)) + gone
                    &&& gone.len() == handed
                },
            old_draws_room(*old(outbox)) >= old(self)@.retiring.len() ==> final(
                self)@.retiring.len() == 0,
            handed >= old_draws_room(*old(outbox)) || final(self)@.retiring.len() == 0,
            old_draws_writer_goes_on(*old(outbox), *final(outbox)),
    {
        let mut handed: usize = 0;
        let mut left: usize = self.retiring.len();
        let ghost mut gone: Seq<Retired<DrawHalf>> = Seq::empty();
        proof {
            roster::lemma_none_gone(self.retiring@);
            assert(old_draws_sent(*outbox) =~= old_draws_sent(*old(outbox)) + gone);
        }
        while left > 0
            invariant
                old(self)@.wf(),
                left <= self.retiring@.len(),
                handed + self.retiring@.len() == old(self)@.retiring.len(),
                self.active@ == old(self)@.active,
                self.pending@ == old(self)@.pending,
                roster::retired_halves(self.retiring@).add(roster::retired_halves(gone))
                    == roster::retired_halves(old(self)@.retiring),
                old_draws_sent(*outbox) == old_draws_sent(*old(outbox)) + gone,
                gone.len() == handed,
                old_draws_writer_goes_on(*old(outbox), *outbox),
                old_draws_room(*outbox) + handed >= old_draws_room(*old(outbox)),
                handed < old_draws_room(*old(outbox)) ==> self.retiring@.len() == left,
            decreases left,
        {
            left = left - 1;
            let ghost before = self.retiring@;
            let ghost sent = old_draws_sent(*outbox);
            let retired = self.retiring.swap_remove(left);
            proof {
                roster::lemma_one_gone(before, left as int, gone);
                roster::lemma_one_back(self.retiring@, retired);
            }
            match push_old_draw(outbox, retired) {
                Ok(()) => {
                    handed = handed + 1;
                    proof {
                        gone = gone.push(retired);
                        assert(old_draws_sent(*outbox) =~= old_draws_sent(*old(outbox)) + gone);
                    }
                },
                Err(back) => {
                    self.retiring.push(back);
                },
            }
        }
        assert(roster::handed_back(old(self)@, gone, self@));
        handed
    }
}

} // verus!
