//! The engines behind the audio callbacks, and the publishers that tell them
//! what to do.
//!
//! A source engine runs in the capture callback of an endpoint, a bus engine
//! in the playback callback of one. A route is a ring between the two with a
//! drift corrector at its end. Samples are bit patterns; what is computed of
//! them is computed outside, between the steps of an engine.
use std::sync::Arc;

use vstd::prelude::*;

use super::messages::{pop_old_draw, pop_old_feed, push_draw, push_feed};
use super::messages;
use super::plans::{BusPlan, PlanReclaimer, PlanSlot, RouteFeed, SourcePlan};
use super::plans;
use super::rings::sample_ring;
use super::rings;
use super::roster::{Delivery, Retired};
use super::stage::{
    corrector_target_frames, ring_capacity_frames, MAX_BLOCK_FRAMES, TARGET_QUANTA,
};
use super::stage;
use super::strip::ModeFade;
use crate::domain::ids::RouteId;
use crate::dsp::buffer::{zeros, MAX_CHANNELS};
use crate::dsp::drift::DriftCorrector;
use crate::dsp::drift;
use crate::dsp::error::DspError;
use crate::dsp::processors::ParameterSmoother;
use crate::dsp::processors;
use crate::scalar::Scalar;

verus! {

/// How many messages wait for a callback, and for the thread behind it.
pub const INBOX_CAPACITY: usize = 64;

pub const OUTBOX_CAPACITY: usize = 64;

/// The end of a route at its source.
pub struct FeedHalf {
    pub producer: rtrb::Producer<u32>,
    pub balance_left: ParameterSmoother,
    pub balance_right: ParameterSmoother,
    /// The change of mode that is under way.
    pub mode_fade: Option<ModeFade>,
}

/// The end of a route at its bus.
pub struct DrawHalf {
    pub consumer: rtrb::Consumer<u32>,
    pub corrector: DriftCorrector,
    pub scratch: Vec<Scalar>,
    /// The frame that was last asked for.
    pub frame: Vec<Option<Scalar>>,
}

pub type SourceInbox = Delivery<FeedHalf>;

pub type BusInbox = Delivery<DrawHalf>;

pub type RetiredProducer = Retired<FeedHalf>;

pub type RetiredConsumer = Retired<DrawHalf>;

/// Everything that a route needs at both its ends.
pub struct RouteLink {
    pub route_id: RouteId,
    pub bus_channels: usize,
    pub producer: rtrb::Producer<u32>,
    pub consumer: rtrb::Consumer<u32>,
    pub corrector: DriftCorrector,
    pub scratch: Vec<Scalar>,
    /// The frame that was last asked for.
    pub frame: Vec<Option<Scalar>>,
}

/// The length of the ring of a route in samples.
pub open spec fn ring_samples(quantum_frames: u32, bus_channels: usize) -> int {
    stage::ring_frames(quantum_frames) * if bus_channels == 0 {
        1
    } else {
        bus_channels as int
    }
}

/// Why a route cannot be made, if it cannot.
pub open spec fn link_error(
    bus_channels: usize,
    sample_rate: u32,
    balance: (Scalar, Scalar),
) -> Option<DspError> {
    if !(1 <= bus_channels <= MAX_CHANNELS) {
        Some(DspError::InvalidChannelCount(bus_channels))
    } else if sample_rate == 0 {
        Some(DspError::InvalidSampleRate(0))
    } else if !balance.0.finite() || !balance.1.finite() {
        Some(DspError::InvalidParameter("smoother value"))
    } else {
        None
    }
}

impl RouteLink {
    /// Whether nothing has gone through a route yet: its ring is empty, the two
    /// halves are the ends of that one ring, and the corrector is at rest.
    pub open spec fn fresh(
        self,
        route_id: RouteId,
        bus_channels: usize,
        quantum_frames: u32,
        target_quanta: u32,
        sample_rate: u32,
    ) -> bool {
        &&& self.route_id == route_id
        &&& self.bus_channels == bus_channels
        &&& rings::joined(self.producer, self.consumer)
        &&& rings::ring_written(self.producer) == Seq::<u32>::empty()
        &&& rings::ring_room(self.producer) == ring_samples(quantum_frames, bus_channels)
        &&& rings::written_in_order(self.producer)
        &&& rings::ring_read(self.consumer) == Seq::<u32>::empty()
        &&& rings::ring_ready(self.consumer) == 0
        &&& rings::read_in_order(self.consumer)
        &&& self.corrector@ == (drift::DriftState {
            target_frames: stage::target_frames(quantum_frames, target_quanta) as usize,
            previous: drift::silence(bus_channels as nat),
            current: drift::silence(bus_channels as nat),
            starved_frames: 0,
            hold_limit_frames: drift::hold_limit(sample_rate) as usize,
        })
        &&& self.scratch@ == Seq::new(
            (MAX_BLOCK_FRAMES * bus_channels) as nat,
            |_at: int| Scalar { bits: 0 },
        )
        &&& self.frame@.len() == 0
    }

    /// What is delivered to the source of a route.
    pub open spec fn source_half(self, generation: u64, balance: (Scalar, Scalar)) -> SourceInbox {
        Delivery {
            generation,
            route_id: self.route_id,
            half: FeedHalf {
                producer: self.producer,
                balance_left: processors::resting(balance.0),
                balance_right: processors::resting(balance.1),
                mode_fade: None,
            },
        }
    }

    /// What is delivered to the bus of a route.
    pub open spec fn bus_half(self, generation: u64) -> BusInbox {
        Delivery {
            generation,
            route_id: self.route_id,
            half: DrawHalf {
                consumer: self.consumer,
                corrector: self.corrector,
                scratch: self.scratch,
                frame: self.frame,
            },
        }
    }

    pub fn new(
        route_id: RouteId,
        bus_channels: usize,
        quantum_frames: u32,
        target_quanta: u32,
        sample_rate: u32,
    ) -> (result: Result<Self, DspError>)
        requires
            ring_samples(quantum_frames, bus_channels) * 4 <= isize::MAX,
        ensures
            match result {
                Ok(link) => {
                    &&& 1 <= bus_channels <= MAX_CHANNELS
                    &&& sample_rate > 0
                    &&& link.fresh(
                        route_id,
                        bus_channels,
                        quantum_frames,
                        target_quanta,
                        sample_rate,
                    )
                },
                Err(error) => error == (if !(1 <= bus_channels <= MAX_CHANNELS) {
                    DspError::InvalidChannelCount(bus_channels)
                } else {
                    DspError::InvalidSampleRate(0)
                }) && (!(1 <= bus_channels <= MAX_CHANNELS) || sample_rate == 0),
            },
    {
        let width: usize = if bus_channels == 0 {
            1
        } else {
            bus_channels
        };
        proof {
            let frames = stage::ring_frames(quantum_frames);
            assert(frames * 1 <= frames * width) by (nonlinear_arith)
                requires
                    frames >= 0,
                    width >= 1,
            ;
            assert(quantum_frames * 4 <= frames);
        }
        let frames: usize = ring_capacity_frames(quantum_frames);
        let (producer, consumer) = sample_ring(frames * width);
        let target: usize = corrector_target_frames(quantum_frames, target_quanta);
        let corrector = match DriftCorrector::new(bus_channels, target, sample_rate) {
            Ok(corrector) => corrector,
            Err(error) => {
                return Err(error);
            },
        };
        assert(MAX_BLOCK_FRAMES * bus_channels <= 4_096 * 64) by (nonlinear_arith)
            requires
                MAX_BLOCK_FRAMES == 4_096,
                bus_channels <= 64,
        ;
        Ok(
            RouteLink {
                route_id,
                bus_channels,
                producer,
                consumer,
                corrector,
                scratch: zeros(MAX_BLOCK_FRAMES * bus_channels),
                frame: Vec::with_capacity(bus_channels),
            },
        )
    }

    /// Splits a route into what is delivered to its two ends. Each is tagged
    /// with the generation of the plan that lists the route. `balance` has the
    /// gains that the source has now.
    pub fn into_halves(
        self,
        source_generation: u64,
        bus_generation: u64,
        balance: (Scalar, Scalar),
    ) -> (result: Result<(SourceInbox, BusInbox), DspError>)
        ensures
            result == (if balance.0.finite() && balance.1.finite() {
                Ok::<(SourceInbox, BusInbox), DspError>(
                    (
                        self.source_half(source_generation, balance),
                        self.bus_half(bus_generation),
                    ),
                )
            } else {
                Err(DspError::InvalidParameter("smoother value"))
            }),
    {
        let balance_left = match ParameterSmoother::new(balance.0) {
            Ok(smoother) => smoother,
            Err(error) => {
                return Err(error);
            },
        };
        let balance_right = match ParameterSmoother::new(balance.1) {
            Ok(smoother) => smoother,
            Err(error) => {
                return Err(error);
            },
        };
        let source = Delivery {
            generation: source_generation,
            route_id: self.route_id,
            half: FeedHalf { producer: self.producer, balance_left, balance_right, mode_fade: None },
        };
        let bus = Delivery {
            generation: bus_generation,
            route_id: self.route_id,
            half: DrawHalf {
                consumer: self.consumer,
                corrector: self.corrector,
                scratch: self.scratch,
                frame: self.frame,
            },
        };
        Ok((source, bus))
    }
}

/// What the thread behind a source callback holds.
pub struct SourceHandle {
    pub inbox: rtrb::Producer<SourceInbox>,
    pub retired: rtrb::Consumer<RetiredProducer>,
    pub plan_slot: Arc<PlanSlot<SourcePlan>>,
    pub reclaimer: PlanReclaimer<SourcePlan>,
}

/// Publishes the plans of a source.
pub struct SourcePublisher {
    pub handle: SourceHandle,
    pub generation: u64,
    pub feeds: Vec<RouteFeed>,
}

/// The feeds without those for a route.
pub open spec fn feeds_without(feeds: Seq<RouteFeed>, route_id: RouteId) -> Seq<RouteFeed>
    decreases feeds.len(),
{
    if feeds.len() == 0 {
        Seq::empty()
    } else if feeds.last().route_id == route_id {
        feeds_without(feeds.drop_last(), route_id)
    } else {
        feeds_without(feeds.drop_last(), route_id).push(feeds.last())
    }
}

/// A route that was taken out of the feeds is not listed, and every other one
/// is listed as before.
pub proof fn law_removed_feed_is_not_listed(
    feeds: Seq<RouteFeed>,
    removed: RouteId,
    route_id: RouteId,
)
    ensures
        plans::feed_width(feeds_without(feeds, removed), route_id) == (if route_id == removed {
            None
        } else {
            plans::feed_width(feeds, route_id)
        }),
    decreases feeds.len(),
{
    if feeds.len() > 0 {
        let rest = feeds.drop_last();
        law_removed_feed_is_not_listed(rest, removed, route_id);
        let kept = feeds_without(rest, removed);
        if feeds.last().route_id != removed {
            assert(kept.push(feeds.last()).drop_last() =~= kept);
        }
    }
}

/// A plan of a source was published, and another taken out.
pub open spec fn source_published(
    slot: PlanSlot<SourcePlan>,
    generation: int,
    feeds: Seq<RouteFeed>,
    retired: SourcePlan,
) -> bool {
    exists|next: SourcePlan|
        {
            &&& next.generation == generation
            &&& next.feeds@ == feeds
            &&& #[trigger] slot.swaps().contains((next, retired))
        }
}

impl SourcePublisher {
    /// Whether a half was delivered, under a new plan that lists its route.
    pub open spec fn took(
        self,
        after: Self,
        route_id: RouteId,
        bus_channels: usize,
        item: SourceInbox,
    ) -> bool {
        let listed = self.feeds@.push(RouteFeed { route_id, bus_channels });
        &&& after.feeds@ == listed
        &&& after.generation == self.generation + 1
        &&& messages::feeds_sent(after.handle.inbox) == messages::feeds_sent(
            self.handle.inbox,
        ).push(item)
        &&& messages::feeds_writer_goes_on(self.handle.inbox, after.handle.inbox)
        &&& after.handle.plan_slot == self.handle.plan_slot
        &&& after.handle.retired == self.handle.retired
        &&& exists|gone: Arc<SourcePlan>|
            {
                &&& #[trigger] source_published(
                    *self.handle.plan_slot,
                    self.generation + 1,
                    listed,
                    *gone,
                )
                &&& after.handle.reclaimer.retired@ == self.handle.reclaimer.retired@.push(gone)
            }
    }

    /// Whether a half found the inbox full: a plan that lists its route was
    /// published, and one without it after that.
    pub open spec fn refused(
        self,
        after: Self,
        route_id: RouteId,
        bus_channels: usize,
    ) -> bool {
        let listed = self.feeds@.push(RouteFeed { route_id, bus_channels });
        let unlisted = feeds_without(self.feeds@, route_id);
        &&& messages::feeds_room(self.handle.inbox) == 0
        &&& after.feeds@ == unlisted
        &&& after.generation == self.generation + 2
        &&& messages::feeds_sent(after.handle.inbox) == messages::feeds_sent(self.handle.inbox)
        &&& messages::feeds_writer_goes_on(self.handle.inbox, after.handle.inbox)
        &&& after.handle.plan_slot == self.handle.plan_slot
        &&& after.handle.retired == self.handle.retired
        &&& exists|first: Arc<SourcePlan>, second: Arc<SourcePlan>|
            {
                &&& #[trigger] source_published(
                    *self.handle.plan_slot,
                    self.generation + 1,
                    listed,
                    *first,
                )
                &&& #[trigger] source_published(
                    *self.handle.plan_slot,
                    self.generation + 2,
                    unlisted,
                    *second,
                )
                &&& after.handle.reclaimer.retired@ == self.handle.reclaimer.retired@.push(
                    first,
                ).push(second)
            }
    }

    pub fn new(handle: SourceHandle) -> (publisher: Self)
        ensures
            publisher.handle == handle,
            publisher.generation == 0,
            publisher.feeds@.len() == 0,
    {
        SourcePublisher { handle, generation: 0, feeds: Vec::new() }
    }

    pub fn has_routes(&self) -> (result: bool)
        ensures
            result == (self.feeds@.len() > 0),
    {
        self.feeds.len() > 0
    }

    /// The generation of the next plan.
    pub fn next_generation(&self) -> (generation: u64)
        requires
            self.generation < u64::MAX,
        ensures
            generation == self.generation + 1,
    {
        self.generation + 1
    }

    /// The plan that lists the feeds, under the next generation.
    pub fn next_plan(&self) -> (plan: SourcePlan)
        requires
            self.generation < u64::MAX,
        ensures
            plan.generation == self.generation + 1,
            plan.feeds@ == self.feeds@,
    {
        let mut feeds: Vec<RouteFeed> = Vec::new();
        let mut at: usize = 0;
        while at < self.feeds.len()
            invariant
                at <= self.feeds@.len(),
                feeds@ =~= self.feeds@.take(at as int),
            decreases self.feeds@.len() - at,
        {
            feeds.push(self.feeds[at]);
            at = at + 1;
        }
        assert(self.feeds@.take(at as int) =~= self.feeds@);
        SourcePlan { generation: self.generation + 1, feeds }
    }

    fn publish(&mut self)
        requires
            old(self).generation < u64::MAX,
        ensures
            final(self).generation == old(self).generation + 1,
            final(self).feeds@ == old(self).feeds@,
            final(self).handle.inbox == old(self).handle.inbox,
            final(self).handle.retired == old(self).handle.retired,
            final(self).handle.plan_slot == old(self).handle.plan_slot,
            exists|gone: Arc<SourcePlan>|
                {
                    &&& #[trigger] source_published(
                        *final(self).handle.plan_slot,
                        old(self).generation + 1,
                        old(self).feeds@,
                        *gone,
                    )
                    &&& final(self).handle.reclaimer.retired@ == old(
                        self).handle.reclaimer.retired@.push(gone)
                },
    {
        let plan = self.next_plan();
        self.generation = self.generation + 1;
        let previous = self.handle.plan_slot.publish(plan);
        assert(source_published(
            *self.handle.plan_slot,
            old(self).generation + 1,
            old(self).feeds@,
            *previous,
        ));
        self.handle.reclaimer.retire(previous);
    }

    fn drop_feeds(&mut self, route_id: RouteId)
        ensures
            final(self).feeds@ == feeds_without(old(self).feeds@, route_id),
            final(self).generation == old(self).generation,
            final(self).handle == old(self).handle,
    {
        let mut kept: Vec<RouteFeed> = Vec::new();
        let mut at: usize = 0;
        while at < self.feeds.len()
            invariant
                at <= self.feeds@.len(),
                *self == *old(self),
                kept@ == feeds_without(self.feeds@.take(at as int), route_id),
            decreases self.feeds@.len() - at,
        {
            let feed = self.feeds[at];
            assert(self.feeds@.take(at + 1).drop_last() =~= self.feeds@.take(at as int));
            assert(self.feeds@.take(at + 1).last() == feed);
            if feed.route_id != route_id {
                kept.push(feed);
            }
            at = at + 1;
        }
        assert(self.feeds@.take(at as int) =~= self.feeds@);
        self.feeds = kept;
    }

    /// Publishes a plan that lists a route, then delivers its half. Where the
    /// inbox is full the half comes back, and a plan without the route is
    /// published, so the callback does not wait for a half that will not come.
    #[verifier::spinoff_prover]
    pub fn add_feed(&mut self, route_id: RouteId, bus_channels: usize, item: SourceInbox) -> (result:
        Result<(), SourceInbox>)
        requires
            old(self).generation + 2 <= u64::MAX,
        ensures
            match result {
                Ok(()) => old(self).took(*final(self), route_id, bus_channels, item),
                Err(back) => back == item && old(self).refused(
                    *final(self),
                    route_id,
                    bus_channels,
                ),
            },
    {
        let ghost before = self.feeds@;
        self.feeds.push(RouteFeed { route_id, bus_channels });
        let ghost kept = self.handle.reclaimer.retired@;
        self.publish();
        let ghost first = self.handle.reclaimer.retired@.last();
        assert(self.handle.reclaimer.retired@ =~= kept.push(first));
        match push_feed(&mut self.handle.inbox, item) {
            Ok(()) => {
                assert(source_published(
                    *self.handle.plan_slot,
                    old(self).generation + 1,
                    old(self).feeds@.push(RouteFeed { route_id, bus_channels }),
                    *first,
                ));
                assert(self.handle.reclaimer.retired@ == old(self).handle.reclaimer.retired@.push(
                    first,
                ));
                Ok(())
            },
            Err(back) => {
                assert(source_published(
                    *self.handle.plan_slot,
                    old(self).generation + 1,
                    old(self).feeds@.push(RouteFeed { route_id, bus_channels }),
                    *first,
                ));
                self.drop_feeds(route_id);
                proof {
                    let all = before.push(RouteFeed { route_id, bus_channels });
                    assert(all.drop_last() =~= before);
                    assert(all.last().route_id == route_id);
                }
                assert(self.feeds@ == feeds_without(old(self).feeds@, route_id));
                self.publish();
                let ghost second = self.handle.reclaimer.retired@.last();
                assert(self.handle.reclaimer.retired@ =~= kept.push(first).push(second));
                assert(source_published(
                    *self.handle.plan_slot,
                    old(self).generation + 2,
                    feeds_without(old(self).feeds@, route_id),
                    *second,
                ));
                Err(back)
            },
        }
    }

    /// Publishes a plan without a route.
    pub fn remove_feed(&mut self, route_id: RouteId)
        requires
            old(self).generation < u64::MAX,
        ensures
            final(self).feeds@ == feeds_without(old(self).feeds@, route_id),
            final(self).generation == old(self).generation + 1,
            final(self).handle.plan_slot == old(self).handle.plan_slot,
            final(self).handle.inbox == old(self).handle.inbox,
            final(self).handle.retired == old(self).handle.retired,
            exists|gone: Arc<SourcePlan>|
                {
                    &&& #[trigger] source_published(
                        *final(self).handle.plan_slot,
                        old(self).generation + 1,
                        feeds_without(old(self).feeds@, route_id),
                        *gone,
                    )
                    &&& final(self).handle.reclaimer.retired@ == old(
                        self).handle.reclaimer.retired@.push(gone)
                },
    {
        self.drop_feeds(route_id);
        self.publish();
    }

    /// Drops the halves that came back and the plans that the callback is done
    /// with.
    pub fn collect_garbage(&mut self)
        ensures
            final(self).feeds == old(self).feeds,
            final(self).generation == old(self).generation,
            final(self).handle.plan_slot == old(self).handle.plan_slot,
            final(self).handle.inbox == old(self).handle.inbox,
            ({
                let before = messages::old_feeds_taken(old(self).handle.retired);
                let after = messages::old_feeds_taken(final(self).handle.retired);
                &&& before.len() <= after.len()
                &&& after.take(before.len() as int) == before
                &&& messages::old_feeds_ready(final(self).handle.retired) == 0 || after.len()
                    == before.len() + OUTBOX_CAPACITY
            }),
            messages::old_feeds_reader_goes_on(
                old(self).handle.retired,
                final(self).handle.retired,
            ),
            exists|completed: u64| #[trigger]
                old(self).handle.plan_slot.had_report(completed) && final(
                    self).handle.reclaimer.retired@ == plans::still_followed(
                    old(self).handle.reclaimer.retired@,
                    completed,
                ),
    {
        let mut left: usize = OUTBOX_CAPACITY;
        let mut open = true;
        let ghost before = messages::old_feeds_taken(self.handle.retired);
        assert(before.take(before.len() as int) =~= before);
        while open && left > 0
            invariant
                self.feeds == old(self).feeds,
                self.generation == old(self).generation,
                self.handle.reclaimer == old(self).handle.reclaimer,
                self.handle.plan_slot == old(self).handle.plan_slot,
                self.handle.inbox == old(self).handle.inbox,
                before == messages::old_feeds_taken(old(self).handle.retired),
                left <= OUTBOX_CAPACITY,
                messages::old_feeds_taken(self.handle.retired).len() == before.len()
                    + OUTBOX_CAPACITY - left,
                messages::old_feeds_reader_goes_on(old(self).handle.retired, self.handle.retired),
                messages::old_feeds_taken(self.handle.retired).take(before.len() as int) == before,
                !open ==> messages::old_feeds_ready(self.handle.retired) == 0,
            decreases
                    left + if open {
                        1int
                    } else {
                        0int
                    },
        {
            let ghost taken = messages::old_feeds_taken(self.handle.retired);
            match pop_old_feed(&mut self.handle.retired) {
                Some(half) => {
                    left = left - 1;
                    assert(taken.push(half).take(before.len() as int) =~= taken.take(
                        before.len() as int,
                    ));
                },
                None => {
                    open = false;
                },
            }
        }
        self.handle.reclaimer.collect(&self.handle.plan_slot);
    }
}

/// What the thread behind a bus callback holds.
pub struct BusHandle {
    pub inbox: rtrb::Producer<BusInbox>,
    pub retired: rtrb::Consumer<RetiredConsumer>,
    pub plan_slot: Arc<PlanSlot<BusPlan>>,
    pub reclaimer: PlanReclaimer<BusPlan>,
}

/// Publishes the plans of a bus.
pub struct BusPublisher {
    pub handle: BusHandle,
    pub generation: u64,
    pub routes: Vec<RouteId>,
}

/// The routes without one of them.
pub open spec fn routes_without(routes: Seq<RouteId>, route_id: RouteId) -> Seq<RouteId>
    decreases routes.len(),
{
    if routes.len() == 0 {
        Seq::empty()
    } else if routes.last() == route_id {
        routes_without(routes.drop_last(), route_id)
    } else {
        routes_without(routes.drop_last(), route_id).push(routes.last())
    }
}

/// A route that was taken out is not listed, and every other one still is.
pub proof fn law_removed_route_is_not_listed(
    routes: Seq<RouteId>,
    removed: RouteId,
    route_id: RouteId,
)
    ensures
        routes_without(routes, removed).contains(route_id) <==> routes.contains(route_id)
            && route_id != removed,
    decreases routes.len(),
{
    if routes.len() > 0 {
        let rest = routes.drop_last();
        let kept = routes_without(rest, removed);
        law_removed_route_is_not_listed(rest, removed, route_id);
        assert(routes =~= rest.push(routes.last()));
        if rest.contains(route_id) {
            let i = choose|i: int| 0 <= i < rest.len() && rest[i] == route_id;
            assert(routes[i] == route_id);
        }
        if routes.contains(route_id) && routes.last() != route_id {
            let i = choose|i: int| 0 <= i < routes.len() && routes[i] == route_id;
            assert(rest[i] == route_id);
        }
        if routes.last() == route_id {
            assert(routes[routes.len() - 1] == route_id);
        }
        if routes.last() != removed {
            let all = kept.push(routes.last());
            if kept.contains(route_id) {
                let i = choose|i: int| 0 <= i < kept.len() && kept[i] == route_id;
                assert(all[i] == route_id);
            }
            if all.contains(route_id) && routes.last() != route_id {
                let i = choose|i: int| 0 <= i < all.len() && all[i] == route_id;
                assert(kept[i] == route_id);
            }
            assert(all[kept.len() as int] == routes.last());
        }
    }
}

/// A plan of a bus was published, and another taken out.
pub open spec fn bus_published(
    slot: PlanSlot<BusPlan>,
    generation: int,
    routes: Seq<RouteId>,
    retired: BusPlan,
) -> bool {
    exists|next: BusPlan|
        {
            &&& next.generation == generation
            &&& next.routes@ == routes
            &&& #[trigger] slot.swaps().contains((next, retired))
        }
}

impl BusPublisher {
    /// Whether a half was delivered, under a new plan that lists its route.
    pub open spec fn took(
        self,
        after: Self,
        route_id: RouteId,
        item: BusInbox,
    ) -> bool {
        let listed = self.routes@.push(route_id);
        &&& after.routes@ == listed
        &&& after.generation == self.generation + 1
        &&& messages::draws_sent(after.handle.inbox) == messages::draws_sent(
            self.handle.inbox,
        ).push(item)
        &&& messages::draws_writer_goes_on(self.handle.inbox, after.handle.inbox)
        &&& after.handle.plan_slot == self.handle.plan_slot
        &&& after.handle.retired == self.handle.retired
        &&& exists|gone: Arc<BusPlan>|
            {
                &&& #[trigger] bus_published(
                    *self.handle.plan_slot,
                    self.generation + 1,
                    listed,
                    *gone,
                )
                &&& after.handle.reclaimer.retired@ == self.handle.reclaimer.retired@.push(gone)
            }
    }

    /// Whether a half found the inbox full: a plan that lists its route was
    /// published, and one without it after that.
    pub open spec fn refused(self, after: Self, route_id: RouteId) -> bool {
        let listed = self.routes@.push(route_id);
        let unlisted = routes_without(self.routes@, route_id);
        &&& messages::draws_room(self.handle.inbox) == 0
        &&& after.routes@ == unlisted
        &&& after.generation == self.generation + 2
        &&& messages::draws_sent(after.handle.inbox) == messages::draws_sent(self.handle.inbox)
        &&& messages::draws_writer_goes_on(self.handle.inbox, after.handle.inbox)
        &&& after.handle.plan_slot == self.handle.plan_slot
        &&& after.handle.retired == self.handle.retired
        &&& exists|first: Arc<BusPlan>, second: Arc<BusPlan>|
            {
                &&& #[trigger] bus_published(
                    *self.handle.plan_slot,
                    self.generation + 1,
                    listed,
                    *first,
                )
                &&& #[trigger] bus_published(
                    *self.handle.plan_slot,
                    self.generation + 2,
                    unlisted,
                    *second,
                )
                &&& after.handle.reclaimer.retired@ == self.handle.reclaimer.retired@.push(
                    first,
                ).push(second)
            }
    }

    pub fn new(handle: BusHandle) -> (publisher: Self)
        ensures
            publisher.handle == handle,
            publisher.generation == 0,
            publisher.routes@.len() == 0,
    {
        BusPublisher { handle, generation: 0, routes: Vec::new() }
    }

    pub fn has_routes(&self) -> (result: bool)
        ensures
            result == (self.routes@.len() > 0),
    {
        self.routes.len() > 0
    }

    /// The generation of the next plan.
    pub fn next_generation(&self) -> (generation: u64)
        requires
            self.generation < u64::MAX,
        ensures
            generation == self.generation + 1,
    {
        self.generation + 1
    }

    /// The plan that lists the routes, under the next generation.
    pub fn next_plan(&self) -> (plan: BusPlan)
        requires
            self.generation < u64::MAX,
        ensures
            plan.generation == self.generation + 1,
            plan.routes@ == self.routes@,
    {
        let mut routes: Vec<RouteId> = Vec::new();
        let mut at: usize = 0;
        while at < self.routes.len()
            invariant
                at <= self.routes@.len(),
                routes@ =~= self.routes@.take(at as int),
            decreases self.routes@.len() - at,
        {
            routes.push(self.routes[at]);
            at = at + 1;
        }
        assert(self.routes@.take(at as int) =~= self.routes@);
        BusPlan { generation: self.generation + 1, routes }
    }

    fn publish(&mut self)
        requires
            old(self).generation < u64::MAX,
        ensures
            final(self).generation == old(self).generation + 1,
            final(self).routes@ == old(self).routes@,
            final(self).handle.inbox == old(self).handle.inbox,
            final(self).handle.retired == old(self).handle.retired,
            final(self).handle.plan_slot == old(self).handle.plan_slot,
            exists|gone: Arc<BusPlan>|
                {
                    &&& #[trigger] bus_published(
                        *final(self).handle.plan_slot,
                        old(self).generation + 1,
                        old(self).routes@,
                        *gone,
                    )
                    &&& final(self).handle.reclaimer.retired@ == old(
                        self).handle.reclaimer.retired@.push(gone)
                },
    {
        let plan = self.next_plan();
        self.generation = self.generation + 1;
        let previous = self.handle.plan_slot.publish(plan);
        assert(bus_published(
            *self.handle.plan_slot,
            old(self).generation + 1,
            old(self).routes@,
            *previous,
        ));
        self.handle.reclaimer.retire(previous);
    }

    fn drop_route(&mut self, route_id: RouteId)
        ensures
            final(self).routes@ == routes_without(old(self).routes@, route_id),
            final(self).generation == old(self).generation,
            final(self).handle == old(self).handle,
    {
        let mut kept: Vec<RouteId> = Vec::new();
        let mut at: usize = 0;
        while at < self.routes.len()
            invariant
                at <= self.routes@.len(),
                *self == *old(self),
                kept@ == routes_without(self.routes@.take(at as int), route_id),
            decreases self.routes@.len() - at,
        {
            let route = self.routes[at];
            assert(self.routes@.take(at + 1).drop_last() =~= self.routes@.take(at as int));
            assert(self.routes@.take(at + 1).last() == route);
            if route != route_id {
                kept.push(route);
            }
            at = at + 1;
        }
        assert(self.routes@.take(at as int) =~= self.routes@);
        self.routes = kept;
    }

    /// Publishes a plan that lists a route, then delivers its half. Where the
    /// inbox is full the half comes back, and a plan without the route is
    /// published.
    #[verifier::spinoff_prover]
    pub fn add_draw(&mut self, route_id: RouteId, item: BusInbox) -> (result: Result<(), BusInbox>)
        requires
            old(self).generation + 2 <= u64::MAX,
        ensures
            match result {
                Ok(()) => old(self).took(*final(self), route_id, item),
                Err(back) => back == item && old(self).refused(*final(self), route_id),
            },
    {
        let ghost before = self.routes@;
        self.routes.push(route_id);
        let ghost kept = self.handle.reclaimer.retired@;
        self.publish();
        let ghost first = self.handle.reclaimer.retired@.last();
        assert(self.handle.reclaimer.retired@ =~= kept.push(first));
        match push_draw(&mut self.handle.inbox, item) {
            Ok(()) => {
                assert(bus_published(
                    *self.handle.plan_slot,
                    old(self).generation + 1,
                    old(self).routes@.push(route_id),
                    *first,
                ));
                assert(self.handle.reclaimer.retired@ == old(self).handle.reclaimer.retired@.push(
                    first,
                ));
                Ok(())
            },
            Err(back) => {
                assert(bus_published(
                    *self.handle.plan_slot,
                    old(self).generation + 1,
                    old(self).routes@.push(route_id),
                    *first,
                ));
                self.drop_route(route_id);
                assert(before.push(route_id).drop_last() =~= before);
                assert(self.routes@ == routes_without(old(self).routes@, route_id));
                self.publish();
                let ghost second = self.handle.reclaimer.retired@.last();
                assert(self.handle.reclaimer.retired@ =~= kept.push(first).push(second));
                assert(bus_published(
                    *self.handle.plan_slot,
                    old(self).generation + 2,
                    routes_without(old(self).routes@, route_id),
                    *second,
                ));
                Err(back)
            },
        }
    }

    /// Publishes a plan without a route.
    pub fn remove_draw(&mut self, route_id: RouteId)
        requires
            old(self).generation < u64::MAX,
        ensures
            final(self).routes@ == routes_without(old(self).routes@, route_id),
            final(self).generation == old(self).generation + 1,
            final(self).handle.plan_slot == old(self).handle.plan_slot,
            final(self).handle.inbox == old(self).handle.inbox,
            final(self).handle.retired == old(self).handle.retired,
            exists|gone: Arc<BusPlan>|
                {
                    &&& #[trigger] bus_published(
                        *final(self).handle.plan_slot,
                        old(self).generation + 1,
                        routes_without(old(self).routes@, route_id),
                        *gone,
                    )
                    &&& final(self).handle.reclaimer.retired@ == old(
                        self).handle.reclaimer.retired@.push(gone)
                },
    {
        self.drop_route(route_id);
        self.publish();
    }

    /// Drops the halves that came back and the plans that the callback is done
    /// with.
    pub fn collect_garbage(&mut self)
        ensures
            final(self).routes == old(self).routes,
            final(self).generation == old(self).generation,
            final(self).handle.plan_slot == old(self).handle.plan_slot,
            final(self).handle.inbox == old(self).handle.inbox,
            ({
                let before = messages::old_draws_taken(old(self).handle.retired);
                let after = messages::old_draws_taken(final(self).handle.retired);
                &&& before.len() <= after.len()
                &&& after.take(before.len() as int) == before
                &&& messages::old_draws_ready(final(self).handle.retired) == 0 || after.len()
                    == before.len() + OUTBOX_CAPACITY
            }),
            messages::old_draws_reader_goes_on(
                old(self).handle.retired,
                final(self).handle.retired,
            ),
            exists|completed: u64| #[trigger]
                old(self).handle.plan_slot.had_report(completed) && final(
                    self).handle.reclaimer.retired@ == plans::still_followed(
                    old(self).handle.reclaimer.retired@,
                    completed,
                ),
    {
        let mut left: usize = OUTBOX_CAPACITY;
        let mut open = true;
        let ghost before = messages::old_draws_taken(self.handle.retired);
        assert(before.take(before.len() as int) =~= before);
        while open && left > 0
            invariant
                self.routes == old(self).routes,
                self.generation == old(self).generation,
                self.handle.reclaimer == old(self).handle.reclaimer,
                self.handle.plan_slot == old(self).handle.plan_slot,
                self.handle.inbox == old(self).handle.inbox,
                before == messages::old_draws_taken(old(self).handle.retired),
                left <= OUTBOX_CAPACITY,
                messages::old_draws_taken(self.handle.retired).len() == before.len()
                    + OUTBOX_CAPACITY - left,
                messages::old_draws_reader_goes_on(old(self).handle.retired, self.handle.retired),
                messages::old_draws_taken(self.handle.retired).take(before.len() as int) == before,
                !open ==> messages::old_draws_ready(self.handle.retired) == 0,
            decreases
                    left + if open {
                        1int
                    } else {
                        0int
                    },
        {
            let ghost taken = messages::old_draws_taken(self.handle.retired);
            match pop_old_draw(&mut self.handle.retired) {
                Some(half) => {
                    left = left - 1;
                    assert(taken.push(half).take(before.len() as int) =~= taken.take(
                        before.len() as int,
                    ));
                },
                None => {
                    open = false;
                },
            }
        }
        self.handle.reclaimer.collect(&self.handle.plan_slot);
    }
}

/// How a route between two open streams came about.
#[derive(Debug)]
pub enum RingOutcome {
    Linked,
    /// The ring could not be made.
    RingFailed(DspError),
    /// The inbox of the source was full.
    FeedRefused,
    /// The inbox of the bus was full. The source has its half.
    DrawRefused,
}

/// Makes the ring of a route and delivers its halves: first to the source, then
/// to the bus, each tagged with the generation of the plan that lists the route.
/// `balance` has the gains that the source has now.
pub fn link_publishers(
    source: &mut SourcePublisher,
    bus: &mut BusPublisher,
    route_id: RouteId,
    bus_channels: usize,
    quantum_frames: u32,
    sample_rate: u32,
    balance: (Scalar, Scalar),
) -> (outcome: RingOutcome)
    requires
        ring_samples(quantum_frames, bus_channels) * 4 <= isize::MAX,
        old(source).generation + 2 <= u64::MAX,
        old(bus).generation + 2 <= u64::MAX,
    ensures
        match outcome {
            RingOutcome::RingFailed(error) => {
                &&& *final(source) == *old(source)
                &&& *final(bus) == *old(bus)
                &&& link_error(bus_channels, sample_rate, balance) == Some(error)
            },
            RingOutcome::FeedRefused => {
                &&& link_error(bus_channels, sample_rate, balance) is None
                &&& old(source).refused(*final(source), route_id, bus_channels)
                &&& *final(bus) == *old(bus)
            },
            RingOutcome::DrawRefused => {
                &&& link_error(bus_channels, sample_rate, balance) is None
                &&& old(bus).refused(*final(bus), route_id)
                &&& exists|link: RouteLink|
                    {
                        &&& #[trigger] link.fresh(
                            route_id,
                            bus_channels,
                            quantum_frames,
                            TARGET_QUANTA,
                            sample_rate,
                        )
                        &&& old(source).took(
                            *final(source),
                            route_id,
                            bus_channels,
                            link.source_half((old(source).generation + 1) as u64, balance),
                        )
                    }
            },
            RingOutcome::Linked => {
                &&& link_error(bus_channels, sample_rate, balance) is None
                &&& exists|link: RouteLink|
                    {
                        &&& #[trigger] link.fresh(
                            route_id,
                            bus_channels,
                            quantum_frames,
                            TARGET_QUANTA,
                            sample_rate,
                        )
                        &&& old(source).took(
                            *final(source),
                            route_id,
                            bus_channels,
                            link.source_half((old(source).generation + 1) as u64, balance),
                        )
                        &&& old(bus).took(
                            *final(bus),
                            route_id,
                            link.bus_half((old(bus).generation + 1) as u64),
                        )
                    }
            },
        },
{
    let made = RouteLink::new(route_id, bus_channels, quantum_frames, TARGET_QUANTA, sample_rate);
    let link = match made {
        Ok(link) => link,
        Err(error) => {
            return RingOutcome::RingFailed(error);
        },
    };
    let ghost whole = link;
    let split = link.into_halves(source.next_generation(), bus.next_generation(), balance);
    let (source_half, bus_half) = match split {
        Ok(halves) => halves,
        Err(error) => {
            return RingOutcome::RingFailed(error);
        },
    };
    assert(whole.fresh(route_id, bus_channels, quantum_frames, TARGET_QUANTA, sample_rate));
    if source.add_feed(route_id, bus_channels, source_half).is_err() {
        return RingOutcome::FeedRefused;
    }
    if bus.add_draw(route_id, bus_half).is_err() {
        return RingOutcome::DrawRefused;
    }
    RingOutcome::Linked
}

/// A route cannot be made with too few or too many channels, without a rate, or
/// with a gain that is no finite number; the first of these is named.
pub proof fn law_a_ring_names_its_first_fault(
    bus_channels: usize,
    sample_rate: u32,
    balance: (Scalar, Scalar),
)
    ensures
        bus_channels == 0 || bus_channels > MAX_CHANNELS ==> link_error(
            bus_channels,
            sample_rate,
            balance,
        ) == Some(DspError::InvalidChannelCount(bus_channels)),
        1 <= bus_channels <= MAX_CHANNELS && sample_rate == 0 ==> link_error(
            bus_channels,
            sample_rate,
            balance,
        ) == Some(DspError::InvalidSampleRate(0)),
        1 <= bus_channels <= MAX_CHANNELS && sample_rate > 0 && !(balance.0.finite()
            && balance.1.finite()) ==> link_error(bus_channels, sample_rate, balance) == Some(
            DspError::InvalidParameter("smoother value"),
        ),
        1 <= bus_channels <= MAX_CHANNELS && sample_rate > 0 && balance.0.finite()
            && balance.1.finite() ==> link_error(bus_channels, sample_rate, balance) is None,
{
}

/// The two halves of a route carry its identifier, the generation that they were
/// tagged with and the ends of its ring; the left gain is on the left.
pub proof fn law_halves_belong_to_their_route(
    link: RouteLink,
    generation: u64,
    balance: (Scalar, Scalar),
)
    ensures
        link.source_half(generation, balance).generation == generation,
        link.source_half(generation, balance).route_id == link.route_id,
        link.source_half(generation, balance).half.producer == link.producer,
        link.source_half(generation, balance).half.balance_left.current == balance.0,
        link.source_half(generation, balance).half.balance_left.target == balance.0,
        link.source_half(generation, balance).half.balance_left.remaining_frames == 0,
        link.source_half(generation, balance).half.balance_right.current == balance.1,
        link.source_half(generation, balance).half.balance_right.target == balance.1,
        link.source_half(generation, balance).half.balance_right.remaining_frames == 0,
        link.source_half(generation, balance).half.mode_fade is None,
        link.bus_half(generation).generation == generation,
        link.bus_half(generation).route_id == link.route_id,
        link.bus_half(generation).half.consumer == link.consumer,
        link.bus_half(generation).half.corrector == link.corrector,
        link.bus_half(generation).half.scratch == link.scratch,
        link.bus_half(generation).half.frame == link.frame,
{
}

/// A new route has a ring of whole frames that nothing went through, whose two
/// ends it holds, and a corrector that aims at the quanta that were asked for.
pub proof fn law_a_new_route_is_empty(
    link: RouteLink,
    route_id: RouteId,
    bus_channels: usize,
    quantum_frames: u32,
    target_quanta: u32,
    sample_rate: u32,
)
    requires
        bus_channels > 0,
        link.fresh(route_id, bus_channels, quantum_frames, target_quanta, sample_rate),
    ensures
        link.route_id == route_id,
        link.bus_channels == bus_channels,
        rings::ring_life_in(link.producer) == rings::ring_life_out(link.consumer),
        rings::ring_written(link.producer).len() == 0,
        rings::ring_read(link.consumer).len() == 0,
        rings::ring_ready(link.consumer) == 0,
        rings::ring_room(link.producer) == stage::ring_frames(quantum_frames) * bus_channels,
        link.corrector@.target_frames == stage::target_frames(
            quantum_frames,
            target_quanta,
        ) as usize,
        link.corrector@.hold_limit_frames == drift::hold_limit(sample_rate) as usize,
        link.corrector@.starved_frames == 0,
        link.corrector@.current.len() == bus_channels,
        link.corrector@.previous.len() == bus_channels,
        link.scratch@.len() == MAX_BLOCK_FRAMES * bus_channels,
        link.frame@.len() == 0,
{
}

/// A feed that was taken is listed last in the feeds and in a plan of the next
/// generation, and its half was sent behind the others.
pub proof fn law_a_taken_feed_is_listed_and_sent(
    before: SourcePublisher,
    after: SourcePublisher,
    route_id: RouteId,
    bus_channels: usize,
    item: SourceInbox,
)
    requires
        before.took(after, route_id, bus_channels, item),
    ensures
        after.generation == before.generation + 1,
        after.feeds@ == before.feeds@.push(RouteFeed { route_id, bus_channels }),
        messages::feeds_sent(after.handle.inbox) == messages::feeds_sent(
            before.handle.inbox,
        ).push(item),
        after.handle.plan_slot == before.handle.plan_slot,
        after.handle.retired == before.handle.retired,
        after.handle.reclaimer.retired@.len() == before.handle.reclaimer.retired@.len() + 1,
        exists|next: SourcePlan|
            {
                &&& next.generation == after.generation
                &&& next.feeds@ == after.feeds@
                &&& #[trigger] before.handle.plan_slot.swaps().contains(
                    (next, *after.handle.reclaimer.retired@.last()),
                )
            },
{
    let listed = before.feeds@.push(RouteFeed { route_id, bus_channels });
    let slot = *before.handle.plan_slot;
    let gone = choose|gone: Arc<SourcePlan>|
        {
            &&& #[trigger] source_published(slot, before.generation + 1, listed, *gone)
            &&& after.handle.reclaimer.retired@ == before.handle.reclaimer.retired@.push(gone)
        };
    assert(after.handle.reclaimer.retired@.last() == gone);
}

/// A feed that was refused is not listed afterwards, while the others are as
/// before; nothing was sent, and the newest plan is two generations on.
pub proof fn law_a_refused_feed_is_taken_back(
    before: SourcePublisher,
    after: SourcePublisher,
    route_id: RouteId,
    bus_channels: usize,
    other: RouteId,
)
    requires
        before.refused(after, route_id, bus_channels),
    ensures
        messages::feeds_room(before.handle.inbox) == 0,
        after.generation == before.generation + 2,
        plans::feed_width(after.feeds@, route_id) is None,
        other != route_id ==> plans::feed_width(after.feeds@, other) == plans::feed_width(
            before.feeds@,
            other,
        ),
        messages::feeds_sent(after.handle.inbox) == messages::feeds_sent(before.handle.inbox),
        after.handle.plan_slot == before.handle.plan_slot,
        after.handle.retired == before.handle.retired,
        after.handle.reclaimer.retired@.len() == before.handle.reclaimer.retired@.len() + 2,
        exists|next: SourcePlan|
            {
                &&& next.generation == after.generation
                &&& next.feeds@ == after.feeds@
                &&& #[trigger] before.handle.plan_slot.swaps().contains(
                    (next, *after.handle.reclaimer.retired@.last()),
                )
            },
{
    law_removed_feed_is_not_listed(before.feeds@, route_id, route_id);
    law_removed_feed_is_not_listed(before.feeds@, route_id, other);
    let listed = before.feeds@.push(RouteFeed { route_id, bus_channels });
    let unlisted = feeds_without(before.feeds@, route_id);
    let slot = *before.handle.plan_slot;
    let (first, second) = choose|first: Arc<SourcePlan>, second: Arc<SourcePlan>|
        {
            &&& #[trigger] source_published(slot, before.generation + 1, listed, *first)
            &&& #[trigger] source_published(slot, before.generation + 2, unlisted, *second)
            &&& after.handle.reclaimer.retired@ == before.handle.reclaimer.retired@.push(
                first,
            ).push(second)
        };
    assert(after.handle.reclaimer.retired@.last() == second);
}

/// A route that a bus took is listed last and in a plan of the next generation,
/// and its half was sent behind the others.
pub proof fn law_a_taken_draw_is_listed_and_sent(
    before: BusPublisher,
    after: BusPublisher,
    route_id: RouteId,
    item: BusInbox,
)
    requires
        before.took(after, route_id, item),
    ensures
        after.generation == before.generation + 1,
        after.routes@ == before.routes@.push(route_id),
        messages::draws_sent(after.handle.inbox) == messages::draws_sent(
            before.handle.inbox,
        ).push(item),
        after.handle.plan_slot == before.handle.plan_slot,
        after.handle.retired == before.handle.retired,
        after.handle.reclaimer.retired@.len() == before.handle.reclaimer.retired@.len() + 1,
        exists|next: BusPlan|
            {
                &&& next.generation == after.generation
                &&& next.routes@ == after.routes@
                &&& #[trigger] before.handle.plan_slot.swaps().contains(
                    (next, *after.handle.reclaimer.retired@.last()),
                )
            },
{
    let listed = before.routes@.push(route_id);
    let slot = *before.handle.plan_slot;
    let gone = choose|gone: Arc<BusPlan>|
        {
            &&& #[trigger] bus_published(slot, before.generation + 1, listed, *gone)
            &&& after.handle.reclaimer.retired@ == before.handle.reclaimer.retired@.push(gone)
        };
    assert(after.handle.reclaimer.retired@.last() == gone);
}

/// A route that a bus refused is not listed afterwards, while the others still
/// are; nothing was sent, and the newest plan is two generations on.
pub proof fn law_a_refused_draw_is_taken_back(
    before: BusPublisher,
    after: BusPublisher,
    route_id: RouteId,
    other: RouteId,
)
    requires
        before.refused(after, route_id),
    ensures
        messages::draws_room(before.handle.inbox) == 0,
        after.generation == before.generation + 2,
        !after.routes@.contains(route_id),
        other != route_id ==> (after.routes@.contains(other) <==> before.routes@.contains(other)),
        messages::draws_sent(after.handle.inbox) == messages::draws_sent(before.handle.inbox),
        after.handle.plan_slot == before.handle.plan_slot,
        after.handle.retired == before.handle.retired,
        after.handle.reclaimer.retired@.len() == before.handle.reclaimer.retired@.len() + 2,
        exists|next: BusPlan|
            {
                &&& next.generation == after.generation
                &&& next.routes@ == after.routes@
                &&& #[trigger] before.handle.plan_slot.swaps().contains(
                    (next, *after.handle.reclaimer.retired@.last()),
                )
            },
{
    law_removed_route_is_not_listed(before.routes@, route_id, route_id);
    law_removed_route_is_not_listed(before.routes@, route_id, other);
    let listed = before.routes@.push(route_id);
    let unlisted = routes_without(before.routes@, route_id);
    let slot = *before.handle.plan_slot;
    let (first, second) = choose|first: Arc<BusPlan>, second: Arc<BusPlan>|
        {
            &&& #[trigger] bus_published(slot, before.generation + 1, listed, *first)
            &&& #[trigger] bus_published(slot, before.generation + 2, unlisted, *second)
            &&& after.handle.reclaimer.retired@ == before.handle.reclaimer.retired@.push(
                first,
            ).push(second)
        };
    assert(after.handle.reclaimer.retired@.last() == second);
}

/// The block that a new route is drawn into is silent.
pub proof fn law_a_new_route_is_silent(
    link: RouteLink,
    route_id: RouteId,
    bus_channels: usize,
    quantum_frames: u32,
    target_quanta: u32,
    sample_rate: u32,
    at: int,
)
    requires
        link.fresh(route_id, bus_channels, quantum_frames, target_quanta, sample_rate),
    ensures
        0 <= at < link.scratch@.len() ==> link.scratch@[at].bits == 0,
        0 <= at < bus_channels ==> link.corrector@.current[at].bits == 0
            && link.corrector@.previous[at].bits == 0,
{
}

} // verus!
