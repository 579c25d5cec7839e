//! The engine behind the capture callback of an endpoint.
//!
//! A block goes through it in steps: the callback looks at the newest plan,
//! takes up changed controls, and writes the processed frames into the ring of
//! every route.
use std::sync::Arc;

use vstd::prelude::*;

use super::engine::{
    FeedHalf, RetiredProducer, SourceHandle, SourceInbox, INBOX_CAPACITY,
    OUTBOX_CAPACITY,
};
use super::messages::{feed_ring, old_feed_ring, pop_feed};
use super::messages;
use super::plans::{PlanReclaimer, PlanSlot, SourcePlan};
use super::rings::{free_slots, write_frame};
use super::rings;
use super::roster::{Active, Roster, RoutePlan, MAX_ROUTES_PER_ENDPOINT};
use super::roster;
use super::stage;
use super::strip::{ModeFade, Strip};
use super::strip;
use crate::domain::controls::ChannelMode;
use crate::dsp::buffer::MAX_CHANNELS;
use crate::dsp::error::DspError;
use crate::dsp::processors;
use crate::scalar::Scalar;

verus! {

/// The engine of a source.
pub struct SourceEngine {
    pub strip: Strip,
    pub roster: Roster<FeedHalf>,
    pub inbox: rtrb::Consumer<SourceInbox>,
    pub outbox: rtrb::Producer<RetiredProducer>,
    pub plan: Arc<PlanSlot<SourcePlan>>,
    pub active_mode: ChannelMode,
}

/// Whether every route in use is listed by a plan, and every half that waits
/// belongs to a later one.
pub open spec fn follows<H, P: RoutePlan>(model: roster::RosterModel<H>, plan: P) -> bool {
    &&& forall|i: int|
        0 <= i < model.active.len() ==> plan.width_listed((#[trigger] model.active[i]).route_id)
            is Some
    &&& forall|i: int|
        0 <= i < model.pending.len() ==> (#[trigger] model.pending[i]).generation
            > plan.plan_generation()
}

/// A block has begun with a plan: what was delivered came in, the plan was
/// followed, and halves that are out of use were handed back.
pub open spec fn begun<H, P: RoutePlan>(
    before: roster::RosterModel<H>,
    delivered: Seq<roster::Delivery<H>>,
    plan: P,
    gone: Seq<roster::Retired<H>>,
    after: roster::RosterModel<H>,
) -> bool {
    let followed = before.with_pending(delivered).settled(plan, 0).reconciled(plan, 0);
    &&& roster::handed_back(followed, gone, after)
    &&& follows(after, plan)
}

/// A roster that has settled and been reconciled follows its plan.
pub proof fn law_a_reconciled_roster_follows_its_plan<H, P: RoutePlan>(
    model: roster::RosterModel<H>,
    plan: P,
)
    requires
        model.wf(),
    ensures
        follows(model.settled(plan, 0).reconciled(plan, 0), plan),
        model.settled(plan, 0).reconciled(plan, 0).wf(),
        model.settled(plan, 0).reconciled(plan, 0).halves() == model.halves(),
{
    roster::law_settling_loses_nothing(model, plan, 0);
    let settled = model.settled(plan, 0);
    roster::law_reconciling_loses_nothing(settled, plan, 0);
    let after = settled.reconciled(plan, 0);
    assert forall|i: int| 0 <= i < after.active.len() implies plan.width_listed(
        (#[trigger] after.active[i]).route_id,
    ) is Some by {
        assert(roster::in_use(after.active, after.active[i].route_id));
    }
}

/// What a frame of a route is scaled with: the gains of the two sides, and the
/// previous mode with the share of the new one while the mode changes.
#[derive(Debug, Clone, Copy, PartialEq, Eq)]
pub struct FeedStep {
    pub left: Scalar,
    pub right: Scalar,
    pub fade: Option<(ChannelMode, Scalar)>,
}

/// The stepped values of the parameters of a route.
#[derive(Debug, Clone, Copy, PartialEq, Eq, Structural)]
pub struct FeedSteps {
    pub left: Scalar,
    pub right: Scalar,
    pub mix: Scalar,
}

/// The end of a route one frame later.
pub open spec fn stepped_feed(half: FeedHalf, steps: FeedSteps) -> FeedHalf {
    FeedHalf {
        balance_left: half.balance_left.advanced(steps.left),
        balance_right: half.balance_right.advanced(steps.right),
        mode_fade: match half.mode_fade {
            Some(fade) => Some(
                ModeFade { previous: fade.previous, mix: fade.mix.advanced(steps.mix) },
            ),
            None => None,
        },
        ..half
    }
}

/// The end of a route that heads for a balance.
pub open spec fn balanced_feed(
    half: FeedHalf,
    left: Scalar,
    right: Scalar,
    ramp_frames: usize,
    steps: (Scalar, Scalar),
) -> FeedHalf {
    FeedHalf {
        balance_left: half.balance_left.following(left, ramp_frames, steps.0),
        balance_right: half.balance_right.following(right, ramp_frames, steps.1),
        ..half
    }
}

/// The end of a route without a fade that is over.
pub open spec fn faded_feed(half: FeedHalf) -> FeedHalf {
    match half.mode_fade {
        Some(fade) => if fade.mix.remaining_frames == 0 {
            FeedHalf { mode_fade: None, ..half }
        } else {
            half
        },
        None => half,
    }
}

impl SourceEngine {
    pub open spec fn wf(self) -> bool {
        self.strip.wf() && self.roster@.wf()
    }

    /// An engine without routes, and what the thread behind it holds. `gain`
    /// is the linear gain of the controls.
    pub fn new(
        channels: usize,
        rate: u32,
        gain: Scalar,
        muted: bool,
        mode: ChannelMode,
        plan_slot: Arc<PlanSlot<SourcePlan>>,
    ) -> (result: Result<(Self, SourceHandle), DspError>)
        requires
            2 * stage::delay_capacity(rate, channels) <= usize::MAX,
        ensures
            match result {
                Ok((engine, handle)) => {
                    &&& 1 <= channels <= MAX_CHANNELS
                    &&& gain.finite()
                    &&& engine.wf()
                    &&& engine.strip.fresh(channels, rate, gain, muted)
                    &&& engine.roster@.count() == 0
                    &&& engine.active_mode == mode
                    &&& engine.plan == plan_slot
                    &&& handle.plan_slot == plan_slot
                    &&& handle.reclaimer.retired@.len() == 0
                    &&& messages::feeds_joined(handle.inbox, engine.inbox)
                    &&& messages::feeds_sent(handle.inbox).len() == 0
                    &&& messages::feeds_room(handle.inbox) == INBOX_CAPACITY
                    &&& messages::feeds_taken(engine.inbox).len() == 0
                    &&& messages::feeds_ready(engine.inbox) == 0
                    &&& messages::feeds_sent_in_order(handle.inbox)
                    &&& messages::feeds_taken_in_order(engine.inbox)
                    &&& messages::old_feeds_joined(engine.outbox, handle.retired)
                    &&& messages::old_feeds_sent(engine.outbox).len() == 0
                    &&& messages::old_feeds_room(engine.outbox) == OUTBOX_CAPACITY
                    &&& messages::old_feeds_taken(handle.retired).len() == 0
                    &&& messages::old_feeds_ready(handle.retired) == 0
                    &&& messages::old_feeds_sent_in_order(engine.outbox)
                    &&& messages::old_feeds_taken_in_order(handle.retired)
                },
                Err(error) => if !(1 <= channels <= MAX_CHANNELS) {
                    error == DspError::InvalidChannelCount(channels)
                } else {
                    !gain.finite() && error == DspError::InvalidParameter("smoother value")
                },
            },
    {
        let strip = match Strip::new(channels, rate, gain, muted) {
            Ok(strip) => strip,
            Err(error) => {
                return Err(error);
            },
        };
        let (inbox_writer, inbox) = feed_ring(INBOX_CAPACITY);
        let (outbox, retired) = old_feed_ring(OUTBOX_CAPACITY);
        let engine = SourceEngine {
            strip,
            roster: Roster::new(),
            inbox,
            outbox,
            plan: plan_slot.clone(),
            active_mode: mode,
        };
        let handle = SourceHandle {
            inbox: inbox_writer,
            retired,
            plan_slot,
            reclaimer: PlanReclaimer::new(),
        };
        Ok((engine, handle))
    }

    /// Takes in what was delivered, until the inbox is found empty or there is no
    /// room for more.
    pub fn take_deliveries(&mut self)
        requires
            old(self).wf(),
        ensures
            final(self).wf(),
            final(self).strip == old(self).strip,
            final(self).active_mode == old(self).active_mode,
            final(self).plan == old(self).plan,
            final(self).roster@.active == old(self).roster@.active,
            final(self).roster@.retiring == old(self).roster@.retiring,
            final(self).roster@.pending.len() >= old(self).roster@.pending.len(),
            final(self).roster@.pending.take(old(self).roster@.pending.len() as int) == old(
                self).roster@.pending,
            messages::feeds_taken(final(self).inbox) == messages::feeds_taken(old(self).inbox)
                + final(self).roster@.pending.skip(old(self).roster@.pending.len() as int),
            final(self).roster@.has_space() ==> {
                &&& messages::feeds_ready(final(self).inbox) == 0
                &&& final(self).roster@.pending.len() >= old(self).roster@.pending.len()
                    + messages::feeds_ready(old(self).inbox)
            },
            messages::feeds_reader_goes_on(old(self).inbox, final(self).inbox),
            final(self).outbox == old(self).outbox,
    {
        let mut open = true;
        let ghost first = self.roster@.pending.len() as int;
        assert(self.roster@.pending.take(first) =~= self.roster@.pending);
        assert(messages::feeds_taken(self.inbox) =~= messages::feeds_taken(self.inbox)
            + self.roster@.pending.skip(first));
        while open && self.roster.has_room()
            invariant
                self.wf(),
                self.strip == old(self).strip,
                self.active_mode == old(self).active_mode,
                self.plan == old(self).plan,
                self.roster@.active == old(self).roster@.active,
                self.roster@.retiring == old(self).roster@.retiring,
                first == old(self).roster@.pending.len(),
                self.roster@.pending.len() >= first,
                self.roster@.pending.take(first) == old(self).roster@.pending,
                messages::feeds_taken(self.inbox) == messages::feeds_taken(old(self).inbox)
                    + self.roster@.pending.skip(first),
                self.roster@.pending.len() - first + messages::feeds_ready(self.inbox)
                    >= messages::feeds_ready(old(self).inbox),
                !open ==> messages::feeds_ready(self.inbox) == 0,
                messages::feeds_reader_goes_on(old(self).inbox, self.inbox),
                self.outbox == old(self).outbox,
            decreases MAX_ROUTES_PER_ENDPOINT - self.roster@.pending.len() + if open {
                1int
            } else {
                0int
            },
        {
            match pop_feed(&mut self.inbox) {
                Some(delivery) => {
                    let ghost before = self.roster@.pending;
                    self.roster.take_in(delivery);
                    assert(before.push(delivery).take(first) =~= before.take(first));
                    assert(messages::feeds_taken(self.inbox) =~= messages::feeds_taken(
                        old(self).inbox,
                    ) + self.roster@.pending.skip(first));
                },
                None => {
                    open = false;
                },
            }
        }
    }

    /// Follows a plan: puts to use what it lists, and sends back what it does
    /// not list.
    pub fn follow_plan(&mut self, plan: &SourcePlan)
        requires
            old(self).wf(),
        ensures
            final(self).wf(),
            final(self).roster@ == old(self).roster@.settled(*plan, 0).reconciled(*plan, 0),
            follows(final(self).roster@, *plan),
            final(self).roster@.halves() == old(self).roster@.halves(),
            final(self).strip == old(self).strip,
            final(self).active_mode == old(self).active_mode,
            final(self).plan == old(self).plan,
            final(self).inbox == old(self).inbox,
            final(self).outbox == old(self).outbox,
    {
        proof {
            law_a_reconciled_roster_follows_its_plan(self.roster@, *plan);
        }
        self.roster.settle(plan);
        self.roster.reconcile(plan);
    }

    /// Begins a block with the newest plan and hands back what is no longer
    /// used. The result is the generation of the plan.
    pub fn begin_block(&mut self) -> (generation: u64)
        requires
            old(self).wf(),
        ensures
            final(self).wf(),
            exists|
                delivered: Seq<roster::Delivery<FeedHalf>>,
                plan: SourcePlan,
                gone: Seq<roster::Retired<FeedHalf>>,
            |
                {
                    &&& plan.generation == generation
                    &&& old(self).plan.had(plan)
                    &&& #[trigger] begun(
                        old(self).roster@,
                        delivered,
                        plan,
                        gone,
                        final(self).roster@,
                    )
                    &&& messages::feeds_taken(final(self).inbox) == messages::feeds_taken(
                        old(self).inbox,
                    ) + delivered
                    &&& old(self).roster@.with_pending(delivered).has_space()
                        ==> messages::feeds_ready(final(self).inbox) == 0
                    &&& messages::old_feeds_sent(final(self).outbox) == messages::old_feeds_sent(
                        old(self).outbox,
                    ) + gone
                    &&& gone.len() >= messages::old_feeds_room(old(self).outbox) || final(
                        self).roster@.retiring.len() == 0
                },
            messages::feeds_reader_goes_on(old(self).inbox, final(self).inbox),
            messages::old_feeds_writer_goes_on(old(self).outbox, final(self).outbox),
            final(self).strip == old(self).strip,
            final(self).active_mode == old(self).active_mode,
            final(self).plan == old(self).plan,
    {
        let plan = self.plan.load();
        let generation: u64 = plan.generation;
        self.take_deliveries();
        let ghost delivered = self.roster@.pending.skip(old(self).roster@.pending.len() as int);
        assert(self.roster@.pending =~= old(self).roster@.pending + delivered);
        assert(self.roster@ == old(self).roster@.with_pending(delivered));
        self.follow_plan(&plan);
        let ghost followed = self.roster@;
        self.roster.hand_back(&mut self.outbox);
        proof {
            let gone = choose|gone: Seq<roster::Retired<FeedHalf>>|
                {
                    &&& #[trigger] roster::handed_back(followed, gone, self.roster@)
                    &&& messages::old_feeds_sent(self.outbox) == messages::old_feeds_sent(
                        old(self).outbox,
                    ) + gone
                    &&& gone.len() >= messages::old_feeds_room(old(self).outbox)
                        || self.roster@.retiring.len() == 0
                };
            assert(begun(old(self).roster@, delivered, *plan, gone, self.roster@));
        }
        generation
    }

    /// Ends a block: the callback is done with the generation of its plan.
    pub fn end_block(&self, generation: u64)
        ensures
            self.plan.completions().contains(generation),
    {
        self.plan.complete(generation);
    }

    /// Heads for the controls of the endpoint. The steps are the differences
    /// over the ramp; `balance_steps` has those of every route in use.
    pub fn refresh_targets(
        &mut self,
        gain: Scalar,
        gain_step: Scalar,
        muted: bool,
        audible_step: Scalar,
        left: Scalar,
        right: Scalar,
        balance_steps: &Vec<(Scalar, Scalar)>,
    )
        requires
            old(self).wf(),
            balance_steps@.len() == old(self).roster@.active.len(),
        ensures
            final(self).wf(),
            final(self).strip == (Strip {
                gain: old(self).strip.gain.following(gain, old(self).strip.ramp_frames, gain_step),
                audible: old(self).strip.audible.following(
                    processors::audibility(muted),
                    old(self).strip.ramp_frames,
                    audible_step,
                ),
                ..old(self).strip
            }),
            final(self).roster@.pending == old(self).roster@.pending,
            final(self).roster@.retiring == old(self).roster@.retiring,
            final(self).roster@.active.len() == old(self).roster@.active.len(),
            forall|i: int|
                0 <= i < old(self).roster@.active.len() ==> (#[trigger] final(
                    self).roster@.active[i]) == (Active {
                    half: balanced_feed(
                        old(self).roster@.active[i].half,
                        left,
                        right,
                        old(self).strip.ramp_frames,
                        balance_steps@[i],
                    ),
                    ..old(self).roster@.active[i]
                }),
            final(self).active_mode == old(self).active_mode,
            final(self).plan == old(self).plan,
            final(self).inbox == old(self).inbox,
            final(self).outbox == old(self).outbox,
    {
        self.strip.refresh_targets(gain, gain_step, muted, audible_step);
        let ramp: usize = self.strip.ramp_frames;
        let ghost strip = self.strip;
        let count: usize = self.roster.active.len();
        let mut at: usize = 0;
        while at < count
            invariant
                at <= count == self.roster.active@.len(),
                count == old(self).roster.active@.len() == balance_steps@.len(),
                self.strip == strip,
                ramp == old(self).strip.ramp_frames,
                self.roster.pending@ == old(self).roster.pending@,
                self.roster.retiring@ == old(self).roster.retiring@,
                self.active_mode == old(self).active_mode,
                self.plan == old(self).plan,
                self.inbox == old(self).inbox,
                self.outbox == old(self).outbox,
                forall|i: int|
                    0 <= i < count ==> (#[trigger] self.roster.active@[i]) == (if i < at {
                        Active {
                            half: balanced_feed(
                                old(self).roster.active@[i].half,
                                left,
                                right,
                                ramp,
                                balance_steps@[i],
                            ),
                            ..old(self).roster.active@[i]
                        }
                    } else {
                        old(self).roster.active@[i]
                    }),
            decreases count - at,
        {
            let steps = balance_steps[at];
            let feed = &mut self.roster.active[at];
            feed.half.balance_left.follow(left, ramp, steps.0);
            feed.half.balance_right.follow(right, ramp, steps.1);
            at = at + 1;
        }
        proof {
            roster::lemma_same_routes(old(self).roster@, self.roster@);
        }
    }

    /// Takes up the mode that the controls report. A change begins a fade from
    /// the old mode on every route; `step` is one over the ramp.
    pub fn switch_mode(&mut self, reported: ChannelMode, step: Scalar)
        requires
            old(self).wf(),
        ensures
            final(self).wf(),
            final(self).active_mode == reported,
            final(self).strip == old(self).strip,
            final(self).plan == old(self).plan,
            final(self).inbox == old(self).inbox,
            final(self).outbox == old(self).outbox,
            final(self).roster@.pending == old(self).roster@.pending,
            final(self).roster@.retiring == old(self).roster@.retiring,
            final(self).roster@.active.len() == old(self).roster@.active.len(),
            forall|i: int|
                0 <= i < old(self).roster@.active.len() ==> (#[trigger] final(
                    self).roster@.active[i]) == (if reported == old(self).active_mode {
                    old(self).roster@.active[i]
                } else {
                    Active {
                        half: FeedHalf {
                            mode_fade: Some(
                                strip::fresh_fade(
                                    old(self).active_mode,
                                    old(self).strip.ramp_frames,
                                    step,
                                ),
                            ),
                            ..old(self).roster@.active[i].half
                        },
                        ..old(self).roster@.active[i]
                    }
                }),
    {
        if reported == self.active_mode {
            return;
        }
        let previous = self.active_mode;
        self.active_mode = reported;
        let ramp: usize = self.strip.ramp_frames;
        let count: usize = self.roster.active.len();
        let mut at: usize = 0;
        while at < count
            invariant
                at <= count == self.roster.active@.len(),
                count == old(self).roster.active@.len(),
                self.strip == old(self).strip,
                ramp == old(self).strip.ramp_frames,
                previous == old(self).active_mode,
                self.roster.pending@ == old(self).roster.pending@,
                self.roster.retiring@ == old(self).roster.retiring@,
                self.active_mode == reported,
                self.plan == old(self).plan,
                self.inbox == old(self).inbox,
                self.outbox == old(self).outbox,
                forall|i: int|
                    0 <= i < count ==> (#[trigger] self.roster.active@[i]) == (if i < at {
                        Active {
                            half: FeedHalf {
                                mode_fade: Some(strip::fresh_fade(previous, ramp, step)),
                                ..old(self).roster.active@[i].half
                            },
                            ..old(self).roster.active@[i]
                        }
                    } else {
                        old(self).roster.active@[i]
                    }),
            decreases count - at,
        {
            let feed = &mut self.roster.active[at];
            feed.half.mode_fade = Some(ModeFade::begin(previous, ramp, step));
            at = at + 1;
        }
        proof {
            roster::lemma_same_routes(old(self).roster@, self.roster@);
        }
    }

    /// How many routes are fed.
    pub fn feed_count(&self) -> (count: usize)
        ensures
            count == self.roster@.active.len(),
    {
        self.roster.active.len()
    }

    /// The channels of a route.
    pub fn feed_channels(&self, feed: usize) -> (channels: usize)
        requires
            feed < self.roster@.active.len(),
        ensures
            channels == self.roster@.active[feed as int].width,
    {
        self.roster.active[feed].width
    }

    /// Whether the ring of a route has room for a frame.
    pub fn feed_has_room(&mut self, feed: usize) -> (room: bool)
        requires
            old(self).wf(),
            feed < old(self).roster@.active.len(),
        ensures
            final(self).wf(),
            final(self).strip == old(self).strip,
            final(self).active_mode == old(self).active_mode,
            final(self).plan == old(self).plan,
            final(self).inbox == old(self).inbox,
            final(self).outbox == old(self).outbox,
            final(self).roster@.pending == old(self).roster@.pending,
            final(self).roster@.retiring == old(self).roster@.retiring,
            ({
                let before = old(self).roster@.active[feed as int];
                let after = final(self).roster@.active[feed as int];
                &&& final(self).roster@.active == old(self).roster@.active.update(
                    feed as int,
                    after,
                )
                &&& after == (Active {
                    half: FeedHalf { producer: after.half.producer, ..before.half },
                    ..before
                })
                &&& rings::ring_written(after.half.producer) == rings::ring_written(
                    before.half.producer,
                )
                &&& rings::writer_goes_on(before.half.producer, after.half.producer)
                &&& room == (rings::ring_room(after.half.producer) >= before.width)
                &&& rings::ring_room(before.half.producer) >= before.width ==> room
            }),
    {
        let item = &mut self.roster.active[feed];
        let room = free_slots(&mut item.half.producer) >= item.width;
        proof {
            roster::lemma_same_routes(old(self).roster@, self.roster@);
        }
        room
    }

    /// What the next frame of a route is scaled with.
    pub fn feed_step(&mut self, feed: usize, steps: FeedSteps) -> (step: FeedStep)
        requires
            old(self).wf(),
            feed < old(self).roster@.active.len(),
        ensures
            final(self).wf(),
            final(self).strip == old(self).strip,
            final(self).active_mode == old(self).active_mode,
            final(self).plan == old(self).plan,
            final(self).inbox == old(self).inbox,
            final(self).outbox == old(self).outbox,
            final(self).roster@.pending == old(self).roster@.pending,
            final(self).roster@.retiring == old(self).roster@.retiring,
            ({
                let before = old(self).roster@.active[feed as int];
                let half = stepped_feed(before.half, steps);
                &&& final(self).roster@.active == old(self).roster@.active.update(
                    feed as int,
                    Active { half, ..before },
                )
                &&& step.left == half.balance_left.current
                &&& step.right == half.balance_right.current
                &&& step.fade == (match half.mode_fade {
                    Some(fade) => Some((fade.previous, fade.mix.current)),
                    None => None,
                })
            }),
    {
        let item = &mut self.roster.active[feed];
        let left = item.half.balance_left.next_value(steps.left);
        let right = item.half.balance_right.next_value(steps.right);
        let fade = match item.half.mode_fade {
            Some(fade) => {
                let mut fade = fade;
                let share = fade.mix.next_value(steps.mix);
                item.half.mode_fade = Some(fade);
                Some((fade.previous, share))
            },
            None => None,
        };
        proof {
            assert(self.roster@.active =~= old(self).roster@.active.update(
                feed as int,
                Active {
                    half: stepped_feed(old(self).roster@.active[feed as int].half, steps),
                    ..old(self).roster@.active[feed as int]
                },
            ));
            roster::lemma_same_routes(old(self).roster@, self.roster@);
        }
        FeedStep { left, right, fade }
    }

    /// Writes a frame into the ring of a route, where all of it fits.
    pub fn feed_frame(&mut self, feed: usize, frame: &Vec<u32>) -> (written: bool)
        requires
            old(self).wf(),
            feed < old(self).roster@.active.len(),
        ensures
            final(self).wf(),
            final(self).strip == old(self).strip,
            final(self).active_mode == old(self).active_mode,
            final(self).plan == old(self).plan,
            final(self).inbox == old(self).inbox,
            final(self).outbox == old(self).outbox,
            final(self).roster@.pending == old(self).roster@.pending,
            final(self).roster@.retiring == old(self).roster@.retiring,
            ({
                let before = old(self).roster@.active[feed as int];
                let after = final(self).roster@.active[feed as int];
                &&& final(self).roster@.active == old(self).roster@.active.update(
                    feed as int,
                    after,
                )
                &&& after == (Active {
                    half: FeedHalf { producer: after.half.producer, ..before.half },
                    ..before
                })
                &&& rings::ring_room(before.half.producer) >= frame@.len() ==> written
                &&& rings::ring_written(after.half.producer) == (if written {
                    rings::ring_written(before.half.producer) + frame@
                } else {
                    rings::ring_written(before.half.producer)
                })
                &&& rings::writer_goes_on(before.half.producer, after.half.producer)
            }),
    {
        let item = &mut self.roster.active[feed];
        let written = write_frame(&mut item.half.producer, frame);
        proof {
            roster::lemma_same_routes(old(self).roster@, self.roster@);
        }
        written
    }

    /// Ends the fades that have reached the new mode.
    pub fn end_fades(&mut self)
        requires
            old(self).wf(),
        ensures
            final(self).wf(),
            final(self).strip == old(self).strip,
            final(self).active_mode == old(self).active_mode,
            final(self).plan == old(self).plan,
            final(self).inbox == old(self).inbox,
            final(self).outbox == old(self).outbox,
            final(self).roster@.pending == old(self).roster@.pending,
            final(self).roster@.retiring == old(self).roster@.retiring,
            final(self).roster@.active.len() == old(self).roster@.active.len(),
            forall|i: int|
                0 <= i < old(self).roster@.active.len() ==> (#[trigger] final(
                    self).roster@.active[i]) == (Active {
                    half: faded_feed(old(self).roster@.active[i].half),
                    ..old(self).roster@.active[i]
                }),
    {
        let count: usize = self.roster.active.len();
        let mut at: usize = 0;
        while at < count
            invariant
                at <= count == self.roster.active@.len(),
                count == old(self).roster.active@.len(),
                self.strip == old(self).strip,
                self.roster.pending@ == old(self).roster.pending@,
                self.roster.retiring@ == old(self).roster.retiring@,
                self.active_mode == old(self).active_mode,
                self.plan == old(self).plan,
                self.inbox == old(self).inbox,
                self.outbox == old(self).outbox,
                forall|i: int|
                    0 <= i < count ==> (#[trigger] self.roster.active@[i]) == (if i < at {
                        Active {
                            half: faded_feed(old(self).roster.active@[i].half),
                            ..old(self).roster.active@[i]
                        }
                    } else {
                        old(self).roster.active@[i]
                    }),
            decreases count - at,
        {
            let over = match self.roster.active[at].half.mode_fade {
                Some(fade) => !fade.mix.is_smoothing(),
                None => false,
            };
            if over {
                let feed = &mut self.roster.active[at];
                feed.half.mode_fade = None;
            }
            at = at + 1;
        }
        proof {
            roster::lemma_same_routes(old(self).roster@, self.roster@);
        }
    }
}

/// A frame moves each parameter of a route by its own step, and nothing else.
pub proof fn law_each_side_of_a_route_takes_its_own_step(half: FeedHalf, steps: FeedSteps)
    ensures
        stepped_feed(half, steps).balance_left == half.balance_left.advanced(steps.left),
        stepped_feed(half, steps).balance_right == half.balance_right.advanced(steps.right),
        stepped_feed(half, steps).producer == half.producer,
        half.mode_fade is None ==> stepped_feed(half, steps).mode_fade is None,
        half.mode_fade matches Some(fade) ==> {
            let after = stepped_feed(half, steps).mode_fade;
            after is Some && after->0.previous == fade.previous && after->0.mix
                == fade.mix.advanced(steps.mix)
        },
{
}

/// A new balance sends the left side of a route towards the left gain and the
/// right side towards the right one, each in its own steps.
pub proof fn law_each_side_of_a_route_heads_for_its_gain(
    half: FeedHalf,
    left: Scalar,
    right: Scalar,
    ramp_frames: usize,
    steps: (Scalar, Scalar),
)
    requires
        left.finite(),
        right.finite(),
    ensures
        ({
            let after = balanced_feed(half, left, right, ramp_frames, steps);
            &&& after.balance_left.target == left || half.balance_left.target.same_value_as(left)
            &&& after.balance_right.target == right || half.balance_right.target.same_value_as(
                right,
            )
            &&& after.balance_left == half.balance_left.following(left, ramp_frames, steps.0)
            &&& after.balance_right == half.balance_right.following(right, ramp_frames, steps.1)
            &&& after.producer == half.producer
            &&& after.mode_fade == half.mode_fade
        }),
{
}

/// A fade ends with its last frame and not before, and nothing but the fade ends.
pub proof fn law_a_fade_ends_with_its_last_frame(half: FeedHalf)
    ensures
        half.mode_fade matches Some(fade) ==> {
            &&& fade.mix.remaining_frames == 0 ==> faded_feed(half).mode_fade is None
            &&& fade.mix.remaining_frames > 0 ==> faded_feed(half).mode_fade == half.mode_fade
        },
        half.mode_fade is None ==> faded_feed(half).mode_fade is None,
        faded_feed(half).producer == half.producer,
        faded_feed(half).balance_left == half.balance_left,
        faded_feed(half).balance_right == half.balance_right,
{
}

/// A block begins without losing a half: what was held and what was delivered is
/// held or went back afterwards, what is in use is listed by the plan, and what
/// waits belongs to a later one.
pub proof fn law_a_block_begins_without_losing_a_half<H, P: RoutePlan>(
    before: roster::RosterModel<H>,
    delivered: Seq<roster::Delivery<H>>,
    plan: P,
    gone: Seq<roster::Retired<H>>,
    after: roster::RosterModel<H>,
)
    requires
        before.with_pending(delivered).wf(),
        begun(before, delivered, plan, gone, after),
    ensures
        after.halves().add(roster::retired_halves(gone)) == before.halves().add(
            roster::pending_halves(delivered),
        ),
        forall|i: int|
            0 <= i < after.active.len() ==> plan.width_listed((#[trigger] after.active[i]).route_id)
                is Some,
        forall|i: int|
            0 <= i < after.pending.len() ==> (#[trigger] after.pending[i]).generation
                > plan.plan_generation(),
{
    let taken = before.with_pending(delivered);
    let settled = taken.settled(plan, 0);
    let followed = settled.reconciled(plan, 0);
    roster::law_settling_loses_nothing(taken, plan, 0);
    roster::law_reconciling_loses_nothing(settled, plan, 0);
    let f = |item: roster::Delivery<H>| (item.route_id, item.half);
    assert((before.pending + delivered).map_values(f) =~= before.pending.map_values(f)
        + delivered.map_values(f));
    vstd::seq_lib::lemma_multiset_commutative(
        before.pending.map_values(f),
        delivered.map_values(f),
    );
    assert(roster::pending_halves(taken.pending) == roster::pending_halves(before.pending).add(
        roster::pending_halves(delivered),
    ));
    assert(taken.halves() =~= before.halves().add(roster::pending_halves(delivered)));
    assert(after.halves().add(roster::retired_halves(gone)) =~= followed.halves());
}

} // verus!
