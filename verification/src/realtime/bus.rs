//! The engine behind the playback callback of an endpoint.
//!
//! A block goes through it in steps: the callback looks at the newest plan,
//! takes up changed controls, and pulls a frame from the ring of every route
//! through its drift corrector.
use std::sync::Arc;

use vstd::prelude::*;

use super::engine::{
    BusHandle, BusInbox, DrawHalf, RetiredConsumer, INBOX_CAPACITY, OUTBOX_CAPACITY,
};
use super::messages::{draw_ring, old_draw_ring, pop_draw};
use super::messages;
use super::plans::{BusPlan, PlanReclaimer, PlanSlot};
use super::rings::{frames_ready, read_frame};
use super::rings;
use super::roster::{Active, Roster, MAX_ROUTES_PER_ENDPOINT};
use super::roster;
use super::source;
use super::stage::apply_output_mode;
use super::stage;
use super::strip::{ModeFade, Strip};
use super::strip;
use crate::domain::controls::ChannelMode;
use crate::dsp::buffer::MAX_CHANNELS;
use crate::dsp::eq;
use crate::dsp::error::DspError;
use crate::dsp::processors::ParameterSmoother;
use crate::dsp::processors;
use crate::scalar::Scalar;

verus! {

/// The engine of a bus.
pub struct BusEngine {
    pub strip: Strip,
    pub balance_left: ParameterSmoother,
    pub balance_right: ParameterSmoother,
    pub roster: Roster<DrawHalf>,
    pub inbox: rtrb::Consumer<BusInbox>,
    pub outbox: rtrb::Producer<RetiredConsumer>,
    pub plan: Arc<PlanSlot<BusPlan>>,
    pub active_mode: ChannelMode,
    pub mode_fade: Option<ModeFade>,
}

/// Whether the frame that was last asked for was taken out of the ring and went
/// through the corrector.
pub open spec fn drew(before: DrawHalf, after: DrawHalf) -> bool {
    let pulled = after.frame@;
    &&& pulled.len() == before.corrector@.current.len()
    &&& forall|i: int|
        0 <= i < pulled.len() && i < rings::ring_ready(before.consumer) ==> #[trigger] pulled[i]
            is Some
    &&& rings::ring_ready(before.consumer) >= pulled.len() ==> rings::ring_ready(after.consumer)
        == rings::ring_ready(before.consumer) - pulled.len()
    &&& rings::ring_read(after.consumer) == rings::ring_read(before.consumer) + rings::came(pulled)
    &&& rings::reader_goes_on(before.consumer, after.consumer)
    &&& after.corrector@ == before.corrector@.pulled(pulled)
    &&& after.scratch == before.scratch
}

/// A saturated block as it is played. While the mode of the bus changes it is
/// `blended`, the block between the two modes; otherwise it is in the mode, where
/// `means` has the mean of every frame.
pub open spec fn played(
    fades: bool,
    mode: ChannelMode,
    channels: int,
    samples: Seq<Scalar>,
    means: Seq<Scalar>,
    blended: Seq<Scalar>,
) -> Seq<Scalar> {
    if fades {
        blended
    } else if channels != 2 || mode == ChannelMode::Auto || mode == ChannelMode::Stereo {
        samples
    } else {
        stage::reshaped(mode, samples, means)
    }
}

/// However hot the sum of the routes is, and whatever numbers are in it, every
/// sample that a bus plays is finite and within full scale, where the bend runs
/// up to full scale and the means and the blend do not leave it.
pub proof fn law_every_sample_of_a_block_is_in_scale(
    fades: bool,
    mode: ChannelMode,
    channels: int,
    sum: Seq<Scalar>,
    bent: Seq<Scalar>,
    means: Seq<Scalar>,
    blended: Seq<Scalar>,
    at: int,
)
    requires
        bent.len() == sum.len(),
        means.len() >= sum.len() / 2,
        blended.len() == sum.len(),
        forall|i: int| 0 <= i < sum.len() ==> #[trigger] eq::on_the_bend(sum[i], bent[i]),
        forall|i: int| 0 <= i < means.len() ==> #[trigger] eq::in_scale(means[i]),
        forall|i: int| 0 <= i < blended.len() ==> #[trigger] eq::in_scale(blended[i]),
        0 <= at < sum.len(),
    ensures
        ({
            let block = played(
                fades,
                mode,
                channels,
                eq::saturated_block(sum, bent),
                means,
                blended,
            );
            block.len() == sum.len() && eq::in_scale(block[at])
        }),
{
    let saturated = eq::saturated_block(sum, bent);
    assert forall|i: int| 0 <= i < sum.len() implies #[trigger] eq::in_scale(saturated[i]) by {
        assert(eq::on_the_bend(sum[i], bent[i]));
        eq::law_saturation_is_bounded(sum[i], bent[i]);
    }
    let frame = at / 2;
    assert(eq::in_scale(saturated[at]));
    assert(eq::in_scale(blended[at]));
    if 2 * frame + 1 < sum.len() {
        assert(eq::in_scale(saturated[2 * frame]));
        assert(eq::in_scale(saturated[2 * frame + 1]));
        assert(eq::in_scale(means[frame]));
    }
}

/// A bus without routes is silent: a sum of zeros is played as zeros, in every
/// mode and wherever the bend runs.
pub proof fn law_an_empty_bus_is_silent(
    fades: bool,
    mode: ChannelMode,
    channels: int,
    sum: Seq<Scalar>,
    bent: Seq<Scalar>,
    means: Seq<Scalar>,
    blended: Seq<Scalar>,
    at: int,
)
    requires
        bent.len() == sum.len(),
        means.len() >= sum.len() / 2,
        blended.len() == sum.len(),
        forall|i: int| 0 <= i < sum.len() ==> (#[trigger] sum[i]).bits == 0,
        forall|i: int| 0 <= i < means.len() ==> (#[trigger] means[i]).bits == 0,
        forall|i: int| 0 <= i < blended.len() ==> (#[trigger] blended[i]).bits == 0,
        0 <= at < sum.len(),
    ensures
        played(
            fades,
            mode,
            channels,
            eq::saturated_block(sum, bent),
            means,
            blended,
        )[at].bits == 0,
{
    let saturated = eq::saturated_block(sum, bent);
    assert forall|i: int| 0 <= i < sum.len() implies (#[trigger] saturated[i]).bits == 0 by {
        assert(sum[i].bits == 0);
    }
    let frame = at / 2;
    assert(blended[at].bits == 0);
    if 2 * frame + 1 < sum.len() {
        assert(saturated[2 * frame].bits == 0);
        assert(saturated[2 * frame + 1].bits == 0);
        assert(means[frame].bits == 0);
    }
}

impl BusEngine {
    pub open spec fn wf(self) -> bool {
        &&& self.strip.wf()
        &&& self.roster@.wf()
    }

    /// An engine without routes, and what the thread behind it holds. `gain`
    /// is the linear gain, and `balance` has the gains of the two sides.
    pub fn new(
        channels: usize,
        rate: u32,
        gain: Scalar,
        muted: bool,
        balance: (Scalar, Scalar),
        mode: ChannelMode,
        plan_slot: Arc<PlanSlot<BusPlan>>,
    ) -> (result: Result<(Self, BusHandle), DspError>)
        requires
            2 * stage::delay_capacity(rate, channels) <= usize::MAX,
        ensures
            match result {
                Ok((engine, handle)) => {
                    &&& 1 <= channels <= MAX_CHANNELS
                    &&& gain.finite() && balance.0.finite() && balance.1.finite()
                    &&& engine.wf()
                    &&& engine.strip.fresh(channels, rate, gain, muted)
                    &&& engine.balance_left == processors::resting(balance.0)
                    &&& engine.balance_right == processors::resting(balance.1)
                    &&& engine.roster@.count() == 0
                    &&& engine.active_mode == mode
                    &&& engine.mode_fade is None
                    &&& engine.plan == plan_slot
                    &&& handle.plan_slot == plan_slot
                    &&& handle.reclaimer.retired@.len() == 0
                    &&& messages::draws_joined(handle.inbox, engine.inbox)
                    &&& messages::draws_sent(handle.inbox).len() == 0
                    &&& messages::draws_room(handle.inbox) == INBOX_CAPACITY
                    &&& messages::draws_taken(engine.inbox).len() == 0
                    &&& messages::draws_ready(engine.inbox) == 0
                    &&& messages::draws_sent_in_order(handle.inbox)
                    &&& messages::draws_taken_in_order(engine.inbox)
                    &&& messages::old_draws_joined(engine.outbox, handle.retired)
                    &&& messages::old_draws_sent(engine.outbox).len() == 0
                    &&& messages::old_draws_room(engine.outbox) == OUTBOX_CAPACITY
                    &&& messages::old_draws_taken(handle.retired).len() == 0
                    &&& messages::old_draws_ready(handle.retired) == 0
                    &&& messages::old_draws_sent_in_order(engine.outbox)
                    &&& messages::old_draws_taken_in_order(handle.retired)
                },
                Err(error) => if !(1 <= channels <= MAX_CHANNELS) {
                    error == DspError::InvalidChannelCount(channels)
                } else {
                    &&& error == DspError::InvalidParameter("smoother value")
                    &&& !gain.finite() || !balance.0.finite() || !balance.1.finite()
                },
            },
    {
        let strip = match Strip::new(channels, rate, gain, muted) {
            Ok(strip) => strip,
            Err(error) => {
                return Err(error);
            },
        };
        let balance_left = match ParameterSmoother::new(balance.0) {
            Ok(smoother) => smoother,
            Err(error) => {
                return Err(error);
            },
        };
        let balance_right = match ParameterSmoother::new(balance.1) {
            Ok(smoother) => smoother,
            Err(error) => {
                return Err(error);
            },
        };
        let (inbox_writer, inbox) = draw_ring(INBOX_CAPACITY);
        let (outbox, retired) = old_draw_ring(OUTBOX_CAPACITY);
        let engine = BusEngine {
            strip,
            balance_left,
            balance_right,
            roster: Roster::new(),
            inbox,
            outbox,
            plan: plan_slot.clone(),
            active_mode: mode,
            mode_fade: None,
        };
        let handle = BusHandle {
            inbox: inbox_writer,
            retired,
            plan_slot,
            reclaimer: PlanReclaimer::new(),
        };
        Ok((engine, handle))
    }

    /// Whether everything but the routes is as before.
    pub open spec fn same_strip(self, other: BusEngine) -> bool {
        &&& self.same_controls(other)
        &&& self.inbox == other.inbox
        &&& self.outbox == other.outbox
    }

    /// Whether everything but the routes and the rings that bring and take them
    /// is as before.
    pub open spec fn same_controls(self, other: BusEngine) -> bool {
        &&& self.strip == other.strip
        &&& self.balance_left == other.balance_left
        &&& self.balance_right == other.balance_right
        &&& self.plan == other.plan
        &&& self.active_mode == other.active_mode
        &&& self.mode_fade == other.mode_fade
    }

    /// Takes in what was delivered, until the inbox is found empty or there is no
    /// room for more.
    pub fn take_deliveries(&mut self)
        requires
            old(self).wf(),
        ensures
            final(self).wf(),
            final(self).same_controls(*old(self)),
            final(self).roster@.active == old(self).roster@.active,
            final(self).roster@.retiring == old(self).roster@.retiring,
            final(self).roster@.pending.len() >= old(self).roster@.pending.len(),
            final(self).roster@.pending.take(old(self).roster@.pending.len() as int) == old(
                self).roster@.pending,
            messages::draws_taken(final(self).inbox) == messages::draws_taken(old(self).inbox)
                + final(self).roster@.pending.skip(old(self).roster@.pending.len() as int),
            final(self).roster@.has_space() ==> {
                &&& messages::draws_ready(final(self).inbox) == 0
                &&& final(self).roster@.pending.len() >= old(self).roster@.pending.len()
                    + messages::draws_ready(old(self).inbox)
            },
            messages::draws_reader_goes_on(old(self).inbox, final(self).inbox),
            final(self).outbox == old(self).outbox,
    {
        let mut open = true;
        let ghost first = self.roster@.pending.len() as int;
        assert(self.roster@.pending.take(first) =~= self.roster@.pending);
        assert(messages::draws_taken(self.inbox) =~= messages::draws_taken(self.inbox)
            + self.roster@.pending.skip(first));
        while open && self.roster.has_room()
            invariant
                self.wf(),
                self.same_controls(*old(self)),
                self.roster@.active == old(self).roster@.active,
                self.roster@.retiring == old(self).roster@.retiring,
                first == old(self).roster@.pending.len(),
                self.roster@.pending.len() >= first,
                self.roster@.pending.take(first) == old(self).roster@.pending,
                messages::draws_taken(self.inbox) == messages::draws_taken(old(self).inbox)
                    + self.roster@.pending.skip(first),
                self.roster@.pending.len() - first + messages::draws_ready(self.inbox)
                    >= messages::draws_ready(old(self).inbox),
                !open ==> messages::draws_ready(self.inbox) == 0,
                messages::draws_reader_goes_on(old(self).inbox, self.inbox),
                self.outbox == old(self).outbox,
            decreases MAX_ROUTES_PER_ENDPOINT - self.roster@.pending.len() + if open {
                1int
            } else {
                0int
            },
        {
            match pop_draw(&mut self.inbox) {
                Some(delivery) => {
                    let ghost before = self.roster@.pending;
                    self.roster.take_in(delivery);
                    assert(before.push(delivery).take(first) =~= before.take(first));
                    assert(messages::draws_taken(self.inbox) =~= messages::draws_taken(
                        old(self).inbox,
                    ) + self.roster@.pending.skip(first));
                },
                None => {
                    open = false;
                },
            }
        }
    }

    /// Follows a plan: puts to use what it lists, and sends back what it does
    /// not list.
    pub fn follow_plan(&mut self, plan: &BusPlan)
        requires
            old(self).wf(),
        ensures
            final(self).wf(),
            final(self).roster@ == old(self).roster@.settled(*plan, 0).reconciled(*plan, 0),
            source::follows(final(self).roster@, *plan),
            final(self).roster@.halves() == old(self).roster@.halves(),
            final(self).same_strip(*old(self)),
    {
        proof {
            source::law_a_reconciled_roster_follows_its_plan(self.roster@, *plan);
        }
        self.roster.settle(plan);
        self.roster.reconcile(plan);
    }

    /// Begins a block with the newest plan and hands back what is no longer
    /// used. The result is the generation of the plan.
    pub fn begin_block(&mut self) -> (generation: u64)
        requires
            old(self).wf(),
        ensures
            final(self).wf(),
            exists|
                delivered: Seq<roster::Delivery<DrawHalf>>,
                plan: BusPlan,
                gone: Seq<roster::Retired<DrawHalf>>,
            |
                {
                    &&& plan.generation == generation
                    &&& old(self).plan.had(plan)
                    &&& #[trigger] source::begun(
                        old(self).roster@,
                        delivered,
                        plan,
                        gone,
                        final(self).roster@,
                    )
                    &&& messages::draws_taken(final(self).inbox) == messages::draws_taken(
                        old(self).inbox,
                    ) + delivered
                    &&& old(self).roster@.with_pending(delivered).has_space()
                        ==> messages::draws_ready(final(self).inbox) == 0
                    &&& messages::old_draws_sent(final(self).outbox) == messages::old_draws_sent(
                        old(self).outbox,
                    ) + gone
                    &&& gone.len() >= messages::old_draws_room(old(self).outbox) || final(
                        self).roster@.retiring.len() == 0
                },
            messages::draws_reader_goes_on(old(self).inbox, final(self).inbox),
            messages::old_draws_writer_goes_on(old(self).outbox, final(self).outbox),
            final(self).same_controls(*old(self)),
    {
        let plan = self.plan.load();
        let generation: u64 = plan.generation;
        self.take_deliveries();
        let ghost delivered = self.roster@.pending.skip(old(self).roster@.pending.len() as int);
        assert(self.roster@.pending =~= old(self).roster@.pending + delivered);
        assert(self.roster@ == old(self).roster@.with_pending(delivered));
        self.follow_plan(&plan);
        let ghost followed = self.roster@;
        self.roster.hand_back(&mut self.outbox);
        proof {
            let gone = choose|gone: Seq<roster::Retired<DrawHalf>>|
                {
                    &&& #[trigger] roster::handed_back(followed, gone, self.roster@)
                    &&& messages::old_draws_sent(self.outbox) == messages::old_draws_sent(
                        old(self).outbox,
                    ) + gone
                    &&& gone.len() >= messages::old_draws_room(old(self).outbox)
                        || self.roster@.retiring.len() == 0
                };
            assert(source::begun(old(self).roster@, delivered, *plan, gone, self.roster@));
        }
        generation
    }

    /// Ends a block: the callback is done with the generation of its plan.
    pub fn end_block(&self, generation: u64)
        ensures
            self.plan.completions().contains(generation),
    {
        self.plan.complete(generation);
    }

    /// Heads for the controls of the endpoint. The steps are the differences
    /// over the ramp.
    pub fn refresh_targets(
        &mut self,
        gain: Scalar,
        gain_step: Scalar,
        muted: bool,
        audible_step: Scalar,
        balance: (Scalar, Scalar),
        balance_steps: (Scalar, Scalar),
    )
        requires
            old(self).wf(),
        ensures
            final(self).wf(),
            final(self).roster == old(self).roster,
            final(self).same_strip(
                BusEngine {
                    strip: Strip {
                        gain: old(self).strip.gain.following(
                            gain,
                            old(self).strip.ramp_frames,
                            gain_step,
                        ),
                        audible: old(self).strip.audible.following(
                            processors::audibility(muted),
                            old(self).strip.ramp_frames,
                            audible_step,
                        ),
                        ..old(self).strip
                    },
                    balance_left: old(self).balance_left.following(
                        balance.0,
                        old(self).strip.ramp_frames,
                        balance_steps.0,
                    ),
                    balance_right: old(self).balance_right.following(
                        balance.1,
                        old(self).strip.ramp_frames,
                        balance_steps.1,
                    ),
                    ..*old(self)
                },
            ),
    {
        self.strip.refresh_targets(gain, gain_step, muted, audible_step);
        let ramp: usize = self.strip.ramp_frames;
        self.balance_left.follow(balance.0, ramp, balance_steps.0);
        self.balance_right.follow(balance.1, ramp, balance_steps.1);
    }

    /// Takes up the mode that the controls report. A change begins a fade from
    /// the old mode on a stereo bus; other buses have no modes. `step` is one
    /// over the ramp.
    pub fn switch_mode(&mut self, reported: ChannelMode, step: Scalar)
        requires
            old(self).wf(),
        ensures
            final(self).wf(),
            final(self).roster == old(self).roster,
            final(self).same_strip(
                BusEngine {
                    active_mode: reported,
                    mode_fade: if reported != old(self).active_mode && old(self).strip.channels
                        == 2 {
                        Some(
                            strip::fresh_fade(
                                old(self).active_mode,
                                old(self).strip.ramp_frames,
                                step,
                            ),
                        )
                    } else {
                        old(self).mode_fade
                    },
                    ..*old(self)
                },
            ),
    {
        if reported != self.active_mode {
            if self.strip.channels == 2 {
                self.mode_fade = Some(
                    ModeFade::begin(self.active_mode, self.strip.ramp_frames, step),
                );
            }
            self.active_mode = reported;
        }
    }

    /// The gains of the two sides for the next frame. The arguments are their
    /// stepped values.
    pub fn next_balance(&mut self, stepped_left: Scalar, stepped_right: Scalar) -> (gains: (
        Scalar,
        Scalar,
    ))
        ensures
            final(self).roster == old(self).roster,
            final(self).same_strip(
                BusEngine {
                    balance_left: old(self).balance_left.advanced(stepped_left),
                    balance_right: old(self).balance_right.advanced(stepped_right),
                    ..*old(self)
                },
            ),
            gains == (final(self).balance_left.current, final(self).balance_right.current),
    {
        let left = self.balance_left.next_value(stepped_left);
        let right = self.balance_right.next_value(stepped_right);
        (left, right)
    }

    /// The share of the new mode in the next frame while the mode changes, with
    /// the previous mode.
    pub fn next_mix(&mut self, stepped: Scalar) -> (mix: Option<(ChannelMode, Scalar)>)
        ensures
            final(self).roster == old(self).roster,
            final(self).same_strip(
                BusEngine {
                    mode_fade: match old(self).mode_fade {
                        Some(fade) => Some(
                            ModeFade { previous: fade.previous, mix: fade.mix.advanced(stepped) },
                        ),
                        None => None,
                    },
                    ..*old(self)
                },
            ),
            mix == (match final(self).mode_fade {
                Some(fade) => Some((fade.previous, fade.mix.current)),
                None => None,
            }),
    {
        match self.mode_fade {
            Some(fade) => {
                let mut fade = fade;
                let share = fade.mix.next_value(stepped);
                self.mode_fade = Some(fade);
                Some((fade.previous, share))
            },
            None => None,
        }
    }

    /// Puts a saturated block into the mode of the bus. `means` has the mean of
    /// every frame, and `blended` the block between the two modes; only one of
    /// them is looked at.
    pub fn shape_block(
        &self,
        samples: &mut Vec<Scalar>,
        means: &Vec<Scalar>,
        blended: &Vec<Scalar>,
    )
        requires
            self.mode_fade is Some ==> blended@.len() == old(samples)@.len(),
            self.mode_fade is None ==> means@.len() >= old(samples)@.len() / 2,
        ensures
            final(samples)@ == played(
                self.mode_fade is Some,
                self.active_mode,
                self.strip.channels as int,
                old(samples)@,
                means@,
                blended@,
            ),
    {
        if self.mode_fade.is_none() {
            apply_output_mode(self.active_mode, samples, self.strip.channels, means);
            return;
        }
        let count: usize = samples.len();
        let mut at: usize = 0;
        while at < count
            invariant
                at <= count == samples@.len(),
                count == blended@.len(),
                forall|i: int| 0 <= i < at ==> (#[trigger] samples@[i]) == blended@[i],
            decreases count - at,
        {
            samples.set(at, blended[at]);
            at = at + 1;
        }
        assert(samples@ =~= blended@);
    }

    /// Ends a fade that has reached the new mode.
    pub fn end_fade(&mut self)
        ensures
            final(self).roster == old(self).roster,
            final(self).same_strip(
                BusEngine {
                    mode_fade: match old(self).mode_fade {
                        Some(fade) => if fade.mix.remaining_frames == 0 {
                            None
                        } else {
                            Some(fade)
                        },
                        None => None,
                    },
                    ..*old(self)
                },
            ),
    {
        let over = match self.mode_fade {
            Some(fade) => !fade.mix.is_smoothing(),
            None => false,
        };
        if over {
            self.mode_fade = None;
        }
    }

    /// How many routes are summed.
    pub fn draw_count(&self) -> (count: usize)
        ensures
            count == self.roster@.active.len(),
    {
        self.roster.active.len()
    }

    /// How many frames a route has buffered.
    pub fn draw_occupancy(&mut self, draw: usize) -> (frames: usize)
        requires
            old(self).wf(),
            draw < old(self).roster@.active.len(),
        ensures
            final(self).wf(),
            final(self).same_strip(*old(self)),
            final(self).roster@.pending == old(self).roster@.pending,
            final(self).roster@.retiring == old(self).roster@.retiring,
            ({
                let before = old(self).roster@.active[draw as int];
                let after = final(self).roster@.active[draw as int];
                &&& final(self).roster@.active == old(self).roster@.active.update(
                    draw as int,
                    after,
                )
                &&& after == (Active {
                    half: DrawHalf { consumer: after.half.consumer, ..before.half },
                    ..before
                })
                &&& rings::ring_read(after.half.consumer) == rings::ring_read(before.half.consumer)
                &&& rings::reader_goes_on(before.half.consumer, after.half.consumer)
                &&& frames == rings::ring_ready(after.half.consumer) as int
                    / old(self).strip.channels as int
            }),
    {
        let channels: usize = self.strip.channels;
        let item = &mut self.roster.active[draw];
        let frames: usize = frames_ready(&mut item.half.consumer, channels);
        proof {
            let ready = rings::ring_ready(self.roster@.active[draw as int].half.consumer) as int;
            assert(frames == ready / channels as int) by (nonlinear_arith)
                requires
                    frames * channels <= ready < (frames + 1) * channels,
                    channels > 0,
            ;
            roster::lemma_same_routes(old(self).roster@, self.roster@);
        }
        frames
    }

    /// Pulls one frame of a route out of its ring and through its corrector.
    pub fn draw_frame(&mut self, draw: usize)
        requires
            old(self).wf(),
            draw < old(self).roster@.active.len(),
            old(self).roster@.active[draw as int].half.corrector@.previous.len() == old(
                self).roster@.active[draw as int].half.corrector@.current.len(),
        ensures
            final(self).wf(),
            final(self).same_strip(*old(self)),
            final(self).roster@.pending == old(self).roster@.pending,
            final(self).roster@.retiring == old(self).roster@.retiring,
            ({
                let before = old(self).roster@.active[draw as int];
                let after = final(self).roster@.active[draw as int];
                &&& final(self).roster@.active == old(self).roster@.active.update(
                    draw as int,
                    after,
                )
                &&& after == (Active { half: after.half, ..before })
                &&& drew(before.half, after.half)
            }),
    {
        let item = &mut self.roster.active[draw];
        let width: usize = item.half.corrector.current.len();
        read_frame(&mut item.half.consumer, width, &mut item.half.frame);
        item.half.corrector.pull_frame(&item.half.frame);
        proof {
            assert(drew(
                old(self).roster@.active[draw as int].half,
                self.roster@.active[draw as int].half,
            ));
            roster::lemma_same_routes(old(self).roster@, self.roster@);
        }
    }
}

/// A frame that was drawn came out of the ring in order: as many samples as the
/// route has channels were asked for, those that were there came, and the ring is
/// short of exactly what came.
pub proof fn law_a_drawn_frame_came_out_of_the_ring(before: DrawHalf, after: DrawHalf)
    requires
        drew(before, after),
        rings::ring_ready(before.consumer) >= before.corrector@.current.len(),
    ensures
        after.frame@.len() == before.corrector@.current.len(),
        forall|i: int| 0 <= i < after.frame@.len() ==> (#[trigger] after.frame@[i]) is Some,
        rings::ring_ready(after.consumer) == rings::ring_ready(before.consumer)
            - after.frame@.len(),
        rings::ring_read(after.consumer).len() == rings::ring_read(before.consumer).len()
            + after.frame@.len(),
        forall|i: int|
            0 <= i < rings::ring_read(before.consumer).len() ==> (#[trigger] rings::ring_read(
                after.consumer,
            )[i]) == rings::ring_read(before.consumer)[i],
        forall|i: int|
            0 <= i < after.frame@.len() ==> rings::ring_read(
                after.consumer,
            )[rings::ring_read(before.consumer).len() + i] == (#[trigger] after.frame@[i])->0.bits,
        rings::ring_life_out(after.consumer) == rings::ring_life_out(before.consumer),
        after.corrector@ == before.corrector@.pulled(after.frame@),
        after.scratch@ == before.scratch@,
{
    rings::law_what_came_is_in_order(after.frame@);
}

/// What is held aside from the routes is the strip, the balance, the mode and its
/// fade, the plan and the two rings.
pub proof fn law_everything_but_the_routes_is_named(one: BusEngine, other: BusEngine)
    ensures
        one.same_strip(other) && one.roster == other.roster <==> one == other,
        one.same_controls(other) && one.roster == other.roster && one.inbox == other.inbox
            && one.outbox == other.outbox <==> one == other,
{
}

} // verus!
