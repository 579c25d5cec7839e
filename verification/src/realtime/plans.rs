//! Plans: what a callback is to do, published by one thread and followed by
//! another, and the reclamation of plans that are no longer followed.
use std::sync::atomic::{AtomicU64, Ordering};
use std::sync::Arc;

use vstd::prelude::*;

use super::roster::{Planned, RoutePlan};
use crate::domain::ids::RouteId;

verus! {

/// Holds the newest plan in an `arc_swap::ArcSwap`. Other threads change what it
/// holds at any time, so what is said of it is said of its whole life.
#[verifier::external_body]
#[verifier::reject_recursive_types(P)]
pub struct PlanCell<P> {
    plan: arc_swap::ArcSwap<P>,
}

/// The plan with which a cell of a source was made.
pub uninterp spec fn first_source_plan(cell: PlanCell<SourcePlan>) -> SourcePlan;

/// What was swapped in a cell of a source while it lives: of each swap the plan
/// that was put in and the one that was taken out.
pub uninterp spec fn source_plan_swaps(cell: PlanCell<SourcePlan>) -> Set<(SourcePlan, SourcePlan)>;

/// Whether a plan is the first in a cell of a source or was put there.
pub open spec fn source_plan_was_there(cell: PlanCell<SourcePlan>, plan: SourcePlan) -> bool {
    plan == first_source_plan(cell) || exists|taken: SourcePlan| #[trigger]
        source_plan_swaps(cell).contains((plan, taken))
}

/// Calls `arc_swap::ArcSwap::from_pointee`, which puts the first plan of a
/// source there.
#[verifier::external_body]
fn source_plan_cell(initial: SourcePlan) -> (cell: PlanCell<SourcePlan>)
    ensures
        first_source_plan(cell) == initial,
{
    PlanCell { plan: arc_swap::ArcSwap::from_pointee(initial) }
}

/// Calls `arc_swap::ArcSwap::load_full`: the plan of a source that is there
/// now. It is the first or one that was put there; which one depends on the
/// publishing thread.
#[verifier::external_body]
fn loaded_source_plan(cell: &PlanCell<SourcePlan>) -> (plan: Arc<SourcePlan>)
    ensures
        source_plan_was_there(*cell, *plan),
{
    cell.plan.load_full()
}

/// Calls `arc_swap::ArcSwap::swap`: puts a plan of a source there and hands
/// out the one that was there.
#[verifier::external_body]
fn swapped_source_plan(cell: &PlanCell<SourcePlan>, next: Arc<SourcePlan>) -> (previous: Arc<
    SourcePlan,
>)
    ensures
        source_plan_swaps(*cell).contains((*next, *previous)),
        source_plan_was_there(*cell, *previous),
{
    cell.plan.swap(next)
}

/// The plan with which a cell of a bus was made.
pub uninterp spec fn first_bus_plan(cell: PlanCell<BusPlan>) -> BusPlan;

/// What was swapped in a cell of a bus while it lives: of each swap the plan
/// that was put in and the one that was taken out.
pub uninterp spec fn bus_plan_swaps(cell: PlanCell<BusPlan>) -> Set<(BusPlan, BusPlan)>;

/// Whether a plan is the first in a cell of a bus or was put there.
pub open spec fn bus_plan_was_there(cell: PlanCell<BusPlan>, plan: BusPlan) -> bool {
    plan == first_bus_plan(cell) || exists|taken: BusPlan| #[trigger]
        bus_plan_swaps(cell).contains((plan, taken))
}

/// Calls `arc_swap::ArcSwap::from_pointee`, which puts the first plan of a
/// bus there.
#[verifier::external_body]
fn bus_plan_cell(initial: BusPlan) -> (cell: PlanCell<BusPlan>)
    ensures
        first_bus_plan(cell) == initial,
{
    PlanCell { plan: arc_swap::ArcSwap::from_pointee(initial) }
}

/// Calls `arc_swap::ArcSwap::load_full`: the plan of a bus that is there
/// now. It is the first or one that was put there; which one depends on the
/// publishing thread.
#[verifier::external_body]
fn loaded_bus_plan(cell: &PlanCell<BusPlan>) -> (plan: Arc<BusPlan>)
    ensures
        bus_plan_was_there(*cell, *plan),
{
    cell.plan.load_full()
}

/// Calls `arc_swap::ArcSwap::swap`: puts a plan of a bus there and hands
/// out the one that was there.
#[verifier::external_body]
fn swapped_bus_plan(cell: &PlanCell<BusPlan>, next: Arc<BusPlan>) -> (previous: Arc<BusPlan>)
    ensures
        bus_plan_swaps(*cell).contains((*next, *previous)),
        bus_plan_was_there(*cell, *previous),
{
    cell.plan.swap(next)
}

/// The generation with which a counter was made.
pub uninterp spec fn first_report(counter: AtomicU64) -> u64;

/// What was swapped in a counter while it lives: of each swap the generation
/// that was put in and the one that was taken out.
pub uninterp spec fn report_swaps(counter: AtomicU64) -> Set<(u64, u64)>;

/// Whether a generation is the first in a counter or was put there.
pub open spec fn report_was_there(counter: AtomicU64, generation: u64) -> bool {
    generation == first_report(counter) || exists|taken: u64| #[trigger]
        report_swaps(counter).contains((generation, taken))
}

/// Calls `AtomicU64::new`, which puts the first generation there.
#[verifier::external_body]
fn report_counter(initial: u64) -> (counter: AtomicU64)
    ensures
        first_report(counter) == initial,
{
    AtomicU64::new(initial)
}

/// Calls `AtomicU64::swap`: puts a generation there and hands out the one that
/// was there.
#[verifier::external_body]
fn swapped_report(counter: &AtomicU64, generation: u64) -> (previous: u64)
    ensures
        report_swaps(*counter).contains((generation, previous)),
        report_was_there(*counter, previous),
{
    counter.swap(generation, Ordering::AcqRel)
}

/// Calls `AtomicU64::load`: the generation that is there now. It is the first or
/// one that was put there; which one depends on the callback.
#[verifier::external_body]
fn newest_report(counter: &AtomicU64) -> (generation: u64)
    ensures
        report_was_there(*counter, generation),
{
    counter.load(Ordering::Acquire)
}

/// The newest plan, and the newest generation that the callback is done with.
/// Two threads share it: what is read was put there, and when is not said.
#[verifier::reject_recursive_types(P)]
pub struct PlanSlot<P> {
    plan: PlanCell<P>,
    completed_generation: AtomicU64,
}

impl<P> PlanSlot<P> {
    /// The generation that counts as done before the callback says anything.
    pub closed spec fn first_completed(self) -> u64 {
        first_report(self.completed_generation)
    }

    /// The generations that the callback says it is done with while the slot
    /// lives.
    pub closed spec fn completions(self) -> Set<u64> {
        Set::new(
            |generation: u64|
                exists|taken: u64| #[trigger]
                    report_swaps(self.completed_generation).contains((generation, taken)),
        )
    }

    /// Whether a generation is the first or one that the callback is done with.
    pub open spec fn had_report(self, generation: u64) -> bool {
        generation == self.first_completed() || self.completions().contains(generation)
    }

    /// Says that the callback is done with a generation.
    pub fn complete(&self, generation: u64)
        ensures
            self.completions().contains(generation),
    {
        let _previous: u64 = swapped_report(&self.completed_generation, generation);
    }

    /// The newest generation that the callback is done with.
    pub fn completed(&self) -> (generation: u64)
        ensures
            self.had_report(generation),
    {
        newest_report(&self.completed_generation)
    }
}

impl PlanSlot<SourcePlan> {
    /// The plan with which the slot was made.
    pub closed spec fn first(self) -> SourcePlan {
        first_source_plan(self.plan)
    }

    /// What was published while the slot lives: of each time the plan that was
    /// put there and the one that was taken out.
    pub closed spec fn swaps(self) -> Set<(SourcePlan, SourcePlan)> {
        source_plan_swaps(self.plan)
    }

    /// Whether a plan is the first or was published.
    pub open spec fn had(self, plan: SourcePlan) -> bool {
        plan == self.first() || exists|taken: SourcePlan| #[trigger]
            self.swaps().contains((plan, taken))
    }

    /// A slot with a first plan, of which no generation is done with.
    pub fn new(initial: SourcePlan) -> (slot: Self)
        ensures
            slot.first() == initial,
            slot.first_completed() == 0,
    {
        PlanSlot { plan: source_plan_cell(initial), completed_generation: report_counter(0) }
    }

    /// The newest plan, for the callback.
    pub fn load(&self) -> (plan: Arc<SourcePlan>)
        ensures
            self.had(*plan),
    {
        let plan = loaded_source_plan(&self.plan);
        proof {
            self.lemma_had();
        }
        plan
    }

    /// Publishes a plan and hands out the one before it.
    pub fn publish(&self, next: SourcePlan) -> (previous: Arc<SourcePlan>)
        ensures
            self.swaps().contains((next, *previous)),
            self.had(*previous),
    {
        let previous = swapped_source_plan(&self.plan, Arc::new(next));
        proof {
            self.lemma_had();
        }
        previous
    }

    proof fn lemma_had(self)
        ensures
            forall|plan: SourcePlan| #[trigger]
                source_plan_was_there(self.plan, plan) ==> self.had(plan),
    {
        assert forall|plan: SourcePlan| #[trigger]
            source_plan_was_there(self.plan, plan) implies self.had(plan) by {
            if plan != self.first() {
                let taken = choose|taken: SourcePlan| #[trigger]
                    source_plan_swaps(self.plan).contains((plan, taken));
                assert(self.swaps().contains((plan, taken)));
            }
        }
    }
}

impl PlanSlot<BusPlan> {
    /// The plan with which the slot was made.
    pub closed spec fn first(self) -> BusPlan {
        first_bus_plan(self.plan)
    }

    /// What was published while the slot lives: of each time the plan that was
    /// put there and the one that was taken out.
    pub closed spec fn swaps(self) -> Set<(BusPlan, BusPlan)> {
        bus_plan_swaps(self.plan)
    }

    /// Whether a plan is the first or was published.
    pub open spec fn had(self, plan: BusPlan) -> bool {
        plan == self.first() || exists|taken: BusPlan| #[trigger]
            self.swaps().contains((plan, taken))
    }

    /// A slot with a first plan, of which no generation is done with.
    pub fn new(initial: BusPlan) -> (slot: Self)
        ensures
            slot.first() == initial,
            slot.first_completed() == 0,
    {
        PlanSlot { plan: bus_plan_cell(initial), completed_generation: report_counter(0) }
    }

    /// The newest plan, for the callback.
    pub fn load(&self) -> (plan: Arc<BusPlan>)
        ensures
            self.had(*plan),
    {
        let plan = loaded_bus_plan(&self.plan);
        proof {
            self.lemma_had();
        }
        plan
    }

    /// Publishes a plan and hands out the one before it.
    pub fn publish(&self, next: BusPlan) -> (previous: Arc<BusPlan>)
        ensures
            self.swaps().contains((next, *previous)),
            self.had(*previous),
    {
        let previous = swapped_bus_plan(&self.plan, Arc::new(next));
        proof {
            self.lemma_had();
        }
        previous
    }

    proof fn lemma_had(self)
        ensures
            forall|plan: BusPlan| #[trigger]
                bus_plan_was_there(self.plan, plan) ==> self.had(plan),
    {
        assert forall|plan: BusPlan| #[trigger]
            bus_plan_was_there(self.plan, plan) implies self.had(plan) by {
            if plan != self.first() {
                let taken = choose|taken: BusPlan| #[trigger]
                    bus_plan_swaps(self.plan).contains((plan, taken));
                assert(self.swaps().contains((plan, taken)));
            }
        }
    }
}

/// Plans that are no longer published but may still be followed.
#[derive(Debug)]
pub struct PlanReclaimer<P> {
    pub retired: Vec<Arc<P>>,
}

/// The plans that the callback may still follow: until it is done with a newer
/// generation, it may hold the plan of the last one.
pub open spec fn still_followed<P: Planned>(retired: Seq<Arc<P>>, completed: u64) -> Seq<Arc<P>>
    decreases retired.len(),
{
    if retired.len() == 0 {
        Seq::empty()
    } else {
        let before = still_followed(retired.drop_last(), completed);
        if retired.last().plan_generation() >= completed {
            before.push(retired.last())
        } else {
            before
        }
    }
}

/// A retired plan is kept exactly as long as the callback is not done with a
/// newer generation.
pub proof fn law_only_completed_plans_are_reclaimed<P: Planned>(
    retired: Seq<Arc<P>>,
    completed: u64,
    plan: Arc<P>,
)
    requires
        retired.contains(plan),
    ensures
        still_followed(retired, completed).contains(plan) <==> plan.plan_generation() >= completed,
    decreases retired.len(),
{
    let rest = retired.drop_last();
    let before = still_followed(rest, completed);
    let after = still_followed(retired, completed);
    lemma_followed_are_not_older(retired, completed);
    if plan.plan_generation() >= completed {
        if retired.last() == plan {
            assert(after[before.len() as int] == plan);
        } else {
            let i = choose|i: int| 0 <= i < retired.len() && retired[i] == plan;
            assert(rest[i] == plan);
            law_only_completed_plans_are_reclaimed(rest, completed, plan);
            let j = choose|j: int| 0 <= j < before.len() && before[j] == plan;
            assert(after[j] == plan);
        }
    } else if after.contains(plan) {
        let j = choose|j: int| 0 <= j < after.len() && after[j] == plan;
        assert(after[j].plan_generation() >= completed);
    }
}

/// A plan goes only after the callback has said that it is done with a newer
/// generation: whatever generation a slot reports, a retired plan that is not
/// kept is older than one of those that the callback reported.
pub proof fn law_a_plan_goes_only_after_a_completed_generation<P: Planned>(
    slot: PlanSlot<P>,
    retired: Seq<Arc<P>>,
    completed: u64,
    plan: Arc<P>,
)
    requires
        slot.first_completed() == 0,
        slot.had_report(completed),
        retired.contains(plan),
        !still_followed(retired, completed).contains(plan),
    ensures
        slot.completions().contains(completed),
        plan.plan_generation() < completed,
{
    law_only_completed_plans_are_reclaimed(retired, completed, plan);
}

proof fn lemma_followed_are_not_older<P: Planned>(retired: Seq<Arc<P>>, completed: u64)
    ensures
        forall|i: int|
            0 <= i < still_followed(retired, completed).len() ==> (#[trigger] still_followed(
                retired,
                completed,
            )[i]).plan_generation() >= completed,
    decreases retired.len(),
{
    if retired.len() > 0 {
        lemma_followed_are_not_older(retired.drop_last(), completed);
        let before = still_followed(retired.drop_last(), completed);
        let after = still_followed(retired, completed);
        assert forall|i: int| 0 <= i < after.len() implies (#[trigger] after[i]).plan_generation()
            >= completed by {
            if i < before.len() {
                assert(after[i] == before[i]);
            }
        }
    }
}

impl<P: Planned> PlanReclaimer<P> {
    pub fn new() -> (reclaimer: Self)
        ensures
            reclaimer.retired@.len() == 0,
    {
        PlanReclaimer { retired: Vec::new() }
    }

    /// Keeps a plan that is no longer published.
    pub fn retire(&mut self, plan: Arc<P>)
        ensures
            final(self).retired@ == old(self).retired@.push(plan),
    {
        self.retired.push(plan);
    }

    /// Drops the plans older than the generation that the callback is done with.
    pub fn collect_completed(&mut self, completed: u64)
        ensures
            final(self).retired@ == still_followed(old(self).retired@, completed),
    {
        let mut kept: Vec<Arc<P>> = Vec::new();
        let mut at: usize = 0;
        while at < self.retired.len()
            invariant
                at <= self.retired@.len(),
                self.retired@ == old(self).retired@,
                kept@ == still_followed(self.retired@.take(at as int), completed),
            decreases self.retired@.len() - at,
        {
            assert(self.retired@.take(at + 1).drop_last() =~= self.retired@.take(at as int));
            assert(self.retired@.take(at + 1).last() == self.retired@[at as int]);
            if self.retired[at].generation() >= completed {
                kept.push(self.retired[at].clone());
            }
            at = at + 1;
        }
        assert(self.retired@.take(at as int) =~= self.retired@);
        self.retired = kept;
    }

    /// Drops the plans that the callback is done with.
    pub fn collect(&mut self, slot: &PlanSlot<P>)
        ensures
            exists|completed: u64| #[trigger]
                slot.had_report(completed) && final(self).retired@ == still_followed(
                    old(self).retired@,
                    completed,
                ),
    {
        let completed: u64 = slot.completed();
        self.collect_completed(completed);
        assert(still_followed(old(self).retired@, completed) == self.retired@);
    }
}

impl<P: Planned> Default for PlanReclaimer<P> {
    fn default() -> (reclaimer: Self)
        ensures
            reclaimer.retired@.len() == 0,
    {
        PlanReclaimer { retired: Vec::new() }
    }
}

/// What a source delivers to a route.
#[derive(Clone, Copy, Debug, PartialEq, Eq, Structural)]
pub struct RouteFeed {
    pub route_id: RouteId,
    pub bus_channels: usize,
}

/// The routes that a source feeds.
#[derive(Debug)]
pub struct SourcePlan {
    pub generation: u64,
    pub feeds: Vec<RouteFeed>,
}

/// The channels of a route among feeds: those of the first feed for it.
pub open spec fn feed_width(feeds: Seq<RouteFeed>, route_id: RouteId) -> Option<usize>
    decreases feeds.len(),
{
    if feeds.len() == 0 {
        None
    } else if feed_width(feeds.drop_last(), route_id) is Some {
        feed_width(feeds.drop_last(), route_id)
    } else if feeds.last().route_id == route_id {
        Some(feeds.last().bus_channels)
    } else {
        None
    }
}

proof fn lemma_first_feed(feeds: Seq<RouteFeed>, route_id: RouteId, count: int)
    requires
        0 <= count <= feeds.len(),
        feed_width(feeds.take(count), route_id) is Some,
    ensures
        feed_width(feeds, route_id) == feed_width(feeds.take(count), route_id),
    decreases feeds.len() - count,
{
    if count < feeds.len() {
        assert(feeds.take(count + 1).drop_last() =~= feeds.take(count));
        lemma_first_feed(feeds, route_id, count + 1);
    } else {
        assert(feeds.take(count) =~= feeds);
    }
}

impl Planned for SourcePlan {
    open spec fn plan_generation(&self) -> u64 {
        self.generation
    }

    fn generation(&self) -> (generation: u64) {
        self.generation
    }
}

impl RoutePlan for SourcePlan {
    open spec fn width_listed(&self, route_id: RouteId) -> Option<usize> {
        feed_width(self.feeds@, route_id)
    }

    fn find_route(&self, route_id: RouteId) -> (width: Option<usize>) {
        let mut at: usize = 0;
        while at < self.feeds.len()
            invariant
                at <= self.feeds@.len(),
                feed_width(self.feeds@.take(at as int), route_id) is None,
            decreases self.feeds@.len() - at,
        {
            let feed = self.feeds[at];
            assert(self.feeds@.take(at + 1).drop_last() =~= self.feeds@.take(at as int));
            assert(self.feeds@.take(at + 1).last() == feed);
            if feed.route_id == route_id {
                proof {
                    lemma_first_feed(self.feeds@, route_id, at + 1);
                }
                return Some(feed.bus_channels);
            }
            at = at + 1;
        }
        assert(self.feeds@.take(at as int) =~= self.feeds@);
        None
    }
}

/// The routes that a bus sums.
#[derive(Debug)]
pub struct BusPlan {
    pub generation: u64,
    pub routes: Vec<RouteId>,
}

impl Planned for BusPlan {
    open spec fn plan_generation(&self) -> u64 {
        self.generation
    }

    fn generation(&self) -> (generation: u64) {
        self.generation
    }
}

impl RoutePlan for BusPlan {
    /// A bus has one width for all its routes, so the plan lists none.
    open spec fn width_listed(&self, route_id: RouteId) -> Option<usize> {
        if self.routes@.contains(route_id) {
            Some(0)
        } else {
            None
        }
    }

    fn find_route(&self, route_id: RouteId) -> (width: Option<usize>) {
        let mut at: usize = 0;
        while at < self.routes.len()
            invariant
                at <= self.routes@.len(),
                forall|i: int| 0 <= i < at ==> self.routes@[i] != route_id,
            decreases self.routes@.len() - at,
        {
            if self.routes[at] == route_id {
                assert(self.routes@.contains(route_id));
                return Some(0);
            }
            at = at + 1;
        }
        None
    }
}

/// A plan gives a route the channels of the first feed for it, and lists no route
/// without a feed.
pub proof fn law_the_first_feed_of_a_route_counts(
    feeds: Seq<RouteFeed>,
    route_id: RouteId,
    at: int,
)
    requires
        0 <= at < feeds.len(),
        feeds[at].route_id == route_id,
        forall|i: int| 0 <= i < at ==> (#[trigger] feeds[i]).route_id != route_id,
    ensures
        feed_width(feeds, route_id) == Some(feeds[at].bus_channels),
    decreases feeds.len(),
{
    let rest = feeds.drop_last();
    if at < rest.len() {
        assert(rest[at] == feeds[at]);
        assert forall|i: int| 0 <= i < at implies (#[trigger] rest[i]).route_id != route_id by {
            assert(rest[i] == feeds[i]);
        }
        law_the_first_feed_of_a_route_counts(rest, route_id, at);
    } else {
        assert forall|i: int| 0 <= i < rest.len() implies (#[trigger] rest[i]).route_id
            != route_id by {
            assert(rest[i] == feeds[i]);
        }
        law_a_route_without_a_feed_is_not_listed(rest, route_id);
    }
}

/// A route without a feed is not listed.
pub proof fn law_a_route_without_a_feed_is_not_listed(feeds: Seq<RouteFeed>, route_id: RouteId)
    requires
        forall|i: int| 0 <= i < feeds.len() ==> (#[trigger] feeds[i]).route_id != route_id,
    ensures
        feed_width(feeds, route_id) is None,
    decreases feeds.len(),
{
    if feeds.len() > 0 {
        let rest = feeds.drop_last();
        assert forall|i: int| 0 <= i < rest.len() implies (#[trigger] rest[i]).route_id
            != route_id by {
            assert(rest[i] == feeds[i]);
        }
        law_a_route_without_a_feed_is_not_listed(rest, route_id);
        assert(feeds.last() == feeds[feeds.len() - 1]);
    }
}

/// The plan of a bus lists exactly its routes, and each plan goes by its own
/// generation.
pub proof fn law_plans_list_their_routes(source: SourcePlan, bus: BusPlan, route_id: RouteId)
    ensures
        bus.width_listed(route_id) is Some <==> bus.routes@.contains(route_id),
        source.width_listed(route_id) == feed_width(source.feeds@, route_id),
        source.plan_generation() == source.generation,
        bus.plan_generation() == bus.generation,
{
}

} // verus!
