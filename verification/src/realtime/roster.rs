//! The routes of one audio callback: halves of rings that are waiting for
//! their plan, in use, or on their way back to the thread that made them.
//!
//! A callback takes in only as many halves as it has room to give back, so it
//! never has to drop one itself.
use vstd::multiset::Multiset;
use vstd::prelude::*;

use crate::domain::ids::RouteId;

verus! {

/// No endpoint has more routes than this.
pub const MAX_ROUTES_PER_ENDPOINT: usize = 32;

/// No callback holds more halves than this, in use or not.
pub const MAX_HELD_HALVES: usize = 96;

/// A plan that is known by its generation.
pub trait Planned {
    spec fn plan_generation(&self) -> u64;

    fn generation(&self) -> (generation: u64)
        ensures
            generation == self.plan_generation(),
    ;
}

/// A plan that lists routes.
pub trait RoutePlan: Planned {
    /// The channels of a route, where the plan lists it.
    spec fn width_listed(&self, route_id: RouteId) -> Option<usize>;

    fn find_route(&self, route_id: RouteId) -> (width: Option<usize>)
        ensures
            width == self.width_listed(route_id),
    ;
}

/// A half of a ring for a route, tagged with the generation of the plan that
/// lists the route.
#[derive(Debug)]
pub struct Delivery<H> {
    pub generation: u64,
    pub route_id: RouteId,
    pub half: H,
}

/// A half in use.
#[derive(Debug)]
pub struct Active<H> {
    pub route_id: RouteId,
    pub width: usize,
    pub half: H,
}

/// A half on its way back.
#[derive(Debug)]
pub struct Retired<H> {
    pub route_id: RouteId,
    pub half: H,
}

/// The halves that a callback holds.
#[derive(Debug)]
pub struct Roster<H> {
    pub active: Vec<Active<H>>,
    pub pending: Vec<Delivery<H>>,
    pub retiring: Vec<Retired<H>>,
}

/// What a roster holds, as sequences.
pub struct RosterModel<H> {
    pub active: Seq<Active<H>>,
    pub pending: Seq<Delivery<H>>,
    pub retiring: Seq<Retired<H>>,
}

impl<H> View for Roster<H> {
    type V = RosterModel<H>;

    open spec fn view(&self) -> RosterModel<H> {
        RosterModel {
            active: self.active@,
            pending: self.pending@,
            retiring: self.retiring@,
        }
    }
}

/// A sequence in which the last element has taken the place of another.
pub open spec fn swap_removed<T>(items: Seq<T>, at: int) -> Seq<T> {
    items.update(at, items.last()).drop_last()
}

/// The first place from `from` on where a route is in use.
pub open spec fn place_of<H>(active: Seq<Active<H>>, route_id: RouteId, from: int) -> Option<int>
    decreases active.len() - from,
{
    if from < 0 || from >= active.len() {
        None
    } else if active[from].route_id == route_id {
        Some(from)
    } else {
        place_of(active, route_id, from + 1)
    }
}

/// Whether a route is in use.
pub open spec fn in_use<H>(active: Seq<Active<H>>, route_id: RouteId) -> bool {
    exists|i: int| 0 <= i < active.len() && (#[trigger] active[i]).route_id == route_id
}

impl<H> RosterModel<H> {
    /// No route is in use twice, and no more is held than there is room for.
    pub open spec fn wf(self) -> bool {
        &&& forall|i: int, j: int|
            0 <= i < j < self.active.len() ==> (#[trigger] self.active[i]).route_id != (
            #[trigger] self.active[j]).route_id
        &&& self.active.len() <= MAX_ROUTES_PER_ENDPOINT
        &&& self.pending.len() <= MAX_ROUTES_PER_ENDPOINT
        &&& self.count() <= MAX_HELD_HALVES
    }

    /// With more deliveries waiting.
    pub open spec fn with_pending(self, delivered: Seq<Delivery<H>>) -> Self {
        RosterModel { pending: self.pending + delivered, ..self }
    }

    /// Whether one more half can be taken in.
    pub open spec fn has_space(self) -> bool {
        self.pending.len() < MAX_ROUTES_PER_ENDPOINT && self.count() < MAX_HELD_HALVES
    }

    /// How many halves are held.
    pub open spec fn count(self) -> nat {
        self.active.len() + self.pending.len() + self.retiring.len()
    }

    /// Every half that is held, with its route.
    pub open spec fn halves(self) -> Multiset<(RouteId, H)> {
        active_halves(self.active).add(pending_halves(self.pending)).add(
            retired_halves(self.retiring),
        )
    }

    /// With one more half on its way back.
    pub open spec fn retired(self, route_id: RouteId, half: H) -> Self {
        RosterModel { retiring: self.retiring.push(Retired { route_id, half }), ..self }
    }

    /// With the half of a route no longer in use.
    pub open spec fn released(self, at: int) -> Self {
        RosterModel { active: swap_removed(self.active, at), ..self }.retired(
            self.active[at].route_id,
            self.active[at].half,
        )
    }

    /// With a half in use. It takes the place of an earlier one for its route.
    pub open spec fn activated(self, delivery: Delivery<H>, width: usize) -> Self {
        let replaced = match place_of(self.active, delivery.route_id, 0) {
            Some(at) => self.released(at),
            None => self,
        };
        if replaced.active.len() < MAX_ROUTES_PER_ENDPOINT {
            RosterModel {
                active: replaced.active.push(
                    Active { route_id: delivery.route_id, width, half: delivery.half },
                ),
                ..replaced
            }
        } else {
            replaced.retired(delivery.route_id, delivery.half)
        }
    }

    /// With one waiting half put to use, or on its way back where the plan has
    /// already moved past its route.
    pub open spec fn placed<P: RoutePlan>(self, plan: P, at: int) -> Self {
        let delivery = self.pending[at];
        let rest = RosterModel { pending: swap_removed(self.pending, at), ..self };
        match plan.width_listed(delivery.route_id) {
            Some(width) => rest.activated(delivery, width),
            None => rest.retired(delivery.route_id, delivery.half),
        }
    }

    /// With every waiting half from a place on put where a plan wants it, but
    /// for those that belong to a later plan.
    pub open spec fn settled<P: RoutePlan>(self, plan: P, from: int) -> Self
        decreases self.pending.len() - from,
        when 0 <= from
    {
        if from >= self.pending.len() {
            self
        } else if self.pending[from].generation > plan.plan_generation() {
            self.settled(plan, from + 1)
        } else {
            self.placed(plan, from).settled(plan, from)
        }
    }

    /// Without the routes in use from a place on that a plan does not list.
    pub open spec fn reconciled<P: RoutePlan>(self, plan: P, from: int) -> Self
        decreases self.active.len() - from,
        when 0 <= from
    {
        if from >= self.active.len() {
            self
        } else if plan.width_listed(self.active[from].route_id) is Some {
            self.reconciled(plan, from + 1)
        } else {
            self.released(from).reconciled(plan, from)
        }
    }
}

/// Halves on their way back have left a roster, and nothing else changed.
pub open spec fn handed_back<H>(
    before: RosterModel<H>,
    gone: Seq<Retired<H>>,
    after: RosterModel<H>,
) -> bool {
    &&& after.active == before.active
    &&& after.pending == before.pending
    &&& after.retiring.len() + gone.len() == before.retiring.len()
    &&& retired_halves(after.retiring).add(retired_halves(gone)) == retired_halves(
        before.retiring,
    )
}

pub open spec fn active_halves<H>(active: Seq<Active<H>>) -> Multiset<(RouteId, H)> {
    active.map_values(|item: Active<H>| (item.route_id, item.half)).to_multiset()
}

pub open spec fn pending_halves<H>(pending: Seq<Delivery<H>>) -> Multiset<(RouteId, H)> {
    pending.map_values(|item: Delivery<H>| (item.route_id, item.half)).to_multiset()
}

pub open spec fn retired_halves<H>(retiring: Seq<Retired<H>>) -> Multiset<(RouteId, H)> {
    retiring.map_values(|item: Retired<H>| (item.route_id, item.half)).to_multiset()
}

proof fn lemma_place<H>(active: Seq<Active<H>>, route_id: RouteId, from: int)
    requires
        0 <= from,
    ensures
        match place_of(active, route_id, from) {
            Some(at) => from <= at < active.len() && active[at].route_id == route_id,
            None => forall|i: int|
                from <= i < active.len() ==> (#[trigger] active[i]).route_id != route_id,
        },
    decreases active.len() - from,
{
    if from < active.len() && active[from].route_id != route_id {
        lemma_place(active, route_id, from + 1);
    }
}

proof fn lemma_swap_removed<A, B>(items: Seq<A>, at: int, f: spec_fn(A) -> B)
    requires
        0 <= at < items.len(),
    ensures
        swap_removed(items, at).map_values(f).to_multiset() == items.map_values(
            f,
        ).to_multiset().remove(f(items[at])),
        items.map_values(f).to_multiset().count(f(items[at])) > 0,
        swap_removed(items, at).len() == items.len() - 1,
{
    broadcast use vstd::seq_lib::group_to_multiset_ensures;

    let mapped = items.map_values(f);
    let last = mapped.len() - 1;
    let rest = swap_removed(items, at).map_values(f);
    assert(mapped.to_multiset().contains(mapped[at]));
    if at == last {
        assert(rest =~= mapped.remove(at));
    } else {
        let short = mapped.drop_last();
        assert(short =~= mapped.remove(last));
        assert(rest =~= short.update(at, mapped[last]));
        assert(short.update(at, mapped[last]).to_multiset() == short.to_multiset().remove(
            short[at],
        ).insert(mapped[last]));
        assert(short.to_multiset() =~= mapped.to_multiset().remove(mapped[last]));
        assert(short[at] == mapped[at]);
        assert(rest.to_multiset() =~= mapped.to_multiset().remove(mapped[at])) by {
            assert(short.to_multiset().contains(short[at]));
        }
    }
}

proof fn lemma_pushed<A, B>(items: Seq<A>, item: A, f: spec_fn(A) -> B)
    ensures
        items.push(item).map_values(f).to_multiset() == items.map_values(f).to_multiset().insert(
            f(item),
        ),
{
    broadcast use vstd::seq_lib::group_to_multiset_ensures;

    assert(items.push(item).map_values(f) =~= items.map_values(f).push(f(item)));
}

pub proof fn lemma_none_gone<H>(retiring: Seq<Retired<H>>)
    ensures
        retired_halves(retiring).add(retired_halves(Seq::empty())) == retired_halves(retiring),
{
    broadcast use vstd::seq_lib::group_to_multiset_ensures;

    assert(Seq::<Retired<H>>::empty().map_values(
        |item: Retired<H>| (item.route_id, item.half),
    ) =~= Seq::empty());
    assert(retired_halves(retiring).add(retired_halves(Seq::empty())) =~= retired_halves(retiring));
}

/// Taking a half out and counting it among the gone changes nothing together.
pub proof fn lemma_one_gone<H>(retiring: Seq<Retired<H>>, at: int, gone: Seq<Retired<H>>)
    requires
        0 <= at < retiring.len(),
    ensures
        retired_halves(swap_removed(retiring, at)).add(retired_halves(gone.push(retiring[at])))
            == retired_halves(retiring).add(retired_halves(gone)),
{
    let f = |item: Retired<H>| (item.route_id, item.half);
    lemma_swap_removed(retiring, at, f);
    lemma_pushed(gone, retiring[at], f);
    assert(retired_halves(swap_removed(retiring, at)).add(
        retired_halves(gone.push(retiring[at])),
    ) =~= retired_halves(retiring).add(retired_halves(gone)));
}

/// A half that was taken out and put back is there as before.
pub proof fn lemma_one_back<H>(rest: Seq<Retired<H>>, back: Retired<H>)
    ensures
        forall|retiring: Seq<Retired<H>>, at: int|
            0 <= at < retiring.len() && rest == #[trigger] swap_removed(retiring, at) && back
                == retiring[at] ==> retired_halves(rest.push(back)) == retired_halves(retiring),
{
    let f = |item: Retired<H>| (item.route_id, item.half);
    lemma_pushed(rest, back, f);
    assert forall|retiring: Seq<Retired<H>>, at: int|
        0 <= at < retiring.len() && rest == #[trigger] swap_removed(retiring, at) && back
            == retiring[at] implies retired_halves(rest.push(back)) == retired_halves(retiring) by {
        lemma_swap_removed(retiring, at, f);
        assert(retired_halves(rest.push(back)) =~= retired_halves(retiring));
    }
}

/// A roster whose halves changed but not their routes is still well formed.
pub proof fn lemma_same_routes<H>(before: RosterModel<H>, after: RosterModel<H>)
    requires
        before.wf(),
        after.active.len() == before.active.len(),
        forall|i: int|
            0 <= i < before.active.len() ==> (#[trigger] after.active[i]).route_id
                == before.active[i].route_id,
        after.pending.len() == before.pending.len(),
        after.retiring.len() == before.retiring.len(),
    ensures
        after.wf(),
{
    assert forall|i: int, j: int| 0 <= i < j < after.active.len() implies (
    #[trigger] after.active[i]).route_id != (#[trigger] after.active[j]).route_id by {
        assert(before.active[i].route_id != before.active[j].route_id);
    }
}

proof fn lemma_retired<H>(model: RosterModel<H>, route_id: RouteId, half: H)
    ensures
        model.retired(route_id, half).halves() == model.halves().insert((route_id, half)),
        model.retired(route_id, half).count() == model.count() + 1,
{
    lemma_pushed(
        model.retiring,
        Retired { route_id, half },
        |item: Retired<H>| (item.route_id, item.half),
    );
    assert(model.retired(route_id, half).halves() =~= model.halves().insert((route_id, half)));
}

proof fn lemma_released<H>(model: RosterModel<H>, at: int)
    requires
        model.wf(),
        0 <= at < model.active.len(),
    ensures
        model.released(at).wf(),
        model.released(at).halves() == model.halves(),
        model.released(at).count() == model.count(),
        model.released(at).active.len() == model.active.len() - 1,
        forall|route_id: RouteId| #[trigger]
            in_use(model.released(at).active, route_id) <==> in_use(model.active, route_id)
                && route_id != model.active[at].route_id,
{
    let f = |item: Active<H>| (item.route_id, item.half);
    lemma_swap_removed(model.active, at, f);
    let rest = RosterModel { active: swap_removed(model.active, at), ..model };
    lemma_retired(rest, model.active[at].route_id, model.active[at].half);
    let gone = f(model.active[at]);
    assert(rest.halves().insert(gone) =~= model.halves());
    let after = model.released(at).active;
    assert forall|i: int, j: int| 0 <= i < j < after.len() implies (#[trigger] after[i]).route_id
        != (#[trigger] after[j]).route_id by {
        let from_i = if i == at {
            model.active.len() - 1
        } else {
            i
        };
        let from_j = if j == at {
            model.active.len() - 1
        } else {
            j
        };
        assert(after[i] == model.active[from_i]);
        assert(after[j] == model.active[from_j]);
    }
    assert forall|route_id: RouteId| #[trigger] in_use(after, route_id) <==> in_use(
        model.active,
        route_id,
    ) && route_id != model.active[at].route_id by {
        if in_use(after, route_id) {
            let i = choose|i: int| 0 <= i < after.len() && (#[trigger] after[i]).route_id == route_id;
            let from_i = if i == at {
                model.active.len() - 1
            } else {
                i
            };
            assert(after[i] == model.active[from_i]);
        }
        if in_use(model.active, route_id) && route_id != model.active[at].route_id {
            let i = choose|i: int|
                0 <= i < model.active.len() && (#[trigger] model.active[i]).route_id == route_id;
            let to = if i == model.active.len() - 1 {
                at
            } else {
                i
            };
            assert(after[to] == model.active[i]);
        }
    }
}

proof fn lemma_activated<H>(model: RosterModel<H>, delivery: Delivery<H>, width: usize)
    requires
        model.wf(),
        model.count() < MAX_HELD_HALVES,
    ensures
        model.activated(delivery, width).wf(),
        model.activated(delivery, width).halves() == model.halves().insert(
            (delivery.route_id, delivery.half),
        ),
        model.activated(delivery, width).count() == model.count() + 1,
        model.activated(delivery, width).pending == model.pending,
        model.activated(delivery, width).active.len() <= model.active.len() + 1,
        forall|route_id: RouteId|
            in_use(model.active, route_id) ==> #[trigger] in_use(
                model.activated(delivery, width).active,
                route_id,
            ),
        model.active.len() < MAX_ROUTES_PER_ENDPOINT ==> in_use(
            model.activated(delivery, width).active,
            delivery.route_id,
        ),
{
    lemma_place(model.active, delivery.route_id, 0);
    let replaced = match place_of(model.active, delivery.route_id, 0) {
        Some(at) => model.released(at),
        None => model,
    };
    match place_of(model.active, delivery.route_id, 0) {
        Some(at) => {
            lemma_released(model, at);
        },
        None => {},
    }
    assert(!in_use(replaced.active, delivery.route_id));
    let item = Active { route_id: delivery.route_id, width, half: delivery.half };
    let after = model.activated(delivery, width);
    if replaced.active.len() < MAX_ROUTES_PER_ENDPOINT {
        lemma_pushed(
            replaced.active,
            item,
            |item: Active<H>| (item.route_id, item.half),
        );
        assert(after.halves() =~= replaced.halves().insert((delivery.route_id, delivery.half)));
        assert forall|i: int, j: int|
            0 <= i < j < after.active.len() implies (#[trigger] after.active[i]).route_id != (
        #[trigger] after.active[j]).route_id by {
            if j == replaced.active.len() {
                assert(after.active[i] == replaced.active[i]);
                assert(replaced.active[i].route_id != delivery.route_id);
            } else {
                assert(after.active[i] == replaced.active[i]);
                assert(after.active[j] == replaced.active[j]);
            }
        }
        assert(after.active[replaced.active.len() as int] == item);
        assert(in_use(after.active, delivery.route_id));
    } else {
        lemma_retired(replaced, delivery.route_id, delivery.half);
    }
    assert forall|route_id: RouteId| in_use(model.active, route_id) implies #[trigger] in_use(
        after.active,
        route_id,
    ) by {
        if replaced.active.len() < MAX_ROUTES_PER_ENDPOINT {
            if route_id != delivery.route_id {
                assert(in_use(replaced.active, route_id));
                let i = choose|i: int|
                    0 <= i < replaced.active.len() && (#[trigger] replaced.active[i]).route_id
                        == route_id;
                assert(after.active[i] == replaced.active[i]);
            }
        } else {
            assert(after.active == replaced.active);
        }
    }
}

proof fn lemma_placed<H, P: RoutePlan>(model: RosterModel<H>, plan: P, at: int)
    requires
        model.wf(),
        0 <= at < model.pending.len(),
    ensures
        model.placed(plan, at).wf(),
        model.placed(plan, at).halves() == model.halves(),
        model.placed(plan, at).count() == model.count(),
        model.placed(plan, at).pending == swap_removed(model.pending, at),
        model.placed(plan, at).active.len() <= model.active.len() + 1,
        forall|route_id: RouteId|
            in_use(model.active, route_id) ==> #[trigger] in_use(
                model.placed(plan, at).active,
                route_id,
            ),
        plan.width_listed(model.pending[at].route_id) is Some && model.active.len()
            < MAX_ROUTES_PER_ENDPOINT ==> in_use(
            model.placed(plan, at).active,
            model.pending[at].route_id,
        ),
{
    let delivery = model.pending[at];
    let f = |item: Delivery<H>| (item.route_id, item.half);
    lemma_swap_removed(model.pending, at, f);
    let rest = RosterModel { pending: swap_removed(model.pending, at), ..model };
    assert(rest.halves().insert(f(delivery)) =~= model.halves());
    match plan.width_listed(delivery.route_id) {
        Some(width) => lemma_activated(rest, delivery, width),
        None => lemma_retired(rest, delivery.route_id, delivery.half),
    }
}

/// Settling keeps every half, and leaves only those waiting that belong to a
/// later plan.
pub proof fn law_settling_loses_nothing<H, P: RoutePlan>(model: RosterModel<H>, plan: P, from: int)
    requires
        model.wf(),
        0 <= from <= model.pending.len(),
        forall|i: int|
            0 <= i < from ==> (#[trigger] model.pending[i]).generation > plan.plan_generation(),
    ensures
        model.settled(plan, from).wf(),
        model.settled(plan, from).halves() == model.halves(),
        model.settled(plan, from).count() == model.count(),
        forall|i: int|
            0 <= i < model.settled(plan, from).pending.len() ==> (#[trigger] model.settled(
                plan,
                from,
            ).pending[i]).generation > plan.plan_generation(),
        forall|route_id: RouteId|
            in_use(model.active, route_id) ==> #[trigger] in_use(
                model.settled(plan, from).active,
                route_id,
            ),
    decreases model.pending.len() - from,
{
    if from < model.pending.len() {
        if model.pending[from].generation > plan.plan_generation() {
            law_settling_loses_nothing(model, plan, from + 1);
        } else {
            lemma_placed(model, plan, from);
            let next = model.placed(plan, from);
            assert forall|i: int| 0 <= i < from implies (#[trigger] next.pending[i]).generation
                > plan.plan_generation() by {
                assert(next.pending[i] == model.pending[i]);
            }
            law_settling_loses_nothing(next, plan, from);
        }
    }
}

/// A half whose plan has come, and whose route the plan lists, is in use once
/// the roster has settled, as long as the routes fit.
pub proof fn law_a_listed_route_comes_into_use<H, P: RoutePlan>(
    model: RosterModel<H>,
    plan: P,
    from: int,
    at: int,
)
    requires
        model.wf(),
        model.active.len() + model.pending.len() <= MAX_ROUTES_PER_ENDPOINT,
        0 <= from <= at < model.pending.len(),
        model.pending[at].generation <= plan.plan_generation(),
        plan.width_listed(model.pending[at].route_id) is Some,
        forall|i: int|
            0 <= i < from ==> (#[trigger] model.pending[i]).generation > plan.plan_generation(),
    ensures
        in_use(model.settled(plan, from).active, model.pending[at].route_id),
    decreases model.pending.len() - from,
{
    let route_id = model.pending[at].route_id;
    if model.pending[from].generation > plan.plan_generation() {
        law_a_listed_route_comes_into_use(model, plan, from + 1, at);
    } else {
        lemma_placed(model, plan, from);
        let next = model.placed(plan, from);
        assert forall|i: int| 0 <= i < from implies (#[trigger] next.pending[i]).generation
            > plan.plan_generation() by {
            assert(next.pending[i] == model.pending[i]);
        }
        if at == from {
            law_settling_loses_nothing(next, plan, from);
        } else {
            let moved = if at == model.pending.len() - 1 {
                from
            } else {
                at
            };
            assert(next.pending[moved] == model.pending[at]);
            law_a_listed_route_comes_into_use(next, plan, from, moved);
        }
    }
}

/// Reconciling keeps every half, and leaves only those in use that the plan
/// lists.
pub proof fn law_reconciling_loses_nothing<H, P: RoutePlan>(
    model: RosterModel<H>,
    plan: P,
    from: int,
)
    requires
        model.wf(),
        0 <= from <= model.active.len(),
        forall|i: int|
            0 <= i < from ==> plan.width_listed((#[trigger] model.active[i]).route_id) is Some,
    ensures
        model.reconciled(plan, from).wf(),
        model.reconciled(plan, from).halves() == model.halves(),
        model.reconciled(plan, from).count() == model.count(),
        model.reconciled(plan, from).pending == model.pending,
        forall|route_id: RouteId| #[trigger]
            in_use(model.reconciled(plan, from).active, route_id) <==> in_use(
                model.active,
                route_id,
            ) && plan.width_listed(route_id) is Some,
    decreases model.active.len() - from,
{
    if from < model.active.len() {
        if plan.width_listed(model.active[from].route_id) is Some {
            law_reconciling_loses_nothing(model, plan, from + 1);
        } else {
            lemma_released(model, from);
            let next = model.released(from);
            assert forall|i: int| 0 <= i < from implies plan.width_listed(
                (#[trigger] next.active[i]).route_id,
            ) is Some by {
                assert(next.active[i] == model.active[i]);
            }
            law_reconciling_loses_nothing(next, plan, from);
        }
    } else {
        assert forall|route_id: RouteId| in_use(model.active, route_id) implies plan.width_listed(
            route_id,
        ) is Some by {
            let i = choose|i: int|
                0 <= i < model.active.len() && (#[trigger] model.active[i]).route_id == route_id;
        }
    }
}

impl<H> Roster<H> {
    /// A roster with nothing in it, and room for what it may hold.
    pub fn new() -> (roster: Self)
        ensures
            roster@.wf(),
            roster@.count() == 0,
    {
        Roster {
            active: Vec::with_capacity(MAX_ROUTES_PER_ENDPOINT),
            pending: Vec::with_capacity(MAX_ROUTES_PER_ENDPOINT),
            retiring: Vec::with_capacity(MAX_HELD_HALVES),
        }
    }

    /// Whether one more half can be taken in.
    pub fn has_room(&self) -> (room: bool)
        requires
            self@.wf(),
        ensures
            room == self@.has_space(),
    {
        self.pending.len() < MAX_ROUTES_PER_ENDPOINT && self.active.len() + self.pending.len()
            + self.retiring.len() < MAX_HELD_HALVES
    }

    /// Takes in a half. It waits until its plan has come.
    pub fn take_in(&mut self, delivery: Delivery<H>)
        requires
            old(self)@.wf(),
            old(self)@.pending.len() < MAX_ROUTES_PER_ENDPOINT,
            old(self)@.count() < MAX_HELD_HALVES,
        ensures
            final(self)@.wf(),
            final(self)@ == (RosterModel {
                pending: old(self)@.pending.push(delivery),
                ..old(self)@
            }),
    {
        self.pending.push(delivery);
    }

    fn position(&self, route_id: RouteId) -> (place: Option<usize>)
        ensures
            match place {
                Some(at) => place_of(self.active@, route_id, 0) == Some(at as int),
                None => place_of(self.active@, route_id, 0) is None,
            },
    {
        let mut at: usize = 0;
        while at < self.active.len()
            invariant
                at <= self.active@.len(),
                place_of(self.active@, route_id, 0) == place_of(self.active@, route_id, at as int),
            decreases self.active@.len() - at,
        {
            if self.active[at].route_id == route_id {
                return Some(at);
            }
            at = at + 1;
        }
        None
    }

    fn retire(&mut self, route_id: RouteId, half: H)
        ensures
            final(self)@ == old(self)@.retired(route_id, half),
    {
        self.retiring.push(Retired { route_id, half });
    }

    fn release(&mut self, at: usize)
        requires
            at < old(self).active@.len(),
        ensures
            final(self)@ == old(self)@.released(at as int),
    {
        let old_half = self.active.swap_remove(at);
        self.retire(old_half.route_id, old_half.half);
    }

    fn activate(&mut self, delivery: Delivery<H>, width: usize)
        ensures
            final(self)@ == old(self)@.activated(delivery, width),
    {
        proof {
            lemma_place(self.active@, delivery.route_id, 0);
        }
        if let Some(at) = self.position(delivery.route_id) {
            self.release(at);
        }
        if self.active.len() < MAX_ROUTES_PER_ENDPOINT {
            self.active.push(
                Active { route_id: delivery.route_id, width, half: delivery.half },
            );
        } else {
            self.retire(delivery.route_id, delivery.half);
        }
    }

    /// Puts every waiting half whose plan has come to use.
    pub fn settle<P: RoutePlan>(&mut self, plan: &P)
        requires
            old(self)@.wf(),
        ensures
            final(self)@ == old(self)@.settled(*plan, 0),
            final(self)@.wf(),
            final(self)@.halves() == old(self)@.halves(),
    {
        let newest: u64 = plan.generation();
        let mut at: usize = 0;
        while at < self.pending.len()
            invariant
                at <= self.pending@.len(),
                newest == plan.plan_generation(),
                old(self)@.wf(),
                old(self)@.settled(*plan, 0) == self@.settled(*plan, at as int),
            decreases self.pending@.len() - at,
        {
            if self.pending[at].generation > newest {
                at = at + 1;
                continue ;
            }
            let ghost before = self@;
            let delivery = self.pending.swap_remove(at);
            match plan.find_route(delivery.route_id) {
                Some(width) => self.activate(delivery, width),
                None => self.retire(delivery.route_id, delivery.half),
            }
            assert(self@ == before.placed(*plan, at as int));
            assert(self@.pending.len() == before.pending.len() - 1);
        }
        proof {
            law_settling_loses_nothing(old(self)@, *plan, 0);
        }
    }

    /// Sends back every half in use whose route the plan no longer lists.
    pub fn reconcile<P: RoutePlan>(&mut self, plan: &P)
        requires
            old(self)@.wf(),
        ensures
            final(self)@ == old(self)@.reconciled(*plan, 0),
            final(self)@.wf(),
            final(self)@.halves() == old(self)@.halves(),
    {
        let mut at: usize = 0;
        while at < self.active.len()
            invariant
                at <= self.active@.len(),
                old(self)@.wf(),
                old(self)@.reconciled(*plan, 0) == self@.reconciled(*plan, at as int),
            decreases self.active@.len() - at,
        {
            match plan.find_route(self.active[at].route_id) {
                Some(_) => {
                    at = at + 1;
                },
                None => {
                    self.release(at);
                },
            }
        }
        proof {
            law_reconciling_loses_nothing(old(self)@, *plan, 0);
        }
    }
}

/// A half that is put to use stands for its own route with the width that the
/// plan gave, every other route stays as it was, and a half that it replaces is
/// on its way back.
pub proof fn law_a_half_is_used_for_its_route<H>(
    model: RosterModel<H>,
    delivery: Delivery<H>,
    width: usize,
    other: int,
)
    requires
        model.wf(),
        model.active.len() < MAX_ROUTES_PER_ENDPOINT,
        0 <= other < model.active.len(),
    ensures
        ({
            let after = model.activated(delivery, width);
            &&& after.active.last().route_id == delivery.route_id
            &&& after.active.last().width == width
            &&& after.active.last().half == delivery.half
            &&& after.pending == model.pending
            &&& model.active[other].route_id != delivery.route_id ==> after.active.contains(
                model.active[other],
            )
            &&& model.active[other].route_id == delivery.route_id ==> {
                &&& after.retiring.last().route_id == delivery.route_id
                &&& after.retiring.last().half == model.active[other].half
                &&& after.active.len() == model.active.len()
            }
        }),
{
    lemma_place(model.active, delivery.route_id, 0);
    let after = model.activated(delivery, width);
    let len = model.active.len();
    match place_of(model.active, delivery.route_id, 0) {
        Some(at) => {
            let rest = swap_removed(model.active, at);
            if model.active[other].route_id == delivery.route_id {
                assert(at == other) by {
                    if at < other {
                        assert(model.active[at].route_id != model.active[other].route_id);
                    } else if other < at {
                        assert(model.active[other].route_id != model.active[at].route_id);
                    }
                }
            } else {
                if other == len - 1 {
                    assert(rest[at] == model.active[other]);
                    assert(after.active[at] == model.active[other]);
                } else {
                    assert(rest[other] == model.active[other]);
                    assert(after.active[other] == model.active[other]);
                }
            }
        },
        None => {
            assert(after.active[other] == model.active[other]);
        },
    }
}

/// A half that goes out of use is the one of its place, with its route; the
/// others stay in use.
pub proof fn law_a_released_half_goes_back<H>(model: RosterModel<H>, at: int, other: int)
    requires
        0 <= at < model.active.len(),
        0 <= other < model.active.len(),
    ensures
        model.released(at).retiring.len() == model.retiring.len() + 1,
        model.released(at).retiring.last().route_id == model.active[at].route_id,
        model.released(at).retiring.last().half == model.active[at].half,
        model.released(at).active.len() == model.active.len() - 1,
        other != at ==> model.released(at).active.contains(model.active[other]),
        model.released(at).pending == model.pending,
{
    let after = model.released(at).active;
    if other != at {
        if other == model.active.len() - 1 {
            assert(after[at] == model.active[other]);
        } else {
            assert(after[other] == model.active[other]);
        }
    }
}

/// A waiting half is put to use exactly where the plan lists its route, and goes
/// back otherwise.
pub proof fn law_a_waiting_half_follows_the_plan<H, P: RoutePlan>(
    model: RosterModel<H>,
    plan: P,
    at: int,
)
    requires
        model.wf(),
        0 <= at < model.pending.len(),
        model.active.len() < MAX_ROUTES_PER_ENDPOINT,
    ensures
        ({
            let delivery = model.pending[at];
            let after = model.placed(plan, at);
            &&& plan.width_listed(delivery.route_id) matches Some(width) ==> after.active.last()
                == (Active { route_id: delivery.route_id, width, half: delivery.half })
            &&& plan.width_listed(delivery.route_id) is None ==> after.active == model.active
                && after.retiring == model.retiring.push(
                Retired { route_id: delivery.route_id, half: delivery.half },
            )
            &&& after.pending.len() == model.pending.len() - 1
        }),
{
    lemma_place(model.active, model.pending[at].route_id, 0);
}

/// What a plan leaves in use is as it was, halves and widths.
pub proof fn law_what_stays_in_use_is_left_alone<H, P: RoutePlan>(
    model: RosterModel<H>,
    plan: P,
    from: int,
)
    requires
        0 <= from <= model.active.len(),
    ensures
        forall|i: int|
            0 <= i < model.reconciled(plan, from).active.len() ==> model.active.contains(
                #[trigger] model.reconciled(plan, from).active[i],
            ),
    decreases model.active.len() - from,
{
    let after = model.reconciled(plan, from);
    if from >= model.active.len() {
        assert forall|i: int| 0 <= i < after.active.len() implies model.active.contains(
            #[trigger] after.active[i],
        ) by {
            assert(model.active[i] == after.active[i]);
        }
    } else {
        if plan.width_listed(model.active[from].route_id) is Some {
            law_what_stays_in_use_is_left_alone(model, plan, from + 1);
            assert(after == model.reconciled(plan, from + 1));
        } else {
            let released = model.released(from);
            law_what_stays_in_use_is_left_alone(released, plan, from);
            assert(after == released.reconciled(plan, from));
            assert forall|i: int| 0 <= i < after.active.len() implies model.active.contains(
                #[trigger] after.active[i],
            ) by {
                assert(released.active.contains(after.active[i]));
                let j = choose|j: int|
                    0 <= j < released.active.len() && released.active[j] == after.active[i];
                if j == from {
                    assert(model.active[model.active.len() - 1] == after.active[i]);
                } else {
                    assert(model.active[j] == after.active[i]);
                }
            }
        }
    }
}

/// One more half can be taken in as long as fewer than the most wait and fewer
/// than the most are held.
pub proof fn law_room_is_for_what_is_held<H>(
    model: RosterModel<H>,
    delivered: Seq<Delivery<H>>,
)
    ensures
        model.has_space() <==> model.pending.len() < 32 && model.active.len()
            + model.pending.len() + model.retiring.len() < 96,
        model.with_pending(delivered).pending == model.pending + delivered,
        model.with_pending(delivered).active == model.active,
        model.with_pending(delivered).retiring == model.retiring,
{
}

/// What is handed back leaves the halves in use and the waiting ones alone, and
/// nothing that is on its way back is lost.
pub proof fn law_what_is_handed_back_was_on_its_way<H>(
    before: RosterModel<H>,
    gone: Seq<Retired<H>>,
    after: RosterModel<H>,
    back: (RouteId, H),
)
    requires
        handed_back(before, gone, after),
    ensures
        after.active == before.active,
        after.pending == before.pending,
        after.retiring.len() + gone.len() == before.retiring.len(),
        retired_halves(after.retiring).count(back) + retired_halves(gone).count(back)
            == retired_halves(before.retiring).count(back),
{
}

} // verus!
