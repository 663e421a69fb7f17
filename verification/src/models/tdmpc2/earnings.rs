//! What the costs of action candidates say of the rewards that they earn.

use vstd::prelude::*;

use crate::models::tdmpc2::actor::paired;
use crate::models::tdmpc2::bins::{two_hot_value, ONE};
use crate::models::tdmpc2::cost::{candidate_states, flat_candidates, Earned};
use crate::models::tdmpc2::model::TdMpc2;
use crate::rounding::{
    exact_type, finite, lemma_keeps_its_side, lemma_one, lemma_rounding_is_unique,
    lemma_rounding_keeps_sign, lemma_scale, lemma_units, number, one, rounds_to, scale, units,
};
use crate::scalar::F64;
use crate::tensor::arithmetic::{affine_of, converted, exact, is_negation, product_of, sum_of};
use crate::tensor::facts::{lemma_counts, lemma_spread_inserted};
use crate::tensor::make::double;
use crate::tensor::scaled::{
    fits, lemma_adding_grows, lemma_product_at, lemma_scaled_at, lemma_scaling_grows, lemma_share,
    lemma_sum_at, scaled,
};
use crate::tensor::select::step_of;
use crate::tensor::value::{count, is_double, plain, ElementType, TensorValue};

verus! {

/// A rollout of candidates: the states on the way, the reward and the return so far
/// of each step, how much the reward of each step counts, and the value of the last
/// state.
pub struct Play {
    pub states: Seq<TensorValue>,
    pub rewards: Seq<TensorValue>,
    pub totals: Seq<TensorValue>,
    pub discounts: Seq<int>,
    pub worth: TensorValue,
}

/// Whether a model gives an action in a state this reward and this next state.
pub open spec fn rewarded(
    model: TdMpc2,
    actions: TensorValue,
    k: int,
    state: TensorValue,
    reward: TensorValue,
    next: TensorValue,
) -> bool {
    exists|action: TensorValue, wide: TensorValue, logits: TensorValue|
        #[trigger] step_of(actions, k, action) && #[trigger] paired(state, action, wide)
            && #[trigger] model.reward.of(wide, logits) && two_hot_value(
            logits,
            model.cfg.vmin,
            model.cfg.vmax,
            model.cfg.num_bins,
            reward,
        ) && model.dynamics.of(wide, next)
}

/// Whether `after` is a return with one more discounted reward, where all of these
/// are finite.
#[verifier::opaque]
pub open spec fn accrues(e: ElementType, before: int, reward: int, discount: int, after: int) -> bool {
    finite(e, before) && finite(e, reward) && fits(e, discount) ==> exists|gain: int|
        #[trigger] scaled(e, reward, discount, gain) && (finite(e, gain) ==> rounds_to(
            e,
            units(e, before) + units(e, gain),
            1,
            after,
        ))
}

/// Whether a discount is one times a factor, where both are finite.
#[verifier::opaque]
pub open spec fn shrinks(discount: int, before: int, after: int) -> bool {
    finite(ElementType::F64, discount) && finite(ElementType::F64, before) ==> rounds_to(
        ElementType::F64,
        units(ElementType::F64, before) * units(ElementType::F64, discount),
        scale(ElementType::F64),
        after,
    )
}

/// The discounts shrink by the same factor from step to step, from one on.
pub open spec fn keep_shrinking(discount: int, ds: Seq<int>) -> bool {
    &&& ds[0] == one(ElementType::F64)
    &&& forall|k: int|
        1 <= k < ds.len() ==> shrinks(discount, ds[k - 1], #[trigger] ds[k])
}

/// The returns of a row grow from nothing by one discounted reward at a time.
pub open spec fn gathers(p: Play, row: int) -> bool {
    &&& p.totals[0].keys[row] == 0
    &&& forall|k: int|
        0 <= k < p.rewards.len() ==> accrues(
            p.totals[k].element,
            p.totals[k].keys[row],
            (#[trigger] p.rewards[k]).keys[row],
            p.discounts[k],
            p.totals[k + 1].keys[row],
        )
}

/// Whether a model plays candidates out like this.
pub open spec fn plays(model: TdMpc2, z: TensorValue, candidates: TensorValue, p: Play) -> bool {
    let rows = candidates.dims[0] * candidates.dims[1];
    &&& p.states.len() == candidates.dims[2] + 1
    &&& p.rewards.len() == candidates.dims[2]
    &&& p.totals.len() == p.states.len()
    &&& p.discounts.len() == p.states.len()
    &&& candidate_states(z, candidates.dims[0], candidates.dims[1], model.latent() as usize) == Some(
        p.states[0],
    )
    &&& forall|k: int|
        0 <= k < p.rewards.len() ==> rewarded(
            model,
            flat_candidates(candidates),
            k,
            p.states[k],
            #[trigger] p.rewards[k],
            p.states[k + 1],
        )
    &&& forall|k: int|
        0 <= k < p.totals.len() ==> (#[trigger] p.totals[k]).element == z.element
            && p.totals[k].location == z.location && p.totals[k].keys.len() == rows
    &&& keep_shrinking(model.cfg.discount.key(), p.discounts)
    &&& forall|row: int| 0 <= row < rows ==> #[trigger] gathers(p, row)
    &&& model.last_value(p.states.last(), p.worth)
}

/// The return of a row with the value of its last state.
pub open spec fn is_return(e: ElementType, p: Play, row: int, total: int) -> bool {
    accrues(
        e,
        p.totals.last().keys[row],
        p.worth.keys[row],
        p.discounts.last(),
        total,
    )
}

/// Whether a cost is the return of a row with the sign turned.
pub open spec fn is_turned_return(e: ElementType, p: Play, row: int, cost: int) -> bool {
    exists|total: int| #[trigger]
        is_return(e, p, row, total) && (number(e, total) ==> cost == -total)
}

/// What a step of a rollout earns.
pub open spec fn step_holds(
    model: TdMpc2,
    actions: TensorValue,
    k: int,
    before: Earned,
    reward: TensorValue,
    after: Earned,
) -> bool {
    &&& rewarded(model, actions, k, before.state, reward, after.state)
    &&& shrinks(model.cfg.discount.key(), before.discount.keys[0], after.discount.keys[0])
    &&& forall|row: int|
        0 <= row < before.total.keys.len() ==> accrues(
            before.total.element,
            before.total.keys[row],
            #[trigger] reward.keys[row],
            before.discount.keys[0],
            after.total.keys[row],
        )
}

/// The return and the discount of a step are like those of the first.
pub open spec fn alike_to(a: Earned, b: Earned) -> bool {
    &&& a.total.element == b.total.element
    &&& a.total.location == b.total.location
    &&& a.total.keys.len() == b.total.keys.len()
    &&& is_double(a.discount)
    &&& a.discount.keys.len() == 1
}

/// Takes one step of a rollout apart.
proof fn lemma_step(model: TdMpc2, actions: TensorValue, k: int, before: Earned, after: Earned) -> (
    reward: TensorValue)
    requires
        model.earns(actions, k, before, after),
        exact(before.total),
        before.total.keys.len() > 0,
        is_double(before.discount),
        before.discount.keys.len() == 1,
    ensures
        step_holds(model, actions, k, before, reward, after),
        alike_to(after, before),
{
    reveal(TdMpc2::earns);
    let (action, wide, logits, reward, gain) = choose|
        action: TensorValue,
        wide: TensorValue,
        logits: TensorValue,
        reward: TensorValue,
        gain: TensorValue,
    |
        #[trigger] step_of(actions, k, action) && #[trigger] paired(before.state, action, wide)
            && #[trigger] model.reward.of(wide, logits) && #[trigger] two_hot_value(
            logits,
            model.cfg.vmin,
            model.cfg.vmax,
            model.cfg.num_bins,
            reward,
        ) && #[trigger] affine_of(reward, before.discount, double(F64 { bits: 0 }), gain)
            && model.dynamics.of(wide, after.state) && sum_of(before.total, gain, after.total)
            && product_of(before.discount, double(model.cfg.discount), after.discount);
    let d = before.discount.keys[0];
    let e = before.total.element;
    assert(rewarded(model, actions, k, before.state, reward, after.state));
    assert(shrinks(model.cfg.discount.key(), d, after.discount.keys[0])) by {
        reveal(shrinks);
        if finite(ElementType::F64, model.cfg.discount.key()) && finite(ElementType::F64, d) {
            lemma_product_at(before.discount, double(model.cfg.discount), after.discount, 0);
        }
    }
    assert forall|row: int| 0 <= row < before.total.keys.len() implies accrues(
        e,
        before.total.keys[row],
        #[trigger] reward.keys[row],
        d,
        after.total.keys[row],
    ) by {
        lemma_accrues(before.total, reward, before.discount, gain, after.total, row);
    }
    reward
}

/// One more discounted reward, at a row.
proof fn lemma_accrues(
    before: TensorValue,
    reward: TensorValue,
    discount: TensorValue,
    gain: TensorValue,
    after: TensorValue,
    row: int,
)
    requires
        exact(before),
        is_double(discount),
        affine_of(reward, discount, double(F64 { bits: 0 }), gain),
        sum_of(before, gain, after),
        0 <= row < before.keys.len(),
    ensures
        accrues(
            before.element,
            before.keys[row],
            reward.keys[row],
            discount.keys[0],
            after.keys[row],
        ),
{
    reveal(accrues);
    let (e, d) = (before.element, discount.keys[0]);
    if finite(e, before.keys[row]) && finite(e, reward.keys[row]) && fits(e, d) {
        lemma_scaled_at(reward, discount, gain, row);
        assert(scaled(e, reward.keys[row], d, gain.keys[row]));
        if finite(e, gain.keys[row]) {
            lemma_sum_at(before, gain, after, row);
        }
    }
}

/// Takes the steps of a rollout apart.
proof fn lemma_steps(model: TdMpc2, actions: TensorValue, t: Seq<Earned>, k: int) -> (rewards: Seq<
    TensorValue,
>)
    requires
        0 <= k < t.len(),
        t.len() == actions.dims[1] + 1,
        exact(t[0].total),
        t[0].total.keys.len() > 0,
        is_double(t[0].discount),
        t[0].discount.keys.len() == 1,
        forall|j: int|
            0 <= j < actions.dims[1] ==> model.earns(actions, j, #[trigger] t[j], t[j + 1]),
    ensures
        rewards.len() == k,
        forall|j: int| 0 <= j <= k ==> alike_to(#[trigger] t[j], t[0]),
        forall|j: int|
            0 <= j < k ==> step_holds(model, actions, j, t[j], #[trigger] rewards[j], t[j + 1]),
    decreases k,
{
    if k == 0 {
        Seq::empty()
    } else {
        let some = lemma_steps(model, actions, t, k - 1);
        let (before, after) = (t[k - 1], t[k]);
        assert(model.earns(actions, k - 1, before, t[(k - 1) + 1]));
        assert(alike_to(before, t[0]));
        let reward = lemma_step(model, actions, k - 1, before, after);
        let rewards = some.push(reward);
        assert forall|j: int| 0 <= j < k implies step_holds(
            model,
            actions,
            j,
            t[j],
            #[trigger] rewards[j],
            t[j + 1],
        ) by {
            if j < k - 1 {
                assert(rewards[j] == some[j]);
            }
        }
        rewards
    }
}

/// The cost of an action candidate is its return with the sign turned: what it earns
/// step by step, each reward counting less than the one before by the same factor,
/// and the value of the state that it ends in, which counts like one more reward.
pub proof fn costs_are_negated_returns(
    model: TdMpc2,
    z: TensorValue,
    candidates: TensorValue,
    r: TensorValue,
) -> (p: Play)
    requires
        model.costs(z, candidates, r),
        exact(z),
        candidates.dims.len() == 4,
        0 < candidates.dims[0] * candidates.dims[1] <= usize::MAX,
    ensures
        plays(model, z, candidates, p),
        r.dims == seq![candidates.dims[0], candidates.dims[1]],
        r.keys.len() == candidates.dims[0] * candidates.dims[1],
        forall|row: int|
            0 <= row < r.keys.len() ==> is_turned_return(z.element, p, row, #[trigger] r.keys[row]),
{
    let (b, n) = (candidates.dims[0], candidates.dims[1]);
    let rows = (b * n) as usize;
    let e = z.element;
    let actions = flat_candidates(candidates);
    let (first, t, worth, gain, sum, cost) = choose|
        first: TensorValue,
        t: Seq<Earned>,
        worth: TensorValue,
        gain: TensorValue,
        total: TensorValue,
        cost: TensorValue,
    |
        candidate_states(z, b, n, model.latent() as usize) == Some(first)
            && #[trigger] model.collects(first, flat_candidates(candidates), t)
            && #[trigger] model.last_value(t.last().state, worth) && #[trigger] affine_of(
            worth,
            t.last().discount,
            double(F64 { bits: 0 }),
            gain,
        ) && #[trigger] sum_of(t.last().total, gain, total) && #[trigger] is_negation(total, cost)
            && r == cost.shaped(seq![b, n]);
    let h = actions.dims[1] as int;
    lemma_counts(rows, 1, 0, 0);
    assert(first.dims[0] == rows);
    assert(first.element == e && first.location == z.location);
    assert(plain(first.element));
    assert(t[0].total.keys.len() == count(seq![rows, 1usize]));
    assert(t[0].total.keys.len() == rows);
    let rewards = lemma_steps(model, actions, t, h);
    let p = Play {
        states: t.map_values(|x: Earned| x.state),
        rewards,
        totals: t.map_values(|x: Earned| x.total),
        discounts: t.map_values(|x: Earned| x.discount.keys[0]),
        worth,
    };
    assert(p.states.last() == t.last().state);
    assert(p.totals.last() == t.last().total);
    assert(p.discounts.last() == t.last().discount.keys[0]);
    assert forall|j: int| 0 <= j < p.rewards.len() implies rewarded(
        model,
        actions,
        j,
        p.states[j],
        #[trigger] p.rewards[j],
        p.states[j + 1],
    ) by {
        assert(step_holds(model, actions, j, t[j], rewards[j], t[j + 1]));
    }
    assert forall|j: int| 0 <= j < p.totals.len() implies (#[trigger] p.totals[j]).element
        == z.element && p.totals[j].location == z.location && p.totals[j].keys.len() == rows by {
        assert(alike_to(t[j], t[0]));
    }
    assert forall|row: int| 0 <= row < rows implies #[trigger] gathers(p, row) by {
        assert forall|j: int| 0 <= j < p.rewards.len() implies accrues(
            p.totals[j].element,
            p.totals[j].keys[row],
            (#[trigger] p.rewards[j]).keys[row],
            p.discounts[j],
            p.totals[j + 1].keys[row],
        ) by {
            assert(step_holds(model, actions, j, t[j], rewards[j], t[j + 1]));
            assert(alike_to(t[j], t[0]));
            assert(rewards[j].keys[row] == p.rewards[j].keys[row]);
        }
    }
    assert(keep_shrinking(model.cfg.discount.key(), p.discounts)) by {
        assert(double(F64 { bits: ONE }).keys[0] == one(ElementType::F64));
        assert forall|j: int| 1 <= j < p.discounts.len() implies shrinks(
            model.cfg.discount.key(),
            p.discounts[j - 1],
            #[trigger] p.discounts[j],
        ) by {
            assert(step_holds(model, actions, j - 1, t[j - 1], rewards[j - 1], t[(j - 1) + 1]));
        }
    }
    assert(alike_to(t[h], t[0]));
    assert forall|row: int| 0 <= row < r.keys.len() implies is_turned_return(
        e,
        p,
        row,
        #[trigger] r.keys[row],
    ) by {
        let total = sum.keys[row];
        lemma_accrues(t.last().total, worth, t.last().discount, gain, sum, row);
        assert(is_return(e, p, row, total));
    }
    p
}

/// A finite number times a factor from zero to one is finite.
proof fn lemma_share_of(e: ElementType, x: int, d: int, r: int)
    requires
        exact_type(e),
        0 <= d <= one(ElementType::F64),
        finite(e, x),
        scaled(e, x, d, r),
    ensures
        fits(e, d),
        finite(e, r),
{
    assert forall|f: int| #[trigger] converted(ElementType::F64, d, e, f) implies finite(e, f) by {
        lemma_share(e, d, f);
    }
    let f = choose|f: int|
        #[trigger] converted(ElementType::F64, d, e, f) && rounds_to(
            e,
            units(e, x) * units(e, f),
            scale(e),
            r,
        );
    lemma_share(e, d, f);
    lemma_scale(e);
    lemma_units(e, x, 0);
    let (u, v, s) = (units(e, x), units(e, f), scale(e));
    if x >= 0 {
        assert(0 <= u * v <= u * s) by (nonlinear_arith)
            requires
                u >= 0,
                0 <= v <= s,
        ;
        lemma_keeps_its_side(e, u * v, s, r, x);
    } else {
        assert(0 >= u * v >= u * s) by (nonlinear_arith)
            requires
                u <= 0,
                0 <= v <= s,
        ;
        lemma_keeps_its_side(e, u * v, s, r, x);
    }
    lemma_rounding_keeps_sign(e, u * v, s, r);
}

/// A discount from zero to one keeps the discounts there, and fixes them.
proof fn lemma_discounts(discount: int, a: Seq<int>, b: Seq<int>, k: int)
    requires
        0 <= discount <= one(ElementType::F64),
        keep_shrinking(discount, a),
        keep_shrinking(discount, b),
        0 <= k < a.len(),
        k < b.len(),
    ensures
        0 <= a[k] <= one(ElementType::F64),
        a[k] == b[k],
    decreases k,
{
    let w = ElementType::F64;
    if k > 0 {
        lemma_discounts(discount, a, b, k - 1);
        reveal(shrinks);
        assert(shrinks(discount, a[k - 1], a[k]));
        assert(shrinks(discount, b[k - 1], b[k]));
        lemma_scale(w);
        lemma_one(w);
        lemma_units(w, discount, 0);
        lemma_units(w, discount, one(w));
        lemma_units(w, a[k - 1], 0);
        lemma_units(w, a[k - 1], one(w));
        let (u, v, s) = (units(w, a[k - 1]), units(w, discount), scale(w));
        lemma_rounding_is_unique(w, u * v, s, a[k], b[k]);
        assert(0 <= u * v <= s * s) by (nonlinear_arith)
            requires
                0 <= u <= s,
                0 <= v <= s,
        ;
        lemma_rounding_keeps_sign(w, u * v, s, a[k]);
        lemma_keeps_its_side(w, u * v, s, a[k], one(w));
    }
}

/// More, or a larger reward, at the same discount is no smaller a return.
proof fn lemma_accruing_grows(
    e: ElementType,
    before1: int,
    reward1: int,
    after1: int,
    before2: int,
    reward2: int,
    after2: int,
    d: int,
)
    requires
        exact_type(e),
        0 <= d <= one(ElementType::F64),
        accrues(e, before1, reward1, d, after1),
        accrues(e, before2, reward2, d, after2),
        finite(e, before1),
        finite(e, before2),
        finite(e, reward1),
        finite(e, reward2),
        before1 <= before2,
        reward1 <= reward2,
    ensures
        after1 <= after2,
        number(e, after1),
        number(e, after2),
{
    reveal(accrues);
    assert(fits(e, d)) by {
        assert forall|f: int| #[trigger] converted(ElementType::F64, d, e, f) implies finite(
            e,
            f,
        ) by {
            lemma_share(e, d, f);
        }
    }
    let g1 = choose|gain: int|
        #[trigger] scaled(e, reward1, d, gain) && (finite(e, gain) ==> rounds_to(
            e,
            units(e, before1) + units(e, gain),
            1,
            after1,
        ));
    let g2 = choose|gain: int|
        #[trigger] scaled(e, reward2, d, gain) && (finite(e, gain) ==> rounds_to(
            e,
            units(e, before2) + units(e, gain),
            1,
            after2,
        ));
    lemma_share_of(e, reward1, d, g1);
    lemma_share_of(e, reward2, d, g2);
    lemma_scaling_grows(e, reward1, d, g1, reward2, d, g2);
    lemma_adding_grows(e, before1, g1, after1, before2, g2, after2);
}

/// Whether a row earns no less than another at every step and ends in a state that is
/// worth no less, all numbers on the way being finite.
pub open spec fn earns_no_less(e: ElementType, p: Play, i: int, q: Play, j: int) -> bool {
    &&& forall|k: int|
        0 <= k < p.rewards.len() ==> finite(e, (#[trigger] p.rewards[k]).keys[i]) && finite(
            e,
            q.rewards[k].keys[j],
        ) && p.rewards[k].keys[i] >= q.rewards[k].keys[j]
    &&& forall|k: int|
        0 <= k < p.totals.len() ==> finite(e, (#[trigger] p.totals[k]).keys[i]) && finite(
            e,
            q.totals[k].keys[j],
        )
    &&& finite(e, p.worth.keys[i]) && finite(e, q.worth.keys[j])
    &&& p.worth.keys[i] >= q.worth.keys[j]
}

proof fn lemma_totals_grow(e: ElementType, discount: int, p: Play, i: int, q: Play, j: int, k: int)
    requires
        exact_type(e),
        0 <= discount <= one(ElementType::F64),
        keep_shrinking(discount, p.discounts),
        keep_shrinking(discount, q.discounts),
        p.rewards.len() == q.rewards.len(),
        p.totals.len() == p.rewards.len() + 1,
        q.totals.len() == p.totals.len(),
        p.discounts.len() == p.totals.len(),
        q.discounts.len() == p.totals.len(),
        forall|k: int|
            0 <= k < p.totals.len() ==> (#[trigger] p.totals[k]).element == e && q.totals[k].element
                == e,
        gathers(p, i),
        gathers(q, j),
        earns_no_less(e, p, i, q, j),
        0 <= k < p.totals.len(),
    ensures
        p.totals[k].keys[i] >= q.totals[k].keys[j],
    decreases k,
{
    if k > 0 {
        let m = k - 1;
        lemma_totals_grow(e, discount, p, i, q, j, m);
        lemma_discounts(discount, p.discounts, q.discounts, m);
        let (a, b) = (p.rewards[m], q.rewards[m]);
        assert(p.totals[m].element == e && q.totals[m].element == e);
        assert(accrues(
            e,
            p.totals[m].keys[i],
            a.keys[i],
            p.discounts[m],
            p.totals[m + 1].keys[i],
        ));
        assert(accrues(
            e,
            q.totals[m].keys[j],
            b.keys[j],
            q.discounts[m],
            q.totals[m + 1].keys[j],
        ));
        lemma_accruing_grows(
            e,
            q.totals[m].keys[j],
            b.keys[j],
            q.totals[m + 1].keys[j],
            p.totals[m].keys[i],
            a.keys[i],
            p.totals[m + 1].keys[i],
            p.discounts[m],
        );
    }
}

/// A candidate that earns no less costs no more: of two candidates, in one call or in
/// two, the one whose rewards are as large at every step and whose last state is worth
/// as much has a cost that is not larger, where the discount lies between zero and
/// one.
pub proof fn larger_returns_cost_no_more(
    model: TdMpc2,
    z1: TensorValue,
    c1: TensorValue,
    r1: TensorValue,
    z2: TensorValue,
    c2: TensorValue,
    r2: TensorValue,
) -> (both: (Play, Play))
    requires
        model.costs(z1, c1, r1),
        model.costs(z2, c2, r2),
        exact(z1),
        exact(z2),
        z1.element == z2.element,
        c1.dims.len() == 4,
        c2.dims.len() == 4,
        c1.dims[2] == c2.dims[2],
        0 < c1.dims[0] * c1.dims[1] <= usize::MAX,
        0 < c2.dims[0] * c2.dims[1] <= usize::MAX,
        0 <= model.cfg.discount.key() <= one(ElementType::F64),
    ensures
        plays(model, z1, c1, both.0),
        plays(model, z2, c2, both.1),
        forall|i: int, j: int|
            #![trigger r1.keys[i], r2.keys[j]]
            0 <= i < r1.keys.len() && 0 <= j < r2.keys.len() && earns_no_less(
                z1.element,
                both.0,
                i,
                both.1,
                j,
            ) ==> r1.keys[i] <= r2.keys[j],
{
    let e = z1.element;
    let discount = model.cfg.discount.key();
    let p = costs_are_negated_returns(model, z1, c1, r1);
    let q = costs_are_negated_returns(model, z2, c2, r2);
    assert forall|i: int, j: int|
        #![trigger r1.keys[i], r2.keys[j]]
        0 <= i < r1.keys.len() && 0 <= j < r2.keys.len() && earns_no_less(
            e,
            p,
            i,
            q,
            j,
        ) implies r1.keys[i] <= r2.keys[j] by {
        let h: int = p.totals.len() - 1;
        assert(is_turned_return(e, p, i, r1.keys[i]));
        assert(is_turned_return(e, q, j, r2.keys[j]));
        let t1 = choose|total: int| #[trigger]
            is_return(e, p, i, total) && (number(e, total) ==> r1.keys[i] == -total);
        let t2 = choose|total: int| #[trigger]
            is_return(e, q, j, total) && (number(e, total) ==> r2.keys[j] == -total);
        assert(gathers(p, i) && gathers(q, j));
        lemma_totals_grow(e, discount, p, i, q, j, h);
        lemma_discounts(discount, p.discounts, q.discounts, h);
        assert(finite(e, p.totals[h].keys[i]) && finite(e, q.totals[h].keys[j]));
        lemma_accruing_grows(
            e,
            q.totals[h].keys[j],
            q.worth.keys[j],
            t2,
            p.totals[h].keys[i],
            p.worth.keys[i],
            t1,
            p.discounts[h],
        );
    }
    (p, q)
}

/// Each candidate starts from the state of its own entry of the batch, and where there
/// is a state for each candidate, from that.
pub proof fn candidates_start_from_their_own_state(
    z: TensorValue,
    b: usize,
    n: usize,
    width: usize,
    first: TensorValue,
)
    requires
        candidate_states(z, b, n, width) == Some(first),
        z.keys.len() == count(z.dims),
    ensures
        z.dims != seq![b, width] ==> first.keys == z.keys,
        z.dims == seq![b, width] ==> forall|o: int, m: int, i: int|
            #![trigger first.keys[(o * n + m) * width + i]]
            0 <= o < b && 0 <= m < n && 0 <= i < width ==> first.keys[(o * n + m) * width + i]
                == z.keys[o * width + i],
{
    if z.dims == seq![b, width] {
        let rest = seq![width];
        lemma_counts(width, width, width, width);
        assert(seq![b, 1usize] + rest =~= seq![b, 1usize, width]);
        assert(seq![b, n] + rest =~= seq![b, n, width]);
        assert forall|o: int, m: int, i: int|
            #![trigger first.keys[(o * n + m) * width + i]]
            0 <= o < b && 0 <= m < n && 0 <= i < width implies first.keys[(o * n + m) * width + i]
            == z.keys[o * width + i] by {
            lemma_spread_inserted(b, n, rest, o, m, i);
            let k = (o * n + m) * width + i;
            let (bi, ni, w) = (b as int, n as int, width as int);
            assert(0 <= k < bi * ni * w) by (nonlinear_arith)
                requires
                    k == (o * ni + m) * w + i,
                    0 <= o < bi,
                    0 <= m < ni,
                    0 <= i < w,
            ;
        }
    }
}

} // verus!
