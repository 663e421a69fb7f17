//! Candidates stay in their bounds whatever is picked from them.

use vstd::prelude::*;

use crate::planner::config::ActionBounds;
use crate::planner::result::best_of;
use crate::planner::sampling::bounded;
use crate::planner::selection::{elite, names_candidates, picked};
use crate::planner::workspace::{bound_tensor, keys_of};
use crate::scalar::nan_key;
use crate::tensor::facts::{
    lemma_component, lemma_counts, lemma_place, lemma_position, lemma_second_axis,
};
use crate::tensor::layout::{followed, narrowed, sorts_rows};
use crate::tensor::value::{count, in_range, is_nan, position, ElementType, Location, TensorValue};

verus! {

/// Bounds for `action` components.
pub open spec fn bounds_for(low: TensorValue, high: TensorValue, action: usize) -> bool {
    low.keys.len() == action && high.keys.len() == action
}

/// What is picked from bounded candidates is bounded.
pub proof fn lemma_picked_bounded(
    candidates: TensorValue,
    indices: TensorValue,
    r: TensorValue,
    low: TensorValue,
    high: TensorValue,
)
    requires
        candidates.dims.len() == 4,
        candidates.keys.len() == count(candidates.dims),
        indices.dims.len() == 2,
        names_candidates(indices, candidates.dims[0], candidates.dims[1]),
        picked(candidates, indices, r),
        bounds_for(low, high, candidates.dims[3]),
        bounded(candidates, low, high),
    ensures
        bounded(r, low, high),
{
    let (b, n, h, a) = (
        candidates.dims[0],
        candidates.dims[1],
        candidates.dims[2],
        candidates.dims[3],
    );
    let s = indices.dims[1];
    assert(candidates.dims =~= seq![b, n, h, a]);
    assert(indices.dims =~= seq![b, s]);
    lemma_second_axis(b, n, h, a);
    lemma_second_axis(b, s, h, a);
    lemma_counts(b, s, h, a);
    assert forall|k: int| 0 <= k < r.keys.len() implies is_nan(r.element, #[trigger] r.keys[k]) || (
    r.keys[k] <= high.keys[k % a as int] && (r.keys[k] >= low.keys[k % a as int] || r.keys[k]
        >= high.keys[k % a as int])) by {
        let (o, m, i) = lemma_place(r.dims, 1, k);
        assert(a > 0) by (nonlinear_arith)
            requires
                0 <= i < h * a,
                h >= 0,
                a >= 0,
        ;
        lemma_position(indices.dims, 1, o, m, 0);
        let t = indices.at(1, o, m, 0);
        assert(r.at(1, o, m, i) == candidates.at(1, o, t, i));
        lemma_position(candidates.dims, 1, o, t, i);
        lemma_component(o * n + t, h as int, a as int, i);
        lemma_component(o * s + m, h as int, a as int, i);
        assert(candidates.keys[position(candidates.dims, 1, o, t, i)] == r.keys[k]);
    }
}

/// Bounded candidates one after the other are bounded.
pub proof fn lemma_followed_bounded(
    first: TensorValue,
    second: TensorValue,
    r: TensorValue,
    low: TensorValue,
    high: TensorValue,
)
    requires
        first.dims.len() == 4,
        second.dims.len() == 4,
        second.dims == first.dims.update(1, second.dims[1]),
        first.dims[1] + second.dims[1] <= usize::MAX,
        first.keys.len() == count(first.dims),
        second.keys.len() == count(second.dims),
        second.element == first.element,
        followed(first, second, 1, r),
        bounds_for(low, high, first.dims[3]),
        bounded(first, low, high),
        bounded(second, low, high),
    ensures
        bounded(r, low, high),
{
    let (b, n, h, a) = (first.dims[0], first.dims[1], first.dims[2], first.dims[3]);
    let s = second.dims[1];
    let t = (n + s) as usize;
    assert(first.dims =~= seq![b, n, h, a]);
    assert(second.dims =~= seq![b, s, h, a]);
    assert(r.dims =~= seq![b, t, h, a]);
    lemma_second_axis(b, n, h, a);
    lemma_second_axis(b, s, h, a);
    lemma_second_axis(b, t, h, a);
    assert forall|k: int| 0 <= k < r.keys.len() implies is_nan(r.element, #[trigger] r.keys[k]) || (
    r.keys[k] <= high.keys[k % a as int] && (r.keys[k] >= low.keys[k % a as int] || r.keys[k]
        >= high.keys[k % a as int])) by {
        let (o, m, i) = lemma_place(r.dims, 1, k);
        assert(a > 0) by (nonlinear_arith)
            requires
                0 <= i < h * a,
                h >= 0,
                a >= 0,
        ;
        lemma_component(o * t + m, h as int, a as int, i);
        assert(r.at(1, o, m, i) == r.keys[k]);
        if m < n {
            lemma_position(first.dims, 1, o, m, i);
            lemma_component(o * n + m, h as int, a as int, i);
            assert(first.keys[position(first.dims, 1, o, m, i)] == r.keys[k]);
        } else {
            lemma_position(second.dims, 1, o, m - n, i);
            lemma_component(o * s + (m - n), h as int, a as int, i);
            assert(second.keys[position(second.dims, 1, o, m - n, i)] == r.keys[k]);
        }
    }
}

/// A part of bounded candidates is bounded.
pub proof fn lemma_narrowed_bounded(
    v: TensorValue,
    len: usize,
    r: TensorValue,
    low: TensorValue,
    high: TensorValue,
)
    requires
        v.dims.len() == 4,
        v.keys.len() == count(v.dims),
        len <= v.dims[1],
        narrowed(v, 1, 0, len as int, r),
        bounds_for(low, high, v.dims[3]),
        bounded(v, low, high),
    ensures
        bounded(r, low, high),
{
    let (b, n, h, a) = (v.dims[0], v.dims[1], v.dims[2], v.dims[3]);
    assert(v.dims =~= seq![b, n, h, a]);
    assert(r.dims =~= seq![b, len, h, a]);
    lemma_second_axis(b, n, h, a);
    lemma_second_axis(b, len, h, a);
    assert forall|k: int| 0 <= k < r.keys.len() implies is_nan(r.element, #[trigger] r.keys[k]) || (
    r.keys[k] <= high.keys[k % a as int] && (r.keys[k] >= low.keys[k % a as int] || r.keys[k]
        >= high.keys[k % a as int])) by {
        let (o, m, i) = lemma_place(r.dims, 1, k);
        assert(a > 0) by (nonlinear_arith)
            requires
                0 <= i < h * a,
                h >= 0,
                a >= 0,
        ;
        assert(r.at(1, o, m, i) == v.at(1, o, 0 + m, i));
        lemma_position(v.dims, 1, o, m, i);
        lemma_component(o * len + m, h as int, a as int, i);
        lemma_component(o * n + m, h as int, a as int, i);
        assert(v.keys[position(v.dims, 1, o, m, i)] == r.keys[k]);
    }
}

/// The elites of bounded candidates are bounded.
pub proof fn lemma_elite_bounded(
    candidates: TensorValue,
    scores: TensorValue,
    elite_count: usize,
    elites: TensorValue,
    low: TensorValue,
    high: TensorValue,
)
    requires
        candidates.dims.len() == 4,
        candidates.keys.len() == count(candidates.dims),
        candidates.dims[1] < u32::MAX,
        scores.dims == seq![candidates.dims[0], candidates.dims[1]],
        elite_count <= candidates.dims[1],
        elite(candidates, scores, elite_count, elites),
        bounds_for(low, high, candidates.dims[3]),
        bounded(candidates, low, high),
    ensures
        bounded(elites, low, high),
{
    let (order, best) = choose|order: TensorValue, best: TensorValue|
        #[trigger] sorts_rows(scores, order) && #[trigger] narrowed(
            order,
            1,
            0,
            elite_count as int,
            best,
        ) && picked(candidates, best, elites);
    lemma_ranked_names(scores, order, best, candidates.dims[0], candidates.dims[1], elite_count);
    lemma_picked_bounded(candidates, best, elites, low, high);
}

/// The first entries of a ranking name candidates.
proof fn lemma_ranked_names(
    scores: TensorValue,
    order: TensorValue,
    best: TensorValue,
    b: usize,
    n: usize,
    len: usize,
)
    requires
        scores.dims == seq![b, n],
        n < u32::MAX,
        len <= n,
        sorts_rows(scores, order),
        narrowed(order, 1, 0, len as int, best),
    ensures
        best.dims == seq![b, len],
        names_candidates(best, b, n),
{
    lemma_second_axis(b, n, 0, 0);
    lemma_second_axis(b, len, 0, 0);
    assert(best.dims =~= seq![b, len]);
    assert forall|k: int| 0 <= k < best.keys.len() implies 0 <= #[trigger] best.keys[k] < n
        && best.keys[k] < u32::MAX by {
        let p = lemma_place(best.dims, 1, k);
        assert(best.at(1, p.0, p.1, 0) == order.at(1, p.0, 0 + p.1, 0));
        let axis = scores.dims.len() - 1;
        assert(axis == 1);
        assert(in_range(order.dims, axis, p.0, p.1, 0));
        assert(0 <= order.at(axis, p.0, p.1, 0) < n);
    }
}

/// The best of bounded candidates is bounded.
pub proof fn lemma_best_bounded(
    candidates: TensorValue,
    scores: TensorValue,
    best_indices: Seq<usize>,
    sequence: TensorValue,
    low: TensorValue,
    high: TensorValue,
)
    requires
        candidates.dims.len() == 4,
        candidates.keys.len() == count(candidates.dims),
        candidates.dims[1] < u32::MAX,
        scores.dims == seq![candidates.dims[0], candidates.dims[1]],
        candidates.dims[1] > 0,
        best_of(candidates, scores, best_indices, sequence),
        bounds_for(low, high, candidates.dims[3]),
        bounded(candidates, low, high),
    ensures
        bounded(sequence, low, high),
{
    let (order, best, rows) = choose|order: TensorValue, best: TensorValue, rows: TensorValue|
        #[trigger] sorts_rows(scores, order) && crate::planner::selection::best_places(
            order,
            best_indices,
        ) && #[trigger] narrowed(order, 1, 0, 1, best) && #[trigger] picked(candidates, best, rows)
            && sequence == rows.shaped(
            seq![candidates.dims[0], candidates.dims[2], candidates.dims[3]],
        );
    lemma_ranked_names(scores, order, best, candidates.dims[0], candidates.dims[1], 1);
    lemma_picked_bounded(candidates, best, rows, low, high);
}

/// Bounded actions of a single-precision plan keep to the configured bounds: an
/// element is a NaN, or it lies between the two bounds of its component.
pub proof fn bounded_actions_keep_their_range(
    bounds: ActionBounds,
    action_dim: usize,
    location: Location,
    low: TensorValue,
    high: TensorValue,
    plan: TensorValue,
    k: int,
)
    requires
        bounds.valid(action_dim),
        action_dim > 0,
        bound_tensor(bounds.low@, ElementType::F32, location, low),
        bound_tensor(bounds.high@, ElementType::F32, location, high),
        plan.element is F32,
        bounded(plan, low, high),
        0 <= k < plan.keys.len(),
    ensures
        nan_key(plan.keys[k]) || bounds.low@[k % action_dim as int].key() <= plan.keys[k]
            <= bounds.high@[k % action_dim as int].key(),
{
    vstd::arithmetic::div_mod::lemma_mod_bound(k, action_dim as int);
    let i = k % action_dim as int;
    assert(keys_of(bounds.low@)[i] == bounds.low@[i].key());
    assert(keys_of(bounds.high@)[i] == bounds.high@[i].key());
    assert(is_nan(plan.element, plan.keys[k]) || plan.keys[k] <= high.keys[k % action_dim as int]);
}

} // verus!
