//! What draws make of a mean, and weights of candidates.

use vstd::prelude::*;

use crate::planner::sampling::{
    clamped, for_samples, for_steps, is_weighting, made_from, usable_bounds, weighted,
};
use crate::rounding::{
    exact_type, finite, lemma_exact, lemma_rounding_grows, lemma_rounding_keeps_sign, lemma_scale,
    lemma_units, number, rounds_to, scale, units,
};
use crate::scalar::F32;
use crate::tensor::arithmetic::{
    adds_up, exact, finite_along, finite_at, like, maximum_of, minimum_of, product_of, sum_of,
    sum_rounds, swallows, total_of, total_rounds,
};
use crate::tensor::facts::{
    lemma_component, lemma_counts, lemma_position, lemma_second_axis, lemma_spread_inserted,
    lemma_spread_last, lemma_spread_rows,
};
use crate::tensor::scaled::{lemma_product_at, lemma_sum_at};
use crate::tensor::value::{count, in_range, inner, position, spread, ElementType, TensorValue};

verus! {

/// A number moved into its bounds: the lower bound where it is below, then the upper
/// bound where it is above.
pub open spec fn moved_into(x: int, low: int, high: int) -> int {
    let raised = if x >= low {
        x
    } else {
        low
    };
    if raised <= high {
        raised
    } else {
        high
    }
}

/// Whether `c` is a mean plus a draw times a deviation.
pub open spec fn is_draw(e: ElementType, mean: int, std: int, draw: int, c: int) -> bool {
    exists|p: int| #[trigger]
        rounds_to(e, units(e, draw) * units(e, std), scale(e), p) && if finite(e, p) {
            rounds_to(e, units(e, mean) + units(e, p), 1, c)
        } else {
            c == p
        }
}

/// Whether `r` is a mean plus a draw times a deviation, moved into its bounds.
pub open spec fn is_candidate(
    e: ElementType,
    mean: int,
    std: int,
    draw: int,
    low: int,
    high: int,
    r: int,
) -> bool {
    exists|c: int| #[trigger] is_draw(e, mean, std, draw, c) && r == moved_into(c, low, high)
}

/// Means and deviations `[batch, horizon, action]` and draws
/// `[batch, samples, horizon, action]` of one kind, all finite.
pub open spec fn drawable(draws: TensorValue, mean: TensorValue, std: TensorValue) -> bool {
    &&& exact(draws)
    &&& draws.dims.len() == 4
    &&& draws.keys.len() == count(draws.dims)
    &&& mean.dims == seq![draws.dims[0], draws.dims[2], draws.dims[3]]
    &&& std.dims == mean.dims
    &&& mean.keys.len() == count(mean.dims)
    &&& std.keys.len() == count(mean.dims)
    &&& mean.element == draws.element
    &&& mean.location == draws.location
    &&& std.element == draws.element
    &&& std.location == draws.location
    &&& forall|k: int| 0 <= k < draws.keys.len() ==> finite(draws.element, #[trigger] draws.keys[k])
    &&& forall|k: int| 0 <= k < mean.keys.len() ==> finite(draws.element, #[trigger] mean.keys[k])
    &&& forall|k: int| 0 <= k < std.keys.len() ==> finite(draws.element, #[trigger] std.keys[k])
}

/// A candidate is the mean plus its draw times the deviation, moved into the bounds.
pub proof fn candidates_are_moved_means(
    draws: TensorValue,
    mean: TensorValue,
    std: TensorValue,
    low: TensorValue,
    high: TensorValue,
    r: TensorValue,
)
    requires
        made_from(draws, mean, std, low, high, r),
        drawable(draws, mean, std),
        usable_bounds(low, high, draws.element, draws.dims[3]),
    ensures
        r.dims == draws.dims,
        forall|o: int, m: int, i: int|
            in_range(draws.dims, 1, o, m, i) ==> is_candidate(
                draws.element,
                mean.keys[o * inner(draws.dims, 1) + i],
                std.keys[o * inner(draws.dims, 1) + i],
                draws.at(1, o, m, i),
                low.keys[i % draws.dims[3] as int],
                high.keys[i % draws.dims[3] as int],
                #[trigger] r.at(1, o, m, i),
            ),
{
    let (b, n, h, a) = (draws.dims[0], draws.dims[1], draws.dims[2], draws.dims[3]);
    let e = draws.element;
    assert(draws.dims =~= seq![b, n, h, a]);
    let (scaled, moved) = choose|scaled: TensorValue, moved: TensorValue|
        #[trigger] product_of(draws, for_samples(std, draws.dims), scaled) && #[trigger] sum_of(
            for_samples(mean, draws.dims),
            scaled,
            moved,
        ) && clamped(moved, low, high, r);
    let raised = choose|raised: TensorValue|
        #[trigger] maximum_of(moved, spread(low, moved.dims), raised) && like(moved, raised)
            && minimum_of(raised, spread(high, moved.dims), r) && like(moved, r);
    let (wide_mean, wide_std) = (for_samples(mean, draws.dims), for_samples(std, draws.dims));
    assert forall|o: int, m: int, i: int| in_range(draws.dims, 1, o, m, i) implies is_candidate(
        e,
        mean.keys[o * inner(draws.dims, 1) + i],
        std.keys[o * inner(draws.dims, 1) + i],
        draws.at(1, o, m, i),
        low.keys[i % a as int],
        high.keys[i % a as int],
        #[trigger] r.at(1, o, m, i),
    ) by {
        lemma_second_axis(b, n, h, a);
        lemma_position(draws.dims, 1, o, m, i);
        let k = position(draws.dims, 1, o, m, i);
        let w = h * a;
        let p = o * w + i;
        lemma_counts(b, n, h, a);
        lemma_counts(b, h, a, a);
        lemma_counts(h, a, a, a);
        let rest = seq![h, a];
        lemma_spread_inserted(b, n, rest, o, m, i);
        assert(mean.dims.insert(1, 1) =~= seq![b, 1usize] + rest);
        assert(draws.dims =~= seq![b, n] + rest);
        assert(0 <= p < b * w) by (nonlinear_arith)
            requires
                p == o * w + i,
                0 <= o < b,
                0 <= i < w,
        ;
        assert(wide_mean.keys[k] == mean.keys[p]);
        assert(wide_std.keys[k] == std.keys[p]);
        assert(finite_at(draws, k) && finite_at(wide_std, k) && finite_at(wide_mean, k));
        lemma_product_at(draws, wide_std, scaled, k);
        if finite_at(scaled, k) {
            lemma_sum_at(wide_mean, scaled, moved, k);
        } else {
            reveal(sum_rounds);
            assert(swallows(e, wide_mean.keys[k], scaled.keys[k], moved.keys[k]));
        }
        let c = moved.keys[k];
        assert(rounds_to(e, units(e, draws.keys[k]) * units(e, std.keys[p]), scale(e), scaled.keys[k]));
        assert(is_draw(e, mean.keys[p], std.keys[p], draws.keys[k], c));
        assert(number(e, c));
        lemma_spread_last(b, n, h, a, k);
        lemma_component(o * n + m, h as int, a as int, i);
        vstd::arithmetic::div_mod::lemma_mod_bound(i, a as int);
        assert(spread(low, moved.dims).keys[k] == low.keys[i % a as int]);
        assert(spread(high, moved.dims).keys[k] == high.keys[i % a as int]);
        assert(raised.keys[k] == if c >= low.keys[i % a as int] {
            c
        } else {
            low.keys[i % a as int]
        });
        assert(r.keys[k] == moved_into(c, low.keys[i % a as int], high.keys[i % a as int]));
    }
}

/// Where the deviation is not negative, a larger draw makes no smaller candidate, and
/// without a draw the candidate is the mean, moved into its bounds.
pub proof fn larger_draws_move_no_lower(
    e: ElementType,
    mean: int,
    std: int,
    draw: int,
    other: int,
    low: int,
    high: int,
    r: int,
    s: int,
)
    requires
        exact_type(e),
        finite(e, mean),
        std >= 0,
        draw <= other,
        is_candidate(e, mean, std, draw, low, high, r),
        is_candidate(e, mean, std, other, low, high, s),
    ensures
        r <= s,
        draw == 0 ==> r == moved_into(mean, low, high),
{
    let c = choose|c: int| #[trigger]
        is_draw(e, mean, std, draw, c) && r == moved_into(c, low, high);
    let d = choose|c: int| #[trigger]
        is_draw(e, mean, std, other, c) && s == moved_into(c, low, high);
    let p = choose|p: int| #[trigger]
        rounds_to(e, units(e, draw) * units(e, std), scale(e), p) && if finite(e, p) {
            rounds_to(e, units(e, mean) + units(e, p), 1, c)
        } else {
            c == p
        };
    let q = choose|p: int| #[trigger]
        rounds_to(e, units(e, other) * units(e, std), scale(e), p) && if finite(e, p) {
            rounds_to(e, units(e, mean) + units(e, p), 1, d)
        } else {
            d == p
        };
    lemma_scale(e);
    lemma_units(e, draw, other);
    lemma_units(e, std, 0);
    let (x, y, v, z) = (units(e, draw), units(e, other), units(e, std), scale(e));
    assert((x * v) * z <= (y * v) * z) by (nonlinear_arith)
        requires
            x <= y,
            v >= 0,
            z > 0,
    ;
    lemma_rounding_grows(e, x * v, z, p, y * v, z, q);
    if finite(e, p) && finite(e, q) {
        lemma_units(e, p, q);
        lemma_rounding_grows(e, units(e, mean) + units(e, p), 1, c, units(e, mean) + units(e, q), 1, d);
    }
    if draw == 0 {
        lemma_units(e, 0, 0);
        assert(x * v == 0) by (nonlinear_arith)
            requires
                x == 0,
        ;
        lemma_rounding_keeps_sign(e, 0, z, p);
        assert(units(e, mean) + units(e, p) == units(e, mean) * 1);
        lemma_exact(e, mean, 1, c);
    }
}

/// A weighted sequence is the sum of the candidates, each times its weight.
pub proof fn weighted_sequences_add_weighted_candidates(
    candidates: TensorValue,
    scores: TensorValue,
    temperature: F32,
    r: TensorValue,
) -> (parts: (TensorValue, TensorValue))
    requires
        weighted(candidates, scores, temperature, r),
        exact(candidates),
        candidates.dims.len() == 4,
        candidates.keys.len() == count(candidates.dims),
        scores.dims == seq![candidates.dims[0], candidates.dims[1]],
        scores.keys.len() == count(scores.dims),
    ensures
        is_weighting(scores, temperature, parts.0),
        parts.1.dims == candidates.dims,
        r.dims == candidates.dims.remove(1),
        forall|o: int, m: int, i: int|
            in_range(candidates.dims, 1, o, m, i) && finite(
                candidates.element,
                candidates.at(1, o, m, i),
            ) && finite(candidates.element, parts.0.at(1, o, m, 0)) ==> rounds_to(
                candidates.element,
                units(candidates.element, candidates.at(1, o, m, i)) * units(
                    candidates.element,
                    parts.0.at(1, o, m, 0),
                ),
                scale(candidates.element),
                #[trigger] parts.1.at(1, o, m, i),
            ),
        forall|o: int, i: int|
            0 <= o < candidates.dims[0] && 0 <= i < inner(candidates.dims, 1) && finite_along(
                parts.1,
                1,
                o,
                i,
            ) ==> #[trigger] adds_up(parts.1, 1, o, i, r),
{
    let (weights, scaled) = choose|weights: TensorValue, scaled: TensorValue|
        #[trigger] is_weighting(scores, temperature, weights) && #[trigger] product_of(
            candidates,
            for_steps(weights, candidates.dims),
            scaled,
        ) && total_of(scaled, 1, r);
    let (b, n, h, a) = (
        candidates.dims[0],
        candidates.dims[1],
        candidates.dims[2],
        candidates.dims[3],
    );
    let e = candidates.element;
    assert(candidates.dims =~= seq![b, n, h, a]);
    lemma_second_axis(b, n, h, a);
    let wide = for_steps(weights, candidates.dims);
    assert(weights.dims == scores.dims);
    assert(weights.dims + seq![1usize, 1] =~= seq![b, n, 1usize, 1]);
    assert forall|o: int, m: int, i: int|
        in_range(candidates.dims, 1, o, m, i) && finite(e, candidates.at(1, o, m, i)) && finite(
            e,
            weights.at(1, o, m, 0),
        ) implies rounds_to(
        e,
        units(e, candidates.at(1, o, m, i)) * units(e, weights.at(1, o, m, 0)),
        scale(e),
        #[trigger] scaled.at(1, o, m, i),
    ) by {
        let k = position(candidates.dims, 1, o, m, i);
        lemma_position(candidates.dims, 1, o, m, i);
        lemma_spread_rows(b, n, h, a, o, m, i);
        assert(position(weights.dims, 1, o, m, 0) == o * n + m);
        assert(wide.keys[k] == weights.keys[o * n + m]);
        assert(finite_at(candidates, k) && finite_at(wide, k));
        lemma_product_at(candidates, wide, scaled, k);
    }
    assert forall|o: int, i: int|
        0 <= o < b && 0 <= i < inner(candidates.dims, 1) && finite_along(
            scaled,
            1,
            o,
            i,
        ) implies #[trigger] adds_up(scaled, 1, o, i, r) by {
        reveal(total_rounds);
    }
    (weights, scaled)
}

} // verus!
