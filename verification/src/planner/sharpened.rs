//! How the temperature weighs candidates against each other.

use vstd::arithmetic::power2::{lemma_pow2_adds, lemma_pow2_pos, pow2};
use vstd::prelude::*;

use crate::planner::sampling::{is_sharpness, is_weighting, number_value};
use crate::rounding::{
    exact_type, finite, lemma_exact, lemma_keeps_its_side, lemma_power, lemma_rounding_grows,
    lemma_rounding_keeps_sign, lemma_scale, lemma_units, lemma_widened, number, power, rounds_to,
    scale, units,
};
use crate::scalar::{F32, F64};
use crate::tensor::arithmetic::{
    affine_of, converted, difference_of, difference_rounds, exact, finite_at, is_negation,
    is_softmax, least_along, like, nearest_at, reciprocal_of, reciprocal_rounds, units_at,
};
use crate::tensor::facts::{lemma_counts, lemma_position, lemma_second_axis};
use crate::tensor::layout::{cast_of, cast_rounds};
use crate::tensor::make::double;
use crate::tensor::scaled::{
    differ_by, fits, lemma_converting_grows, lemma_converting_keeps_sign, lemma_scaled_at, scaled,
};
use crate::tensor::value::{
    count, in_range, is_double, position, spread, spread_position, spreads, ElementType, Location,
    TensorValue,
};

verus! {

/// A finite temperature above zero.
pub open spec fn warm(temperature: F32) -> bool {
    temperature.finite() && temperature.key() > 0
}

/// A finite temperature that is no smaller than the least normal number, so that one
/// over it is a single-precision number.
pub open spec fn well_above_zero(temperature: F32) -> bool {
    temperature.finite() && temperature.key() >= power(ElementType::F32, -126)
}

/// Whether a double-precision number times a temperature is minus one, up to the
/// neighbouring numbers.
pub open spec fn minus_inverse(temperature: F32, factor: int) -> bool {
    let t = units(ElementType::F32, temperature.key());
    let one = scale(ElementType::F32) * scale(ElementType::F64);
    &&& factor <= 0
    &&& factor < 0 ==> units(ElementType::F64, factor + 1) * t >= -one
    &&& number(ElementType::F64, factor - 1) ==> units(ElementType::F64, factor - 1) * t <= -one
}

/// The temperature in double precision, and the double nearest to one over it.
proof fn lemma_sharpness(temperature: F32, factor: TensorValue) -> (w: int)
    requires
        is_sharpness(temperature, factor),
        warm(temperature),
    ensures
        w > 0,
        finite(ElementType::F64, w),
        units(ElementType::F64, w) * scale(ElementType::F32) == units(
            ElementType::F32,
            temperature.key(),
        ) * scale(ElementType::F64),
        rounds_to(
            ElementType::F64,
            scale(ElementType::F64) * scale(ElementType::F64),
            units(ElementType::F64, w),
            -factor.keys[0],
        ),
        is_double(factor),
{
    let x = number_value(temperature, Location::Cpu);
    let (wide, inverse) = choose|wide: TensorValue, inverse: TensorValue|
        #[trigger] cast_of(x, wide) && wide.element is F64 && #[trigger] reciprocal_of(
            wide,
            inverse,
        ) && is_negation(inverse, factor);
    let k = temperature.key();
    let w = lemma_widened(k);
    lemma_scale(ElementType::F32);
    lemma_scale(ElementType::F64);
    assert(x.keys[0] == k && finite_at(x, 0));
    assert(converted(ElementType::F32, k, ElementType::F64, wide.keys[0])) by {
        reveal(cast_rounds);
        assert(converted(x.element, x.keys[0], wide.element, wide.keys[0]));
    }
    lemma_exact(ElementType::F64, w, scale(ElementType::F32), wide.keys[0]);
    assert(finite_at(wide, 0));
    assert(nearest_at(
        inverse,
        0,
        scale(ElementType::F64) * scale(ElementType::F64),
        units_at(wide, 0),
    )) by {
        reveal(reciprocal_rounds);
    }
    assert(factor.keys[0] == -inverse.keys[0]);
    w
}

/// The factor that score differences are multiplied by is minus one over the
/// temperature: times the temperature it is minus one.
pub proof fn factor_times_temperature_is_minus_one(temperature: F32, factor: TensorValue)
    requires
        is_sharpness(temperature, factor),
        warm(temperature),
    ensures
        minus_inverse(temperature, factor.keys[0]),
{
    let w = lemma_sharpness(temperature, factor);
    let e = ElementType::F64;
    let (v, t) = (units(e, w), units(ElementType::F32, temperature.key()));
    let (s, c) = (scale(ElementType::F32), scale(e));
    let r = -factor.keys[0];
    lemma_scale(e);
    lemma_scale(ElementType::F32);
    lemma_units(e, w, 0);
    assert(c * c >= 0) by (nonlinear_arith);
    lemma_rounding_keeps_sign(e, c * c, v, r);
    lemma_units(e, r, r);
    if r > 0 {
        let (u, p) = (units(e, r), units(e, r - 1));
        lemma_units(e, r - 1, r);
        assert((u + p) * v <= 2 * (c * c));
        assert(p * t <= s * c) by (nonlinear_arith)
            requires
                (u + p) * v <= 2 * (c * c),
                p <= u,
                v > 0,
                v * s == t * c,
                s > 0,
                c > 0,
        {
            assert(2 * (p * v) <= (u + p) * v) by (nonlinear_arith)
                requires
                    p <= u,
                    v > 0,
            ;
            assert((p * v) * s <= (c * c) * s) by (nonlinear_arith)
                requires
                    p * v <= c * c,
                    s > 0,
            ;
            assert((p * v) * s == (p * t) * c) by (nonlinear_arith)
                requires
                    v * s == t * c,
            ;
            assert((c * c) * s == (s * c) * c) by (nonlinear_arith);
            assert(p * t <= s * c) by (nonlinear_arith)
                requires
                    (p * t) * c <= (s * c) * c,
                    c > 0,
            ;
        }
        lemma_units(e, r - 1, r - 1);
        assert(units(e, -(r - 1)) * t == -(p * t)) by (nonlinear_arith)
            requires
                units(e, -(r - 1)) == -p,
        ;
    }
    if number(e, factor.keys[0] - 1) {
        let (u, p) = (units(e, r), units(e, r + 1));
        lemma_units(e, r, r + 1);
        assert(number(e, r + 1));
        assert((u + p) * v >= 2 * (c * c));
        assert(2 * (p * v) >= (u + p) * v) by (nonlinear_arith)
            requires
                p >= u,
                v > 0,
        ;
        assert((p * v) * s >= (c * c) * s) by (nonlinear_arith)
            requires
                p * v >= c * c,
                s > 0,
        ;
        assert((p * v) * s == (p * t) * c) by (nonlinear_arith)
            requires
                v * s == t * c,
        ;
        assert((c * c) * s == (s * c) * c) by (nonlinear_arith);
        assert(p * t >= s * c) by (nonlinear_arith)
            requires
                (p * t) * c >= (s * c) * c,
                c > 0,
        ;
        lemma_units(e, r + 1, r + 1);
        assert(units(e, -(r + 1)) * t == -(p * t)) by (nonlinear_arith)
            requires
                units(e, -(r + 1)) == -p,
        ;
    }
}

/// A lower temperature makes the factor no larger: it sharpens.
pub proof fn lower_temperatures_sharpen(
    colder: F32,
    warmer: F32,
    factor: TensorValue,
    other: TensorValue,
)
    requires
        is_sharpness(colder, factor),
        is_sharpness(warmer, other),
        warm(colder),
        colder.key() <= warmer.key(),
        warmer.finite(),
    ensures
        factor.keys[0] <= other.keys[0] <= 0,
{
    let w1 = lemma_sharpness(colder, factor);
    let w2 = lemma_sharpness(warmer, other);
    let e = ElementType::F64;
    let (v1, v2) = (units(e, w1), units(e, w2));
    let (t1, t2) = (
        units(ElementType::F32, colder.key()),
        units(ElementType::F32, warmer.key()),
    );
    let (s, c) = (scale(ElementType::F32), scale(e));
    lemma_scale(e);
    lemma_scale(ElementType::F32);
    lemma_units(ElementType::F32, colder.key(), warmer.key());
    lemma_units(e, w1, 0);
    lemma_units(e, w2, 0);
    assert(t1 * c <= t2 * c) by (nonlinear_arith)
        requires
            t1 <= t2,
            c > 0,
    ;
    assert(v1 <= v2) by (nonlinear_arith)
        requires
            v1 * s <= v2 * s,
            s > 0,
    ;
    assert((c * c) * v1 <= (c * c) * v2) by (nonlinear_arith)
        requires
            v1 <= v2,
    ;
    lemma_rounding_grows(e, c * c, v2, -other.keys[0], c * c, v1, -factor.keys[0]);
    assert(c * c >= 0) by (nonlinear_arith);
    lemma_rounding_keeps_sign(e, c * c, v2, -other.keys[0]);
}

/// One over a temperature that is well above zero is a number of every type.
proof fn lemma_factor_fits(temperature: F32, factor: TensorValue, e: ElementType)
    requires
        is_sharpness(temperature, factor),
        well_above_zero(temperature),
        exact_type(e),
    ensures
        fits(e, factor.keys[0]),
        factor.keys[0] <= 0,
{
    let d = ElementType::F64;
    lemma_power(ElementType::F32, -126);
    lemma_power(d, 126);
    lemma_power(e, 126);
    let w = lemma_sharpness(temperature, factor);
    let (t, v) = (units(ElementType::F32, temperature.key()), units(d, w));
    let (s, c) = (scale(ElementType::F32), scale(d));
    let top = power(d, 126);
    let r = -factor.keys[0];
    lemma_scale(d);
    lemma_scale(ElementType::F32);
    lemma_units(ElementType::F32, power(ElementType::F32, -126), temperature.key());
    lemma_units(d, w, 0);
    lemma_pow2_adds(126, 23);
    lemma_pow2_adds(126, 1074);
    lemma_pow2_pos(23);
    let (a, b) = (pow2(126) as int, pow2(23) as int);
    assert(t >= b && s == a * b && units(d, top) == a * c);
    assert(c * c <= (a * c) * v) by (nonlinear_arith)
        requires
            t >= b,
            s == a * b,
            v * s == t * c,
            b > 0,
            c > 0,
            s > 0,
    {
        assert(t * c >= b * c) by (nonlinear_arith)
            requires
                t >= b,
                c > 0,
        ;
        assert(v * s == (a * v) * b) by (nonlinear_arith)
            requires
                s == a * b,
        ;
        assert(a * v >= c) by (nonlinear_arith)
            requires
                (a * v) * b >= c * b,
                b > 0,
        ;
        assert((a * v) * c >= c * c) by (nonlinear_arith)
            requires
                a * v >= c,
                c > 0,
        ;
        assert((a * v) * c == (a * c) * v) by (nonlinear_arith);
    }
    lemma_keeps_its_side(d, c * c, v, r, top);
    assert(c * c >= 0) by (nonlinear_arith);
    lemma_rounding_keeps_sign(d, c * c, v, r);
    lemma_units(d, r, top);
    assert forall|f: int| #[trigger] converted(d, -r, e, f) implies finite(e, f) by {
        lemma_converting_keeps_sign(d, -r, e, f);
        lemma_scale(e);
        lemma_units(e, power(e, 126), 0);
        let (n, z) = (units(d, r), scale(e));
        let low = -power(e, 126);
        lemma_pow2_adds(126, 149);
        assert(units(e, low) == -(a * z));
        assert(-n * z >= -(a * z) * c) by (nonlinear_arith)
            requires
                n <= a * c,
                z > 0,
        ;
        lemma_keeps_its_side(e, -n * z, c, f, low);
    }
    assert(-r == factor.keys[0]);
}

/// Scores `[batch, samples]` that are finite, no two of a batch row infinitely far
/// apart.
pub open spec fn comparable(scores: TensorValue) -> bool {
    &&& exact(scores)
    &&& scores.dims.len() == 2
    &&& scores.keys.len() == count(scores.dims)
    &&& forall|k: int| 0 <= k < scores.keys.len() ==> finite(scores.element, #[trigger] scores.keys[k])
    &&& forall|o: int, m: int, n: int, g: int|
        in_range(scores.dims, 1, o, m, 0) && in_range(scores.dims, 1, o, n, 0)
            && #[trigger] differ_by(
            scores.element,
            scores.at(1, o, m, 0),
            scores.at(1, o, n, 0),
            g,
        ) ==> finite(scores.element, g)
}

/// Whether a logit is how far a score lies above the best one, times a factor.
pub open spec fn is_logit(e: ElementType, score: int, best: int, factor: int, l: int) -> bool {
    exists|gap: int| #[trigger] differ_by(e, score, best, gap) && scaled(e, gap, factor, l)
}

/// Whether a score is the best of its batch row.
pub open spec fn best_of_row(scores: TensorValue, o: int, best: int) -> bool {
    &&& forall|m: int|
        in_range(scores.dims, 1, o, m, 0) ==> best <= #[trigger] scores.at(1, o, m, 0)
    &&& exists|m: int|
        in_range(scores.dims, 1, o, m, 0) && best == #[trigger] scores.at(1, o, m, 0)
}

/// Logits of scores at a temperature: one for each candidate, how far its score lies
/// above the best of its row, over minus the temperature.
pub open spec fn are_logits(scores: TensorValue, factor: int, logits: TensorValue) -> bool {
    &&& logits.dims == scores.dims
    &&& logits.keys.len() == scores.keys.len()
    &&& forall|o: int, m: int, best: int|
        in_range(scores.dims, 1, o, m, 0) && #[trigger] best_of_row(scores, o, best) ==> is_logit(
            scores.element,
            scores.at(1, o, m, 0),
            best,
            factor,
            #[trigger] logits.at(1, o, m, 0),
        )
}

proof fn lemma_row_spread(b: usize, n: usize, o: int, m: int)
    requires
        0 <= o < b,
        0 <= m < n,
    ensures
        spread_position(seq![b, 1usize], seq![b, n], o * n + m) == o,
        spreads(seq![b, 1usize], seq![b, n]),
{
    let (src, dst) = (seq![b, 1usize], seq![b, n]);
    let k = o * n + m;
    lemma_counts(n, 1, 1, 1);
    lemma_counts(1, 1, 1, 1);
    assert(src.skip(1) =~= seq![1usize]);
    assert(dst.skip(1) =~= seq![n]);
    assert(src.skip(1).skip(1) =~= Seq::<usize>::empty());
    assert(dst.skip(1).skip(1) =~= Seq::<usize>::empty());
    assert(k == n * o + m) by (nonlinear_arith)
        requires
            k == o * n + m,
    ;
    vstd::arithmetic::div_mod::lemma_fundamental_div_mod_converse(k, n as int, o, m);
    reveal_with_fuel(spread_position, 3);
}

/// How far each score lies above the best one of its row.
proof fn lemma_gap(scores: TensorValue, best: TensorValue, above: TensorValue, o: int, m: int)
    requires
        comparable(scores),
        least_along(scores, 1, best),
        difference_of(scores, spread(best, scores.dims), above),
        in_range(scores.dims, 1, o, m, 0),
    ensures
        best_of_row(scores, o, best.at(1, o, 0, 0)),
        differ_by(
            scores.element,
            scores.at(1, o, m, 0),
            best.at(1, o, 0, 0),
            above.at(1, o, m, 0),
        ),
        finite(scores.element, above.at(1, o, m, 0)),
        above.element == scores.element,
        above.dims == scores.dims,
        above.location == scores.location,
        above.keys.len() == scores.keys.len(),
{
    let (b, n) = (scores.dims[0], scores.dims[1]);
    let e = scores.element;
    assert(scores.dims =~= seq![b, n]);
    assert(best.dims =~= seq![b, 1usize]);
    lemma_second_axis(b, n, 1, 1);
    lemma_second_axis(b, 1, 1, 1);
    lemma_position(scores.dims, 1, o, m, 0);
    lemma_position(best.dims, 1, o, 0, 0);
    let k = position(scores.dims, 1, o, m, 0);
    let p = best.at(1, o, 0, 0);
    assert forall|q: int| in_range(scores.dims, 1, o, q, 0) implies p <= #[trigger] scores.at(
        1,
        o,
        q,
        0,
    ) by {
        assert(best.at(1, o, 0, 0) <= scores.at(1, o, q, 0));
    }
    assert(best.at(1, o, 0, 0) <= scores.at(1, o, m, 0));
    let q = choose|q: int|
        in_range(scores.dims, 1, o, q, 0) && #[trigger] scores.at(1, o, q, 0) == p;
    assert(in_range(scores.dims, 1, o, q, 0) && scores.at(1, o, q, 0) == p);
    lemma_position(scores.dims, 1, o, q, 0);
    assert((o * n + m) * 1 == o * n + m);
    assert(k == o * n + m);
    lemma_row_spread(b, n, o, m);
    let wide = spread(best, scores.dims);
    assert((o * 1 + 0) * 1 + 0 == o);
    assert(wide.keys[k] == best.keys[o]);
    assert(best.keys[o] == p);
    assert(finite_at(scores, k));
    assert(finite(e, scores.keys[position(scores.dims, 1, o, q, 0)]));
    assert(finite_at(wide, k));
    assert(nearest_at(above, k, units_at(scores, k) - units_at(wide, k), 1)) by {
        reveal(difference_rounds);
    }
    assert(differ_by(e, scores.at(1, o, m, 0), scores.at(1, o, q, 0), above.at(1, o, m, 0)));
}

proof fn lemma_weighting(scores: TensorValue, temperature: F32, weights: TensorValue) -> (r: (
    TensorValue,
    TensorValue,
    TensorValue,
))
    requires
        is_weighting(scores, temperature, weights),
        well_above_zero(temperature),
        comparable(scores),
    ensures
        forall|o: int, m: int|
            #[trigger] in_range(scores.dims, 1, o, m, 0) ==> best_of_row(
                scores,
                o,
                r.0.at(1, o, 0, 0),
            ),
        is_sharpness(temperature, r.1),
        are_logits(scores, r.1.keys[0], r.2),
        is_softmax(r.2, 1, weights),
{
    let (best, above, factor, zero, logits) = choose|
        best: TensorValue,
        above: TensorValue,
        factor: TensorValue,
        zero: TensorValue,
        logits: TensorValue,
    |
        #[trigger] least_along(scores, 1, best) && #[trigger] difference_of(
            scores,
            spread(best, scores.dims),
            above,
        ) && is_sharpness(temperature, factor) && zero == double(F64 { bits: 0 })
            && #[trigger] affine_of(above, factor, zero, logits) && is_softmax(logits, 1, weights)
            && like(logits, weights);
    let e = scores.element;
    lemma_power(ElementType::F32, -126);
    let _w = lemma_sharpness(temperature, factor);
    lemma_factor_fits(temperature, factor, e);
    assert forall|o: int, m: int, top: int|
        in_range(scores.dims, 1, o, m, 0) && #[trigger] best_of_row(scores, o, top) implies is_logit(
        e,
        scores.at(1, o, m, 0),
        top,
        factor.keys[0],
        #[trigger] logits.at(1, o, m, 0),
    ) by {
        lemma_gap(scores, best, above, o, m);
        let p = best.at(1, o, 0, 0);
        assert(best_of_row(scores, o, p) && best_of_row(scores, o, top));
        assert(p == top);
        let k = position(scores.dims, 1, o, m, 0);
        lemma_position(scores.dims, 1, o, m, 0);
        lemma_scaled_at(above, factor, logits, k);
        assert(differ_by(e, scores.at(1, o, m, 0), top, above.keys[k]));
    }
    assert forall|o: int, m: int| #[trigger]
        in_range(scores.dims, 1, o, m, 0) implies best_of_row(
        scores,
        o,
        best.at(1, o, 0, 0),
    ) by {
        lemma_gap(scores, best, above, o, m);
    }
    (best, factor, logits)
}

/// The weights of candidates are the softmax of logits, each of which is how far the
/// score of a candidate lies above the best of its batch row, over minus the
/// temperature.
pub proof fn weights_are_softmax_of_logits(
    scores: TensorValue,
    temperature: F32,
    weights: TensorValue,
) -> (r: (int, TensorValue))
    requires
        is_weighting(scores, temperature, weights),
        well_above_zero(temperature),
        comparable(scores),
    ensures
        minus_inverse(temperature, r.0),
        are_logits(scores, r.0, r.1),
        is_softmax(r.1, 1, weights),
{
    let (_, factor, logits) = lemma_weighting(scores, temperature, weights);
    lemma_power(ElementType::F32, -126);
    factor_times_temperature_is_minus_one(temperature, factor);
    (factor.keys[0], logits)
}

/// Products with factors that are not positive: the larger the number and the lower
/// the factor, the lower the product.
proof fn lemma_scaling_down(
    e: ElementType,
    x1: int,
    f1: int,
    r1: int,
    x2: int,
    f2: int,
    r2: int,
)
    requires
        exact_type(e),
        scaled(e, x1, f1, r1),
        scaled(e, x2, f2, r2),
        x1 >= x2 >= 0,
        f1 <= f2 <= 0,
    ensures
        r1 <= r2 <= 0,
        x1 == 0 ==> r1 == 0,
{
    let g1 = choose|f: int|
        #[trigger] converted(ElementType::F64, f1, e, f) && rounds_to(
            e,
            units(e, x1) * units(e, f),
            scale(e),
            r1,
        );
    let g2 = choose|f: int|
        #[trigger] converted(ElementType::F64, f2, e, f) && rounds_to(
            e,
            units(e, x2) * units(e, f),
            scale(e),
            r2,
        );
    lemma_scale(e);
    lemma_converting_grows(ElementType::F64, f1, f2, e, g1, g2);
    lemma_converting_keeps_sign(ElementType::F64, f2, e, g2);
    lemma_units(e, g1, g2);
    lemma_units(e, x2, x1);
    lemma_units(e, x1, 0);
    lemma_units(e, g2, 0);
    let (u1, u2, v1, v2, s) = (
        units(e, x1),
        units(e, x2),
        units(e, g1),
        units(e, g2),
        scale(e),
    );
    assert(u1 * v1 <= u2 * v2 && u2 * v2 <= 0) by (nonlinear_arith)
        requires
            u1 >= u2 >= 0,
            v1 <= v2 <= 0,
    ;
    assert((u1 * v1) * s <= (u2 * v2) * s) by (nonlinear_arith)
        requires
            u1 * v1 <= u2 * v2,
            s > 0,
    ;
    lemma_rounding_grows(e, u1 * v1, s, r1, u2 * v2, s, r2);
    lemma_rounding_keeps_sign(e, u2 * v2, s, r2);
    if x1 == 0 {
        assert(u1 * v1 == 0) by (nonlinear_arith)
            requires
                u1 == 0,
        ;
        lemma_rounding_keeps_sign(e, u1 * v1, s, r1);
    }
}

/// The logit of a worse candidate at a lower temperature is no larger than that of a
/// better one at a higher temperature, and none is above zero, which is the logit of
/// the best candidate of a batch row. So a lower temperature puts worse candidates no
/// less far behind the best one.
pub proof fn lower_temperatures_favour_better_candidates(
    scores: TensorValue,
    colder: F32,
    warmer: F32,
    weights: TensorValue,
    other: TensorValue,
) -> (r: (TensorValue, TensorValue))
    requires
        is_weighting(scores, colder, weights),
        is_weighting(scores, warmer, other),
        well_above_zero(colder),
        well_above_zero(warmer),
        colder.key() <= warmer.key(),
        comparable(scores),
    ensures
        is_softmax(r.0, 1, weights),
        is_softmax(r.1, 1, other),
        forall|o: int, m: int, n: int|
            #![trigger r.0.at(1, o, m, 0), r.1.at(1, o, n, 0)]
            in_range(scores.dims, 1, o, m, 0) && in_range(scores.dims, 1, o, n, 0) && scores.at(
                1,
                o,
                m,
                0,
            ) >= scores.at(1, o, n, 0) ==> r.0.at(1, o, m, 0) <= r.1.at(1, o, n, 0) <= 0,
        forall|o: int, m: int|
            in_range(scores.dims, 1, o, m, 0) && best_of_row(scores, o, scores.at(1, o, m, 0))
                ==> #[trigger] r.0.at(1, o, m, 0) == 0,
{
    let (b1, f1, l1) = lemma_weighting(scores, colder, weights);
    let (_, f2, l2) = lemma_weighting(scores, warmer, other);
    let e = scores.element;
    lemma_power(ElementType::F32, -126);
    lower_temperatures_sharpen(colder, warmer, f1, f2);
    assert forall|o: int, m: int, n: int|
        #![trigger l1.at(1, o, m, 0), l2.at(1, o, n, 0)]
        in_range(scores.dims, 1, o, m, 0) && in_range(scores.dims, 1, o, n, 0) && scores.at(
            1,
            o,
            m,
            0,
        ) >= scores.at(1, o, n, 0) implies l1.at(1, o, m, 0) <= l2.at(1, o, n, 0) <= 0 by {
        lemma_logits(
            e,
            scores.at(1, o, m, 0),
            scores.at(1, o, n, 0),
            b1.at(1, o, 0, 0),
            f1.keys[0],
            f2.keys[0],
            l1.at(1, o, m, 0),
            l2.at(1, o, n, 0),
        );
    }
    assert forall|o: int, m: int|
        in_range(scores.dims, 1, o, m, 0) && best_of_row(
            scores,
            o,
            scores.at(1, o, m, 0),
        ) implies #[trigger] l1.at(1, o, m, 0) == 0 by {
        let s = scores.at(1, o, m, 0);
        let l = l1.at(1, o, m, 0);
        lemma_logits(e, s, s, s, f1.keys[0], f1.keys[0], l, l);
    }
    (l1, l2)
}

proof fn lemma_logits(
    e: ElementType,
    s1: int,
    s2: int,
    best: int,
    f1: int,
    f2: int,
    l1: int,
    l2: int,
)
    requires
        exact_type(e),
        is_logit(e, s1, best, f1, l1),
        is_logit(e, s2, best, f2, l2),
        s1 >= s2 >= best,
        f1 <= f2 <= 0,
    ensures
        l1 <= l2 <= 0,
        s1 == best ==> l1 == 0,
{
    let g1 = choose|gap: int| #[trigger] differ_by(e, s1, best, gap) && scaled(e, gap, f1, l1);
    let g2 = choose|gap: int| #[trigger] differ_by(e, s2, best, gap) && scaled(e, gap, f2, l2);
    lemma_units(e, s2, s1);
    lemma_units(e, best, s2);
    let (d1, d2) = (units(e, s1) - units(e, best), units(e, s2) - units(e, best));
    lemma_rounding_grows(e, d2, 1, g2, d1, 1, g1);
    lemma_rounding_keeps_sign(e, d2, 1, g2);
    lemma_rounding_keeps_sign(e, d1, 1, g1);
    lemma_scaling_down(e, g1, f1, l1, g2, f2, l2);
}

} // verus!
