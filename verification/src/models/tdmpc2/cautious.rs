//! What the heads agree on, and what their spread takes away.

use vstd::prelude::*;

use crate::models::tdmpc2::model::TdMpc2;
use crate::rounding::{
    exact_type, finite, lemma_exact, lemma_keeps_its_side, lemma_roots_grow, lemma_rounding_grows,
    lemma_rounding_keeps_sign, lemma_scale, lemma_units, number, roots_to, rounds_to, scale, units,
};
use crate::scalar::F64;
use crate::tensor::arithmetic::{
    affine_of, average_of, difference_of, exact, finite_at, is_magnitude, product_of, root_of,
    root_rounds, variance_of, variance_rounds,
};
use crate::tensor::make::double;
use crate::tensor::scaled::{
    differ_by, fits, lemma_difference_at, lemma_product_at, lemma_products_grow, lemma_scaled_at,
    lemma_scaling_keeps_sign, scaled,
};
use crate::tensor::value::{is_double, ElementType, TensorValue};

verus! {

/// A mean and a variance of values, and what is taken off the mean.
pub struct Caution {
    pub mean: TensorValue,
    pub variance: TensorValue,
    pub deviation: TensorValue,
    pub product: TensorValue,
    pub penalty: TensorValue,
}

/// Whether everything that a cautious value is made of is finite at a place.
pub open spec fn settled(c: Caution, k: int) -> bool {
    &&& finite_at(c.mean, k)
    &&& finite_at(c.variance, k)
    &&& finite_at(c.deviation, k)
    &&& finite_at(c.product, k)
    &&& finite_at(c.penalty, k)
}

/// A mean less the weight times the magnitude of the mean times the root of the
/// variance.
pub open spec fn taken_off(
    e: ElementType,
    weight: int,
    mean: int,
    variance: int,
    deviation: int,
    product: int,
    penalty: int,
    r: int,
) -> bool {
    let size = if mean >= 0 {
        mean
    } else {
        -mean
    };
    &&& roots_to(e, units(e, variance) * scale(e), deviation)
    &&& rounds_to(e, units(e, size) * units(e, deviation), scale(e), product)
    &&& scaled(e, product, weight, penalty)
    &&& differ_by(e, mean, penalty, r)
}

/// A cautious value at a place.
pub open spec fn cautious_at(e: ElementType, weight: int, c: Caution, r: TensorValue, k: int) -> bool {
    taken_off(
        e,
        weight,
        c.mean.keys[k],
        c.variance.keys[k],
        c.deviation.keys[k],
        c.product.keys[k],
        c.penalty.keys[k],
        r.keys[k],
    )
}

/// More variance takes no less off one mean, and none takes nothing off.
pub proof fn wider_spreads_are_worth_no_more(
    e: ElementType,
    weight: int,
    mean: int,
    v1: int,
    s1: int,
    p1: int,
    q1: int,
    r1: int,
    v2: int,
    s2: int,
    p2: int,
    q2: int,
    r2: int,
)
    requires
        exact_type(e),
        weight >= 0,
        finite(e, mean),
        0 <= v1 <= v2,
        taken_off(e, weight, mean, v1, s1, p1, q1, r1),
        taken_off(e, weight, mean, v2, s2, p2, q2, r2),
    ensures
        r2 <= r1 <= mean,
        v1 == 0 ==> r1 == mean,
{
    let size = if mean >= 0 {
        mean
    } else {
        -mean
    };
    let z = scale(e);
    lemma_scale(e);
    lemma_units(e, v1, v2);
    lemma_units(e, v1, 0);
    lemma_units(e, size, 0);
    lemma_units(e, mean, mean);
    let (x1, x2) = (units(e, v1), units(e, v2));
    assert(x1 * z <= x2 * z) by (nonlinear_arith)
        requires
            x1 <= x2,
            z > 0,
    ;
    lemma_roots_grow(e, x1 * z, s1, x2 * z, s2);
    lemma_units(e, s1, s2);
    lemma_units(e, s1, 0);
    let (m, y1, y2) = (units(e, size), units(e, s1), units(e, s2));
    assert(0 <= m * y1 && (m * y1) * z <= (m * y2) * z) by (nonlinear_arith)
        requires
            m >= 0,
            0 <= y1 <= y2,
            z > 0,
    ;
    lemma_rounding_grows(e, m * y1, z, p1, m * y2, z, p2);
    lemma_rounding_keeps_sign(e, m * y1, z, p1);
    lemma_products_grow(e, p1, weight, q1, p2, weight, q2);
    lemma_scaling_keeps_sign(e, p1, weight, q1);
    lemma_units(e, q1, q2);
    lemma_units(e, q1, 0);
    let a = units(e, mean);
    lemma_rounding_grows(e, a - units(e, q2), 1, r2, a - units(e, q1), 1, r1);
    assert(a <= a * 1);
    lemma_keeps_its_side(e, a - units(e, q1), 1, r1, mean);
    if v1 == 0 {
        assert(x1 * z == 0) by (nonlinear_arith)
            requires
                x1 == 0,
        ;
        lemma_no_root(e, s1);
        assert(m * y1 == 0) by (nonlinear_arith)
            requires
                y1 == 0,
        ;
        lemma_rounding_keeps_sign(e, 0, z, p1);
        assert(a - units(e, q1) == a * 1);
        lemma_exact(e, mean, 1, r1);
    }
}

/// The root of nothing is nothing.
proof fn lemma_no_root(e: ElementType, s: int)
    requires
        exact_type(e),
        roots_to(e, 0, s),
    ensures
        s == 0,
        units(e, s) == 0,
{
    lemma_units(e, s, 0);
    if s > 0 {
        assert(number(e, 0));
        let m = units(e, s) + units(e, 0);
        assert(m * m <= 4 * 0);
        assert(m * m > 0) by (nonlinear_arith)
            requires
                m > 0,
        ;
    }
}

/// The value of the last state is the mean of what the heads say, less the penalty
/// times the magnitude of the mean times the root of the variance of what they say: it
/// is not above the mean, and it is the mean where the heads agree.
pub proof fn cautious_values_lie_below_the_mean(model: TdMpc2, all: TensorValue, r: TensorValue) -> (c:
    Caution)
    requires
        model.careful_mean(all, r),
        exact(all),
        fits(all.element, model.cfg.uncertainty_penalty.key()),
    ensures
        average_of(all, 0, c.mean),
        variance_of(all, 0, c.variance),
        forall|k: int|
            0 <= k < c.mean.keys.len() && settled(c, k) ==> #[trigger] cautious_at(
                all.element,
                model.cfg.uncertainty_penalty.key(),
                c,
                r,
                k,
            ) && c.variance.keys[k] >= 0 && (model.cfg.uncertainty_penalty.key() >= 0
                ==> r.keys[k] <= c.mean.keys[k] && (c.variance.keys[k] == 0 ==> r.keys[k]
                == c.mean.keys[k])),
{
    reveal(TdMpc2::careful_mean);
    let weight = model.cfg.uncertainty_penalty;
    let (mean, var, std, size, product, penalty) = choose|
        mean: TensorValue,
        var: TensorValue,
        std: TensorValue,
        size: TensorValue,
        product: TensorValue,
        penalty: TensorValue,
    |
        #[trigger] average_of(all, 0, mean) && #[trigger] variance_of(all, 0, var)
            && #[trigger] root_of(var, std) && #[trigger] is_magnitude(mean, size)
            && #[trigger] product_of(size, std, product) && #[trigger] affine_of(
            product,
            double(weight),
            double(F64 { bits: 0 }),
            penalty,
        ) && difference_of(mean, penalty, r);
    let c = Caution { mean, variance: var, deviation: std, product, penalty };
    let e = all.element;
    assert forall|k: int| 0 <= k < c.mean.keys.len() && settled(c, k) implies #[trigger] cautious_at(
        e,
        weight.key(),
        c,
        r,
        k,
    ) && var.keys[k] >= 0 && (weight.key() >= 0 ==> r.keys[k] <= mean.keys[k] && (var.keys[k] == 0
        ==> r.keys[k] == mean.keys[k])) by {
        assert(number(e, var.keys[k]));
        assert(var.keys[k] >= 0) by {
            reveal(variance_rounds);
        }
        reveal(root_rounds);
        assert(number(e, mean.keys[k]));
        assert(finite_at(size, k));
        lemma_product_at(size, std, product, k);
        assert(is_double(double(weight)) && double(weight).keys[0] == weight.key());
        lemma_scaled_at(product, double(weight), penalty, k);
        lemma_difference_at(mean, penalty, r, k);
        if weight.key() >= 0 {
            wider_spreads_are_worth_no_more(
                e,
                weight.key(),
                mean.keys[k],
                var.keys[k],
                std.keys[k],
                product.keys[k],
                penalty.keys[k],
                r.keys[k],
                var.keys[k],
                std.keys[k],
                product.keys[k],
                penalty.keys[k],
                r.keys[k],
            );
        }
    }
    c
}

} // verus!
