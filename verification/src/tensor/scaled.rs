//! What rounding leaves of sums and products.

use vstd::prelude::*;

use crate::rounding::{
    exact_type, finite, lemma_exact, lemma_keeps_its_side, lemma_one, lemma_rounding_grows,
    lemma_rounding_is_unique, lemma_rounding_keeps_sign, lemma_scale, lemma_units, one, rounds_to,
    scale, units,
};
use crate::scalar::F64;
use crate::tensor::arithmetic::{
    affine_of, affine_rounds, by_way_of, converted, difference_of, difference_rounds, exact,
    finite_at, multiplied, nearest_at, product_of, product_rounds, shared, square_of, square_rounds,
    sum_of, sum_rounds, units_at,
};
use crate::tensor::make::double;
use crate::tensor::value::{is_double, ElementType, TensorValue};

verus! {

/// Whether a factor in double precision stays finite in an element type.
pub open spec fn fits(e: ElementType, factor: int) -> bool {
    finite(ElementType::F64, factor) && forall|f: int| #[trigger]
        converted(ElementType::F64, factor, e, f) ==> finite(e, f)
}

/// Whether `r` is the number nearest to a number times a factor.
pub open spec fn scaled(e: ElementType, x: int, factor: int, r: int) -> bool {
    exists|f: int|
        #[trigger] converted(ElementType::F64, factor, e, f) && rounds_to(
            e,
            units(e, x) * units(e, f),
            scale(e),
            r,
        )
}

/// Whether `g` is the number nearest to the difference of two numbers.
pub open spec fn differ_by(e: ElementType, a: int, b: int, g: int) -> bool {
    rounds_to(e, units(e, a) - units(e, b), 1, g)
}

/// Whether `q` is the square of the difference of two numbers, where that is finite.
pub open spec fn is_squared_gap(e: ElementType, a: int, b: int, q: int) -> bool {
    exists|g: int| #[trigger]
        differ_by(e, a, b, g) && (finite(e, g) ==> rounds_to(
            e,
            units(e, g) * units(e, g),
            scale(e),
            q,
        ))
}

/// Adding nothing changes nothing.
proof fn lemma_nothing_added(e: ElementType, x: int, factor: int, r: int)
    requires
        exact_type(e),
        fits(e, factor),
        multiplied(e, x, factor, 0, r),
    ensures
        scaled(e, x, factor, r),
{
    let (f, t, p) = choose|f: int, t: int, p: int|
        converted(ElementType::F64, factor, e, f) && converted(ElementType::F64, 0, e, t)
            && #[trigger] by_way_of(e, x, f, t, p, r);
    lemma_scale(ElementType::F64);
    lemma_units(ElementType::F64, 0, 0);
    lemma_units(e, 0, 0);
    assert(units(ElementType::F64, 0) * scale(e) == units(e, 0) * scale(ElementType::F64));
    lemma_exact(e, 0, scale(ElementType::F64), t);
    assert(finite(e, f));
    if finite(e, p) {
        assert(units(e, p) + units(e, t) == units(e, p) * 1);
        lemma_exact(e, p, 1, r);
    }
}

/// Each element times a factor, at a place where it is finite.
pub proof fn lemma_scaled_at(x: TensorValue, factor: TensorValue, r: TensorValue, k: int)
    requires
        affine_of(x, factor, double(F64 { bits: 0 }), r),
        exact(x),
        is_double(factor),
        fits(x.element, factor.keys[0]),
        0 <= k < x.keys.len(),
        finite_at(x, k),
    ensures
        scaled(x.element, x.keys[k], factor.keys[0], r.keys[k]),
{
    reveal(affine_rounds);
    let term = double(F64 { bits: 0 });
    assert(term.keys[0] == 0);
    assert(multiplied(r.element, x.keys[k], factor.keys[0], term.keys[0], r.keys[k]));
    lemma_nothing_added(x.element, x.keys[k], factor.keys[0], r.keys[k]);
}

/// The sum at a place where both numbers are finite.
pub proof fn lemma_sum_at(a: TensorValue, b: TensorValue, r: TensorValue, k: int)
    requires
        sum_of(a, b, r),
        exact(a),
        0 <= k < a.keys.len(),
        finite_at(a, k),
        finite_at(b, k),
    ensures
        rounds_to(a.element, units_at(a, k) + units_at(b, k), 1, r.keys[k]),
{
    reveal(sum_rounds);
    assert(nearest_at(r, k, units_at(a, k) + units_at(b, k), 1));
}

/// The product at a place where both numbers are finite.
pub proof fn lemma_product_at(a: TensorValue, b: TensorValue, r: TensorValue, k: int)
    requires
        product_of(a, b, r),
        exact(a),
        0 <= k < a.keys.len(),
        finite_at(a, k),
        finite_at(b, k),
    ensures
        rounds_to(a.element, units_at(a, k) * units_at(b, k), scale(a.element), r.keys[k]),
{
    reveal(product_rounds);
    assert(nearest_at(r, k, units_at(a, k) * units_at(b, k), scale(r.element)));
}

/// The difference at a place where both numbers are finite.
pub proof fn lemma_difference_at(a: TensorValue, b: TensorValue, r: TensorValue, k: int)
    requires
        difference_of(a, b, r),
        exact(a),
        0 <= k < a.keys.len(),
        finite_at(a, k),
        finite_at(b, k),
    ensures
        differ_by(a.element, a.keys[k], b.keys[k], r.keys[k]),
{
    reveal(difference_rounds);
    assert(nearest_at(r, k, units_at(a, k) - units_at(b, k), 1));
}

/// The squared difference at a place where both numbers are finite.
pub proof fn lemma_squared_gap_at(
    a: TensorValue,
    b: TensorValue,
    gap: TensorValue,
    r: TensorValue,
    k: int,
)
    requires
        difference_of(a, b, gap),
        square_of(gap, r),
        exact(a),
        0 <= k < a.keys.len(),
        finite_at(a, k),
        finite_at(b, k),
    ensures
        is_squared_gap(a.element, a.keys[k], b.keys[k], r.keys[k]),
{
    lemma_difference_at(a, b, gap, k);
    if finite_at(gap, k) {
        reveal(square_rounds);
        assert(nearest_at(r, k, units_at(gap, k) * units_at(gap, k), scale(r.element)));
    }
}

/// A squared difference is one number, and it is not negative where it is finite.
pub proof fn lemma_squared_gaps(e: ElementType, a: int, b: int, q: int, r: int, g: int)
    requires
        exact_type(e),
        is_squared_gap(e, a, b, q),
        is_squared_gap(e, a, b, r),
        differ_by(e, a, b, g),
        finite(e, g),
    ensures
        q == r,
        q >= 0,
        a == b ==> q == 0,
{
    let g1 = choose|g: int| #[trigger]
        differ_by(e, a, b, g) && (finite(e, g) ==> rounds_to(
            e,
            units(e, g) * units(e, g),
            scale(e),
            q,
        ));
    let g2 = choose|g: int| #[trigger]
        differ_by(e, a, b, g) && (finite(e, g) ==> rounds_to(
            e,
            units(e, g) * units(e, g),
            scale(e),
            r,
        ));
    let d = units(e, a) - units(e, b);
    lemma_rounding_is_unique(e, d, 1, g, g1);
    lemma_rounding_is_unique(e, d, 1, g, g2);
    lemma_scale(e);
    let u = units(e, g);
    lemma_rounding_is_unique(e, u * u, scale(e), q, r);
    assert(u * u >= 0) by (nonlinear_arith);
    lemma_rounding_keeps_sign(e, u * u, scale(e), q);
    if a == b {
        lemma_rounding_keeps_sign(e, 0, 1, g);
        lemma_units(e, 0, 0);
        assert(u * u == 0);
    }
}

/// A larger number is converted to a number that is no smaller.
pub proof fn lemma_converting_grows(
    from: ElementType,
    x1: int,
    x2: int,
    to: ElementType,
    r1: int,
    r2: int,
)
    requires
        x1 <= x2,
        converted(from, x1, to, r1),
        converted(from, x2, to, r2),
    ensures
        r1 <= r2,
{
    lemma_scale(from);
    lemma_scale(to);
    lemma_units(from, x1, x2);
    let (u1, u2, s, t) = (units(from, x1), units(from, x2), scale(to), scale(from));
    assert((u1 * s) * t <= (u2 * s) * t) by (nonlinear_arith)
        requires
            u1 <= u2,
            s > 0,
            t > 0,
    ;
    lemma_rounding_grows(to, u1 * s, t, r1, u2 * s, t, r2);
}

/// A conversion keeps the sign, and zero stays zero.
pub proof fn lemma_converting_keeps_sign(from: ElementType, x: int, to: ElementType, r: int)
    requires
        exact_type(to),
        converted(from, x, to, r),
    ensures
        x >= 0 ==> r >= 0,
        x <= 0 ==> r <= 0,
{
    lemma_scale(from);
    lemma_scale(to);
    lemma_units(from, x, 0);
    let (u, s) = (units(from, x), scale(to));
    assert((u >= 0 ==> u * s >= 0) && (u <= 0 ==> u * s <= 0)) by (nonlinear_arith)
        requires
            s > 0,
    ;
    lemma_rounding_keeps_sign(to, u * s, scale(from), r);
}

/// A factor from zero to one stays so in any type.
pub proof fn lemma_share(e: ElementType, d: int, f: int)
    requires
        exact_type(e),
        0 <= d <= one(ElementType::F64),
        converted(ElementType::F64, d, e, f),
    ensures
        0 <= f <= one(e),
        0 <= units(e, f) <= scale(e),
{
    let w = ElementType::F64;
    lemma_converting_keeps_sign(w, d, e, f);
    lemma_one(w);
    lemma_one(e);
    lemma_scale(w);
    lemma_scale(e);
    lemma_units(w, d, one(w));
    lemma_units(e, f, one(e));
    lemma_units(e, f, 0);
    lemma_units(e, one(e), 0);
    let (u, s, t) = (units(w, d), scale(e), scale(w));
    assert(u * s <= s * t) by (nonlinear_arith)
        requires
            u <= t,
            s > 0,
    ;
    lemma_keeps_its_side(e, u * s, t, f, one(e));
}

/// A number divided by a count keeps its sign.
pub proof fn lemma_shared(e: ElementType, x: int, n: int, r: int)
    requires
        exact_type(e),
        n >= 1,
        shared(e, x, n, r),
    ensures
        x >= 0 ==> r >= 0,
        x <= 0 ==> r <= 0,
{
    let d = ElementType::F64;
    let w = choose|w: int|
        #[trigger] rounds_to(d, scale(d), n, w) && multiplied(e, x, w, 0, r);
    lemma_scale(d);
    lemma_one(d);
    lemma_rounding_keeps_sign(d, scale(d), n, w);
    assert(scale(d) <= scale(d) * n) by (nonlinear_arith)
        requires
            scale(d) > 0,
            n >= 1,
    ;
    lemma_keeps_its_side(d, scale(d), n, w, one(d));
    assert forall|f: int| #[trigger] converted(d, w, e, f) implies finite(e, f) by {
        lemma_share(e, w, f);
    }
    lemma_nothing_added(e, x, w, r);
    lemma_scaling_keeps_sign(e, x, w, r);
}

/// A product with a factor that is not negative grows with the number, and one
/// with a number that is not negative grows with the factor.
pub proof fn lemma_scaling_grows(
    e: ElementType,
    x1: int,
    f1: int,
    r1: int,
    x2: int,
    f2: int,
    r2: int,
)
    requires
        exact_type(e),
        scaled(e, x1, f1, r1),
        scaled(e, x2, f2, r2),
        x1 <= x2,
        f1 <= f2,
        f1 == f2 || x1 == x2,
        f1 == f2 ==> f1 >= 0 || x1 == x2,
        f1 != f2 ==> x1 >= 0,
    ensures
        r1 <= r2,
{
    let g1 = choose|f: int|
        #[trigger] converted(ElementType::F64, f1, e, f) && rounds_to(
            e,
            units(e, x1) * units(e, f),
            scale(e),
            r1,
        );
    let g2 = choose|f: int|
        #[trigger] converted(ElementType::F64, f2, e, f) && rounds_to(
            e,
            units(e, x2) * units(e, f),
            scale(e),
            r2,
        );
    lemma_scale(e);
    lemma_scale(ElementType::F64);
    lemma_converting_grows(ElementType::F64, f1, f2, e, g1, g2);
    if f1 == f2 {
        lemma_converting_grows(ElementType::F64, f2, f1, e, g2, g1);
    }
    lemma_converting_keeps_sign(ElementType::F64, f1, e, g1);
    lemma_units(e, g1, g2);
    lemma_units(e, x1, x2);
    lemma_units(e, x1, 0);
    lemma_units(e, g1, 0);
    let (u1, u2, v1, v2, s) = (
        units(e, x1),
        units(e, x2),
        units(e, g1),
        units(e, g2),
        scale(e),
    );
    assert(u1 * v1 <= u2 * v2) by (nonlinear_arith)
        requires
            u1 <= u2,
            v1 <= v2,
            v1 == v2 || u1 == u2,
            v1 == v2 ==> v1 >= 0 || u1 == u2,
            v1 != v2 ==> u1 >= 0,
    ;
    assert((u1 * v1) * s <= (u2 * v2) * s) by (nonlinear_arith)
        requires
            u1 * v1 <= u2 * v2,
            s > 0,
    ;
    lemma_rounding_grows(e, u1 * v1, s, r1, u2 * v2, s, r2);
}

/// A product of a number and a factor that are not negative grows with both.
pub proof fn lemma_products_grow(
    e: ElementType,
    x1: int,
    f1: int,
    r1: int,
    x2: int,
    f2: int,
    r2: int,
)
    requires
        exact_type(e),
        scaled(e, x1, f1, r1),
        scaled(e, x2, f2, r2),
        0 <= x1 <= x2,
        0 <= f1 <= f2,
    ensures
        r1 <= r2,
{
    let g1 = choose|f: int|
        #[trigger] converted(ElementType::F64, f1, e, f) && rounds_to(
            e,
            units(e, x1) * units(e, f),
            scale(e),
            r1,
        );
    let g2 = choose|f: int|
        #[trigger] converted(ElementType::F64, f2, e, f) && rounds_to(
            e,
            units(e, x2) * units(e, f),
            scale(e),
            r2,
        );
    lemma_scale(e);
    lemma_converting_grows(ElementType::F64, f1, f2, e, g1, g2);
    lemma_converting_keeps_sign(ElementType::F64, f1, e, g1);
    lemma_units(e, g1, g2);
    lemma_units(e, x1, x2);
    let (u1, u2, v1, v2, s) = (
        units(e, x1),
        units(e, x2),
        units(e, g1),
        units(e, g2),
        scale(e),
    );
    assert(u1 * v1 <= u2 * v2) by (nonlinear_arith)
        requires
            0 <= u1 <= u2,
            0 <= v1 <= v2,
    ;
    assert((u1 * v1) * s <= (u2 * v2) * s) by (nonlinear_arith)
        requires
            u1 * v1 <= u2 * v2,
            s > 0,
    ;
    lemma_rounding_grows(e, u1 * v1, s, r1, u2 * v2, s, r2);
}

/// A product has the sign of its number where the factor is not negative.
pub proof fn lemma_scaling_keeps_sign(e: ElementType, x: int, f: int, r: int)
    requires
        exact_type(e),
        scaled(e, x, f, r),
        f >= 0,
    ensures
        x >= 0 ==> r >= 0,
        x <= 0 ==> r <= 0,
{
    let g = choose|g: int|
        #[trigger] converted(ElementType::F64, f, e, g) && rounds_to(
            e,
            units(e, x) * units(e, g),
            scale(e),
            r,
        );
    lemma_converting_keeps_sign(ElementType::F64, f, e, g);
    lemma_scale(e);
    lemma_units(e, x, 0);
    lemma_units(e, g, 0);
    let (u, v) = (units(e, x), units(e, g));
    assert((u >= 0 ==> u * v >= 0) && (u <= 0 ==> u * v <= 0)) by (nonlinear_arith)
        requires
            v >= 0,
    ;
    lemma_rounding_keeps_sign(e, u * v, scale(e), r);
}

/// A sum grows with its numbers.
pub proof fn lemma_adding_grows(
    e: ElementType,
    a1: int,
    b1: int,
    r1: int,
    a2: int,
    b2: int,
    r2: int,
)
    requires
        rounds_to(e, units(e, a1) + units(e, b1), 1, r1),
        rounds_to(e, units(e, a2) + units(e, b2), 1, r2),
        a1 <= a2,
        b1 <= b2,
    ensures
        r1 <= r2,
{
    lemma_units(e, a1, a2);
    lemma_units(e, b1, b2);
    lemma_rounding_grows(
        e,
        units(e, a1) + units(e, b1),
        1,
        r1,
        units(e, a2) + units(e, b2),
        1,
        r2,
    );
}

} // verus!
