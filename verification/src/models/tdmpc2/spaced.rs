//! What bins stand for, and what weights over them.

use vstd::prelude::*;

use crate::models::tdmpc2::bins::{
    as_last_axis, is_bin_mean, is_bin_size, is_bins, is_counting, is_symexp, last_place,
    meeting_shape, repeated, MINUS_ONE, ONE,
};
use crate::rounding::{
    exact_type, finite, lemma_exact, lemma_one, lemma_rounding_grows, lemma_rounding_keeps_sign,
    lemma_scale, lemma_units, number, one, rounds_to, scale, units,
};
use crate::scalar::F64;
use crate::tensor::arithmetic::{
    adds_up, affine_of, affine_rounds, by_way_of, converted, difference_of, exact, finite_along,
    finite_at, is_exponential, is_magnitude, is_sign, multiplied, nearest_at, product_of,
    quotient_of, quotient_rounds, sum_of, total_of, total_rounds, unit_key, units_at,
};
use crate::tensor::facts::{lemma_counts, lemma_position, lemma_spread_onto_last, lemma_spread_same};
use crate::tensor::layout::{cast_of, cast_rounds};
use crate::tensor::make::{double, natural};
use crate::tensor::scaled::{
    differ_by, lemma_adding_grows, lemma_difference_at, lemma_product_at, lemma_sum_at,
};
use crate::tensor::value::{
    count, inner, outer, position, spread, spread_position, ElementType, Location, TensorValue,
};

verus! {

/// Whether a single-precision number is the distance between two of `n` bins from `low`
/// to `high`: the range in double precision, divided by the number of steps.
pub open spec fn bin_apart(low: F64, high: F64, n: usize, range: int, steps: int, size: int) -> bool {
    let d = ElementType::F64;
    &&& differ_by(d, high.key(), low.key(), range)
    &&& rounds_to(d, last_place(n) * scale(d), 1, steps)
    &&& finite(d, range) && finite(d, steps) && steps > 0 ==> exists|width: int|
        #[trigger] rounds_to(d, units(d, range) * scale(d), units(d, steps), width) && (finite(
            d,
            width,
        ) ==> converted(d, width, ElementType::F32, size))
}

/// Whether a number is bin `k`: the least bin and `k` times the distance.
pub open spec fn bin_at(least: int, size: int, k: int, place: int, shift: int, r: int) -> bool {
    let e = ElementType::F32;
    &&& rounds_to(e, k * scale(e), 1, place)
    &&& finite(e, place) && finite(e, size) ==> rounds_to(
        e,
        units(e, place) * units(e, size),
        scale(e),
        shift,
    )
    &&& finite(e, shift) && finite(e, least) ==> rounds_to(
        e,
        units(e, least) + units(e, shift),
        1,
        r,
    )
}

/// What bins are made of.
pub struct Spacing {
    pub least: int,
    pub range: int,
    pub steps: int,
    pub size: int,
    pub places: TensorValue,
    pub shifts: TensorValue,
}

/// Whether everything that the bins at two places are made of is finite.
pub open spec fn tame(s: Spacing, k: int) -> bool {
    let e = ElementType::F32;
    finite(e, s.least) && finite(e, s.size) && finite(e, s.places.keys[k]) && finite(
        e,
        s.shifts.keys[k],
    )
}

proof fn lemma_repeated(v: TensorValue, n: usize, k: int)
    requires
        0 <= k < n,
        v.keys.len() == 1,
    ensures
        repeated(v, n).keys.len() == n,
        repeated(v, n).keys[k] == v.keys[0],
{
    let (src, dst) = (seq![1usize], seq![n]);
    lemma_counts(n, n, n, n);
    assert(src.skip(1) =~= Seq::<usize>::empty());
    assert(dst.skip(1) =~= Seq::<usize>::empty());
    reveal_with_fuel(spread_position, 2);
    assert(count(dst.skip(1)) == 1);
    if n == 1 {
        assert(k / 1 == 0);
    }
    assert(spread_position(src, dst, k) == 0);
}

/// Bins lie evenly spaced from the least one: the first is the least value in single
/// precision, and each further one lies one distance above the one before, up to
/// rounding. Where the largest value is not below the least, later bins are no smaller.
pub proof fn bins_are_evenly_spaced(low: F64, high: F64, n: usize, r: TensorValue) -> (s: Spacing)
    requires
        is_bins(low, high, n, r),
        low.finite(),
        high.finite(),
    ensures
        converted(ElementType::F64, low.key(), ElementType::F32, s.least),
        bin_apart(low, high, n, s.range, s.steps, s.size),
        forall|k: int|
            0 <= k < n ==> bin_at(
                s.least,
                s.size,
                k,
                s.places.keys[k],
                s.shifts.keys[k],
                #[trigger] r.keys[k],
            ),
        n > 0 && tame(s, 0) ==> r.keys[0] == s.least,
        forall|j: int, k: int|
            0 <= j <= k < n && tame(s, j) && tame(s, k) && s.size >= 0 ==> #[trigger] r.keys[j]
                <= #[trigger] r.keys[k],
{
    let (e, d) = (ElementType::F32, ElementType::F64);
    let (least, size, places, scaled) = choose|
        least: TensorValue,
        size: TensorValue,
        places: TensorValue,
        scaled: TensorValue,
    |
        #[trigger] cast_of(double(low), least) && least.element is F32 && #[trigger] is_bin_size(
            low,
            high,
            n,
            size,
        ) && is_counting(n, places) && #[trigger] product_of(places, repeated(size, n), scaled)
            && sum_of(repeated(least, n), scaled, r);
    let (range, steps, width) = choose|range: TensorValue, steps: TensorValue, width: TensorValue|
        #[trigger] difference_of(double(high), double(low), range) && #[trigger] cast_of(
            natural(last_place(n)),
            steps,
        ) && steps.element is F64 && #[trigger] quotient_of(range, steps, width) && cast_of(
            width,
            size,
        ) && size.element is F32;
    let (lo, hi) = (double(low), double(high));
    assert(lo.keys[0] == low.key() && hi.keys[0] == high.key());
    assert(finite_at(lo, 0) && finite_at(hi, 0));
    lemma_difference_at(hi, lo, range, 0);
    reveal(cast_rounds);
    assert(converted(d, low.key(), e, least.keys[0]));
    let counted = natural(last_place(n));
    assert(counted.keys[0] == last_place(n));
    assert(rounds_to(d, counted.keys[0] * scale(d), 1, steps.keys[0]));
    if finite_at(range, 0) && finite_at(steps, 0) && steps.keys[0] > 0 {
        reveal(quotient_rounds);
        assert(nearest_at(width, 0, units_at(range, 0) * scale(d), units_at(steps, 0)));
        if finite_at(width, 0) {
            assert(converted(d, width.keys[0], e, size.keys[0]));
        }
        assert(rounds_to(
            d,
            units(d, range.keys[0]) * scale(d),
            units(d, steps.keys[0]),
            width.keys[0],
        ));
    }
    let s = Spacing {
        least: least.keys[0],
        range: range.keys[0],
        steps: steps.keys[0],
        size: size.keys[0],
        places,
        shifts: scaled,
    };
    let numbers = TensorValue {
        dims: seq![n],
        keys: Seq::new(n as nat, |k: int| k),
        element: ElementType::U32,
        location: Location::Cpu,
    };
    assert forall|k: int| 0 <= k < n implies bin_at(
        s.least,
        s.size,
        k,
        places.keys[k],
        scaled.keys[k],
        #[trigger] r.keys[k],
    ) by {
        assert(numbers.keys[k] == k);
        assert(rounds_to(e, numbers.keys[k] * scale(e), 1, places.keys[k]));
        lemma_repeated(size, n, k);
        lemma_repeated(least, n, k);
        let (sizes, starts) = (repeated(size, n), repeated(least, n));
        if finite_at(places, k) && finite(e, s.size) {
            assert(finite_at(sizes, k));
            lemma_product_at(places, sizes, scaled, k);
        }
        if finite_at(scaled, k) && finite(e, s.least) {
            assert(finite_at(starts, k));
            lemma_sum_at(starts, scaled, r, k);
        }
    }
    if n > 0 && tame(s, 0) {
        assert(bin_at(s.least, s.size, 0, places.keys[0], scaled.keys[0], r.keys[0]));
        lemma_first_bin(s.least, s.size, places.keys[0], scaled.keys[0], r.keys[0]);
    }
    assert forall|j: int, k: int|
        0 <= j <= k < n && tame(s, j) && tame(s, k) && s.size >= 0 implies #[trigger] r.keys[j]
        <= #[trigger] r.keys[k] by {
        lemma_later_bin(
            s.least,
            s.size,
            j,
            places.keys[j],
            scaled.keys[j],
            r.keys[j],
            k,
            places.keys[k],
            scaled.keys[k],
            r.keys[k],
        );
    }
    s
}

proof fn lemma_first_bin(least: int, size: int, place: int, shift: int, r: int)
    requires
        bin_at(least, size, 0, place, shift, r),
        finite(ElementType::F32, least),
        finite(ElementType::F32, size),
        finite(ElementType::F32, place),
        finite(ElementType::F32, shift),
    ensures
        r == least,
{
    let e = ElementType::F32;
    lemma_scale(e);
    lemma_units(e, 0, 0);
    vstd::arithmetic::mul::lemma_mul_basics(scale(e));
    lemma_rounding_keeps_sign(e, 0, 1, place);
    vstd::arithmetic::mul::lemma_mul_basics(units(e, size));
    lemma_rounding_keeps_sign(e, 0, scale(e), shift);
    assert(units(e, least) + units(e, shift) == units(e, least) * 1);
    lemma_exact(e, least, 1, r);
}

proof fn lemma_later_bin(
    least: int,
    size: int,
    j: int,
    place1: int,
    shift1: int,
    r1: int,
    k: int,
    place2: int,
    shift2: int,
    r2: int,
)
    requires
        bin_at(least, size, j, place1, shift1, r1),
        bin_at(least, size, k, place2, shift2, r2),
        finite(ElementType::F32, least),
        finite(ElementType::F32, size),
        finite(ElementType::F32, place1),
        finite(ElementType::F32, shift1),
        finite(ElementType::F32, place2),
        finite(ElementType::F32, shift2),
        size >= 0,
        j <= k,
    ensures
        r1 <= r2,
{
    let e = ElementType::F32;
    let s = scale(e);
    lemma_scale(e);
    assert(j * s <= k * s) by (nonlinear_arith)
        requires
            j <= k,
            s > 0,
    ;
    lemma_rounding_grows(e, j * s, 1, place1, k * s, 1, place2);
    lemma_units(e, place1, place2);
    lemma_units(e, size, 0);
    let (a, b, v) = (units(e, place1), units(e, place2), units(e, size));
    assert((a * v) * s <= (b * v) * s) by (nonlinear_arith)
        requires
            a <= b,
            v >= 0,
            s > 0,
    ;
    lemma_rounding_grows(e, a * v, s, shift1, b * v, s, shift2);
    lemma_adding_grows(e, least, shift1, r1, least, shift2, r2);
}

/// The inverse of the symmetric logarithm is the exponential of the magnitude less one,
/// with the sign of the number, and nothing for nothing.
pub proof fn symexp_keeps_the_sign(x: TensorValue, r: TensorValue) -> (p: (TensorValue, TensorValue))
    requires
        is_symexp(x, r),
        exact(r),
    ensures
        is_magnitude(x, p.0),
        is_exponential(p.0, p.1),
        forall|k: int|
            0 <= k < r.keys.len() && x.element == r.element && x.keys.len() == r.keys.len()
                && finite_at(x, k) && finite_at(p.1, k) ==> unbent(
                r.element,
                x.keys[k],
                p.1.keys[k],
                #[trigger] r.keys[k],
            ),
{
    let (s, m, power, less) = choose|
        s: TensorValue,
        m: TensorValue,
        e: TensorValue,
        d: TensorValue,
    |
        #[trigger] is_sign(x, s) && #[trigger] is_magnitude(x, m) && #[trigger] is_exponential(m, e)
            && #[trigger] affine_of(e, double(F64 { bits: ONE }), double(F64 { bits: MINUS_ONE }), d)
            && product_of(s, d, r);
    let e = r.element;
    assert forall|k: int|
        0 <= k < r.keys.len() && x.element == r.element && x.keys.len() == r.keys.len()
            && finite_at(x, k) && finite_at(power, k) implies unbent(
        e,
        x.keys[k],
        power.keys[k],
        #[trigger] r.keys[k],
    ) by {
        let (up, down) = (double(F64 { bits: ONE }), double(F64 { bits: MINUS_ONE }));
        assert(up.keys[0] == one(ElementType::F64) && down.keys[0] == -one(ElementType::F64));
        assert(finite_at(up, 0) && finite_at(down, 0));
        assert(multiplied(e, power.keys[k], up.keys[0], down.keys[0], less.keys[k])) by {
            reveal(affine_rounds);
        }
        lemma_less_one(e, power.keys[k], less.keys[k]);
        let g = less.keys[k];
        if finite(e, g) {
            assert(number(e, x.keys[k]));
            assert(s.keys[k] == if x.keys[k] < 0 {
                -unit_key(e)
            } else if x.keys[k] > 0 {
                unit_key(e)
            } else {
                0
            });
            assert(finite_at(s, k) && finite_at(less, k));
            lemma_product_at(s, less, r, k);
            lemma_signed(e, s.keys[k], g, r.keys[k]);
        }
    }
    (m, power)
}

/// Whether `r` is a power less one, with the sign of `x`.
pub open spec fn unbent(e: ElementType, x: int, power: int, r: int) -> bool {
    exists|g: int| #[trigger]
        differ_by(e, power, one(e), g) && (finite(e, g) ==> r == if x > 0 {
            g
        } else if x < 0 {
            -g
        } else {
            0
        })
}

proof fn lemma_less_one(e: ElementType, x: int, r: int)
    requires
        exact_type(e),
        finite(e, x),
        multiplied(e, x, one(ElementType::F64), -one(ElementType::F64), r),
    ensures
        differ_by(e, x, one(e), r),
{
    let d = ElementType::F64;
    lemma_one(d);
    lemma_one(e);
    lemma_scale(e);
    lemma_scale(d);
    lemma_units(d, one(d), 0);
    lemma_units(e, one(e), 0);
    let (f, t, p) = choose|f: int, t: int, p: int|
        converted(d, one(d), e, f) && converted(d, -one(d), e, t) && #[trigger] by_way_of(
            e,
            x,
            f,
            t,
            p,
            r,
        );
    let (a, b) = (scale(e), scale(d));
    assert(b * a == a * b && -b * a == -a * b) by (nonlinear_arith);
    lemma_exact(e, one(e), b, f);
    lemma_exact(e, -one(e), b, t);
    lemma_exact(e, x, a, p);
}

proof fn lemma_signed(e: ElementType, s: int, g: int, r: int)
    requires
        exact_type(e),
        finite(e, g),
        s == one(e) || s == -one(e) || s == 0,
        rounds_to(e, units(e, s) * units(e, g), scale(e), r),
    ensures
        s == one(e) ==> r == g,
        s == -one(e) ==> r == -g,
        s == 0 ==> r == 0,
{
    lemma_one(e);
    lemma_scale(e);
    lemma_units(e, one(e), 0);
    lemma_units(e, g, g);
    lemma_units(e, 0, 0);
    let (u, c) = (units(e, g), scale(e));
    assert(c * u == u * c && -c * u == -u * c && 0 * u == 0 * c) by (nonlinear_arith);
    if s == one(e) {
        lemma_exact(e, g, c, r);
    } else if s == -one(e) {
        lemma_exact(e, -g, c, r);
    } else {
        lemma_exact(e, 0, c, r);
    }
}

/// The mean of bins under weights along the last axis is the sum of each bin times its
/// weight.
pub proof fn bin_means_add_weighted_bins(
    probs: TensorValue,
    bins: TensorValue,
    n: usize,
    r: TensorValue,
) -> (parts: TensorValue)
    requires
        is_bin_mean(probs, bins, n, r),
        exact(probs),
        probs.dims.len() >= 2,
        probs.dims.last() == n,
        probs.keys.len() == count(probs.dims),
        bins.dims == seq![n],
        bins.keys.len() == n,
        n > 1,
    ensures
        parts.dims == probs.dims,
        forall|o: int, m: int|
            0 <= o < outer(probs.dims, probs.dims.len() - 1) && 0 <= m < n && finite(
                probs.element,
                probs.at(probs.dims.len() - 1, o, m, 0),
            ) && finite(probs.element, bins.keys[m]) ==> rounds_to(
                probs.element,
                units(probs.element, probs.at(probs.dims.len() - 1, o, m, 0)) * units(
                    probs.element,
                    bins.keys[m],
                ),
                scale(probs.element),
                #[trigger] parts.at(probs.dims.len() - 1, o, m, 0),
            ),
        forall|o: int|
            0 <= o < outer(probs.dims, probs.dims.len() - 1) && finite_along(
                parts,
                probs.dims.len() - 1,
                o,
                0,
            ) ==> #[trigger] adds_up(
                parts,
                probs.dims.len() - 1,
                o,
                0,
                r.shaped(probs.dims.drop_last()),
            ),
{
    let last = probs.dims.len() - 1;
    let e = probs.element;
    let shape = meeting_shape(probs.dims, n);
    let (weighted, mean) = choose|weighted: TensorValue, mean: TensorValue|
        #[trigger] product_of(
            spread(probs, shape),
            spread(as_last_axis(bins, probs.dims.len()), shape),
            weighted,
        ) && #[trigger] total_of(weighted, probs.dims.len() - 1, mean) && r == mean.shaped(
            mean.dims.push(1),
        );
    assert(shape =~= probs.dims);
    let (wide, row) = (spread(probs, shape), spread(as_last_axis(bins, probs.dims.len()), shape));
    assert(probs.dims.skip(last + 1) =~= Seq::<usize>::empty());
    assert(inner(probs.dims, last) == 1);
    assert forall|o: int, m: int|
        0 <= o < outer(probs.dims, last) && 0 <= m < n && finite(e, probs.at(last, o, m, 0))
            && finite(e, bins.keys[m]) implies rounds_to(
        e,
        units(e, probs.at(last, o, m, 0)) * units(e, bins.keys[m]),
        scale(e),
        #[trigger] weighted.at(last, o, m, 0),
    ) by {
        let k = position(probs.dims, last, o, m, 0);
        lemma_position(probs.dims, last, o, m, 0);
        assert(k == o * n + m);
        lemma_spread_same(probs.dims, k);
        lemma_spread_onto_last(probs.dims, k);
        assert(k == n * o + m) by (nonlinear_arith)
            requires
                k == o * n + m,
        ;
        vstd::arithmetic::div_mod::lemma_fundamental_div_mod_converse(k, n as int, o, m);
        assert(as_last_axis(bins, probs.dims.len()).dims =~= Seq::new(
            (shape.len() - 1) as nat,
            |j: int| 1usize,
        ).push(shape.last()));
        assert(wide.keys[k] == probs.keys[k]);
        assert(row.keys[k] == bins.keys[m]);
        assert(finite_at(wide, k) && finite_at(row, k));
        lemma_product_at(wide, row, weighted, k);
    }
    assert(probs.dims.remove(last) =~= probs.dims.drop_last());
    assert(r.shaped(probs.dims.drop_last()) == mean);
    assert forall|o: int|
        0 <= o < outer(probs.dims, last) && finite_along(weighted, last, o, 0) implies #[trigger] adds_up(
        weighted,
        last,
        o,
        0,
        r.shaped(probs.dims.drop_last()),
    ) by {
        reveal(total_rounds);
    }
    weighted
}

} // verus!
