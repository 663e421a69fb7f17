//! What a distribution that was fitted to elites says of them.

use vstd::prelude::*;

use crate::planner::refit::{fits_elites, Distribution};
use crate::planner::sampling::raised_to;
use crate::planner::workspace::{rounded_number, single, uniform};
use crate::rounding::{
    finite, lemma_exact, lemma_root_squared, lemma_roots_grow, lemma_rounding_is_unique,
    lemma_scale, lemma_units, number, roots_to, scale, units,
};
use crate::scalar::F32;
use crate::tensor::arithmetic::{
    average_rounds, converted, exact, finite_at, maximum_of, root_of, root_rounds, shared, total_of,
    units_at, variance_of, variance_rounds,
};
use crate::tensor::layout::cast_rounds;
use crate::tensor::make::filled;
use crate::tensor::value::{count, ElementType, TensorValue};

verus! {

/// Whether the square of `s` is `v`, up to the neighbours of `s`: the square of the
/// smaller one is not above `v`, that of the larger one not below.
pub open spec fn squares_to(e: ElementType, s: int, v: int) -> bool {
    &&& s >= 0
    &&& s > 0 ==> units(e, s - 1) * units(e, s - 1) <= units(e, v) * scale(e)
    &&& number(e, s + 1) ==> units(e, v) * scale(e) <= units(e, s + 1) * units(e, s + 1)
}

/// Whether `s` is the deviation that belongs to a variance, or its least value
/// where that is larger.
pub open spec fn deviation(e: ElementType, least: int, v: int, s: int) -> bool {
    &&& s >= least
    &&& s > least ==> squares_to(e, s, v)
    &&& s == least && number(e, s + 1) && s >= 0 ==> units(e, v) * scale(e) <= units(e, s + 1)
        * units(e, s + 1)
}

/// A least value as each element of a sequence.
proof fn lemma_floor(least: F32, v: TensorValue, floor: TensorValue) -> (f: int)
    requires
        uniform(least, v.dims, v.element, v.location, floor),
        exact(v),
        least.finite(),
        least.key() != 0,
    ensures
        converted(ElementType::F32, least.key(), v.element, f),
        floor.keys == filled(v.dims, f),
{
    let e = v.element;
    let c = choose|c: Seq<int>| #[trigger]
        rounded_number(least, e, v.location, c) && floor.keys == filled(v.dims, c[0]);
    let dims = seq![1usize, 1, 1];
    let x = single(seq![least], dims, v.location);
    let y = TensorValue { dims, keys: c, element: e, location: v.location };
    assert(x.keys[0] == least.key());
    assert(finite_at(x, 0));
    assert(converted(ElementType::F32, least.key(), e, c[0])) by {
        reveal(cast_rounds);
        assert(converted(x.element, x.keys[0], y.element, y.keys[0]));
    }
    c[0]
}

/// A deviation is that of its variance, where it is not its least value.
proof fn lemma_deviation(
    spread: TensorValue,
    root: TensorValue,
    min_std: F32,
    std: TensorValue,
    f: int,
    k: int,
)
    requires
        exact(spread),
        root_of(spread, root),
        raised_to(root, min_std, std),
        min_std.finite(),
        converted(ElementType::F32, min_std.key(), spread.element, f),
        spread.keys.len() == count(spread.dims),
        0 <= k < spread.keys.len(),
        finite_at(spread, k),
        spread.keys[k] >= 0,
    ensures
        std.keys.len() == spread.keys.len(),
        std.element == spread.element,
        roots_to(spread.element, units_at(spread, k) * scale(spread.element), root.keys[k]),
        std.keys[k] == if root.keys[k] >= f {
            root.keys[k]
        } else {
            f
        },
{
    let e = spread.element;
    let x = units_at(spread, k) * scale(e);
    assert(roots_to(e, x, root.keys[k])) by {
        reveal(root_rounds);
    }
    lemma_scale(ElementType::F32);
    lemma_scale(e);
    if min_std.key() == 0 {
        lemma_units(ElementType::F32, 0, 0);
        lemma_units(e, 0, 0);
        vstd::arithmetic::mul::lemma_mul_basics(scale(e));
        vstd::arithmetic::mul::lemma_mul_basics(scale(ElementType::F32));
        lemma_exact(e, 0, scale(ElementType::F32), f);
    } else {
        let floor = choose|floor: TensorValue| #[trigger]
            uniform(min_std, root.dims, root.element, root.location, floor) && maximum_of(
                root,
                floor,
                std,
            );
        let g = lemma_floor(min_std, root, floor);
        lemma_rounding_is_unique(
            e,
            units(ElementType::F32, min_std.key()) * scale(e),
            scale(ElementType::F32),
            f,
            g,
        );
        assert(floor.keys[k] == f);
        assert(std.keys[k] == std.keys[k]);
    }
}

/// The fitted deviation is the root of the unbiased variance of the elites: where it
/// is above its least value its square is that variance, up to the neighbouring
/// numbers, and it is never below its least value.
pub proof fn deviations_square_to_variances(
    elites: TensorValue,
    min_std: F32,
    d: Distribution,
    least: int,
) -> (spread: TensorValue)
    requires
        fits_elites(elites, min_std, d),
        exact(elites),
        min_std.finite(),
        converted(ElementType::F32, min_std.key(), elites.element, least),
    ensures
        variance_of(elites, 1, spread),
        d.std.dims == spread.dims,
        d.std.keys.len() == spread.keys.len(),
        forall|k: int|
            0 <= k < spread.keys.len() && finite_at(spread, k) ==> deviation(
                elites.element,
                least,
                spread.keys[k],
                #[trigger] d.std.keys[k],
            ),
{
    let (spread, root) = choose|spread: TensorValue, root: TensorValue|
        #[trigger] variance_of(elites, 1, spread) && #[trigger] root_of(spread, root) && raised_to(
            root,
            min_std,
            d.std,
        );
    let e = elites.element;
    assert forall|k: int| 0 <= k < spread.keys.len() && finite_at(spread, k) implies deviation(
        e,
        least,
        spread.keys[k],
        #[trigger] d.std.keys[k],
    ) by {
        let s = root.keys[k];
        assert(number(e, spread.keys[k]));
        assert(spread.keys[k] >= 0) by {
            reveal(variance_rounds);
        }
        lemma_deviation(spread, root, min_std, d.std, least, k);
        let x = units_at(spread, k) * scale(e);
        lemma_root_squared(e, x, s);
        if s < least && number(e, least + 1) {
            let (p, q) = (units(e, s + 1), units(e, least + 1));
            lemma_units(e, s + 1, least + 1);
            assert(p * p <= q * q) by (nonlinear_arith)
                requires
                    0 <= p <= q,
            ;
        }
    }
    spread
}

/// Elites that vary no less are not fitted by a smaller deviation.
pub proof fn wider_elites_deviate_no_less(
    elites: TensorValue,
    wider: TensorValue,
    min_std: F32,
    d: Distribution,
    w: Distribution,
    least: int,
) -> (both: (TensorValue, TensorValue))
    requires
        fits_elites(elites, min_std, d),
        fits_elites(wider, min_std, w),
        exact(elites),
        exact(wider),
        elites.element == wider.element,
        elites.dims == wider.dims,
        min_std.finite(),
        converted(ElementType::F32, min_std.key(), elites.element, least),
    ensures
        variance_of(elites, 1, both.0),
        variance_of(wider, 1, both.1),
        forall|k: int|
            0 <= k < both.0.keys.len() && finite_at(both.0, k) && finite_at(both.1, k)
                && both.0.keys[k] <= both.1.keys[k] ==> #[trigger] d.std.keys[k] <= w.std.keys[k],
{
    let (s1, r1) = choose|spread: TensorValue, root: TensorValue|
        #[trigger] variance_of(elites, 1, spread) && #[trigger] root_of(spread, root) && raised_to(
            root,
            min_std,
            d.std,
        );
    let (s2, r2) = choose|spread: TensorValue, root: TensorValue|
        #[trigger] variance_of(wider, 1, spread) && #[trigger] root_of(spread, root) && raised_to(
            root,
            min_std,
            w.std,
        );
    let e = elites.element;
    assert forall|k: int|
        0 <= k < s1.keys.len() && finite_at(s1, k) && finite_at(s2, k) && s1.keys[k]
            <= s2.keys[k] implies #[trigger] d.std.keys[k] <= w.std.keys[k] by {
        assert(number(e, s1.keys[k]) && number(e, s2.keys[k]));
        assert(s1.keys[k] >= 0 && s2.keys[k] >= 0) by {
            reveal(variance_rounds);
        }
        lemma_deviation(s1, r1, min_std, d.std, least, k);
        lemma_deviation(s2, r2, min_std, w.std, least, k);
        lemma_units(e, s1.keys[k], s2.keys[k]);
        lemma_scale(e);
        let (x1, x2, c) = (units_at(s1, k), units_at(s2, k), scale(e));
        assert(x1 * c <= x2 * c) by (nonlinear_arith)
            requires
                x1 <= x2,
                c > 0,
        ;
        lemma_roots_grow(e, x1 * c, r1.keys[k], x2 * c, r2.keys[k]);
    }
    (s1, s2)
}

/// The fitted mean is the sum of the elites divided by their number.
pub proof fn means_divide_totals(elites: TensorValue, min_std: F32, d: Distribution) -> (total:
    TensorValue)
    requires
        fits_elites(elites, min_std, d),
        exact(elites),
        1 <= elites.dims[1] <= 0x20_0000_0000_0000,
    ensures
        total_of(elites, 1, total),
        d.mean.dims == elites.dims.remove(1),
        forall|k: int|
            0 <= k < d.mean.keys.len() && finite_at(total, k) ==> shared(
                elites.element,
                total.keys[k],
                elites.dims[1] as int,
                #[trigger] d.mean.keys[k],
            ),
{
    reveal(average_rounds);
    choose|total: TensorValue| #[trigger]
        total_of(elites, 1, total) && forall|k: int|
            0 <= k < d.mean.keys.len() && finite_at(total, k) ==> shared(
                elites.element,
                total.keys[k],
                elites.dims[1] as int,
                #[trigger] d.mean.keys[k],
            )
}

} // verus!
