//! What the losses of a latent space and its attention hold back.

use vstd::prelude::*;

use crate::models::lewm::attention::{is_causal, lowest, visible, LOWEST};
use crate::models::lewm::block::{is_row_mean, ONE};
use crate::models::lewm::loss::{first_swapped, is_std_loss, lone, SINGLE_ONE, VC_REG_EPS};
use crate::rounding::{
    finite, lemma_keeps_its_side, lemma_one, lemma_rounding_keeps_sign, lemma_scale, lemma_units,
    number, one, roots_to, scale, units,
};
use crate::scalar::{f32_key, F32_INFINITY, F64};
use crate::tensor::arithmetic::{
    adds_all, adds_up, affine_of, affine_rounds, average_of, average_rounds, difference_of, exact,
    finite_along, finite_at, is_ramp, like, multiplied, overall_mean_of, overall_mean_rounds,
    root_of, root_rounds, shared, shared_by_all, total_of, total_rounds, units_at, variance_of,
};
use crate::tensor::facts::{lemma_counts, lemma_position, lemma_second_axis};
use crate::tensor::layout::{cast_of, permuted};
use crate::tensor::make::double;
use crate::tensor::scaled::{differ_by, lemma_difference_at, lemma_shared};
use crate::tensor::share::{a_share_times_its_number_is_one, is_share};
use crate::tensor::value::{
    count, inner, is_double, spread, spread_position, ElementType, TensorValue,
};

verus! {

/// No frame attends to a later one: in scores `[batch, heads, t, t]` that are hidden,
/// the score of a row for a column that comes no later stays, and that for a later
/// column is negative infinity.
pub proof fn no_frame_sees_a_later_one(scores: TensorValue, r: TensorValue, o: int, i: int, j: int)
    requires
        is_causal(scores, r),
        scores.dims.len() == 4,
        scores.dims[2] == scores.dims[3],
        scores.keys.len() == count(scores.dims),
        0 <= o < scores.dims[0] * scores.dims[1],
        0 <= i < scores.dims[3],
        0 <= j < scores.dims[3],
    ensures
        j <= i ==> r.keys[(o * scores.dims[3] + i) * scores.dims[3] + j] == scores.keys[(o
            * scores.dims[3] + i) * scores.dims[3] + j],
        j > i && scores.element is F32 ==> r.keys[(o * scores.dims[3] + i) * scores.dims[3] + j]
            == -F32_INFINITY,
{
    let (b, h, t) = (scores.dims[0], scores.dims[1], scores.dims[3]);
    assert(scores.dims =~= seq![b, h, t, t]);
    lemma_counts(b, h, t, t);
    let n = t as int;
    let k = (o * n + i) * n + j;
    let place = i * n + j;
    assert(k == (n * n) * o + place && 0 <= place < n * n) by (nonlinear_arith)
        requires
            k == (o * n + i) * n + j,
            place == i * n + j,
            0 <= i < n,
            0 <= j < n,
    ;
    let (bi, hi) = (b as int, h as int);
    assert(0 <= k < bi * (hi * (n * n))) by (nonlinear_arith)
        requires
            k == (n * n) * o + place,
            0 <= place < n * n,
            0 <= o < bi * hi,
    ;
    vstd::arithmetic::div_mod::lemma_fundamental_div_mod_converse(k, n * n, o, place);
    assert(place == n * i + j) by (nonlinear_arith)
        requires
            place == i * n + j,
    ;
    vstd::arithmetic::div_mod::lemma_fundamental_div_mod_converse(place, n, i, j);
    let low = choose|low: TensorValue|
        #[trigger] cast_of(lowest(scores.location), low) && low.element == scores.element && forall|
            k: int,
        |
            0 <= k < r.keys.len() ==> #[trigger] r.keys[k] == if visible(n, k % (n * n)) {
                scores.keys[k]
            } else {
                low.keys[0]
            };
    assert(r.keys[k] == if visible(n, place) {
        scores.keys[k]
    } else {
        low.keys[0]
    });
    if scores.element is F32 {
        assert(low.keys == lowest(scores.location).keys);
        assert(f32_key(LOWEST) == -F32_INFINITY) by {
            assert(LOWEST == 0xff80_0000u32);
        }
    }
}

/// A mean along rows is their sum divided by their width.
pub proof fn row_means_divide_totals(x: TensorValue, r: TensorValue) -> (total: TensorValue)
    requires
        is_row_mean(x, r),
        exact(x),
        x.dims.len() == 3,
        0 < x.dims[2] < 0x20_0000_0000_0000,
    ensures
        total_of(x, 2, total),
        r.dims == seq![x.dims[0], x.dims[1], 1usize],
        forall|k: int|
            0 <= k < r.keys.len() && finite_at(total, k) ==> shared(
                x.element,
                total.keys[k],
                x.dims[2] as int,
                #[trigger] r.keys[k],
            ),
{
    let zero = double(F64 { bits: 0 });
    let (share, total) = choose|share: TensorValue, total: TensorValue|
        #[trigger] is_share(x.dims[2] as u64, share) && #[trigger] total_of(x, 2, total)
            && affine_of(
            total.shaped(seq![x.dims[0], x.dims[1], 1usize]),
            share,
            double(F64 { bits: 0 }),
            r,
        );
    a_share_times_its_number_is_one(x.dims[2] as u64, share);
    let kept = total.shaped(seq![x.dims[0], x.dims[1], 1usize]);
    assert(zero.keys[0] == 0 && finite_at(zero, 0) && is_double(zero));
    assert(finite_at(share, 0)) by {
        let d = ElementType::F64;
        lemma_one(d);
        lemma_scale(d);
        let n = x.dims[2] as int;
        assert(scale(d) <= scale(d) * n) by (nonlinear_arith)
            requires
                scale(d) > 0,
                n >= 1,
        ;
        lemma_keeps_its_side(d, scale(d), n, share.keys[0], one(d));
    }
    assert forall|k: int| 0 <= k < r.keys.len() && finite_at(total, k) implies shared(
        x.element,
        total.keys[k],
        x.dims[2] as int,
        #[trigger] r.keys[k],
    ) by {
        assert(finite_at(kept, k));
        assert(multiplied(x.element, kept.keys[k], share.keys[0], zero.keys[0], r.keys[k])) by {
            reveal(affine_rounds);
        }
    }
    total
}

/// Spreading one element repeats it.
pub proof fn lemma_spread_one(dst: Seq<usize>, k: int)
    requires
        dst.len() == 2,
        0 <= k < count(dst),
    ensures
        spread_position(seq![1usize, 1], dst, k) == 0,
{
    let (a, b) = (dst[0], dst[1]);
    let src = seq![1usize, 1];
    assert(dst =~= seq![a, b]);
    lemma_counts(a, b, 1, 1);
    lemma_counts(b, 1, 1, 1);
    lemma_counts(1, 1, 1, 1);
    assert(src.skip(1) =~= seq![1usize]);
    assert(dst.skip(1) =~= seq![b]);
    assert(src.skip(1).skip(1) =~= Seq::<usize>::empty());
    assert(dst.skip(1).skip(1) =~= Seq::<usize>::empty());
    reveal_with_fuel(spread_position, 3);
    let (ai, bi) = (a as int, b as int);
    assert(bi > 0) by (nonlinear_arith)
        requires
            0 <= k < ai * bi,
            bi >= 0,
    ;
    vstd::arithmetic::div_mod::lemma_mod_bound(k, bi);
    if a == 1 {
        vstd::arithmetic::div_mod::lemma_basic_div(k, bi);
    }
    let rest = k % bi;
    assert(spread_position(seq![1usize], seq![b], rest) == 0) by {
        if b == 1 {
            assert(rest / 1 == 0);
        }
    }
    vstd::arithmetic::mul::lemma_mul_basics(1);
}

/// How much a deviation falls short of one: nothing where it does not.
pub open spec fn short_of_one(e: ElementType, deviation: int, r: int) -> bool {
    &&& deviation >= one(e) ==> r == 0
    &&& deviation <= one(e) ==> differ_by(e, one(e), deviation, r) && r >= 0
}

/// What a deviation loss is made of.
pub struct Hinge {
    pub turned: TensorValue,
    pub variance: TensorValue,
    pub raised: TensorValue,
    pub deviation: TensorValue,
    pub kept: TensorValue,
}

/// The deviation loss counts how far each deviation, the root of the variance raised a
/// little, falls short of one, and it is zero where none does.
pub proof fn deviations_below_one_are_lost(z: TensorValue, r: TensorValue) -> (s: Hinge)
    requires
        is_std_loss(z, r),
        exact(z),
        z.element is F32,
        z.dims.len() == 3,
        z.keys.len() <= 0x20_0000_0000_0000,
        0 < z.dims[0],
        0 < z.dims[1] <= 0x20_0000_0000_0000,
        0 < z.dims[2] <= 0x20_0000_0000_0000,
        z.keys.len() == count(z.dims),
    ensures
        permuted(z, first_swapped(), s.turned),
        variance_of(s.turned, 1, s.variance),
        affine_of(
            s.variance,
            double(F64 { bits: ONE }),
            double(F64 { bits: VC_REG_EPS }),
            s.raised,
        ),
        forall|k: int|
            0 <= k < s.raised.keys.len() && finite_at(s.raised, k) && s.raised.keys[k] >= 0
                ==> roots_to(
                ElementType::F32,
                units_at(s.raised, k) * scale(ElementType::F32),
                #[trigger] s.deviation.keys[k],
            ),
        forall|k: int|
            0 <= k < s.kept.keys.len() && finite_at(s.deviation, k) ==> short_of_one(
                ElementType::F32,
                s.deviation.keys[k],
                #[trigger] s.kept.keys[k],
            ),
        (forall|k: int|
            0 <= k < s.deviation.keys.len() ==> finite(
                ElementType::F32,
                #[trigger] s.deviation.keys[k],
            ) && s.deviation.keys[k] >= one(ElementType::F32)) ==> r.keys[0] == 0,
{
    let e = ElementType::F32;
    let (turned, var, raised, std, short, kept, steps) = choose|
        turned: TensorValue,
        var: TensorValue,
        raised: TensorValue,
        std: TensorValue,
        short: TensorValue,
        kept: TensorValue,
        steps: TensorValue,
    |
        #[trigger] permuted(z, first_swapped(), turned) && #[trigger] variance_of(turned, 1, var)
            && #[trigger] affine_of(
            var,
            double(F64 { bits: ONE }),
            double(F64 { bits: VC_REG_EPS }),
            raised,
        ) && #[trigger] root_of(raised, std) && #[trigger] difference_of(
            spread(lone(SINGLE_ONE, std.location), std.dims),
            std,
            short,
        ) && #[trigger] is_ramp(short, kept) && like(short, kept) && #[trigger] average_of(
            kept,
            1,
            steps,
        ) && overall_mean_of(steps, r);
    let s = Hinge { turned, variance: var, raised, deviation: std, kept };
    let (n, t, d) = (z.dims[0], z.dims[1], z.dims[2]);
    assert(turned.dims =~= seq![t, n, d]);
    assert(var.dims =~= seq![t, d]);
    assert(std.dims == seq![t, d] && std.element == e && exact(std));
    let ones = spread(lone(SINGLE_ONE, std.location), std.dims);
    lemma_one(e);
    assert(f32_key(SINGLE_ONE) == one(e));
    assert(short.keys.len() == std.keys.len() && short.element == e);
    assert forall|k: int| 0 <= k < short.keys.len() && finite_at(std, k) implies short_of_one(
        e,
        std.keys[k],
        #[trigger] kept.keys[k],
    ) by {
        lemma_spread_one(std.dims, k);
        assert(ones.keys[k] == one(e));
        assert(finite_at(ones, k));
        lemma_difference_at(ones, std, short, k);
        lemma_units(e, std.keys[k], one(e));
        lemma_rounding_keeps_sign(e, units(e, one(e)) - units(e, std.keys[k]), 1, short.keys[k]);
        assert(number(e, short.keys[k]));
    }
    assert(kept.keys.len() == short.keys.len() && kept.dims == short.dims && kept.element == e);
    reveal(root_rounds);
    if forall|k: int|
        0 <= k < std.keys.len() ==> finite(e, #[trigger] std.keys[k]) && std.keys[k] >= one(e) {
        lemma_nothing_lost(kept, steps, r, t, d);
    }
    s
}

proof fn lemma_nothing_lost(
    kept: TensorValue,
    steps: TensorValue,
    r: TensorValue,
    t: usize,
    d: usize,
)
    requires
        exact(kept),
        kept.element is F32,
        kept.dims == seq![t, d],
        0 < t <= 0x20_0000_0000_0000,
        0 < d <= 0x20_0000_0000_0000,
        kept.keys.len() == count(kept.dims),
        forall|k: int| 0 <= k < kept.keys.len() ==> #[trigger] kept.keys[k] == 0,
        average_of(kept, 1, steps),
        overall_mean_of(steps, r),
    ensures
        r.keys[0] == 0,
{
    let e = ElementType::F32;
    lemma_counts(t, d, 1, 1);
    assert(kept.dims.remove(1) =~= seq![t]);
    lemma_second_axis(t, d, 1, 1);
    reveal(average_rounds);
    let total = choose|total: TensorValue| #[trigger]
        total_of(kept, 1, total) && forall|k: int|
            0 <= k < steps.keys.len() && finite_at(total, k) ==> shared(
                steps.element,
                total.keys[k],
                kept.dims[1] as int,
                #[trigger] steps.keys[k],
            );
    assert forall|o: int| 0 <= o < t implies #[trigger] steps.keys[o] == 0 by {
        assert forall|m: int| 0 <= m < d implies #[trigger] kept.at(1, o, m, 0) == 0 by {
            lemma_position(kept.dims, 1, o, m, 0);
        }
        assert(finite(e, 0));
        assert(finite_along(kept, 1, o, 0));
        assert(adds_up(kept, 1, o, 0, total)) by {
            reveal(total_rounds);
        }
        assert(o * inner(kept.dims, 1) + 0 == o);
        assert(total.keys[o] == 0);
        assert(finite_at(total, o));
        lemma_shared(e, 0, d as int, steps.keys[o]);
    }
    assert(steps.keys.len() == t);
    assert(forall|k: int| 0 <= k < steps.keys.len() ==> finite(e, #[trigger] steps.keys[k]));
    assert(exists|s: int| #[trigger] shared_by_all(steps, s, r.keys[0])) by {
        reveal(overall_mean_rounds);
    }
    let s = choose|s: int| #[trigger] shared_by_all(steps, s, r.keys[0]);
    assert(adds_all(steps, s));
    lemma_shared(e, s, t as int, r.keys[0]);
}

} // verus!
