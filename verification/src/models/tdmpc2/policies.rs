//! What the policy head says of actions.

use vstd::arithmetic::power2::{lemma_pow2_adds, lemma_pow2_unfold, pow2};
use vstd::prelude::*;

use crate::models::tdmpc2::actor::{MINUS_FOUR, SIX};
use crate::models::tdmpc2::model::TdMpc2;
use crate::models::tdmpc2::rollout::{all_shaped, SampledRollout};
use crate::planner::drawn::is_draw;
use crate::rounding::{
    exact_type, finite, lemma_binades, lemma_exact, lemma_keeps_its_side, lemma_one, lemma_scale,
    lemma_units, lemma_written, one, rounds_to, scale, units,
};
use crate::scalar::F64;
use crate::tensor::arithmetic::{
    affine_of, affine_rounds, average_of, average_rounds, by_way_of, converted, exact, finite_at,
    is_exponential, is_tangent, keeps, multiplied, product_of, shared, sum_of, sum_rounds, swallows,
    total_of, vanishes,
};
use crate::tensor::join::stacked;
use crate::tensor::layout::{narrowed, placed};
use crate::tensor::make::double;
use crate::tensor::scaled::{lemma_product_at, lemma_sum_at};
use crate::tensor::value::{ElementType, TensorValue};

verus! {

/// The keys of two, four, six and ten.
pub open spec fn whole(e: ElementType, n: int) -> int {
    match e {
        ElementType::F64 => if n == 2 {
            0x4000_0000_0000_0000
        } else if n == 4 {
            0x4010_0000_0000_0000
        } else if n == 6 {
            0x4018_0000_0000_0000
        } else {
            0x4024_0000_0000_0000
        },
        _ => if n == 2 {
            0x4000_0000
        } else if n == 4 {
            0x4080_0000
        } else if n == 6 {
            0x40c0_0000
        } else {
            0x4120_0000
        },
    }
}

proof fn lemma_whole_double()
    ensures
        units(ElementType::F64, whole(ElementType::F64, 2)) == 2 * scale(ElementType::F64),
        units(ElementType::F64, whole(ElementType::F64, 4)) == 4 * scale(ElementType::F64),
        units(ElementType::F64, whole(ElementType::F64, 6)) == 6 * scale(ElementType::F64),
        units(ElementType::F64, whole(ElementType::F64, 10)) == 10 * scale(ElementType::F64),
{
    let e = ElementType::F64;
    lemma_binades();
    lemma_pow2_adds(52, 1022);
    let p = pow2(1022) as int;
    assert(scale(e) == 0x10_0000_0000_0000 * p);
    lemma_pow2_unfold(1023);
    lemma_pow2_unfold(1024);
    lemma_pow2_unfold(1025);
    assert(pow2(1023) == 2 * p && pow2(1024) == 4 * p && pow2(1025) == 8 * p);
    assert(units(e, whole(e, 2)) == 2 * scale(e)) by {
        lemma_written(e, 1024, 0);
        assert(units(e, whole(e, 2)) == 0x10_0000_0000_0000 * (2 * p));
    }
    assert(units(e, whole(e, 4)) == 4 * scale(e)) by {
        lemma_written(e, 1025, 0);
        assert(units(e, whole(e, 4)) == 0x10_0000_0000_0000 * (4 * p));
    }
    assert(units(e, whole(e, 6)) == 6 * scale(e)) by {
        lemma_written(e, 1025, 0x8_0000_0000_0000);
        assert(units(e, whole(e, 6)) == 0x18_0000_0000_0000 * (4 * p));
    }
    assert(units(e, whole(e, 10)) == 10 * scale(e)) by {
        lemma_written(e, 1026, 0x4_0000_0000_0000);
        assert(units(e, whole(e, 10)) == 0x14_0000_0000_0000 * (8 * p));
    }
}

proof fn lemma_whole_single()
    ensures
        units(ElementType::F32, whole(ElementType::F32, 2)) == 2 * scale(ElementType::F32),
        units(ElementType::F32, whole(ElementType::F32, 4)) == 4 * scale(ElementType::F32),
        units(ElementType::F32, whole(ElementType::F32, 6)) == 6 * scale(ElementType::F32),
        units(ElementType::F32, whole(ElementType::F32, 10)) == 10 * scale(ElementType::F32),
{
    let e = ElementType::F32;
    lemma_binades();
    lemma_pow2_adds(23, 126);
    let p = pow2(126) as int;
    assert(scale(e) == 0x80_0000 * p);
    lemma_pow2_unfold(127);
    lemma_pow2_unfold(128);
    lemma_pow2_unfold(129);
    assert(pow2(127) == 2 * p && pow2(128) == 4 * p && pow2(129) == 8 * p);
    assert(units(e, whole(e, 2)) == 2 * scale(e)) by {
        lemma_written(e, 128, 0);
        assert(units(e, whole(e, 2)) == 0x80_0000 * (2 * p));
    }
    assert(units(e, whole(e, 4)) == 4 * scale(e)) by {
        lemma_written(e, 129, 0);
        assert(units(e, whole(e, 4)) == 0x80_0000 * (4 * p));
    }
    assert(units(e, whole(e, 6)) == 6 * scale(e)) by {
        lemma_written(e, 129, 0x40_0000);
        assert(units(e, whole(e, 6)) == 0xc0_0000 * (4 * p));
    }
    assert(units(e, whole(e, 10)) == 10 * scale(e)) by {
        lemma_written(e, 130, 0x20_0000);
        assert(units(e, whole(e, 10)) == 0xa0_0000 * (8 * p));
    }
}

proof fn lemma_whole(e: ElementType)
    requires
        exact_type(e),
    ensures
        units(e, whole(e, 2)) == 2 * scale(e),
        units(e, whole(e, 4)) == 4 * scale(e),
        units(e, whole(e, 6)) == 6 * scale(e),
        units(e, whole(e, 10)) == 10 * scale(e),
{
    if e is F64 {
        lemma_whole_double();
    } else {
        lemma_whole_single();
    }
}

/// Six times a number less four.
proof fn lemma_stretched(e: ElementType, x: int, r: int) -> (p: int)
    requires
        exact_type(e),
        finite(e, x),
        multiplied(e, x, F64 { bits: SIX }.key(), F64 { bits: MINUS_FOUR }.key(), r),
    ensures
        rounds_to(e, units(e, x) * (6 * scale(e)), scale(e), p),
        finite(e, p) ==> rounds_to(e, units(e, p) - 4 * scale(e), 1, r),
        !finite(e, p) ==> r == p,
{
    let d = ElementType::F64;
    let (six, minus_four) = (F64 { bits: SIX }.key(), F64 { bits: MINUS_FOUR }.key());
    assert(six == whole(d, 6) && minus_four == -whole(d, 4));
    lemma_whole(d);
    lemma_whole(e);
    lemma_scale(e);
    lemma_scale(d);
    lemma_units(d, whole(d, 4), 0);
    lemma_units(e, whole(e, 4), 0);
    let (f, t, p) = choose|f: int, t: int, p: int|
        converted(d, six, e, f) && converted(d, minus_four, e, t) && #[trigger] by_way_of(
            e,
            x,
            f,
            t,
            p,
            r,
        );
    let (a, b) = (scale(e), scale(d));
    assert((6 * b) * a == (6 * a) * b) by (nonlinear_arith);
    assert(-(4 * b) * a == -(4 * a) * b) by (nonlinear_arith);
    lemma_exact(e, whole(e, 6), b, f);
    lemma_exact(e, -whole(e, 4), b, t);
    p
}

/// Whether one logarithm of a deviation follows from one bent number: six times it less
/// four, between minus ten and two where the number is between minus one and one.
pub open spec fn stretched(e: ElementType, x: int, r: int) -> bool {
    &&& exists|p: int| #[trigger]
        rounds_to(e, units(e, x) * (6 * scale(e)), scale(e), p) && (finite(e, p) ==> rounds_to(
            e,
            units(e, p) - 4 * scale(e),
            1,
            r,
        ))
    &&& -one(e) <= x <= one(e) ==> -whole(e, 10) <= r <= whole(e, 2)
    &&& x == one(e) ==> r == whole(e, 2)
    &&& x == -one(e) ==> r == -whole(e, 10)
}

proof fn lemma_within(e: ElementType, x: int, r: int)
    requires
        exact_type(e),
        finite(e, x),
        multiplied(e, x, F64 { bits: SIX }.key(), F64 { bits: MINUS_FOUR }.key(), r),
    ensures
        stretched(e, x, r),
{
    let p = lemma_stretched(e, x, r);
    lemma_whole(e);
    lemma_one(e);
    lemma_scale(e);
    let s = scale(e);
    lemma_units(e, x, one(e));
    lemma_units(e, -one(e), x);
    lemma_units(e, one(e), 0);
    lemma_units(e, whole(e, 6), 0);
    lemma_units(e, whole(e, 10), 0);
    let u = units(e, x);
    if -one(e) <= x <= one(e) {
        assert(-(6 * s) * s <= u * (6 * s) && u * (6 * s) <= (6 * s) * s) by (nonlinear_arith)
            requires
                -s <= u <= s,
                s > 0,
        ;
        lemma_keeps_its_side(e, u * (6 * s), s, p, whole(e, 6));
        lemma_keeps_its_side(e, u * (6 * s), s, p, -whole(e, 6));
        lemma_units(e, p, whole(e, 6));
        lemma_units(e, -whole(e, 6), p);
        assert(finite(e, p));
        lemma_keeps_its_side(e, units(e, p) - 4 * s, 1, r, whole(e, 2));
        lemma_keeps_its_side(e, units(e, p) - 4 * s, 1, r, -whole(e, 10));
    }
    if x == one(e) {
        assert(u * (6 * s) == (6 * s) * s) by (nonlinear_arith)
            requires
                u == s,
        ;
        lemma_exact(e, whole(e, 6), s, p);
        assert(units(e, p) - 4 * s == units(e, whole(e, 2)) * 1);
        lemma_exact(e, whole(e, 2), 1, r);
    }
    if x == -one(e) {
        assert(u * (6 * s) == -(6 * s) * s) by (nonlinear_arith)
            requires
                u == -s,
        ;
        lemma_exact(e, -whole(e, 6), s, p);
        assert(units(e, p) - 4 * s == units(e, -whole(e, 10)) * 1);
        lemma_exact(e, -whole(e, 10), 1, r);
    }
}

/// The first half of the policy head is the raw mean. The second half is bent and
/// stretched to the logarithm of the deviation, which lies between minus ten and two
/// where the bent number lies between minus one and one.
pub proof fn deviations_are_kept_in_range(
    model: TdMpc2,
    z: TensorValue,
    mean: TensorValue,
    log_std: TensorValue,
) -> (r: (TensorValue, TensorValue, TensorValue))
    requires
        model.policy(z, mean, log_std),
        exact(log_std),
    ensures
        model.pi.of(z, r.0),
        narrowed(r.0, r.0.dims.len() - 1, 0, model.cfg.action_dim as int, mean),
        narrowed(
            r.0,
            r.0.dims.len() - 1,
            model.cfg.action_dim as int,
            model.cfg.action_dim as int,
            r.1,
        ),
        is_tangent(r.1, r.2),
        r.2.dims == log_std.dims,
        forall|k: int|
            0 <= k < log_std.keys.len() && finite_at(r.2, k) ==> stretched(
                log_std.element,
                r.2.keys[k],
                #[trigger] log_std.keys[k],
            ),
{
    let n = model.cfg.action_dim as int;
    let (out, raw, bent) = choose|out: TensorValue, raw: TensorValue, bent: TensorValue|
        #[trigger] model.pi.of(z, out) && narrowed(out, out.dims.len() - 1, 0, n, mean) && narrowed(
            out,
            out.dims.len() - 1,
            n,
            n,
            raw,
        ) && #[trigger] is_tangent(raw, bent) && affine_of(
            bent,
            double(F64 { bits: SIX }),
            double(F64 { bits: MINUS_FOUR }),
            log_std,
        );
    let e = log_std.element;
    let (six, minus_four) = (double(F64 { bits: SIX }), double(F64 { bits: MINUS_FOUR }));
    assert forall|k: int| 0 <= k < log_std.keys.len() && finite_at(bent, k) implies stretched(
        e,
        bent.keys[k],
        #[trigger] log_std.keys[k],
    ) by {
        assert(six.keys[0] == F64 { bits: SIX }.key());
        assert(minus_four.keys[0] == F64 { bits: MINUS_FOUR }.key());
        assert(finite_at(six, 0) && finite_at(minus_four, 0));
        assert(multiplied(e, bent.keys[k], six.keys[0], minus_four.keys[0], log_std.keys[k])) by {
            reveal(affine_rounds);
        }
        lemma_within(e, bent.keys[k], log_std.keys[k]);
    }
    (out, raw, bent)
}

/// What a sampled action is made of.
pub struct Sampled {
    pub mean: TensorValue,
    pub log_std: TensorValue,
    pub std: TensorValue,
    pub draws: TensorValue,
    pub moved: TensorValue,
}

/// A sampled action is the raw mean plus a draw times the exponential of the logarithm
/// of the deviation, bent into range.
pub proof fn sampled_actions_move_the_mean(
    model: TdMpc2,
    z: TensorValue,
    noise: TensorValue,
    r: TensorValue,
) -> (s: Sampled)
    requires
        model.sampled_action(z, noise, r),
    ensures
        model.policy(z, s.mean, s.log_std),
        is_exponential(s.log_std, s.std),
        placed(noise, s.mean.element, s.mean.location, s.draws),
        is_tangent(s.moved, r),
        exact(s.mean) ==> forall|k: int|
            0 <= k < s.mean.keys.len() && finite_at(s.mean, k) && finite_at(s.std, k) && finite_at(
                s.draws,
                k,
            ) ==> is_draw(
                s.mean.element,
                s.mean.keys[k],
                s.std.keys[k],
                s.draws.keys[k],
                #[trigger] s.moved.keys[k],
            ),
{
    let (mean, log_std, draws, std, shift, sum) = choose|
        mean: TensorValue,
        log_std: TensorValue,
        draws: TensorValue,
        std: TensorValue,
        shift: TensorValue,
        sum: TensorValue,
    |
        #[trigger] model.policy(z, mean, log_std) && #[trigger] placed(
            noise,
            mean.element,
            mean.location,
            draws,
        ) && #[trigger] is_exponential(log_std, std) && #[trigger] product_of(std, draws, shift)
            && #[trigger] sum_of(mean, shift, sum) && is_tangent(sum, r)
            && vanishes(std, draws, shift)
            && keeps(mean, shift, sum);
    if exact(mean) {
        let e = mean.element;
        assert forall|k: int|
            0 <= k < mean.keys.len() && finite_at(mean, k) && finite_at(std, k) && finite_at(
                draws,
                k,
            ) implies is_draw(e, mean.keys[k], std.keys[k], draws.keys[k], #[trigger] sum.keys[k]) by {
            lemma_product_at(std, draws, shift, k);
            let (u, v) = (units(e, std.keys[k]), units(e, draws.keys[k]));
            assert(u * v == v * u) by (nonlinear_arith);
            if finite_at(shift, k) {
                lemma_sum_at(mean, shift, sum, k);
            } else {
                reveal(sum_rounds);
                assert(swallows(e, mean.keys[k], shift.keys[k], sum.keys[k]));
            }
            assert(rounds_to(
                e,
                units(e, draws.keys[k]) * units(e, std.keys[k]),
                scale(e),
                shift.keys[k],
            ));
        }
    }
    Sampled { mean, log_std, std, draws, moved: sum }
}

/// Sampled trajectories are averaged: each action is the sum over the trajectories
/// divided by their number.
pub proof fn trajectories_are_averaged(
    model: TdMpc2,
    z: TensorValue,
    noise: TensorValue,
    r: TensorValue,
) -> (p: (TensorValue, TensorValue))
    requires
        model.mean_of_draws(z, noise, r),
        exact(r),
    ensures
        r.dims == p.0.dims.remove(0),
        1 <= p.0.dims[0] <= 0x20_0000_0000_0000 ==> total_of(p.0, 0, p.1) && forall|k: int|
            0 <= k < r.keys.len() && finite_at(p.1, k) ==> shared(
                r.element,
                p.1.keys[k],
                p.0.dims[0] as int,
                #[trigger] r.keys[k],
            ),
        exists|draws: TensorValue, t: SampledRollout| #[trigger]
            placed(noise, z.element, z.location, draws) && #[trigger] model.follows_draws(z, draws, t)
                && stacked(
                all_shaped(t.actions, seq![noise.dims[0], noise.dims[1], noise.dims[3]]),
                2,
                p.0,
            ),
{
    let (draws, t, all) = choose|draws: TensorValue, t: SampledRollout, all: TensorValue|
        #[trigger] placed(noise, z.element, z.location, draws) && #[trigger] model.follows_draws(
            z,
            draws,
            t,
        ) && stacked(
            all_shaped(t.actions, seq![noise.dims[0], noise.dims[1], noise.dims[3]]),
            2,
            all,
        ) && #[trigger] average_of(all, 0, r);
    reveal(average_rounds);
    let total = choose|total: TensorValue| #[trigger]
        total_of(all, 0, total) && forall|k: int|
            0 <= k < r.keys.len() && finite_at(total, k) ==> shared(
                r.element,
                total.keys[k],
                all.dims[0] as int,
                #[trigger] r.keys[k],
            );
    (all, total)
}

} // verus!
