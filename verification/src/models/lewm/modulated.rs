//! What conditions do to frames inside a block.

use vstd::prelude::*;

use crate::models::lewm::block::{
    is_modulated, is_plain_norm, is_row_mean, is_standardised, BLOCK_EPSILON, ONE,
};
use crate::models::lewm::predictor::{is_sixth, ConditionalBlock, Predictor};
use crate::rounding::{
    exact_type, finite, lemma_exact, lemma_one, lemma_rounding_keeps_sign, lemma_scale, lemma_units,
    one, roots_to, rounds_to, scale, units,
};
use crate::scalar::F64;
use crate::tensor::arithmetic::{
    affine_of, affine_rounds, by_way_of, converted, difference_of, exact, finite_at, multiplied,
    nearest_at, product_of, quotient_of, quotient_rounds, root_of, root_rounds, square_of, sum_of,
    units_at,
};
use crate::tensor::facts::{lemma_counts, lemma_spread_first};
use crate::tensor::layout::narrowed;
use crate::tensor::make::double;
use crate::tensor::scaled::{
    differ_by, is_squared_gap, lemma_difference_at, lemma_product_at, lemma_squared_gap_at,
    lemma_sum_at,
};
use crate::tensor::value::{count, spread, spread_position, value, ElementType, TensorValue};

verus! {

/// Whether `r` is a number times one more than a scale, plus a shift.
pub open spec fn shifted_and_scaled(
    e: ElementType,
    x: int,
    stretch: int,
    shift: int,
    factor: int,
    product: int,
    r: int,
) -> bool {
    &&& rounds_to(e, units(e, stretch) + scale(e), 1, factor)
    &&& finite(e, factor) ==> rounds_to(e, units(e, x) * units(e, factor), scale(e), product)
    &&& finite(e, factor) && finite(e, product) ==> rounds_to(
        e,
        units(e, product) + units(e, shift),
        1,
        r,
    )
}

proof fn lemma_one_more(e: ElementType, x: int, r: int)
    requires
        exact_type(e),
        finite(e, x),
        multiplied(e, x, one(ElementType::F64), one(ElementType::F64), r),
    ensures
        rounds_to(e, units(e, x) + scale(e), 1, r),
{
    let d = ElementType::F64;
    lemma_one(d);
    lemma_one(e);
    lemma_scale(e);
    lemma_scale(d);
    let (f, t, p) = choose|f: int, t: int, p: int|
        converted(d, one(d), e, f) && converted(d, one(d), e, t) && #[trigger] by_way_of(
            e,
            x,
            f,
            t,
            p,
            r,
        );
    let (a, b) = (scale(e), scale(d));
    assert(b * a == a * b) by (nonlinear_arith);
    lemma_exact(e, one(e), b, f);
    lemma_exact(e, one(e), b, t);
    lemma_exact(e, x, a, p);
}

/// Modulation multiplies each number by one more than its scale and adds its shift.
/// Where both are zero the number stays.
pub proof fn modulation_scales_and_shifts(
    x: TensorValue,
    shift: TensorValue,
    stretch: TensorValue,
    r: TensorValue,
) -> (p: (TensorValue, TensorValue))
    requires
        is_modulated(x, shift, stretch, r),
        exact(x),
    ensures
        forall|k: int|
            0 <= k < x.keys.len() && finite_at(x, k) && finite_at(shift, k) && finite_at(stretch, k)
                ==> shifted_and_scaled(
                x.element,
                x.keys[k],
                stretch.keys[k],
                shift.keys[k],
                p.0.keys[k],
                p.1.keys[k],
                #[trigger] r.keys[k],
            ) && (shift.keys[k] == 0 && stretch.keys[k] == 0 ==> r.keys[k] == x.keys[k]),
{
    let up = double(F64 { bits: ONE });
    let (factor, product) = choose|factor: TensorValue, scaled: TensorValue|
        #[trigger] affine_of(stretch, up, up, factor) && #[trigger] product_of(x, factor, scaled)
            && sum_of(scaled, shift, r);
    let e = x.element;
    assert forall|k: int|
        0 <= k < x.keys.len() && finite_at(x, k) && finite_at(shift, k) && finite_at(
            stretch,
            k,
        ) implies shifted_and_scaled(
        e,
        x.keys[k],
        stretch.keys[k],
        shift.keys[k],
        factor.keys[k],
        product.keys[k],
        #[trigger] r.keys[k],
    ) && (shift.keys[k] == 0 && stretch.keys[k] == 0 ==> r.keys[k] == x.keys[k]) by {
        assert(up.keys[0] == one(ElementType::F64) && finite_at(up, 0));
        assert(stretch.element == e && exact(stretch));
        assert(multiplied(e, stretch.keys[k], up.keys[0], up.keys[0], factor.keys[k])) by {
            reveal(affine_rounds);
        }
        lemma_one_more(e, stretch.keys[k], factor.keys[k]);
        if finite_at(factor, k) {
            lemma_product_at(x, factor, product, k);
            if finite_at(product, k) {
                lemma_sum_at(product, shift, r, k);
            }
        }
        if shift.keys[k] == 0 && stretch.keys[k] == 0 {
            lemma_one(e);
            lemma_scale(e);
            lemma_units(e, 0, 0);
            assert(units(e, 0) + scale(e) == units(e, one(e)) * 1);
            lemma_exact(e, one(e), 1, factor.keys[k]);
            lemma_exact(e, x.keys[k], scale(e), product.keys[k]);
            assert(units(e, x.keys[k]) + 0 == units(e, x.keys[k]) * 1);
            lemma_exact(e, x.keys[k], 1, r.keys[k]);
        }
    }
    (factor, product)
}

/// Whether `r` is a number plus a gate times what is let through.
pub open spec fn gated(e: ElementType, x: int, gate: int, a: int, p: int, r: int) -> bool {
    &&& rounds_to(e, units(e, gate) * units(e, a), scale(e), p)
    &&& finite(e, p) ==> rounds_to(e, units(e, x) + units(e, p), 1, r)
    &&& gate == 0 ==> r == x
}

/// Whether a gate lets a part through to join what it started from.
pub open spec fn joins_through(
    x: TensorValue,
    gate: TensorValue,
    a: TensorValue,
    p: TensorValue,
    r: TensorValue,
) -> bool {
    forall|k: int|
        0 <= k < x.keys.len() && finite_at(x, k) && finite_at(gate, k) && finite_at(a, k) ==> gated(
            x.element,
            x.keys[k],
            gate.keys[k],
            a.keys[k],
            p.keys[k],
            #[trigger] r.keys[k],
        )
}

proof fn lemma_joined(
    x: TensorValue,
    gate: TensorValue,
    a: TensorValue,
    p: TensorValue,
    r: TensorValue,
)
    requires
        product_of(gate, a, p),
        sum_of(x, p, r),
        exact(x),
    ensures
        joins_through(x, gate, a, p, r),
{
    let e = x.element;
    assert forall|k: int|
        0 <= k < x.keys.len() && finite_at(x, k) && finite_at(gate, k) && finite_at(
            a,
            k,
        ) implies gated(
        e,
        x.keys[k],
        gate.keys[k],
        a.keys[k],
        p.keys[k],
        #[trigger] r.keys[k],
    ) by {
        assert(gate.element == e && exact(gate));
        lemma_product_at(gate, a, p, k);
        if finite_at(p, k) {
            lemma_sum_at(x, p, r, k);
        }
        if gate.keys[k] == 0 {
            lemma_scale(e);
            lemma_units(e, 0, 0);
            vstd::arithmetic::mul::lemma_mul_basics(units(e, a.keys[k]));
            lemma_rounding_keeps_sign(e, 0, scale(e), p.keys[k]);
            assert(finite(e, 0));
            assert(units(e, x.keys[k]) + units(e, p.keys[k]) == units(e, x.keys[k]) * 1);
            lemma_exact(e, x.keys[k], 1, r.keys[k]);
        }
    }
}

/// A block adds what it attends to through a gate, the third sixth of the condition:
/// with a gate of zero the frames stay as they are.
pub proof fn attention_joins_through_its_gate(
    block: ConditionalBlock,
    dim: usize,
    mods: TensorValue,
    x: TensorValue,
    r: TensorValue,
) -> (p: (TensorValue, TensorValue, TensorValue, TensorValue))
    requires
        block.attends(dim, mods, x, r),
        exact(x),
    ensures
        is_sixth(mods, dim, 2, p.0),
        block.attn.of(p.1, p.2),
        joins_through(x, p.0, p.2, p.3, r),
{
    reveal(ConditionalBlock::attends);
    let (shift, stretch, gate, n, m, a, g) = choose|
        shift: TensorValue,
        scale: TensorValue,
        gate: TensorValue,
        n: TensorValue,
        m: TensorValue,
        a: TensorValue,
        g: TensorValue,
    |
        #[trigger] is_sixth(mods, dim, 0, shift) && #[trigger] is_sixth(mods, dim, 1, scale)
            && #[trigger] is_sixth(mods, dim, 2, gate) && #[trigger] is_plain_norm(
            BLOCK_EPSILON,
            x,
            n,
        ) && #[trigger] is_modulated(n, shift, scale, m) && #[trigger] block.attn.of(m, a)
            && #[trigger] product_of(gate, a, g) && sum_of(x, g, r);
    lemma_joined(x, gate, a, g, r);
    (gate, m, a, g)
}

/// A block adds what it feeds forward through a gate, the last sixth of the condition:
/// with a gate of zero the frames stay as they are.
pub proof fn feeding_joins_through_its_gate(
    block: ConditionalBlock,
    dim: usize,
    mods: TensorValue,
    x: TensorValue,
    r: TensorValue,
) -> (p: (TensorValue, TensorValue, TensorValue, TensorValue))
    requires
        block.feeds(dim, mods, x, r),
        exact(x),
    ensures
        is_sixth(mods, dim, 5, p.0),
        block.mlp.of(p.1, p.2),
        joins_through(x, p.0, p.2, p.3, r),
{
    reveal(ConditionalBlock::feeds);
    let (shift, stretch, gate, n, m, a, g) = choose|
        shift: TensorValue,
        scale: TensorValue,
        gate: TensorValue,
        n: TensorValue,
        m: TensorValue,
        a: TensorValue,
        g: TensorValue,
    |
        #[trigger] is_sixth(mods, dim, 3, shift) && #[trigger] is_sixth(mods, dim, 4, scale)
            && #[trigger] is_sixth(mods, dim, 5, gate) && #[trigger] is_plain_norm(
            BLOCK_EPSILON,
            x,
            n,
        ) && #[trigger] is_modulated(n, shift, scale, m) && #[trigger] block.mlp.of(m, a)
            && #[trigger] product_of(gate, a, g) && sum_of(x, g, r);
    lemma_joined(x, gate, a, g, r);
    (gate, m, a, g)
}

/// What a row was standardised with: its mean, its mean squared distance from it, that
/// raised a little, and the root of it.
pub struct Standard {
    pub mean: TensorValue,
    pub squares: TensorValue,
    pub variance: TensorValue,
    pub raised: TensorValue,
    pub deviation: TensorValue,
}

/// A column spread over rows repeats each of its entries.
proof fn lemma_column_spread(b: usize, t: usize, d: usize, p: int, q: int, j: int)
    requires
        0 <= p < b,
        0 <= q < t,
        0 <= j < d,
    ensures
        spread_position(seq![b, t, 1usize], seq![b, t, d], (p * t + q) * d + j) == p * t + q,
        0 <= (p * t + q) * d + j < count(seq![b, t, d]),
        0 <= p * t + q < count(seq![b, t, 1usize]),
{
    let (src, dst) = (seq![b, t, 1usize], seq![b, t, d]);
    lemma_counts(b, t, d, d);
    lemma_counts(b, t, 1, d);
    lemma_counts(t, d, d, d);
    lemma_counts(t, 1, d, d);
    lemma_counts(d, d, d, d);
    lemma_counts(1, d, d, d);
    assert(src.skip(1) =~= seq![t, 1usize]);
    assert(dst.skip(1) =~= seq![t, d]);
    assert(src.skip(1).skip(1) =~= seq![1usize]);
    assert(dst.skip(1).skip(1) =~= seq![d]);
    assert(src.skip(1).skip(1).skip(1) =~= Seq::<usize>::empty());
    assert(dst.skip(1).skip(1).skip(1) =~= Seq::<usize>::empty());
    let (bi, ti, di) = (b as int, t as int, d as int);
    let k = (p * ti + q) * di + j;
    let k1 = q * di + j;
    assert(k == (ti * di) * p + k1 && 0 <= k1 < ti * di && 0 <= k < bi * (ti * di) && 0 <= p * ti + q
        < bi * ti) by (nonlinear_arith)
        requires
            k == (p * ti + q) * di + j,
            k1 == q * di + j,
            0 <= p < bi,
            0 <= q < ti,
            0 <= j < di,
    ;
    vstd::arithmetic::div_mod::lemma_fundamental_div_mod_converse(k, ti * di, p, k1);
    assert(k1 == di * q + j) by (nonlinear_arith)
        requires
            k1 == q * di + j,
    ;
    vstd::arithmetic::div_mod::lemma_fundamental_div_mod_converse(k1, di, q, j);
    reveal_with_fuel(spread_position, 4);
    vstd::arithmetic::div_mod::lemma_div_basics(j);
    vstd::arithmetic::mul::lemma_mul_basics(ti);
    let place = if d == 1 {
        j / 1
    } else {
        0
    };
    assert(place == 0);
    assert(spread_position(seq![1usize], seq![d], j) == 0);
    assert(spread_position(seq![t, 1usize], seq![t, d], k1) == q * 1 + 0);
}

/// Whether `r` is how far a number lies above a mean, over a deviation.
pub open spec fn standardised(e: ElementType, x: int, mean: int, deviation: int, r: int) -> bool {
    exists|c: int| #[trigger]
        differ_by(e, x, mean, c) && (finite(e, c) && finite(e, deviation) && deviation > 0
            ==> rounds_to(e, units(e, c) * scale(e), units(e, deviation), r))
}

/// Standardising divides how far each number of a row lies above the mean of the row by
/// the root of the mean squared distance, raised a little.
pub proof fn rows_are_standardised(epsilon: u64, x: TensorValue, r: TensorValue) -> (s: Standard)
    requires
        is_standardised(epsilon, x, r),
        exact(x),
        x.dims.len() == 3,
        x.keys.len() == count(x.dims),
    ensures
        is_row_mean(x, s.mean),
        is_row_mean(s.squares, s.variance),
        affine_of(
            s.variance,
            double(F64 { bits: ONE }),
            double(F64 { bits: epsilon }),
            s.raised,
        ),
        forall|p: int, q: int, j: int|
            #![trigger r.keys[(p * x.dims[1] + q) * x.dims[2] + j]]
            0 <= p < x.dims[0] && 0 <= q < x.dims[1] && 0 <= j < x.dims[2] ==> {
                let (o, k) = (p * x.dims[1] + q, (p * x.dims[1] + q) * x.dims[2] + j);
                &&& finite_at(x, k) && finite_at(s.mean, o) ==> standardised(
                    x.element,
                    x.keys[k],
                    s.mean.keys[o],
                    s.deviation.keys[o],
                    r.keys[k],
                ) && is_squared_gap(x.element, x.keys[k], s.mean.keys[o], s.squares.keys[k])
            },
        forall|o: int|
            0 <= o < s.raised.keys.len() && finite_at(s.raised, o) && s.raised.keys[o] >= 0 && exact(
                s.raised,
            ) ==> roots_to(
                s.raised.element,
                units_at(s.raised, o) * scale(s.raised.element),
                #[trigger] s.deviation.keys[o],
            ),
{
    let (mean, centred, squares, var, raised, std) = choose|
        mean: TensorValue,
        centred: TensorValue,
        squares: TensorValue,
        var: TensorValue,
        raised: TensorValue,
        std: TensorValue,
    |
        #[trigger] is_row_mean(x, mean) && #[trigger] difference_of(
            x,
            spread(mean, x.dims),
            centred,
        ) && #[trigger] square_of(centred, squares) && #[trigger] is_row_mean(squares, var)
            && #[trigger] affine_of(
            var,
            double(F64 { bits: ONE }),
            double(F64 { bits: epsilon }),
            raised,
        ) && #[trigger] root_of(raised, std) && quotient_of(centred, spread(std, x.dims), r);
    let s = Standard { mean, squares, variance: var, raised, deviation: std };
    let (b, t, d) = (x.dims[0], x.dims[1], x.dims[2]);
    let e = x.element;
    assert(x.dims =~= seq![b, t, d]);
    assert(mean.dims == seq![b, t, 1usize]);
    assert(std.dims == seq![b, t, 1usize]);
    let (wide_mean, wide_std) = (spread(mean, x.dims), spread(std, x.dims));
    assert forall|p: int, q: int, j: int|
        #![trigger r.keys[(p * x.dims[1] + q) * x.dims[2] + j]]
        0 <= p < b && 0 <= q < t && 0 <= j < d implies {
        let (o, k) = (p * x.dims[1] + q, (p * x.dims[1] + q) * x.dims[2] + j);
        &&& finite_at(x, k) && finite_at(mean, o) ==> standardised(
            e,
            x.keys[k],
            mean.keys[o],
            std.keys[o],
            r.keys[k],
        ) && is_squared_gap(e, x.keys[k], mean.keys[o], squares.keys[k])
    } by {
        let o = p * t + q;
        let k = o * d + j;
        lemma_column_spread(b, t, d, p, q, j);
        assert(wide_mean.keys[k] == mean.keys[o]);
        assert(wide_std.keys[k] == std.keys[o]);
        if finite_at(x, k) && finite_at(mean, o) {
            assert(finite_at(wide_mean, k));
            lemma_difference_at(x, wide_mean, centred, k);
            lemma_squared_gap_at(x, wide_mean, centred, squares, k);
            let c = centred.keys[k];
            if finite(e, c) && finite(e, std.keys[o]) && std.keys[o] > 0 {
                reveal(quotient_rounds);
                assert(finite_at(centred, k) && finite_at(wide_std, k));
                assert(nearest_at(r, k, units_at(centred, k) * scale(e), units_at(wide_std, k)));
            }
            assert(differ_by(e, x.keys[k], mean.keys[o], c));
        }
    }
    reveal(root_rounds);
    s
}

/// The embedding of a place in the history joins each frame at that place, in every
/// entry of the batch, before the predictor attends to it.
pub proof fn places_join_their_frames(
    predictor: Predictor,
    x: TensorValue,
    cond: TensorValue,
    r: TensorValue,
) -> (p: (TensorValue, TensorValue))
    requires
        predictor.of(x, cond, r),
        exact(x),
        x.dims.len() == 3,
        x.keys.len() == count(x.dims),
        value(predictor.pos_embedding).dims.len() == 3,
        value(predictor.pos_embedding).dims[0] == 1,
        value(predictor.pos_embedding).dims[2] == x.dims[2],
    ensures
        narrowed(value(predictor.pos_embedding), 1, 0, x.dims[1] as int, p.0),
        predictor.transformer.of(predictor.cfg.hidden_dim, p.1, cond, r),
        forall|o: int, k: int|
            #![trigger p.1.keys[o * (x.dims[1] * x.dims[2]) + k]]
            0 <= o < x.dims[0] && 0 <= k < x.dims[1] * x.dims[2] && finite_at(
                x,
                o * (x.dims[1] * x.dims[2]) + k,
            ) && finite(x.element, p.0.keys[k]) ==> rounds_to(
                x.element,
                units_at(x, o * (x.dims[1] * x.dims[2]) + k) + units(x.element, p.0.keys[k]),
                1,
                p.1.keys[o * (x.dims[1] * x.dims[2]) + k],
            ),
{
    let (places, placed) = choose|places: TensorValue, placed: TensorValue|
        #[trigger] narrowed(value(predictor.pos_embedding), 1, 0, x.dims[1] as int, places)
            && #[trigger] sum_of(x, spread(places, x.dims), placed) && predictor.transformer.of(
            predictor.cfg.hidden_dim,
            placed,
            cond,
            r,
        );
    let (b, t, d) = (x.dims[0], x.dims[1], x.dims[2]);
    let rest = seq![t, d];
    assert(x.dims =~= seq![b] + rest);
    assert(places.dims =~= seq![1usize] + rest);
    lemma_counts(t, d, d, d);
    lemma_counts(b, t, d, d);
    let wide = spread(places, x.dims);
    assert forall|o: int, k: int|
        #![trigger placed.keys[o * (x.dims[1] * x.dims[2]) + k]]
        0 <= o < b && 0 <= k < x.dims[1] * x.dims[2] && finite_at(
            x,
            o * (x.dims[1] * x.dims[2]) + k,
        ) && finite(x.element, places.keys[k]) implies rounds_to(
        x.element,
        units_at(x, o * (x.dims[1] * x.dims[2]) + k) + units(x.element, places.keys[k]),
        1,
        placed.keys[o * (x.dims[1] * x.dims[2]) + k],
    ) by {
        lemma_spread_first(b, rest, o, k);
        let p = o * (x.dims[1] * x.dims[2]) + k;
        assert(wide.keys[p] == places.keys[k]);
        assert(finite_at(wide, p));
        lemma_sum_at(x, wide, placed, p);
    }
    (places, placed)
}

} // verus!
