//! How the weights count the terms of a training loss.

use vstd::prelude::*;

use crate::models::lewm::model::LeWm;
use crate::models::lewm::training::{
    accumulates, is_weighted, is_weighted_sum, LeWmBatchLoss, LeWmLossWeights,
};
use crate::rounding::{
    finite, lemma_exact, lemma_keeps_its_side, lemma_units, number, rounds_to, units,
};
use crate::scalar::F64;
use crate::tensor::arithmetic::{
    affine_of, exact, finite_at, nearest_at, sum_of, sum_rounds, swallows, units_at,
};
use crate::tensor::make::double;
use crate::tensor::scaled::{
    fits, lemma_adding_grows, lemma_products_grow, lemma_scaled_at, lemma_scaling_keeps_sign,
    scaled,
};
use crate::tensor::value::{is_double, value, ElementType, Location, TensorValue};

verus! {

/// Whether a term of a loss is one finite single-precision number on the processor.
pub open spec fn is_term(v: TensorValue) -> bool {
    &&& exact(v)
    &&& v.element is F32
    &&& v.keys.len() == 1
    &&& finite(ElementType::F32, v.keys[0])
}

/// Whether every term of a loss is one finite number.
pub open spec fn finite_terms(r: LeWmBatchLoss) -> bool {
    forall|k: int| 0 <= k < 7 ==> is_term(#[trigger] r.terms()[k])
}

/// Whether a number is a term times a weight.
pub open spec fn counts(term: TensorValue, weight: F64, r: TensorValue) -> bool {
    scaled(ElementType::F32, term.keys[0], weight.key(), r.keys[0])
}

/// Whether `r` is the sum of two numbers.
pub open spec fn added(a: int, b: int, r: int) -> bool {
    if finite(ElementType::F32, a) && finite(ElementType::F32, b) {
        rounds_to(ElementType::F32, units(ElementType::F32, a) + units(ElementType::F32, b), 1, r)
    } else {
        swallows(ElementType::F32, a, b, r)
    }
}

/// Weights that leave every term out.
pub open spec fn no_weights() -> LeWmLossWeights {
    let zero = F64 { bits: 0 };
    LeWmLossWeights {
        prediction: zero,
        temporal_alignment: zero,
        std: zero,
        std_t: zero,
        covariance: zero,
        covariance_t: zero,
        temporal_straightening: zero,
    }
}

/// Whether a partial sum is one number.
pub open spec fn is_partial(v: TensorValue) -> bool {
    &&& exact(v)
    &&& v.element is F32
    &&& v.keys.len() == 1
}

/// One term more.
proof fn lemma_step(before: TensorValue, term: TensorValue, weight: F64, after: TensorValue) -> (p:
    int)
    requires
        is_weighted(before, term, weight, after),
        is_partial(before),
        is_term(term),
        weight.key() != 0 ==> fits(ElementType::F32, weight.key()),
    ensures
        is_partial(after),
        weight.key() == 0 ==> after == before,
        weight.key() != 0 ==> scaled(ElementType::F32, term.keys[0], weight.key(), p) && added(
            before.keys[0],
            p,
            after.keys[0],
        ),
{
    if weight.key() == 0 {
        0
    } else {
        let part = choose|part: TensorValue|
            #[trigger] affine_of(term, double(weight), double(F64 { bits: 0 }), part) && sum_of(
                before,
                part,
                after,
            );
        assert(is_double(double(weight)));
        assert(double(weight).keys[0] == weight.key());
        assert(finite_at(term, 0));
        lemma_scaled_at(term, double(weight), part, 0);
        reveal(sum_rounds);
        let p = part.keys[0];
        assert(swallows(before.element, before.keys[0], part.keys[0], after.keys[0]));
        if finite_at(before, 0) && finite_at(part, 0) {
            assert(nearest_at(after, 0, units_at(before, 0) + units_at(part, 0), 1));
        }
        p
    }
}

/// Where no weight counts, nothing is added.
proof fn lemma_idle(
    terms: Seq<TensorValue>,
    weights: Seq<F64>,
    sums: Seq<TensorValue>,
    from: int,
    to: int,
)
    requires
        0 <= from <= to <= terms.len(),
        sums.len() == terms.len() + 1,
        forall|k: int|
            0 <= k < terms.len() ==> is_weighted(
                #[trigger] sums[k],
                terms[k],
                weights[k],
                sums[k + 1],
            ),
        forall|k: int| from <= k < to ==> (#[trigger] weights[k]).key() == 0,
    ensures
        sums[to] == sums[from],
    decreases to - from,
{
    if from < to {
        lemma_idle(terms, weights, sums, from, to - 1);
        let k = to - 1;
        assert(is_weighted(sums[k], terms[k], weights[k], sums[k + 1]));
        assert(weights[k].key() == 0);
    }
}

proof fn lemma_nothing_plus(p: int, r: int)
    requires
        number(ElementType::F32, p),
        added(0, p, r),
    ensures
        r == p,
{
    let e = ElementType::F32;
    lemma_units(e, 0, p);
    if finite(e, p) {
        assert(units(e, 0) + units(e, p) == units(e, p) * 1);
        lemma_exact(e, p, 1, r);
    }
}

proof fn lemma_lone_term(
    terms: Seq<TensorValue>,
    weights: Seq<F64>,
    location: Location,
    total: TensorValue,
    i: int,
)
    requires
        is_weighted_sum(terms, weights, location, total),
        location is Cpu,
        0 <= i < terms.len(),
        is_term(terms[i]),
        fits(ElementType::F32, weights[i].key()),
        forall|k: int| 0 <= k < terms.len() && k != i ==> (#[trigger] weights[k]).key() == 0,
    ensures
        weights[i].key() != 0 ==> counts(terms[i], weights[i], total),
        weights[i].key() == 0 ==> total.keys[0] == 0,
{
    let sums = choose|sums: Seq<TensorValue>|
        #[trigger] accumulates(terms, weights, location, sums) && total == sums.last();
    lemma_idle(terms, weights, sums, 0, i);
    lemma_idle(terms, weights, sums, i + 1, terms.len() as int);
    assert(is_weighted(sums[i], terms[i], weights[i], sums[i + 1]));
    let p = lemma_step(sums[i], terms[i], weights[i], sums[i + 1]);
    if weights[i].key() != 0 {
        lemma_nothing_plus(p, sums[i + 1].keys[0]);
    }
}

/// Where one weight alone is not zero, the loss of a batch is that weight times its
/// term.
pub proof fn a_lone_weight_scales_its_term(
    model: LeWm,
    pixels: TensorValue,
    actions: TensorValue,
    weights: LeWmLossWeights,
    w: F64,
    r: LeWmBatchLoss,
)
    requires
        model.loses(pixels, actions, weights, r),
        finite_terms(r),
        w.key() != 0,
        fits(ElementType::F32, w.key()),
    ensures
        weights == (LeWmLossWeights { prediction: w, ..no_weights() }) ==> counts(
            value(r.prediction_loss),
            w,
            value(r.total_loss),
        ),
        weights == (LeWmLossWeights { temporal_alignment: w, ..no_weights() }) ==> counts(
            value(r.temporal_alignment_loss),
            w,
            value(r.total_loss),
        ),
        weights == (LeWmLossWeights { std: w, ..no_weights() }) ==> counts(
            value(r.std_loss),
            w,
            value(r.total_loss),
        ),
        weights == (LeWmLossWeights { std_t: w, ..no_weights() }) ==> counts(
            value(r.std_t_loss),
            w,
            value(r.total_loss),
        ),
        weights == (LeWmLossWeights { covariance: w, ..no_weights() }) ==> counts(
            value(r.covariance_loss),
            w,
            value(r.total_loss),
        ),
        weights == (LeWmLossWeights { covariance_t: w, ..no_weights() }) ==> counts(
            value(r.covariance_t_loss),
            w,
            value(r.total_loss),
        ),
        weights == (LeWmLossWeights { temporal_straightening: w, ..no_weights() }) ==> counts(
            value(r.temporal_straightening_loss),
            w,
            value(r.total_loss),
        ),
{
    let (terms, listed) = (r.terms(), weights.listed());
    assert forall|i: int|
        0 <= i < 7 && #[trigger] listed[i] == w && (forall|k: int|
            0 <= k < 7 && k != i ==> (#[trigger] listed[k]).key() == 0) implies counts(
        terms[i],
        w,
        value(r.total_loss),
    ) by {
        assert(is_term(terms[0]) && is_term(terms[i]));
        lemma_lone_term(
            terms,
            listed,
            value(r.prediction_loss).location,
            value(r.total_loss),
            i,
        );
    }
    assert(listed[0] == listed[0] && listed[1] == listed[1]);
    assert(listed[0] == weights.prediction);
    assert(listed[1] == weights.temporal_alignment);
    assert(listed[2] == weights.std);
    assert(listed[3] == weights.std_t);
    assert(listed[4] == weights.covariance);
    assert(listed[5] == weights.covariance_t);
    assert(listed[6] == weights.temporal_straightening);
}

/// Whether a number is the sum of two terms times their weights.
pub open spec fn counts_both(
    first: TensorValue,
    weight: F64,
    second: TensorValue,
    other: F64,
    r: TensorValue,
) -> bool {
    exists|p: int, q: int|
        #[trigger] scaled(ElementType::F32, first.keys[0], weight.key(), p) && #[trigger] scaled(
            ElementType::F32,
            second.keys[0],
            other.key(),
            q,
        ) && added(p, q, r.keys[0])
}

/// Where two weights are not zero, the loss of a batch is the sum of both terms, each
/// times its weight.
pub proof fn two_weights_add_two_terms(
    model: LeWm,
    pixels: TensorValue,
    actions: TensorValue,
    weights: LeWmLossWeights,
    r: LeWmBatchLoss,
    i: int,
    j: int,
)
    requires
        model.loses(pixels, actions, weights, r),
        finite_terms(r),
        0 <= i < j < 7,
        weights.listed()[i].key() != 0,
        weights.listed()[j].key() != 0,
        fits(ElementType::F32, weights.listed()[i].key()),
        fits(ElementType::F32, weights.listed()[j].key()),
        forall|k: int|
            0 <= k < 7 && k != i && k != j ==> (#[trigger] weights.listed()[k]).key() == 0,
    ensures
        counts_both(
            r.terms()[i],
            weights.listed()[i],
            r.terms()[j],
            weights.listed()[j],
            value(r.total_loss),
        ),
{
    let (terms, listed) = (r.terms(), weights.listed());
    assert(is_term(terms[0]) && is_term(terms[i]) && is_term(terms[j]));
    let location = value(r.prediction_loss).location;
    let sums = choose|sums: Seq<TensorValue>|
        #[trigger] accumulates(terms, listed, location, sums) && value(r.total_loss)
            == sums.last();
    lemma_idle(terms, listed, sums, 0, i);
    lemma_idle(terms, listed, sums, i + 1, j);
    lemma_idle(terms, listed, sums, j + 1, 7);
    assert(is_weighted(sums[i], terms[i], listed[i], sums[i + 1]));
    assert(is_weighted(sums[j], terms[j], listed[j], sums[j + 1]));
    let p = lemma_step(sums[i], terms[i], listed[i], sums[i + 1]);
    lemma_nothing_plus(p, sums[i + 1].keys[0]);
    let q = lemma_step(sums[j], terms[j], listed[j], sums[j + 1]);
}

/// A sum of numbers that are not negative is no less than either of them, and grows
/// with them.
proof fn lemma_added(a1: int, b1: int, r1: int, a2: int, b2: int, r2: int)
    requires
        number(ElementType::F32, a2),
        number(ElementType::F32, b2),
        0 <= a1 <= a2,
        0 <= b1 <= b2,
        added(a1, b1, r1),
        added(a2, b2, r2),
    ensures
        0 <= r1 <= r2,
        a2 <= r2,
        b2 <= r2,
        number(ElementType::F32, r2),
{
    let e = ElementType::F32;
    lemma_units(e, a1, 0);
    lemma_units(e, b1, 0);
    lemma_units(e, a2, 0);
    lemma_units(e, b2, 0);
    if finite(e, a1) && finite(e, b1) {
        let n = units(e, a1) + units(e, b1);
        lemma_keeps_its_side(e, n, 1, r1, 0);
    }
    if finite(e, a2) && finite(e, b2) {
        let n = units(e, a2) + units(e, b2);
        lemma_keeps_its_side(e, n, 1, r2, a2);
        lemma_keeps_its_side(e, n, 1, r2, b2);
        lemma_adding_grows(e, a1, b1, r1, a2, b2, r2);
    }
}

/// Whether weights and terms are no larger than others, and none is negative.
pub open spec fn no_larger(
    weights: LeWmLossWeights,
    r: LeWmBatchLoss,
    others: LeWmLossWeights,
    s: LeWmBatchLoss,
) -> bool {
    &&& forall|k: int|
        0 <= k < 7 ==> 0 <= (#[trigger] weights.listed()[k]).key() <= others.listed()[k].key()
    &&& forall|k: int|
        0 <= k < 7 ==> 0 <= (#[trigger] r.terms()[k]).keys[0] <= s.terms()[k].keys[0]
}

/// Whether every weight that is not zero stays finite in single precision.
pub open spec fn all_fit(weights: LeWmLossWeights) -> bool {
    forall|k: int| 0 <= k < 7 ==> fits(ElementType::F32, (#[trigger] weights.listed()[k]).key())
}

proof fn lemma_sums_grow(
    weights: LeWmLossWeights,
    r: LeWmBatchLoss,
    others: LeWmLossWeights,
    s: LeWmBatchLoss,
    a: Seq<TensorValue>,
    b: Seq<TensorValue>,
    k: int,
)
    requires
        accumulates(r.terms(), weights.listed(), value(r.prediction_loss).location, a),
        accumulates(s.terms(), others.listed(), value(s.prediction_loss).location, b),
        finite_terms(r),
        finite_terms(s),
        all_fit(weights),
        all_fit(others),
        no_larger(weights, r, others, s),
        0 <= k <= 7,
    ensures
        is_partial(a[k]),
        is_partial(b[k]),
        0 <= a[k].keys[0] <= b[k].keys[0],
        number(ElementType::F32, b[k].keys[0]),
    decreases k,
{
    let e = ElementType::F32;
    assert(is_term(r.terms()[0]) && is_term(s.terms()[0]));
    if k > 0 {
        let j = k - 1;
        lemma_sums_grow(weights, r, others, s, a, b, j);
        let (t, u) = (r.terms()[j], s.terms()[j]);
        let (v, w) = (weights.listed()[j], others.listed()[j]);
        assert(is_term(t) && is_term(u));
        assert(is_weighted(a[j], t, v, a[j + 1]));
        assert(is_weighted(b[j], u, w, b[j + 1]));
        let p = lemma_step(a[j], t, v, a[j + 1]);
        let q = lemma_step(b[j], u, w, b[j + 1]);
        if w.key() != 0 {
            lemma_scaling_keeps_sign(e, u.keys[0], w.key(), q);
            if v.key() != 0 {
                lemma_scaling_keeps_sign(e, t.keys[0], v.key(), p);
                lemma_products_grow(e, t.keys[0], v.key(), p, u.keys[0], w.key(), q);
                lemma_added(a[j].keys[0], p, a[k].keys[0], b[j].keys[0], q, b[k].keys[0]);
            } else {
                lemma_added(b[j].keys[0], q, b[k].keys[0], b[j].keys[0], q, b[k].keys[0]);
            }
        }
    }
}

/// Larger weights on terms that are not negative, and larger terms, make no smaller
/// loss.
pub proof fn losses_grow_with_weights_and_terms(
    model: LeWm,
    pixels: TensorValue,
    actions: TensorValue,
    weights: LeWmLossWeights,
    r: LeWmBatchLoss,
    images: TensorValue,
    moves: TensorValue,
    others: LeWmLossWeights,
    s: LeWmBatchLoss,
)
    requires
        model.loses(pixels, actions, weights, r),
        model.loses(images, moves, others, s),
        finite_terms(r),
        finite_terms(s),
        all_fit(weights),
        all_fit(others),
        no_larger(weights, r, others, s),
    ensures
        0 <= value(r.total_loss).keys[0] <= value(s.total_loss).keys[0],
{
    let a = choose|sums: Seq<TensorValue>|
        #[trigger] accumulates(
            r.terms(),
            weights.listed(),
            value(r.prediction_loss).location,
            sums,
        ) && value(r.total_loss) == sums.last();
    let b = choose|sums: Seq<TensorValue>|
        #[trigger] accumulates(
            s.terms(),
            others.listed(),
            value(s.prediction_loss).location,
            sums,
        ) && value(s.total_loss) == sums.last();
    lemma_sums_grow(weights, r, others, s, a, b, 7);
}

} // verus!
