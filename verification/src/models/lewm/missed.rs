//! What the errors of a training loss are measured against.

use vstd::prelude::*;

use crate::models::lewm::loss::{is_alignment, is_mse};
use crate::models::lewm::model::LeWm;
use crate::rounding::finite;
use crate::tensor::arithmetic::{
    adds_all, difference_of, exact, finite_at, overall_mean_of, overall_mean_rounds, shared,
    shared_by_all, square_of,
};
use crate::tensor::facts::{lemma_counts, lemma_place, lemma_position, lemma_second_axis};
use crate::tensor::layout::{carries_gradient, narrowed};
use crate::tensor::scaled::{
    differ_by, is_squared_gap, lemma_difference_at, lemma_shared, lemma_squared_gap_at,
    lemma_squared_gaps,
};
use crate::tensor::value::{count, in_range, position, value, TensorValue};

verus! {

/// Whether `g` is how far a step of one path `[batch, time, width]` lies above the next
/// step of another.
pub open spec fn step_apart(x: TensorValue, y: TensorValue, o: int, m: int, i: int, g: int) -> bool {
    differ_by(x.element, x.at(1, o, m, i), y.at(1, o, m + 1, i), g)
}

/// Whether `q` is the square of how far a step of one path lies from the next step of
/// another.
pub open spec fn step_error(x: TensorValue, y: TensorValue, o: int, m: int, i: int, q: int) -> bool {
    is_squared_gap(x.element, x.at(1, o, m, i), y.at(1, o, m + 1, i), q)
}

/// Whether there is a step with one that follows.
pub open spec fn followed(x: TensorValue, o: int, m: int, i: int) -> bool {
    in_range(x.dims, 1, o, m, i) && m + 1 < x.dims[1]
}

/// Paths `[batch, time, width]` of finite numbers, so near to each other that the
/// squares of the differences are finite.
pub open spec fn close_paths(x: TensorValue, y: TensorValue) -> bool {
    &&& exact(x)
    &&& x.dims.len() == 3
    &&& x.dims[1] >= 2
    &&& y.dims == x.dims
    &&& x.keys.len() == count(x.dims)
    &&& y.keys.len() == count(x.dims)
    &&& 1 <= x.keys.len() <= 0x20_0000_0000_0000
    &&& forall|k: int| 0 <= k < x.keys.len() ==> finite(x.element, #[trigger] x.keys[k])
    &&& forall|k: int| 0 <= k < y.keys.len() ==> finite(x.element, #[trigger] y.keys[k])
    &&& forall|o: int, m: int, i: int, g: int|
        followed(x, o, m, i) && #[trigger] step_apart(x, y, o, m, i, g) ==> finite(x.element, g)
    &&& forall|o: int, m: int, i: int, q: int|
        followed(x, o, m, i) && #[trigger] step_error(x, y, o, m, i, q) ==> finite(x.element, q)
}

/// Whether every step of one path is the next step of another.
pub open spec fn one_ahead(x: TensorValue, y: TensorValue) -> bool {
    forall|o: int, m: int, i: int|
        followed(x, o, m, i) ==> #[trigger] x.at(1, o, m, i) == y.at(1, o, m + 1, i)
}

/// The number of steps that are followed by one.
pub open spec fn pairs(x: TensorValue) -> int {
    count(x.dims.update(1, (x.dims[1] - 1) as usize)) as int
}

/// Whether `r` is the mean of the squares of how far each step of one path lies from the
/// next step of another, and `t` their sum: the sum is no less than each square, it is
/// divided by their number, and it is zero where the one path is one step ahead of the
/// other.
pub open spec fn mean_step_error(x: TensorValue, y: TensorValue, t: int, r: int) -> bool {
    &&& forall|o: int, m: int, i: int, q: int|
        followed(x, o, m, i) && #[trigger] step_error(x, y, o, m, i, q) ==> 0 <= q <= t
    &&& finite(x.element, t) ==> shared(x.element, t, pairs(x), r) && r >= 0
    &&& one_ahead(x, y) ==> t == 0 && r == 0
}

proof fn lemma_steps(
    x: TensorValue,
    y: TensorValue,
    a: TensorValue,
    b: TensorValue,
    r: TensorValue,
) -> (t: int)
    requires
        narrowed(x, 1, 0, x.dims[1] - 1, a),
        narrowed(y, 1, 1, x.dims[1] - 1, b),
        is_mse(a, b, r),
        close_paths(x, y),
        pairs(x) >= 1,
    ensures
        mean_step_error(x, y, t, r.keys[0]),
{
    let e = x.element;
    let (gap, squares) = choose|gap: TensorValue, squares: TensorValue|
        #[trigger] difference_of(a, b, gap) && #[trigger] square_of(gap, squares)
            && overall_mean_of(squares, r);
    let (n, w, d) = (x.dims[0], x.dims[1], x.dims[2]);
    let v = (w - 1) as usize;
    assert(x.dims =~= seq![n, w, d]);
    assert(a.dims =~= seq![n, v, d]);
    lemma_second_axis(n, w, d, d);
    lemma_second_axis(n, v, d, d);
    lemma_counts(n, w, d, d);
    lemma_counts(n, v, d, d);
    assert(a.keys.len() <= x.keys.len()) by (nonlinear_arith)
        requires
            a.keys.len() == n * (v * d),
            x.keys.len() == n * (w * d),
            v <= w,
            n >= 0,
            d >= 0,
    ;
    assert forall|o: int, m: int, i: int| #[trigger] followed(x, o, m, i) implies ({
        let k = position(a.dims, 1, o, m, i);
        &&& 0 <= k < a.keys.len()
        &&& a.keys[k] == x.at(1, o, m, i)
        &&& b.keys[k] == y.at(1, o, m + 1, i)
        &&& finite_at(a, k)
        &&& finite(e, b.keys[k])
    }) by {
        lemma_position(a.dims, 1, o, m, i);
        lemma_position(x.dims, 1, o, m, i);
        lemma_position(x.dims, 1, o, m + 1, i);
        assert(a.at(1, o, m, i) == x.at(1, o, 0 + m, i));
        assert(b.at(1, o, m, i) == y.at(1, o, 1 + m, i));
    }
    assert forall|k: int| 0 <= k < squares.keys.len() implies finite(e, #[trigger] squares.keys[k])
        && squares.keys[k] >= 0 && (one_ahead(x, y) ==> squares.keys[k] == 0) by {
        let (o, m, i) = lemma_place(a.dims, 1, k);
        assert(followed(x, o, m, i));
        lemma_step_square(x, y, a, b, gap, squares, o, m, i, k, squares.keys[k]);
    }
    assert(exact(squares));
    assert(exists|t: int| #[trigger] shared_by_all(squares, t, r.keys[0])) by {
        reveal(overall_mean_rounds);
    }
    let t = choose|t: int| #[trigger] shared_by_all(squares, t, r.keys[0]);
    assert(adds_all(squares, t));
    assert forall|o: int, m: int, i: int, q: int|
        followed(x, o, m, i) && #[trigger] step_error(x, y, o, m, i, q) implies 0 <= q <= t by {
        let k = position(a.dims, 1, o, m, i);
        lemma_step_square(x, y, a, b, gap, squares, o, m, i, k, q);
        assert(t >= squares.keys[k]);
    }
    if finite(e, t) {
        lemma_shared(e, t, squares.keys.len() as int, r.keys[0]);
    }
    if one_ahead(x, y) {
        assert(t == 0);
    }
    t
}

proof fn lemma_step_square(
    x: TensorValue,
    y: TensorValue,
    a: TensorValue,
    b: TensorValue,
    gap: TensorValue,
    squares: TensorValue,
    o: int,
    m: int,
    i: int,
    k: int,
    q: int,
)
    requires
        difference_of(a, b, gap),
        square_of(gap, squares),
        exact(a),
        a.element == x.element,
        close_paths(x, y),
        followed(x, o, m, i),
        0 <= k < a.keys.len(),
        a.keys[k] == x.at(1, o, m, i),
        b.keys[k] == y.at(1, o, m + 1, i),
        finite_at(a, k),
        finite(x.element, b.keys[k]),
        q == squares.keys[k] || step_error(x, y, o, m, i, q),
    ensures
        q == squares.keys[k],
        finite(x.element, q),
        q >= 0,
        x.at(1, o, m, i) == y.at(1, o, m + 1, i) ==> q == 0,
{
    lemma_squared_gap_at(a, b, gap, squares, k);
    lemma_difference_at(a, b, gap, k);
    let p = squares.keys[k];
    let g = gap.keys[k];
    assert(step_apart(x, y, o, m, i, g));
    assert(step_error(x, y, o, m, i, p));
    lemma_squared_gaps(x.element, x.at(1, o, m, i), y.at(1, o, m + 1, i), p, q, g);
}

/// Predictions are held against the embeddings of the frames that follow: the prediction
/// loss is the mean squared difference of each prediction and the next embedding, and
/// zero where every prediction came true.
pub proof fn predictions_are_held_against_the_next_frame(
    model: LeWm,
    emb: TensorValue,
    pred: TensorValue,
    r: TensorValue,
) -> (t: int)
    requires
        model.misses(emb, pred, r),
        close_paths(pred, emb),
        pairs(pred) >= 1,
    ensures
        mean_step_error(pred, emb, t, r.keys[0]),
{
    let (guess, truth) = choose|guess: TensorValue, truth: candle_core::Tensor|
        #[trigger] narrowed(pred, 1, 0, emb.dims[1] - 1, guess) && narrowed(
            emb,
            1,
            1,
            emb.dims[1] - 1,
            value(truth),
        ) && #[trigger] is_mse(guess, value(truth), r) && !carries_gradient(truth);
    lemma_steps(pred, emb, guess, value(truth), r)
}

/// The alignment loss is the mean squared change from each step to the next, and zero
/// where nothing changes.
pub proof fn alignment_measures_change(z: TensorValue, r: TensorValue) -> (t: int)
    requires
        is_alignment(z, r),
        close_paths(z, z),
        pairs(z) >= 1,
    ensures
        mean_step_error(z, z, t, r.keys[0]),
{
    let (before, after) = choose|before: TensorValue, after: TensorValue|
        #[trigger] narrowed(z, 1, 0, z.dims[1] - 1, before) && #[trigger] narrowed(
            z,
            1,
            1,
            z.dims[1] - 1,
            after,
        ) && is_mse(before, after, r);
    lemma_steps(z, z, before, after, r)
}

} // verus!
