//! What the cost of a rollout says of its last frame and the goal.

use vstd::prelude::*;

use crate::models::lewm::goal::{goal_complaint, is_goal, is_goal_cost, is_last_frame, one_sample};
use crate::rounding::{finite, rounds_to, units};
use crate::tensor::arithmetic::{
    adds_up, difference_of, exact, finite_along, finite_at, nearest_at, square_of, total_of,
    total_rounds,
};
use crate::tensor::facts::{lemma_counts, lemma_position, lemma_second_axis, lemma_spread_inserted};
use crate::tensor::layout::narrowed;
use crate::tensor::scaled::{
    differ_by, is_squared_gap, lemma_difference_at, lemma_squared_gap_at, lemma_squared_gaps,
};
use crate::tensor::value::{count, inner, outer, position, spread, TensorValue};

verus! {

/// Component `j` of the last frame of a sample of a rollout
/// `[batch, samples, time, width]`.
pub open spec fn last_seen(predicted: TensorValue, b: int, s: int, j: int) -> int {
    predicted.at(2, b * predicted.dims[1] + s, predicted.dims[2] - 1, j)
}

/// Component `j` of the goal of an entry of a batch: of the one embedding, or of the
/// last of several.
pub open spec fn wanted(goal: TensorValue, b: int, j: int) -> int {
    if goal.dims.len() == 2 {
        goal.at(1, b, j, 0)
    } else {
        goal.at(1, b, goal.dims[1] - 1, j)
    }
}

/// Whether the last frame of a sample is so near to the goal that the squares of the
/// differences are finite.
pub open spec fn within_reach(predicted: TensorValue, goal: TensorValue, b: int, s: int) -> bool {
    forall|j: int, g: int|
        0 <= j < predicted.dims[3] && #[trigger] differ_by(
            predicted.element,
            last_seen(predicted, b, s, j),
            wanted(goal, b, j),
            g,
        ) ==> finite(predicted.element, g) && forall|q: int| #[trigger]
            is_squared_gap(
                predicted.element,
                last_seen(predicted, b, s, j),
                wanted(goal, b, j),
                q,
            ) ==> finite(predicted.element, q)
}

/// What a cost is of the last frame of a sample and the goal: at least the square of
/// each difference, that square where there is one component, the sum where there are
/// two, and zero where the frame is the goal.
pub open spec fn is_distance(
    predicted: TensorValue,
    goal: TensorValue,
    b: int,
    s: int,
    cost: int,
) -> bool {
    let (e, d) = (predicted.element, predicted.dims[3]);
    &&& forall|j: int, q: int|
        0 <= j < d && #[trigger] is_squared_gap(
            e,
            last_seen(predicted, b, s, j),
            wanted(goal, b, j),
            q,
        ) ==> 0 <= q <= cost && (d == 1 ==> cost == q)
    &&& d == 2 ==> forall|p: int, q: int| #[trigger]
        is_squared_gap(e, last_seen(predicted, b, s, 0), wanted(goal, b, 0), p)
            && #[trigger] is_squared_gap(e, last_seen(predicted, b, s, 1), wanted(goal, b, 1), q)
            ==> rounds_to(e, units(e, p) + units(e, q), 1, cost)
    &&& (forall|j: int|
        0 <= j < d ==> #[trigger] last_seen(predicted, b, s, j) == wanted(goal, b, j)) ==> cost == 0
}

/// Shapes with a third axis, split at it.
proof fn lemma_third_axis(b: usize, s: usize, t: usize, d: usize)
    ensures
        outer(seq![b, s, d], 2) == b * s,
        inner(seq![b, s, d], 2) == 1,
        outer(seq![b, s, t, d], 2) == b * s,
        inner(seq![b, s, t, d], 2) == d,
{
    lemma_counts(b, s, t, d);
    lemma_counts(d, s, t, d);
    assert(seq![b, s, d].take(2) =~= seq![b, s]);
    assert(seq![b, s, d].skip(3) =~= Seq::<usize>::empty());
    assert(seq![b, s, t, d].take(2) =~= seq![b, s]);
    assert(seq![b, s, t, d].skip(3) =~= seq![d]);
}

/// The last frame and the goal of a sample, as they are subtracted.
proof fn lemma_lined_up(
    predicted: TensorValue,
    goal: TensorValue,
    last: TensorValue,
    aim: TensorValue,
    b: int,
    s: int,
    j: int,
)
    requires
        goal_complaint(predicted.dims, goal.dims) is None,
        predicted.keys.len() == count(predicted.dims),
        goal.keys.len() == count(goal.dims),
        is_last_frame(predicted, last),
        is_goal(goal, aim),
        0 <= b < predicted.dims[0],
        0 <= s < predicted.dims[1],
        0 <= j < predicted.dims[3],
    ensures
        ({
            let k = (b * predicted.dims[1] + s) * predicted.dims[3] + j;
            let wide = spread(aim.shaped(one_sample(predicted.dims[0], predicted.dims[3])), last.dims);
            &&& last.dims == seq![predicted.dims[0], predicted.dims[1], predicted.dims[3]]
            &&& last.element == predicted.element
            &&& last.location == predicted.location
            &&& last.keys.len() == count(last.dims)
            &&& 0 <= k < last.keys.len()
            &&& last.keys[k] == last_seen(predicted, b, s, j)
            &&& wide.keys[k] == wanted(goal, b, j)
            &&& exists|p: int| 0 <= p < predicted.keys.len() && last.keys[k]
                == #[trigger] predicted.keys[p]
            &&& exists|p: int| 0 <= p < goal.keys.len() && wide.keys[k] == #[trigger] goal.keys[p]
        }),
{
    let (n, m, t, d) = (
        predicted.dims[0],
        predicted.dims[1],
        predicted.dims[2],
        predicted.dims[3],
    );
    let one = choose|one: TensorValue| #[trigger]
        narrowed(predicted, 2, t - 1, 1, one) && last == one.shaped(seq![n, m, d]);
    assert(predicted.dims =~= seq![n, m, t, d]);
    assert(one.dims =~= seq![n, m, 1usize, d]);
    lemma_third_axis(n, m, t, d);
    lemma_third_axis(n, m, 1, d);
    lemma_counts(n, m, 1, d);
    lemma_counts(n, m, d, d);
    vstd::arithmetic::mul::lemma_mul_basics(d as int);
    let o = b * m + s;
    let k = o * d + j;
    assert(0 <= o < n * m) by (nonlinear_arith)
        requires
            0 <= b < n,
            0 <= s < m,
            o == b * m + s,
    ;
    assert(one.at(2, o, 0, j) == predicted.at(2, o, t - 1 + 0, j));
    assert(position(one.dims, 2, o, 0, j) == k);
    lemma_position(one.dims, 2, o, 0, j);
    lemma_position(predicted.dims, 2, o, t - 1, j);
    lemma_counts(d, d, d, d);
    lemma_spread_inserted(n, m, seq![d], b, s, j);
    assert(seq![n, 1usize] + seq![d] =~= one_sample(n, d));
    assert(seq![n, m] + seq![d] =~= last.dims);
    let wide = spread(aim.shaped(one_sample(n, d)), last.dims);
    assert(wide.keys[k] == aim.keys[b * d + j]);
    lemma_second_axis(n, d, d, d);
    if goal.dims.len() == 2 {
        assert(goal.dims =~= seq![n, d]);
        lemma_position(goal.dims, 1, b, j, 0);
        assert(position(goal.dims, 1, b, j, 0) == b * d + j);
    } else {
        let g = goal.dims[1];
        assert(goal.dims =~= seq![n, g, d]);
        lemma_second_axis(n, g, d, d);
        assert(aim.dims =~= seq![n, d]);
        assert(aim.at(1, b, j, 0) == goal.at(1, b, g - 1, j));
        assert(position(aim.dims, 1, b, j, 0) == b * d + j);
        lemma_position(goal.dims, 1, b, g - 1, j);
    }
}

/// The cost of a rollout is the squared distance of its last frame from the goal.
pub proof fn goal_costs_are_squared_distances(
    predicted: TensorValue,
    goal: TensorValue,
    r: TensorValue,
)
    requires
        is_goal_cost(predicted, goal, r),
        goal_complaint(predicted.dims, goal.dims) is None,
        exact(predicted),
        predicted.keys.len() == count(predicted.dims),
        goal.keys.len() == count(goal.dims),
        forall|k: int|
            0 <= k < predicted.keys.len() ==> finite(predicted.element, #[trigger] predicted.keys[k]),
        forall|k: int|
            0 <= k < goal.keys.len() ==> finite(predicted.element, #[trigger] goal.keys[k]),
    ensures
        forall|b: int, s: int|
            0 <= b < predicted.dims[0] && 0 <= s < predicted.dims[1] && within_reach(
                predicted,
                goal,
                b,
                s,
            ) ==> is_distance(predicted, goal, b, s, #[trigger] r.keys[b * predicted.dims[1] + s]),
{
    let (n, m, d) = (predicted.dims[0], predicted.dims[1], predicted.dims[3]);
    let e = predicted.element;
    let (last, aim, gap, squares) = choose|
        last: TensorValue,
        wanted: TensorValue,
        gap: TensorValue,
        squares: TensorValue,
    |
        #[trigger] is_last_frame(predicted, last) && #[trigger] is_goal(goal, wanted)
            && #[trigger] difference_of(
            last,
            spread(wanted.shaped(one_sample(n, d)), last.dims),
            gap,
        ) && #[trigger] square_of(gap, squares) && total_of(squares, 2, r);
    let wide = spread(aim.shaped(one_sample(n, d)), last.dims);
    assert(last.dims == seq![n, m, d] && last.element == e && exact(last));
    assert forall|b: int, s: int|
        0 <= b < n && 0 <= s < m && within_reach(predicted, goal, b, s) implies is_distance(
        predicted,
        goal,
        b,
        s,
        #[trigger] r.keys[b * m + s],
    ) by {
        let o = b * m + s;
        assert forall|j: int| 0 <= j < d implies squares.dims == seq![n, m, d] && squares.element
            == e && exact(squares) && is_squared_gap(
            e,
            last_seen(predicted, b, s, j),
            wanted(goal, b, j),
            #[trigger] squares.at(2, o, j, 0),
        ) && finite(e, squares.at(2, o, j, 0)) && squares.at(2, o, j, 0) >= 0 && (last_seen(
            predicted,
            b,
            s,
            j,
        ) == wanted(goal, b, j) ==> squares.at(2, o, j, 0) == 0) && forall|q: int| #[trigger]
            is_squared_gap(e, last_seen(predicted, b, s, j), wanted(goal, b, j), q) ==> q
                == squares.at(2, o, j, 0) by {
            lemma_lined_up(predicted, goal, last, aim, b, s, j);
            let k = o * d + j;
            lemma_third_axis(n, m, 1, d);
            assert(finite_at(last, k) && finite_at(wide, k));
            lemma_squared_gap_at(last, wide, gap, squares, k);
            lemma_difference_at(last, wide, gap, k);
            let g = gap.keys[k];
            assert(differ_by(e, last_seen(predicted, b, s, j), wanted(goal, b, j), g));
            let p = squares.keys[k];
            assert(position(squares.dims, 2, o, j, 0) == k);
            assert forall|q: int| #[trigger]
                is_squared_gap(
                    e,
                    last_seen(predicted, b, s, j),
                    wanted(goal, b, j),
                    q,
                ) implies q == p by {
                lemma_squared_gaps(e, last_seen(predicted, b, s, j), wanted(goal, b, j), p, q, g);
            }
            lemma_squared_gaps(e, last_seen(predicted, b, s, j), wanted(goal, b, j), p, p, g);
        }
        lemma_third_axis(n, m, 1, d);
        assert(0 <= o < n * m) by (nonlinear_arith)
            requires
                0 <= b < n,
                0 <= s < m,
                o == b * m + s,
        ;
        assert(finite_along(squares, 2, o, 0));
        assert(adds_up(squares, 2, o, 0, r)) by {
            reveal(total_rounds);
        }
        assert(o * inner(squares.dims, 2) + 0 == o);
        let cost = r.keys[o];
        assert(forall|j: int| 0 <= j < d ==> #[trigger] squares.at(2, o, j, 0) >= 0);
        assert forall|j: int, q: int|
            0 <= j < d && #[trigger] is_squared_gap(
                e,
                last_seen(predicted, b, s, j),
                wanted(goal, b, j),
                q,
            ) implies 0 <= q <= cost && (d == 1 ==> cost == q) by {
            assert(q == squares.at(2, o, j, 0));
        }
        if d == 2 {
            assert(squares.at(2, o, 0, 0) >= 0 && squares.at(2, o, 1, 0) >= 0);
            assert(nearest_at(
                r,
                o,
                units(e, squares.at(2, o, 0, 0)) + units(e, squares.at(2, o, 1, 0)),
                1,
            ));
        }
        if forall|j: int|
            0 <= j < d ==> #[trigger] last_seen(predicted, b, s, j) == wanted(goal, b, j) {
            assert forall|j: int| 0 <= j < d implies #[trigger] squares.at(2, o, j, 0) == 0 by {
                assert(last_seen(predicted, b, s, j) == wanted(goal, b, j));
            }
        }
    }
}

} // verus!
