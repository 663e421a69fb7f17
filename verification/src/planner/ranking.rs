//! What it means that the best candidates are picked.

use candle_core::Tensor;
use vstd::prelude::*;
use vstd::set_lib::{lemma_int_range, lemma_subset_equality, set_int_range};

use crate::planner::cem::{cem_plan, cem_search};
use crate::planner::config::{CemConfig, IcemConfig, MppiConfig};
use crate::planner::icem::{icem_plan, icem_search, IcemState};
use crate::planner::mppi::{mppi_plan, mppi_search};
use crate::planner::noise::NoiseSource;
use crate::planner::refit::Distribution;
use crate::planner::result::{best_of, ranks_best, PlanResult, Scored};
use crate::planner::scorer::{CandidateScorer, Request};
use crate::planner::selection::{best_places, elite, finite_scores, picked, scores_finite};
use crate::tensor::facts::{lemma_counts, lemma_second_axis};
use crate::tensor::layout::{narrowed, sorts_rows};
use crate::tensor::value::{in_range, position, value, TensorValue};

verus! {

/// The score of a candidate in a batch row.
pub open spec fn score(scores: TensorValue, row: int, candidate: int) -> int {
    scores.at(1, row, candidate, 0)
}

/// No candidate of its batch row scores less than the one named for the row.
pub open spec fn scores_least(scores: TensorValue, best: Seq<usize>) -> bool {
    &&& best.len() == scores.dims[0]
    &&& forall|row: int|
        0 <= row < scores.dims[0] && scores.dims[1] > 0 ==> #[trigger] best[row] < scores.dims[1]
    &&& forall|row: int, k: int|
        #![trigger score(scores, row, k), best[row]]
        0 <= row < scores.dims[0] && 0 <= k < scores.dims[1] ==> score(
            scores,
            row,
            best[row] as int,
        ) <= score(scores, row, k)
}

/// Different places below a bound, as many as the bound, are all of them.
proof fn lemma_every_place(places: Seq<int>, k: int)
    requires
        places.no_duplicates(),
        forall|m: int| 0 <= m < places.len() ==> 0 <= #[trigger] places[m] < places.len(),
        0 <= k < places.len(),
    ensures
        exists|m: int| 0 <= m < places.len() && #[trigger] places[m] == k,
{
    let n = places.len() as int;
    places.unique_seq_to_set();
    lemma_int_range(0, n);
    assert(places.to_set().subset_of(set_int_range(0, n)));
    vstd::seq_lib::seq_to_set_is_finite(places);
    lemma_subset_equality(places.to_set(), set_int_range(0, n));
    assert(places.to_set().contains(k));
}

/// What a ranking says of two of its places.
pub proof fn lemma_places(scores: TensorValue, order: TensorValue, row: int, m: int, k: int)
    requires
        scores.dims.len() == 2,
        sorts_rows(scores, order),
        0 <= row < scores.dims[0],
        0 <= m <= k < scores.dims[1],
    ensures
        0 <= order.at(1, row, m, 0) < scores.dims[1],
        0 <= order.at(1, row, k, 0) < scores.dims[1],
        score(scores, row, order.at(1, row, m, 0)) <= score(scores, row, order.at(1, row, k, 0)),
        m < k ==> order.at(1, row, m, 0) != order.at(1, row, k, 0),
{
    let axis: int = scores.dims.len() - 1;
    let (b, n) = (scores.dims[0], scores.dims[1]);
    assert(scores.dims =~= seq![b, n]);
    lemma_second_axis(b, n, 0, 0);
    assert(in_range(order.dims, axis, row, m, 0) && in_range(order.dims, axis, row, k, 0));
    assert(0 <= order.at(axis, row, m, 0) < n);
    assert(0 <= order.at(axis, row, k, 0) < n);
    if m < k {
        assert(order.at(axis, row, m, 0) != order.at(axis, row, k, 0));
    }
}

/// Every candidate of a batch row has a rank.
proof fn lemma_ranked(scores: TensorValue, order: TensorValue, row: int, k: int) -> (m: int)
    requires
        scores.dims.len() == 2,
        sorts_rows(scores, order),
        0 <= row < scores.dims[0],
        0 <= k < scores.dims[1],
    ensures
        0 <= m < scores.dims[1],
        order.at(1, row, m, 0) == k,
{
    let places = Seq::new(scores.dims[1] as nat, |m: int| order.at(1, row, m, 0));
    assert forall|m: int| 0 <= m < places.len() implies 0 <= #[trigger] places[m]
        < places.len() by {
        lemma_places(scores, order, row, m, m);
    }
    assert forall|i: int, j: int| 0 <= i < j < places.len() implies places[i] != places[j] by {
        lemma_places(scores, order, row, i, j);
    }
    assert(places.no_duplicates());
    lemma_every_place(places, k);
    let m = choose|m: int| 0 <= m < places.len() && #[trigger] places[m] == k;
    assert(places[m] == order.at(1, row, m, 0));
    m
}

/// The places that a planner reports as the best score no more than any other
/// candidate of their batch row.
pub proof fn reported_places_score_least(scores: TensorValue, best: Seq<usize>)
    requires
        scores.dims.len() == 2,
        ranks_best(scores, best),
    ensures
        scores_least(scores, best),
{
    let order = choose|order: TensorValue|
        #[trigger] sorts_rows(scores, order) && best_places(order, best);
    assert forall|row: int| 0 <= row < scores.dims[0] && scores.dims[1] > 0 implies
        #[trigger] best[row] < scores.dims[1] by {
        lemma_places(scores, order, row, 0, 0);
    }
    assert forall|row: int, k: int|
        #![trigger score(scores, row, k), best[row]]
        0 <= row < scores.dims[0] && 0 <= k < scores.dims[1] implies score(
        scores,
        row,
        best[row] as int,
    ) <= score(scores, row, k) by {
        let m = lemma_ranked(scores, order, row, k);
        lemma_places(scores, order, row, 0, m);
        assert(best[row] == order.at(1, row, 0, 0));
    }
}

/// The sequence that a planner picks for a batch row is the candidate at the
/// reported place, and no candidate of the row scores less.
pub proof fn the_best_candidate_scores_least(
    candidates: TensorValue,
    scores: TensorValue,
    best: Seq<usize>,
    sequence: TensorValue,
)
    requires
        candidates.dims.len() == 4,
        scores.dims == seq![candidates.dims[0], candidates.dims[1]],
        best_of(candidates, scores, best, sequence),
    ensures
        scores_least(scores, best),
        forall|row: int, i: int|
            0 <= row < candidates.dims[0] && 0 <= i < candidates.dims[2] * candidates.dims[3]
                ==> #[trigger] sequence.at(0, 0, row, i) == candidates.at(
                1,
                row,
                best[row] as int,
                i,
            ),
{
    let (order, first, rows) = choose|order: TensorValue, first: TensorValue, rows: TensorValue|
        #[trigger] sorts_rows(scores, order) && best_places(order, best)
            && #[trigger] narrowed(order, 1, 0, 1, first) && #[trigger] picked(
            candidates,
            first,
            rows,
        ) && sequence == rows.shaped(
            seq![candidates.dims[0], candidates.dims[2], candidates.dims[3]],
        );
    assert(ranks_best(scores, best));
    reported_places_score_least(scores, best);
    let (b, n) = (candidates.dims[0], candidates.dims[1]);
    let (h, a) = (candidates.dims[2], candidates.dims[3]);
    assert(order.dims =~= seq![b, n]);
    assert(first.dims =~= seq![b, 1usize]);
    lemma_second_axis(b, 1, h, a);
    lemma_counts(h, a, a, a);
    assert(seq![b, h, a].skip(1) =~= seq![h, a]);
    assert forall|row: int, i: int| 0 <= row < b && 0 <= i < h * a implies
        #[trigger] sequence.at(0, 0, row, i) == candidates.at(1, row, best[row] as int, i) by {
        assert(in_range(rows.dims, 1, row, 0, i));
        assert(in_range(first.dims, 1, row, 0, 0));
        assert(first.at(1, row, 0, 0) == order.at(1, row, 0, 0));
        assert(rows.at(1, row, 0, i) == candidates.at(1, row, best[row] as int, i));
        assert(position(sequence.dims, 0, 0, row, i) == position(rows.dims, 1, row, 0, i));
    }
}

/// Whether a rank of a batch row has a candidate among the elites.
pub open spec fn among(order: TensorValue, row: int, elites: int, candidate: int) -> bool {
    exists|m: int| 0 <= m < elites && #[trigger] order.at(1, row, m, 0) == candidate
}

/// The elites of a batch row come in the order of their scores, and no candidate
/// that was left out scores less than one of them.
pub proof fn elites_score_no_more_than_the_rest(
    candidates: TensorValue,
    scores: TensorValue,
    elites: usize,
    r: TensorValue,
)
    requires
        candidates.dims.len() == 4,
        scores.dims == seq![candidates.dims[0], candidates.dims[1]],
        elites <= candidates.dims[1],
        elite(candidates, scores, elites, r),
    ensures
        exists|order: TensorValue|
            {
                &&& #[trigger] sorts_rows(scores, order)
                &&& forall|row: int, m: int, i: int|
                    0 <= row < candidates.dims[0] && 0 <= m < elites && 0 <= i < candidates.dims[2]
                        * candidates.dims[3] ==> #[trigger] r.at(1, row, m, i) == candidates.at(
                        1,
                        row,
                        order.at(1, row, m, 0),
                        i,
                    )
                &&& forall|row: int, m: int, k: int|
                    #![trigger order.at(1, row, m, 0), score(scores, row, k)]
                    0 <= row < candidates.dims[0] && 0 <= m < elites && 0 <= k
                        < candidates.dims[1] ==> among(order, row, m as int, k) || score(
                        scores,
                        row,
                        order.at(1, row, m, 0),
                    ) <= score(scores, row, k)
            },
{
    let (order, best) = choose|order: TensorValue, best: TensorValue|
        #[trigger] sorts_rows(scores, order) && #[trigger] narrowed(
            order,
            1,
            0,
            elites as int,
            best,
        ) && picked(candidates, best, r);
    let (b, n) = (candidates.dims[0], candidates.dims[1]);
    let (h, a) = (candidates.dims[2], candidates.dims[3]);
    assert(order.dims =~= seq![b, n]);
    assert(best.dims =~= seq![b, elites]);
    lemma_second_axis(b, n, h, a);
    lemma_second_axis(b, elites, h, a);
    assert forall|row: int, m: int, i: int|
        0 <= row < b && 0 <= m < elites && 0 <= i < h * a implies #[trigger] r.at(1, row, m, i)
        == candidates.at(1, row, order.at(1, row, m, 0), i) by {
        assert(in_range(r.dims, 1, row, m, i));
        assert(in_range(best.dims, 1, row, m, 0));
        assert(best.at(1, row, m, 0) == order.at(1, row, m, 0));
    }
    assert forall|row: int, m: int, k: int|
        #![trigger order.at(1, row, m, 0), score(scores, row, k)]
        0 <= row < b && 0 <= m < elites && 0 <= k < n implies among(order, row, m as int, k)
        || score(scores, row, order.at(1, row, m, 0)) <= score(scores, row, k) by {
        let rank = lemma_ranked(scores, order, row, k);
        if rank < m {
            assert(order.at(1, row, rank, 0) == k);
        } else {
            lemma_places(scores, order, row, m, rank);
        }
    }
}

/// A plan that the cross-entropy search found reports, for every batch row, a
/// candidate of its last round that scores least. All its scores are finite.
pub proof fn cem_reports_the_least_score<S: CandidateScorer, N: NoiseSource>(
    scorer: &S,
    cfg: CemConfig,
    q: Request,
    p: PlanResult,
)
    requires
        cem_plan::<S, N>(scorer, cfg, q, p),
        p.fallback is NotUsed,
    ensures
        scores_least(value(p.scores), p.best_indices@),
        scores_finite(value(p.scores)),
        value(p.scores).element is F32 ==> finite_scores(value(p.scores)),
{
    let (low, high, states, rounds) = choose|
        low: TensorValue,
        high: TensorValue,
        states: Seq<Distribution>,
        rounds: Seq<Scored>,
    |
        #[trigger] cem_search::<S, N>(scorer, cfg, q, low, high, states, rounds) && rounds.len()
            == p.iterations_completed && 0 < p.iterations_completed && p.scores
            == rounds.last().scores && best_of(
            value(rounds.last().candidates),
            value(p.scores),
            p.best_indices@,
            value(p.sequence),
        );
    assert(rounds[rounds.len() - 1] == rounds.last());
    assert(ranks_best(value(p.scores), p.best_indices@));
    reported_places_score_least(value(p.scores), p.best_indices@);
}

/// The same holds of the search that carries elites on.
pub proof fn icem_reports_the_least_score<S: CandidateScorer, N: NoiseSource>(
    scorer: &S,
    cfg: IcemConfig,
    warm_start: Option<Tensor>,
    q: Request,
    p: PlanResult,
)
    requires
        icem_plan::<S, N>(scorer, cfg, warm_start, q, p),
        p.fallback is NotUsed,
    ensures
        scores_least(value(p.scores), p.best_indices@),
        scores_finite(value(p.scores)),
        value(p.scores).element is F32 ==> finite_scores(value(p.scores)),
{
    let (low, high, states, rounds) = choose|
        low: TensorValue,
        high: TensorValue,
        states: Seq<IcemState>,
        rounds: Seq<Scored>,
    |
        #[trigger] icem_search::<S, N>(scorer, cfg, warm_start, q, low, high, states, rounds)
            && rounds.len() == p.iterations_completed && 0 < p.iterations_completed && p.scores
            == rounds.last().scores && best_of(
            value(rounds.last().candidates),
            value(p.scores),
            p.best_indices@,
            value(p.sequence),
        );
    assert(rounds[rounds.len() - 1] == rounds.last());
    assert(ranks_best(value(p.scores), p.best_indices@));
    reported_places_score_least(value(p.scores), p.best_indices@);
}

/// The path-integral planner averages, and still reports where the least score
/// of each batch row stood. All its scores are finite.
pub proof fn mppi_reports_the_least_score<S: CandidateScorer, N: NoiseSource>(
    scorer: &S,
    cfg: MppiConfig,
    q: Request,
    p: PlanResult,
)
    requires
        mppi_plan::<S, N>(scorer, cfg, q, p),
        p.fallback is NotUsed,
    ensures
        scores_least(value(p.scores), p.best_indices@),
        scores_finite(value(p.scores)),
        value(p.scores).element is F32 ==> finite_scores(value(p.scores)),
{
    let (std, low, high, means, rounds) = choose|
        std: TensorValue,
        low: TensorValue,
        high: TensorValue,
        means: Seq<TensorValue>,
        rounds: Seq<Scored>,
    |
        #[trigger] mppi_search::<S, N>(scorer, cfg, q, std, low, high, means, rounds) && rounds.len()
            == p.iterations_completed && 0 < p.iterations_completed && p.scores
            == rounds.last().scores && ranks_best(value(p.scores), p.best_indices@);
    assert(rounds[rounds.len() - 1] == rounds.last());
    reported_places_score_least(value(p.scores), p.best_indices@);
}

} // verus!
