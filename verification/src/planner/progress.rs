//! What the search that carries elites on gains from them.

use candle_core::Tensor;
use vstd::prelude::*;

use crate::planner::config::IcemConfig;
use crate::planner::icem::{icem_plan, icem_round, icem_search, kept, IcemState};
use crate::planner::noise::NoiseSource;
use crate::planner::ranking::{
    among, elites_score_no_more_than_the_rest, lemma_places, reported_places_score_least, score,
};
use crate::planner::refit::fits_elites;
use crate::planner::result::{best_of, ranks_best, PlanResult, Scored};
use crate::planner::sampling::drawn;
use crate::planner::scorer::{scored, CandidateScorer, Request};
use crate::planner::selection::elite;
use crate::tensor::facts::lemma_second_axis;
use crate::tensor::layout::{followed, sorts_rows};
use crate::tensor::value::{in_range, tensor_dims, value, TensorValue};

verus! {

/// Whether candidate `j` of a batch row is candidate `k` of the row elsewhere.
pub open spec fn same_candidate(
    a: TensorValue,
    j: int,
    b: TensorValue,
    k: int,
    row: int,
) -> bool {
    &&& a.dims.len() == 4 && b.dims == a.dims.update(1, b.dims[1])
    &&& 0 <= row < a.dims[0] && 0 <= j < a.dims[1] && 0 <= k < b.dims[1]
    &&& forall|i: int|
        0 <= i < a.dims[2] * a.dims[3] ==> #[trigger] a.at(1, row, j, i) == b.at(1, row, k, i)
}

/// Whether a scorer gives a candidate the same score each time, whatever stands
/// beside it.
pub open spec fn steady<S: CandidateScorer>(scorer: &S) -> bool {
    forall|a: Tensor, sa: Tensor, b: Tensor, sb: Tensor, row: int, j: int, k: int|
        #[trigger] scored(scorer, a, sa) && #[trigger] scored(scorer, b, sb)
            && #[trigger] same_candidate(value(a), j, value(b), k, row) ==> score(value(sa), row, j)
            == score(value(sb), row, k)
}

/// The shapes of a round.
proof fn lemma_round_shapes<S: CandidateScorer, N: NoiseSource>(
    scorer: &S,
    cfg: IcemConfig,
    q: Request,
    low: TensorValue,
    high: TensorValue,
    before: IcemState,
    round: Scored,
    after: IcemState,
)
    requires
        icem_round::<S, N>(scorer, cfg, q, low, high, before, round, after),
        before.carried matches Some(c) ==> cfg.samples + c.dims[1] <= usize::MAX,
    ensures
        value(round.candidates).dims.len() == 4,
        value(round.candidates).dims[1] >= cfg.samples,
        value(round.scores).dims == seq![
            value(round.candidates).dims[0],
            value(round.candidates).dims[1],
        ],
{
}

/// The best candidate of a round stands in the next one, where at least one elite
/// is kept.
proof fn lemma_best_is_carried<S: CandidateScorer, N: NoiseSource>(
    scorer: &S,
    cfg: IcemConfig,
    q: Request,
    low: TensorValue,
    high: TensorValue,
    before: IcemState,
    round: Scored,
    between: IcemState,
    next: Scored,
    after: IcemState,
    row: int,
    c: int,
) -> (k: int)
    requires
        icem_round::<S, N>(scorer, cfg, q, low, high, before, round, between),
        icem_round::<S, N>(scorer, cfg, q, low, high, between, next, after),
        before.carried matches Some(e) ==> cfg.samples + e.dims[1] <= usize::MAX,
        0 < cfg.keep_elites <= cfg.elites <= cfg.samples,
        cfg.samples + cfg.keep_elites <= usize::MAX,
        steady(scorer),
        0 <= row < value(round.candidates).dims[0],
        0 <= c < value(round.candidates).dims[1],
    ensures
        0 <= row < value(next.candidates).dims[0],
        0 <= k < value(next.candidates).dims[1],
        score(value(next.scores), row, k) <= score(value(round.scores), row, c),
        between.carried is Some,
        between.carried->0.dims[1] == cfg.keep_elites,
{
    let cands = value(round.candidates);
    let scores = value(round.scores);
    lemma_round_shapes::<S, N>(scorer, cfg, q, low, high, before, round, between);
    let elites = choose|elites: TensorValue|
        #[trigger] elite(cands, scores, cfg.elites, elites) && fits_elites(
            elites,
            cfg.min_std,
            between.distribution,
        ) && kept(elites, cfg.keep_elites, between.carried);
    elites_score_no_more_than_the_rest(cands, scores, cfg.elites, elites);
    let (b, n) = (cands.dims[0], cands.dims[1]);
    let (h, a) = (cands.dims[2], cands.dims[3]);
    let order = choose|order: TensorValue|
        {
            &&& #[trigger] sorts_rows(scores, order)
            &&& forall|row: int, m: int, i: int|
                0 <= row < b && 0 <= m < cfg.elites && 0 <= i < h * a ==> #[trigger] elites.at(
                    1,
                    row,
                    m,
                    i,
                ) == cands.at(1, row, order.at(1, row, m, 0), i)
            &&& forall|row: int, m: int, k: int|
                #![trigger order.at(1, row, m, 0), score(scores, row, k)]
                0 <= row < b && 0 <= m < cfg.elites && 0 <= k < n ==> among(
                    order,
                    row,
                    m as int,
                    k,
                ) || score(scores, row, order.at(1, row, m, 0)) <= score(scores, row, k)
        };
    let carried = between.carried->0;
    let best = order.at(1, row, 0, 0);
    assert(score(scores, row, best) <= score(scores, row, c)) by {
        assert(!among(order, row, 0, c));
    }
    let sampled = choose|sampled: TensorValue|
        #[trigger] drawn::<N>(
            between.distribution.mean,
            between.distribution.std,
            low,
            high,
            cfg.samples,
            q.element,
            q.location,
            sampled,
        ) && followed(sampled, carried, 1, value(next.candidates));
    let all = value(next.candidates);
    let keep = cfg.keep_elites;
    let total = (cfg.samples + keep) as usize;
    assert(cands.dims =~= seq![b, n, h, a]);
    assert(elites.dims =~= seq![b, cfg.elites, h, a]);
    assert(carried.dims =~= seq![b, keep, h, a]);
    assert(sampled.dims =~= seq![b, cfg.samples, h, a]);
    assert(all.dims =~= seq![b, total, h, a]);
    lemma_second_axis(b, n, h, a);
    lemma_second_axis(b, cfg.elites, h, a);
    lemma_second_axis(b, keep, h, a);
    lemma_second_axis(b, total, h, a);
    let k = cfg.samples as int;
    lemma_places(scores, order, row, 0, 0);
    assert(same_candidate(cands, best, all, k, row)) by {
        assert(all.dims =~= cands.dims.update(1, total));
        assert forall|i: int| 0 <= i < h * a implies #[trigger] cands.at(1, row, best, i) == all.at(
            1,
            row,
            k,
            i,
        ) by {
            assert(in_range(all.dims, 1, row, k, i));
            assert(all.at(1, row, k, i) == carried.at(1, row, 0, i));
            assert(in_range(carried.dims, 1, row, 0, i));
            assert(carried.at(1, row, 0, i) == elites.at(1, row, 0, i));
        }
    }
    assert(scored(scorer, round.candidates, round.scores));
    assert(scored(scorer, next.candidates, next.scores));
    k
}

/// A later round has a candidate that scores no more than one of an earlier round.
proof fn lemma_later_round<S: CandidateScorer, N: NoiseSource>(
    scorer: &S,
    cfg: IcemConfig,
    warm_start: Option<Tensor>,
    q: Request,
    low: TensorValue,
    high: TensorValue,
    states: Seq<IcemState>,
    rounds: Seq<Scored>,
    earlier: int,
    later: int,
    row: int,
    c: int,
) -> (k: int)
    requires
        icem_search::<S, N>(scorer, cfg, warm_start, q, low, high, states, rounds),
        0 < cfg.keep_elites <= cfg.elites <= cfg.samples,
        cfg.samples + cfg.keep_elites <= usize::MAX,
        steady(scorer),
        0 <= earlier <= later < rounds.len(),
        0 <= row < value(rounds[earlier].candidates).dims[0],
        0 <= c < value(rounds[earlier].candidates).dims[1],
    ensures
        0 <= row < value(rounds[later].candidates).dims[0],
        0 <= k < value(rounds[later].candidates).dims[1],
        score(value(rounds[later].scores), row, k) <= score(value(rounds[earlier].scores), row, c),
        states[later].carried matches Some(e) ==> cfg.samples + e.dims[1] <= usize::MAX,
    decreases later,
{
    lemma_carried::<S, N>(scorer, cfg, warm_start, q, low, high, states, rounds, later);
    if earlier == later {
        c
    } else {
        let j = lemma_later_round::<S, N>(
            scorer,
            cfg,
            warm_start,
            q,
            low,
            high,
            states,
            rounds,
            earlier,
            later - 1,
            row,
            c,
        );
        let (round, next) = (rounds[later - 1], rounds[later]);
        lemma_best_is_carried::<S, N>(
            scorer,
            cfg,
            q,
            low,
            high,
            states[later - 1],
            round,
            states[later],
            next,
            states[later + 1],
            row,
            j,
        )
    }
}

/// What a round is handed has a place for each elite that is kept.
proof fn lemma_carried<S: CandidateScorer, N: NoiseSource>(
    scorer: &S,
    cfg: IcemConfig,
    warm_start: Option<Tensor>,
    q: Request,
    low: TensorValue,
    high: TensorValue,
    states: Seq<IcemState>,
    rounds: Seq<Scored>,
    i: int,
)
    requires
        icem_search::<S, N>(scorer, cfg, warm_start, q, low, high, states, rounds),
        cfg.samples + cfg.keep_elites <= usize::MAX,
        0 <= i < rounds.len(),
    ensures
        states[i].carried matches Some(e) ==> cfg.samples + e.dims[1] <= usize::MAX,
{
    if i > 0 {
        let round = rounds[i - 1];
        let elites = choose|elites: TensorValue|
            #[trigger] elite(value(round.candidates), value(round.scores), cfg.elites, elites)
                && fits_elites(elites, cfg.min_std, states[i].distribution) && kept(
                elites,
                cfg.keep_elites,
                states[i].carried,
            );
        assert(kept(elites, cfg.keep_elites, states[i].carried));
        assert(elites.dims.len() == 4);
    }
}

/// Where at least one elite is kept, no round loses what an earlier one found:
/// under a scorer that gives a candidate the same score each time, the best score
/// of a round is no more than any score of an earlier round.
pub proof fn kept_elites_lose_no_ground<S: CandidateScorer, N: NoiseSource>(
    scorer: &S,
    cfg: IcemConfig,
    warm_start: Option<Tensor>,
    q: Request,
    low: TensorValue,
    high: TensorValue,
    states: Seq<IcemState>,
    rounds: Seq<Scored>,
    earlier: int,
    later: int,
    best: Seq<usize>,
    row: int,
    c: int,
)
    requires
        icem_search::<S, N>(scorer, cfg, warm_start, q, low, high, states, rounds),
        cfg.valid(),
        cfg.keep_elites > 0,
        cfg.samples + cfg.keep_elites <= usize::MAX,
        steady(scorer),
        0 <= earlier <= later < rounds.len(),
        ranks_best(value(rounds[later].scores), best),
        0 <= row < tensor_dims(rounds[earlier].candidates)[0],
        0 <= c < tensor_dims(rounds[earlier].candidates)[1],
    ensures
        score(value(rounds[later].scores), row, best[row] as int) <= score(
            value(rounds[earlier].scores),
            row,
            c,
        ),
{
    let k = lemma_later_round::<S, N>(
        scorer,
        cfg,
        warm_start,
        q,
        low,
        high,
        states,
        rounds,
        earlier,
        later,
        row,
        c,
    );
    lemma_round_shapes::<S, N>(
        scorer,
        cfg,
        q,
        low,
        high,
        states[later],
        rounds[later],
        states[later + 1],
    );
    reported_places_score_least(value(rounds[later].scores), best);
    assert(score(value(rounds[later].scores), row, best[row] as int) <= score(
        value(rounds[later].scores),
        row,
        k,
    ));
}

/// The rounds of a search, and that none of their scores is less than the best of
/// a plan.
pub open spec fn best_of_all<S: CandidateScorer, N: NoiseSource>(
    scorer: &S,
    cfg: IcemConfig,
    warm_start: Option<Tensor>,
    q: Request,
    p: PlanResult,
    low: TensorValue,
    high: TensorValue,
    states: Seq<IcemState>,
    rounds: Seq<Scored>,
) -> bool {
    &&& icem_search::<S, N>(scorer, cfg, warm_start, q, low, high, states, rounds)
    &&& rounds.len() == p.iterations_completed
    &&& p.scores == rounds.last().scores
    &&& forall|i: int, row: int, c: int|
        0 <= i < rounds.len() && 0 <= row < tensor_dims(rounds[i].candidates)[0] && 0 <= c
            < tensor_dims(rounds[i].candidates)[1] ==> score(
            value(p.scores),
            row,
            p.best_indices@[row] as int,
        ) <= #[trigger] score(value(rounds[i].scores), row, c)
}

/// A plan of the search that carries elites on is the best that any of its rounds
/// saw, under a scorer that gives a candidate the same score each time.
pub proof fn icem_plans_with_the_best_it_saw<S: CandidateScorer, N: NoiseSource>(
    scorer: &S,
    cfg: IcemConfig,
    warm_start: Option<Tensor>,
    q: Request,
    p: PlanResult,
)
    requires
        icem_plan::<S, N>(scorer, cfg, warm_start, q, p),
        p.fallback is NotUsed,
        cfg.valid(),
        cfg.keep_elites > 0,
        cfg.samples + cfg.keep_elites <= usize::MAX,
        steady(scorer),
    ensures
        exists|low: TensorValue, high: TensorValue, states: Seq<IcemState>, rounds: Seq<Scored>|
            #[trigger] best_of_all::<S, N>(
                scorer,
                cfg,
                warm_start,
                q,
                p,
                low,
                high,
                states,
                rounds,
            ),
{
    let (low, high, states, rounds) = choose|
        low: TensorValue,
        high: TensorValue,
        states: Seq<IcemState>,
        rounds: Seq<Scored>,
    |
        #[trigger] icem_search::<S, N>(scorer, cfg, warm_start, q, low, high, states, rounds)
            && rounds.len() == p.iterations_completed && 0 < p.iterations_completed && p.scores
            == rounds.last().scores && best_of(
            value(rounds.last().candidates),
            value(p.scores),
            p.best_indices@,
            value(p.sequence),
        );
    let last: int = rounds.len() - 1;
    assert(rounds[last] == rounds.last());
    assert(ranks_best(value(p.scores), p.best_indices@));
    assert forall|i: int, row: int, c: int|
        0 <= i < rounds.len() && 0 <= row < tensor_dims(rounds[i].candidates)[0] && 0 <= c
            < tensor_dims(rounds[i].candidates)[1] implies score(
        value(p.scores),
        row,
        p.best_indices@[row] as int,
    ) <= #[trigger] score(value(rounds[i].scores), row, c) by {
        kept_elites_lose_no_ground::<S, N>(
            scorer,
            cfg,
            warm_start,
            q,
            low,
            high,
            states,
            rounds,
            i,
            last,
            p.best_indices@,
            row,
            c,
        );
    }
    assert(best_of_all::<S, N>(scorer, cfg, warm_start, q, p, low, high, states, rounds));
}

} // verus!
