//! What every round of a search hands on.

use vstd::prelude::*;

use crate::planner::cem::{cem_plan, cem_search};
use crate::planner::config::{CemConfig, IcemConfig, MppiConfig};
use crate::planner::drawn::weighted_sequences_add_weighted_candidates;
use crate::planner::icem::{icem_plan, icem_search, IcemState};
use crate::planner::mppi::{mppi_plan, mppi_search};
use crate::planner::noise::NoiseSource;
use crate::planner::refit::Distribution;
use crate::planner::result::{PlanResult, Scored};
use crate::planner::sampling::weighted;
use crate::planner::scorer::{CandidateScorer, Request};
use crate::planner::sharpened::{
    are_logits, comparable, minus_inverse, weights_are_softmax_of_logits, well_above_zero,
};
use crate::planner::workspace::{keys_of, rounded_number, uniform};
use crate::rounding::{finite, rounds_to, scale, units};
use crate::scalar::F32;
use crate::tensor::arithmetic::{adds_up, exact, finite_along, is_softmax};
use crate::tensor::facts::lemma_second_axis;
use crate::tensor::make::filled;
use crate::tensor::select::step_of;
use crate::tensor::value::{count, in_range, inner, value, TensorValue};

verus! {

/// Whether an action is the first step of a sequence `[batch, horizon, action]`, for
/// each entry of the batch.
pub open spec fn opens(sequence: TensorValue, action: TensorValue) -> bool {
    let (h, a) = (sequence.dims[1] as int, sequence.dims[2] as int);
    forall|o: int, i: int|
        #![trigger action.keys[o * a + i]]
        0 <= o < sequence.dims[0] && 0 <= i < a && h > 0 ==> action.keys[o * a + i]
            == sequence.keys[(o * h) * a + i]
}

proof fn lemma_opens(sequence: TensorValue, action: TensorValue)
    requires
        sequence.dims.len() == 3,
        step_of(sequence, 0, action),
    ensures
        opens(sequence, action),
{
    let (b, h, a) = (sequence.dims[0], sequence.dims[1], sequence.dims[2]);
    assert(sequence.dims =~= seq![b, h, a]);
    lemma_second_axis(b, h, a, a);
    lemma_second_axis(b, a, a, a);
    assert forall|o: int, i: int|
        #![trigger action.keys[o * a + i]]
        0 <= o < b && 0 <= i < a && h > 0 implies action.keys[o * a + i] == sequence.keys[(o * h) * a
        + i] by {
        assert(action.at(1, o, i, 0) == sequence.at(1, o, 0, i));
        assert((o * a + i) * 1 + 0 == o * a + i);
        assert((o * h + 0) * a + i == (o * h) * a + i);
    }
}

/// The action that a CEM plan asks for first is the first of its sequence.
pub proof fn cem_plans_open_with_their_first_step<S: CandidateScorer, N: NoiseSource>(
    scorer: &S,
    cfg: CemConfig,
    q: Request,
    p: PlanResult,
)
    requires
        cem_plan::<S, N>(scorer, cfg, q, p),
    ensures
        opens(value(p.sequence), value(p.first_action)),
{
    lemma_opens(value(p.sequence), value(p.first_action));
}

/// The action that an iCEM plan asks for first is the first of its sequence.
pub proof fn icem_plans_open_with_their_first_step<S: CandidateScorer, N: NoiseSource>(
    scorer: &S,
    cfg: IcemConfig,
    warm_start: Option<candle_core::Tensor>,
    q: Request,
    p: PlanResult,
)
    requires
        icem_plan::<S, N>(scorer, cfg, warm_start, q, p),
    ensures
        opens(value(p.sequence), value(p.first_action)),
{
    lemma_opens(value(p.sequence), value(p.first_action));
}

/// The action that an MPPI plan asks for first is the first of its sequence.
pub proof fn mppi_plans_open_with_their_first_step<S: CandidateScorer, N: NoiseSource>(
    scorer: &S,
    cfg: MppiConfig,
    q: Request,
    p: PlanResult,
)
    requires
        mppi_plan::<S, N>(scorer, cfg, q, p),
    ensures
        opens(value(p.sequence), value(p.first_action)),
{
    lemma_opens(value(p.sequence), value(p.first_action));
}

/// Whether every element of a sequence is one number.
pub open spec fn all_are(v: TensorValue, key: int) -> bool {
    forall|k: int| 0 <= k < v.keys.len() ==> #[trigger] v.keys[k] == key
}

proof fn lemma_uniform(x: F32, q: Request, dims: Seq<usize>, v: TensorValue)
    requires
        uniform(x, dims, q.element, q.location, v),
        q.element is F32,
    ensures
        all_are(v, x.key()),
{
    if x.key() != 0 {
        let c = choose|c: Seq<int>| #[trigger]
            rounded_number(x, q.element, q.location, c) && v.keys == filled(dims, c[0]);
        assert(c == keys_of(seq![x]));
        assert(c[0] == x.key());
    }
}

/// A CEM search starts from a mean of zero and the configured deviation.
pub proof fn cem_searches_start_from_zero<S: CandidateScorer, N: NoiseSource>(
    scorer: &S,
    cfg: CemConfig,
    q: Request,
    low: TensorValue,
    high: TensorValue,
    states: Seq<Distribution>,
    rounds: Seq<Scored>,
)
    requires
        cem_search::<S, N>(scorer, cfg, q, low, high, states, rounds),
        q.element is F32,
    ensures
        all_are(states[0].mean, 0),
        all_are(states[0].std, cfg.init_std.key()),
{
    let shape = seq![q.batch, cfg.horizon, cfg.action_dim];
    lemma_uniform(F32 { bits: 0 }, q, shape, states[0].mean);
    lemma_uniform(cfg.init_std, q, shape, states[0].std);
}

/// An iCEM search starts from the warm start, or from zero without one, and from the
/// configured deviation.
pub proof fn icem_searches_start_from_their_warm_start<S: CandidateScorer, N: NoiseSource>(
    scorer: &S,
    cfg: IcemConfig,
    warm_start: Option<candle_core::Tensor>,
    q: Request,
    low: TensorValue,
    high: TensorValue,
    states: Seq<IcemState>,
    rounds: Seq<Scored>,
)
    requires
        icem_search::<S, N>(scorer, cfg, warm_start, q, low, high, states, rounds),
        q.element is F32,
    ensures
        warm_start is None ==> all_are(states[0].distribution.mean, 0),
        warm_start matches Some(t) ==> (value(t).element is F32
            ==> states[0].distribution.mean.keys == value(t).keys),
        all_are(states[0].distribution.std, cfg.init_std.key()),
{
    let shape = seq![q.batch, cfg.horizon, cfg.action_dim];
    if warm_start is None {
        lemma_uniform(F32 { bits: 0 }, q, shape, states[0].distribution.mean);
    }
    lemma_uniform(cfg.init_std, q, shape, states[0].distribution.std);
}

/// An MPPI search starts from a mean of zero, and deviates as configured throughout.
pub proof fn mppi_searches_start_from_zero<S: CandidateScorer, N: NoiseSource>(
    scorer: &S,
    cfg: MppiConfig,
    q: Request,
    std: TensorValue,
    low: TensorValue,
    high: TensorValue,
    means: Seq<TensorValue>,
    rounds: Seq<Scored>,
)
    requires
        mppi_search::<S, N>(scorer, cfg, q, std, low, high, means, rounds),
        q.element is F32,
    ensures
        all_are(means[0], 0),
        all_are(std, cfg.noise_std.key()),
{
    let shape = seq![q.batch, cfg.horizon, cfg.action_dim];
    lemma_uniform(F32 { bits: 0 }, q, shape, means[0]);
    lemma_uniform(cfg.noise_std, q, shape, std);
}

/// Candidates with their weights.
pub struct Weighed {
    pub candidates: TensorValue,
    pub factor: int,
    pub logits: TensorValue,
    pub weights: TensorValue,
    pub parts: TensorValue,
}

/// Whether a sequence is the sum of candidates, each times its weight, which is the
/// softmax of how far its score lies above the best one, over minus a temperature.
pub open spec fn weighs_up(
    scores: TensorValue,
    temperature: F32,
    w: Weighed,
    sequence: TensorValue,
) -> bool {
    let e = w.candidates.element;
    let dims = w.candidates.dims;
    &&& minus_inverse(temperature, w.factor)
    &&& are_logits(scores, w.factor, w.logits)
    &&& is_softmax(w.logits, 1, w.weights)
    &&& forall|o: int, m: int, i: int|
        in_range(dims, 1, o, m, i) && finite(e, w.candidates.at(1, o, m, i)) && finite(
            e,
            w.weights.at(1, o, m, 0),
        ) ==> rounds_to(
            e,
            units(e, w.candidates.at(1, o, m, i)) * units(e, w.weights.at(1, o, m, 0)),
            scale(e),
            #[trigger] w.parts.at(1, o, m, i),
        )
    &&& forall|o: int, i: int|
        0 <= o < dims[0] && 0 <= i < inner(dims, 1) && finite_along(w.parts, 1, o, i)
            ==> #[trigger] adds_up(w.parts, 1, o, i, sequence)
}

/// The mean that an MPPI round hands on weighs up its candidates at the configured
/// temperature.
pub proof fn mppi_rounds_weigh_up_their_candidates<S: CandidateScorer, N: NoiseSource>(
    scorer: &S,
    cfg: MppiConfig,
    q: Request,
    std: TensorValue,
    low: TensorValue,
    high: TensorValue,
    means: Seq<TensorValue>,
    rounds: Seq<Scored>,
    i: int,
) -> (w: Weighed)
    requires
        mppi_search::<S, N>(scorer, cfg, q, std, low, high, means, rounds),
        0 <= i < rounds.len(),
        well_above_zero(cfg.temperature),
        comparable(value(rounds[i].scores)),
        exact(value(rounds[i].candidates)),
        value(rounds[i].candidates).keys.len() == count(value(rounds[i].candidates).dims),
        means[i].dims.len() == 3,
    ensures
        w.candidates == value(rounds[i].candidates),
        weighs_up(value(rounds[i].scores), cfg.temperature, w, means[i + 1]),
{
    let (c, s) = (value(rounds[i].candidates), value(rounds[i].scores));
    assert(c.dims == seq![means[i].dims[0], cfg.samples, means[i].dims[1], means[i].dims[2]]);
    assert(weighted(c, s, cfg.temperature, means[i + 1]));
    let (weights, parts) = weighted_sequences_add_weighted_candidates(
        c,
        s,
        cfg.temperature,
        means[i + 1],
    );
    let (factor, logits) = weights_are_softmax_of_logits(s, cfg.temperature, weights);
    Weighed { candidates: c, factor, logits, weights, parts }
}

} // verus!
