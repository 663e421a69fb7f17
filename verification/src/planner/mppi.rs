//! The path-integral planner.

use candle_core::Tensor;
use vstd::prelude::*;

use crate::error::{message, Result};
use crate::planner::clock::{deadline_elapsed, duration_nanos, now, since};
use crate::planner::config::MppiConfig;
use crate::planner::noise::{DeviceNoise, NoiseSource};
use crate::planner::outcome::{
    candidates_of, draws_refused, no_time, odd_draws, on_processor, search_failed, starts_with,
    stream_started, Sizes,
};
use crate::planner::refit::{lemma_fewer_fit, lemma_shapes_fit, lemma_usable_bounds};
use crate::planner::result::{
    best_rows, configured_fallback_result, is_fallback, no_fallback_complaint, ranks_best,
    repeats_action, PlanFallback,
    PlanResult, Scored,
};
use crate::planner::rng::{
    draws, draws_fit, normal_draw_reservation, reservation_complaint, reserve_stream, reserves,
    stream_after, PlannerRng,
};
use crate::planner::sampling::{
    answers_with, drawn, draws_unfit, mppi_weighted_sequence, sample_candidates, usable_bounds, weighted,
};
use crate::planner::scorer::{asked_for, scored, CandidateScorer, Request};
use crate::planner::selection::validate_scores_shape;
use crate::planner::workspace::{bound_tensor, uniform, PlannerWorkspace};
use crate::scalar::F32;
use crate::tensor::layout::{dims, element, location};
use crate::tensor::select::{pick_step, step_of};
use crate::tensor::value::{
    count, device_location, dtype_element, hosted, matching, tensor_dims, tensor_element, tensor_keys,
    tensor_location, value, TensorValue,
};

verus! {

/// Searches by averaging samples with weights that fall with their scores.
#[derive(Debug)]
pub struct MppiPlanner {
    pub config: MppiConfig,
    pub rng: PlannerRng,
    pub workspace: PlannerWorkspace,
}

/// One round of the search: candidates are drawn around a mean and scored, and
/// the next mean is their weighted average.
pub open spec fn mppi_round<S: CandidateScorer, N: NoiseSource>(
    scorer: &S,
    cfg: MppiConfig,
    q: Request,
    std: TensorValue,
    low: TensorValue,
    high: TensorValue,
    before: TensorValue,
    round: Scored,
    after: TensorValue,
) -> bool {
    &&& drawn::<N>(
        before,
        std,
        low,
        high,
        cfg.samples,
        q.element,
        q.location,
        value(round.candidates),
    )
    &&& scored(scorer, round.candidates, round.scores)
    &&& tensor_dims(round.scores) == seq![before.dims[0], cfg.samples]
    &&& weighted(value(round.candidates), value(round.scores), cfg.temperature, after)
}

/// The rounds of a search: the first mean is zero, the deviation is the
/// configured one throughout, and each round hands its mean to the next.
pub open spec fn mppi_search<S: CandidateScorer, N: NoiseSource>(
    scorer: &S,
    cfg: MppiConfig,
    q: Request,
    std: TensorValue,
    low: TensorValue,
    high: TensorValue,
    means: Seq<TensorValue>,
    rounds: Seq<Scored>,
) -> bool {
    let shape = seq![q.batch, cfg.horizon, cfg.action_dim];
    &&& means.len() == rounds.len() + 1
    &&& uniform(F32 { bits: 0 }, shape, q.element, q.location, means[0])
    &&& uniform(cfg.noise_std, shape, q.element, q.location, std)
    &&& forall|i: int|
        #![trigger rounds[i]]
        0 <= i < rounds.len() ==> mppi_round::<S, N>(
            scorer,
            cfg,
            q,
            std,
            low,
            high,
            means[i],
            rounds[i],
            means[i + 1],
        )
}

/// A plan that a search found: the mean after its last round.
pub open spec fn mppi_found<S: CandidateScorer, N: NoiseSource>(
    scorer: &S,
    cfg: MppiConfig,
    q: Request,
    p: PlanResult,
) -> bool {
    exists|
        std: TensorValue,
        low: TensorValue,
        high: TensorValue,
        means: Seq<TensorValue>,
        rounds: Seq<Scored>,
    |
        {
            &&& bound_tensor(cfg.action_bounds.low@, q.element, q.location, low)
            &&& bound_tensor(cfg.action_bounds.high@, q.element, q.location, high)
            &&& #[trigger] mppi_search::<S, N>(scorer, cfg, q, std, low, high, means, rounds)
            &&& rounds.len() == p.iterations_completed
            &&& 0 < p.iterations_completed <= cfg.iterations
            &&& p.scores == rounds.last().scores
            &&& ranks_best(value(p.scores), p.best_indices@)
            &&& value(p.sequence) == means.last()
        }
}

/// What an MPPI plan is.
pub open spec fn mppi_plan<S: CandidateScorer, N: NoiseSource>(
    scorer: &S,
    cfg: MppiConfig,
    q: Request,
    p: PlanResult,
) -> bool {
    &&& tensor_dims(p.sequence) == seq![q.batch, cfg.horizon, cfg.action_dim]
    &&& step_of(value(p.sequence), 0, value(p.first_action))
    &&& p.best_indices@.len() == q.batch
    &&& !p.used_host_elite_selection
    &&& p.deadline_reached == (p.iterations_completed < cfg.iterations)
    &&& match p.fallback {
        PlanFallback::NotUsed => mppi_found::<S, N>(scorer, cfg, q, p),
        PlanFallback::WarmStart => false,
        PlanFallback::ConfiguredAction => {
            &&& cfg.deadline is Some
            &&& cfg.fallback_action is Some
            &&& is_fallback(p, q.element, q.location, PlanFallback::ConfiguredAction)
            &&& repeats_action(
                cfg.fallback_action->0@,
                q.batch,
                cfg.horizon,
                q.element,
                q.location,
                value(p.sequence),
            )
        },
    }
}

/// The sizes of a search.
pub open spec fn mppi_sizes(cfg: MppiConfig) -> Sizes {
    Sizes {
        samples: cfg.samples,
        most: cfg.samples as int,
        horizon: cfg.horizon,
        action_dim: cfg.action_dim,
    }
}

/// Whether a scorer can have given the candidates of a round scores that they
/// cannot be weighed with where they are.
pub open spec fn unweighable<S: CandidateScorer>(scorer: &S, q: Request, sizes: Sizes) -> bool {
    exists|c: Tensor, s: Tensor|
        #[trigger] candidates_of(q, sizes, c) && #[trigger] scored(scorer, c, s) && !(hosted(
            value(s),
        ) && tensor_element(s) == q.element && tensor_keys(s).len() > 0)
}

/// What a plan with valid settings can come to, given where the planner's stream
/// stood before it.
pub open spec fn mppi_outcome<S: CandidateScorer, N: NoiseSource>(
    scorer: &S,
    cfg: MppiConfig,
    before: PlannerRng,
    q: Request,
    r: Result<PlanResult>,
) -> bool {
    match r {
        Ok(p) => mppi_plan::<S, N>(scorer, cfg, q, p) && stream_started::<N>(
            cfg.seed,
            before,
            q.location,
        ),
        Err(e) => {
            ||| reservation_complaint(
                before,
                cfg.seed,
                q.batch,
                cfg.samples,
                cfg.horizon,
                cfg.action_dim,
                cfg.iterations,
            ) matches Some(text) && e.says(text)
            ||| search_failed::<S, N>(
                scorer,
                q,
                mppi_sizes(cfg),
                cfg.seed,
                before,
                cfg.deadline,
                e,
            )
            ||| e is Backend && !no_time(cfg.deadline) && unweighable(scorer, q, mppi_sizes(cfg))
            ||| cfg.deadline is Some && cfg.fallback_action is None && e.says(
                no_fallback_complaint("MPPI"@),
            )
        },
    }
}

impl MppiPlanner {
    /// The tensors that the planner keeps are what they were made for.
    pub open spec fn well_formed(self) -> bool {
        self.workspace.well_formed()
    }

    pub fn new(config: MppiConfig) -> (r: Self)
        ensures
            r.config == config,
            r.rng.next_offset == 0,
            r.well_formed(),
    {
        Self { config, rng: PlannerRng::new(), workspace: PlannerWorkspace::new() }
    }

    pub fn config(&self) -> (r: &MppiConfig)
        ensures
            *r == self.config,
    {
        &self.config
    }

    /// Starts the stream of seeded noise over.
    pub fn reset_rng_sequence(&mut self)
        ensures
            final(self).rng.next_offset == 0,
            final(self).config == old(self).config,
            final(self).workspace == old(self).workspace,
    {
        self.rng.reset();
    }

    pub fn rng_offset(&self) -> (r: u64)
        ensures
            r == self.rng.next_offset,
    {
        self.rng.offset()
    }

    /// Plans with the noise of the device.
    pub fn plan<S: CandidateScorer>(&mut self, scorer: &S) -> (r: Result<PlanResult>)
        requires
            old(self).well_formed(),
        ensures
            final(self).well_formed(),
            final(self).config == old(self).config,
            old(self).config.complaint() matches Some(text) ==> r is Err && r->Err_0.says(text)
                && *final(self) == *old(self),
            r matches Ok(p) ==> exists|q: Request|
                #[trigger] asked_for(scorer, q) && mppi_plan::<S, DeviceNoise>(scorer, old(self).config, q, p),
            r is Ok && old(self).config.deadline is None ==> !r->Ok_0.deadline_reached
                && r->Ok_0.fallback is NotUsed,
            r is Ok && old(self).config.deadline is Some && duration_nanos(
                old(self).config.deadline->0,
            ) == 0 ==> r->Ok_0.fallback is ConfiguredAction,
            old(self).config.deadline is Some && duration_nanos(old(self).config.deadline->0) == 0
                && old(self).config.fallback_action is None ==> r is Err,
            old(self).config.complaint() is None ==> exists|q: Request|
                #[trigger] asked_for(scorer, q) && reserves(
                    old(self).rng,
                    old(self).config.seed,
                    q.batch,
                    old(self).config.samples,
                    old(self).config.horizon,
                    old(self).config.action_dim,
                    old(self).config.iterations,
                    r,
                    final(self).rng,
                ) && mppi_outcome::<S, DeviceNoise>(scorer, old(self).config, old(self).rng, q, r),
            old(self).config.seed is Some ==> r is Err,
    {
        let mut noise = DeviceNoise;
        self.plan_with_noise(scorer, &mut noise)
    }

    /// Plans with the noise of a source.
    pub fn plan_with_noise<S: CandidateScorer, N: NoiseSource>(
        &mut self,
        scorer: &S,
        noise: &mut N,
    ) -> (r: Result<PlanResult>)
        requires
            old(self).well_formed(),
        ensures
            final(self).well_formed(),
            final(self).config == old(self).config,
            old(self).config.complaint() matches Some(text) ==> r is Err && r->Err_0.says(text)
                && *final(self) == *old(self),
            r matches Ok(p) ==> exists|q: Request|
                #[trigger] asked_for(scorer, q) && mppi_plan::<S, N>(scorer, old(self).config, q, p),
            r is Ok && old(self).config.deadline is None ==> !r->Ok_0.deadline_reached
                && r->Ok_0.fallback is NotUsed,
            r is Ok && old(self).config.deadline is Some && duration_nanos(
                old(self).config.deadline->0,
            ) == 0 ==> r->Ok_0.fallback is ConfiguredAction,
            old(self).config.deadline is Some && duration_nanos(old(self).config.deadline->0) == 0
                && old(self).config.fallback_action is None ==> r is Err,
            old(self).config.complaint() is None ==> exists|q: Request|
                #[trigger] asked_for(scorer, q) && reserves(
                    old(self).rng,
                    old(self).config.seed,
                    q.batch,
                    old(self).config.samples,
                    old(self).config.horizon,
                    old(self).config.action_dim,
                    old(self).config.iterations,
                    r,
                    final(self).rng,
                ) && mppi_outcome::<S, N>(scorer, old(self).config, old(self).rng, q, r),
    {
        self.config.validate()?;
        let start = now();
        let device = scorer.device();
        let dtype = scorer.dtype();
        let asked = scorer.batch_size();
        let batch: usize = match asked {
            Some(b) => b,
            None => 1,
        };
        let ghost cfg = self.config;
        let ghost q = Request {
            batch,
            element: dtype_element(dtype),
            location: device_location(*device),
        };
        proof {
            assert(asked_for(scorer, q));
        }
        let horizon: usize = self.config.horizon;
        let samples: usize = self.config.samples;
        let iterations: usize = self.config.iterations;
        let action_dim: usize = self.config.action_dim;
        let noise_std: F32 = self.config.noise_std;
        let temperature: F32 = self.config.temperature;
        let deadline = self.config.deadline;
        let reserved: u64 = normal_draw_reservation(
            batch,
            samples,
            horizon,
            action_dim,
            iterations,
        )?;
        match reserve_stream(&mut self.rng, self.config.seed, reserved)? {
            Some((seed, offset)) => match noise.begin(seed, offset, device) {
                Ok(started) => {
                    proof {
                        assert(starts_with::<N>(seed, offset, q.location, Ok(started)));
                    }
                },
                Err(e) => {
                    proof {
                        assert(starts_with::<N>(seed, offset, q.location, Err(e)));
                    }
                    return Err(e);
                },
            },
            None => {},
        }
        proof {
            assert(stream_started::<N>(cfg.seed, old(self).rng, q.location));
            lemma_shapes_fit(batch, samples, horizon, action_dim);
            lemma_fewer_fit(batch, 1, samples, horizon, action_dim);
        }
        let ghost sizes = mppi_sizes(cfg);
        let mut mean = self.workspace.sequence(
            batch,
            horizon,
            action_dim,
            dtype,
            device,
            F32::from_bits(0),
        )?;
        let std = self.workspace.sequence(
            batch,
            horizon,
            action_dim,
            dtype,
            device,
            noise_std,
        )?;
        let (low, high) = self.workspace.bounds(&self.config.action_bounds, dtype, device)?;
        let ghost shape = seq![batch, horizon, action_dim];
        let ghost lo = value(low);
        let ghost hi = value(high);
        let ghost sd = value(std);
        let ghost mut means: Seq<TensorValue> = seq![value(mean)];
        let ghost mut rounds: Seq<Scored> = seq![];
        proof {
            lemma_usable_bounds(
                cfg.action_bounds,
                action_dim,
                q.element,
                q.location,
                lo,
                hi,
            );
        }
        let mut last: Option<Tensor> = None;
        let mut completed: usize = 0;
        let mut stopped = false;
        while !stopped && completed < iterations
            invariant
                completed <= iterations,
                stopped ==> 0 < completed < iterations && deadline is Some,
                deadline is Some && duration_nanos(deadline->0) == 0 ==> completed == 0,
                deadline == cfg.deadline,
                self.config == cfg,
                cfg.valid(),
                cfg.horizon == horizon,
                cfg.samples == samples,
                cfg.iterations == iterations,
                cfg.action_dim == action_dim,
                cfg.temperature == temperature,
                q == (Request {
                    batch,
                    element: dtype_element(dtype),
                    location: device_location(*device),
                }),
                self.well_formed(),
                shape == seq![batch, horizon, action_dim],
                count(seq![batch, samples, horizon, action_dim]) <= usize::MAX,
                count(seq![batch, samples]) <= usize::MAX,
                usable_bounds(lo, hi, q.element, action_dim),
                lo == value(low),
                hi == value(high),
                sd == value(std),
                mppi_search::<S, N>(scorer, cfg, q, sd, lo, hi, means, rounds),
                rounds.len() == completed,
                value(mean) == means.last(),
                tensor_dims(mean) == shape,
                tensor_dims(std) == shape,
                tensor_element(mean) == q.element,
                tensor_location(mean) == q.location,
                matching(value(mean), value(std)),
                lo.location == q.location,
                hi.location == q.location,
                completed > 0 ==> last == Some(rounds.last().scores) && tensor_dims(
                    rounds.last().scores,
                ) == seq![batch, samples] && candidates_of(q, sizes, rounds.last().candidates),
                asked_for(scorer, q),
                sizes == mppi_sizes(cfg),
                stream_started::<N>(cfg.seed, old(self).rng, q.location),
                count(seq![batch, horizon, action_dim]) <= usize::MAX,
                completed > 0 ==> !no_time(deadline),
                stream_after(old(self).rng, cfg.seed, reserved as int, self.rng),
                reserved == draws(batch, samples, horizon, action_dim) * iterations,
                draws_fit(batch, samples, horizon, action_dim),
                reservation_complaint(
                    old(self).rng,
                    cfg.seed,
                    batch,
                    samples,
                    horizon,
                    action_dim,
                    iterations,
                ) is None,
                old(self).config == cfg,
                cfg.complaint() is None,
            decreases iterations - completed, !stopped as int,
        {
            if deadline_elapsed(&start, deadline) {
                if completed == 0 {
                    return configured_fallback_result(
                        &self.config.fallback_action,
                        batch,
                        horizon,
                        dtype,
                        device,
                        &start,
                        "MPPI",
                    );
                }
                stopped = true;
            } else {
                let candidates = match sample_candidates(
                    &mean,
                    &std,
                    samples,
                    &low,
                    &high,
                    dtype,
                    device,
                    noise,
                ) {
                    Ok(candidates) => candidates,
                    Err(e) => {
                        proof {
                            let dims = seq![batch, samples, horizon, action_dim];
                            assert(dims == seq![shape[0], samples, shape[1], shape[2]]);
                            assert(dims == seq![
                                q.batch,
                                sizes.samples,
                                sizes.horizon,
                                sizes.action_dim,
                            ]);
                            if answers_with::<N>(dims, dtype, device, Err(e)) {
                                assert(draws_refused::<N>(q, sizes, e));
                            } else if draws_unfit::<N>(dims, dtype, device) {
                                assert(odd_draws::<N>(q, sizes));
                            } else {
                                assert(!on_processor(q));
                            }
                        }
                        return Err(e);
                    },
                };
                proof {
                    assert(candidates_of(q, sizes, candidates));
                }
                let scores = match scorer.score_candidates(&candidates) {
                    Ok(scores) => scores,
                    Err(e) => {
                        return Err(e);
                    },
                };
                proof {
                    assert(scored(scorer, candidates, scores));
                }
                validate_scores_shape(&scores, batch, samples)?;
                let next_mean = mppi_weighted_sequence(&candidates, &scores, temperature)?;
                let ghost before = means.last();
                let ghost after = value(next_mean);
                let ghost round = Scored { candidates, scores };
                proof {
                    assert(mppi_round::<S, N>(scorer, cfg, q, sd, lo, hi, before, round, after));
                    let new_means = means.push(after);
                    let new_rounds = rounds.push(round);
                    assert forall|i: int|
                        #![trigger new_rounds[i]]
                        0 <= i < new_rounds.len() implies mppi_round::<S, N>(
                        scorer,
                        cfg,
                        q,
                        sd,
                        lo,
                        hi,
                        new_means[i],
                        new_rounds[i],
                        new_means[i + 1],
                    ) by {
                        if i < rounds.len() {
                            assert(new_rounds[i] == rounds[i]);
                        }
                    }
                    means = new_means;
                    rounds = new_rounds;
                }
                mean = next_mean;
                last = Some(scores);
                completed = completed + 1;
            }
        }
        let scores = match last {
            Some(scores) => scores,
            None => {
                return Err(message("MPPI did not produce scores"));
            },
        };
        proof {
            let round = rounds[completed - 1];
            assert(rounds.last() == round);
            assert(candidates_of(q, sizes, round.candidates));
            assert(scored(scorer, round.candidates, round.scores));
        }
        let best_indices = best_rows(&scores)?;
        let sequence = mean;
        let first_action = pick_step(&sequence, 0)?;
        let result = PlanResult {
            first_action,
            sequence,
            scores,
            best_indices,
            iterations_completed: completed,
            elapsed: since(&start),
            deadline_reached: stopped,
            fallback: PlanFallback::NotUsed,
            used_host_elite_selection: false,
        };
        proof {
            assert(mppi_search::<S, N>(scorer, cfg, q, sd, lo, hi, means, rounds));
            assert(mppi_found::<S, N>(scorer, cfg, q, result));
        }
        Ok(result)
    }
}

impl Clone for MppiPlanner {
    /// A copy goes on from the same position of the stream and keeps no tensors.
    fn clone(&self) -> (r: Self)
        ensures
            r.config.same_as(self.config),
            r.rng == self.rng,
            r.workspace.bounds_cache is None,
            r.workspace.sequence_cache is None,
            r.well_formed(),
    {
        Self {
            config: self.config.clone(),
            rng: self.rng,
            workspace: self.workspace.clone(),
        }
    }
}

} // verus!
