//! The cross-entropy planner.

use vstd::prelude::*;

use crate::error::{message, Result};
use crate::planner::clock::{deadline_elapsed, duration_nanos, now, since};
use crate::planner::config::CemConfig;
use crate::planner::noise::{DeviceNoise, NoiseSource};
use crate::planner::outcome::{
    candidates_of, draws_refused, no_time, odd_draws, on_processor, search_failed, starts_with,
    stream_started, Sizes,
};
use crate::planner::refit::{
    fit_elites, fits_elites, lemma_fewer_fit, lemma_shapes_fit, lemma_usable_bounds, Distribution,
};
use crate::planner::result::{
    best_candidates, best_of, configured_fallback_result, is_fallback, no_fallback_complaint,
    on_host, repeats_action, PlanFallback, PlanResult, Scored,
};
use crate::planner::rng::{
    draws, draws_fit, normal_draw_reservation, reservation_complaint, reserve_stream, reserves,
    stream_after, PlannerRng,
};
use crate::planner::sampling::{
    answers_with, bounded, drawn, draws_unfit, sample_candidates, usable_bounds,
};
use crate::planner::scorer::{asked_for, scored, CandidateScorer, Request};
use crate::planner::selection::{elite, select_elites, validate_scores_shape};
use crate::planner::within::lemma_best_bounded;
use crate::planner::workspace::{bound_tensor, uniform, PlannerWorkspace};
use crate::scalar::F32;
use crate::tensor::layout::{dims, element, location};
use crate::tensor::select::{pick_step, step_of};
use crate::tensor::value::{
    count, device_location, dtype_element, matching, plain, tensor_dims, tensor_element, tensor_keys,
    tensor_location, value, TensorValue,
};

verus! {

/// Searches by refitting a distribution to the best of its samples.
#[derive(Debug)]
pub struct CemPlanner {
    pub config: CemConfig,
    pub rng: PlannerRng,
    pub workspace: PlannerWorkspace,
}

/// One round of the search: candidates are drawn from a distribution and scored,
/// and the next distribution is fitted to the best of them.
pub open spec fn cem_round<S: CandidateScorer, N: NoiseSource>(
    scorer: &S,
    cfg: CemConfig,
    q: Request,
    low: TensorValue,
    high: TensorValue,
    before: Distribution,
    round: Scored,
    after: Distribution,
) -> bool {
    &&& drawn::<N>(
        before.mean,
        before.std,
        low,
        high,
        cfg.samples,
        q.element,
        q.location,
        value(round.candidates),
    )
    &&& scored(scorer, round.candidates, round.scores)
    &&& tensor_dims(round.scores) == seq![before.mean.dims[0], cfg.samples]
    &&& exists|elites: TensorValue|
        #[trigger] elite(value(round.candidates), value(round.scores), cfg.elites, elites)
            && fits_elites(elites, cfg.min_std, after)
}

/// The rounds of a search: the first distribution has mean zero and the
/// configured deviation, and each round hands its distribution to the next.
pub open spec fn cem_search<S: CandidateScorer, N: NoiseSource>(
    scorer: &S,
    cfg: CemConfig,
    q: Request,
    low: TensorValue,
    high: TensorValue,
    states: Seq<Distribution>,
    rounds: Seq<Scored>,
) -> bool {
    let shape = seq![q.batch, cfg.horizon, cfg.action_dim];
    &&& states.len() == rounds.len() + 1
    &&& uniform(F32 { bits: 0 }, shape, q.element, q.location, states[0].mean)
    &&& uniform(cfg.init_std, shape, q.element, q.location, states[0].std)
    &&& forall|i: int|
        #![trigger rounds[i]]
        0 <= i < rounds.len() ==> cem_round::<S, N>(
            scorer,
            cfg,
            q,
            low,
            high,
            states[i],
            rounds[i],
            states[i + 1],
        )
}

/// A plan that a search found: the best candidate of its last round.
pub open spec fn cem_found<S: CandidateScorer, N: NoiseSource>(
    scorer: &S,
    cfg: CemConfig,
    q: Request,
    p: PlanResult,
) -> bool {
    exists|low: TensorValue, high: TensorValue, states: Seq<Distribution>, rounds: Seq<Scored>|
        {
            &&& bound_tensor(cfg.action_bounds.low@, q.element, q.location, low)
            &&& bound_tensor(cfg.action_bounds.high@, q.element, q.location, high)
            &&& #[trigger] cem_search::<S, N>(scorer, cfg, q, low, high, states, rounds)
            &&& rounds.len() == p.iterations_completed
            &&& 0 < p.iterations_completed <= cfg.iterations
            &&& p.scores == rounds.last().scores
            &&& best_of(
                value(rounds.last().candidates),
                value(p.scores),
                p.best_indices@,
                value(p.sequence),
            )
            &&& plain(q.element) ==> bounded(value(p.sequence), low, high)
        }
}

/// What a CEM plan is.
pub open spec fn cem_plan<S: CandidateScorer, N: NoiseSource>(
    scorer: &S,
    cfg: CemConfig,
    q: Request,
    p: PlanResult,
) -> bool {
    &&& tensor_dims(p.sequence) == seq![q.batch, cfg.horizon, cfg.action_dim]
    &&& step_of(value(p.sequence), 0, value(p.first_action))
    &&& p.best_indices@.len() == q.batch
    &&& p.used_host_elite_selection == (p.fallback is NotUsed && q.location is Cpu)
    &&& p.deadline_reached == (p.iterations_completed < cfg.iterations)
    &&& match p.fallback {
        PlanFallback::NotUsed => cem_found::<S, N>(scorer, cfg, q, p),
        PlanFallback::WarmStart => false,
        PlanFallback::ConfiguredAction => {
            &&& cfg.deadline is Some
            &&& cfg.fallback_action is Some
            &&& is_fallback(p, q.element, q.location, PlanFallback::ConfiguredAction)
            &&& repeats_action(
                cfg.fallback_action->0@,
                q.batch,
                cfg.horizon,
                q.element,
                q.location,
                value(p.sequence),
            )
        },
    }
}

/// The sizes of a search.
pub open spec fn cem_sizes(cfg: CemConfig) -> Sizes {
    Sizes {
        samples: cfg.samples,
        most: cfg.samples as int,
        horizon: cfg.horizon,
        action_dim: cfg.action_dim,
    }
}

/// What a plan with valid settings can come to, given where the planner's stream
/// stood before it.
pub open spec fn cem_outcome<S: CandidateScorer, N: NoiseSource>(
    scorer: &S,
    cfg: CemConfig,
    before: PlannerRng,
    q: Request,
    r: Result<PlanResult>,
) -> bool {
    match r {
        Ok(p) => cem_plan::<S, N>(scorer, cfg, q, p) && stream_started::<N>(
            cfg.seed,
            before,
            q.location,
        ),
        Err(e) => {
            ||| reservation_complaint(
                before,
                cfg.seed,
                q.batch,
                cfg.samples,
                cfg.horizon,
                cfg.action_dim,
                cfg.iterations,
            ) matches Some(text) && e.says(text)
            ||| search_failed::<S, N>(
                scorer,
                q,
                cem_sizes(cfg),
                cfg.seed,
                before,
                cfg.deadline,
                e,
            )
            ||| cfg.deadline is Some && cfg.fallback_action is None && e.says(
                no_fallback_complaint("CEM"@),
            )
        },
    }
}

impl CemPlanner {
    /// The tensors that the planner keeps are what they were made for.
    pub open spec fn well_formed(self) -> bool {
        self.workspace.well_formed()
    }

    pub fn new(config: CemConfig) -> (r: Self)
        ensures
            r.config == config,
            r.rng.next_offset == 0,
            r.well_formed(),
    {
        Self { config, rng: PlannerRng::new(), workspace: PlannerWorkspace::new() }
    }

    pub fn config(&self) -> (r: &CemConfig)
        ensures
            *r == self.config,
    {
        &self.config
    }

    /// Starts the stream of seeded noise over.
    pub fn reset_rng_sequence(&mut self)
        ensures
            final(self).rng.next_offset == 0,
            final(self).config == old(self).config,
            final(self).workspace == old(self).workspace,
    {
        self.rng.reset();
    }

    pub fn rng_offset(&self) -> (r: u64)
        ensures
            r == self.rng.next_offset,
    {
        self.rng.offset()
    }

    /// Plans with the noise of the device.
    pub fn plan<S: CandidateScorer>(&mut self, scorer: &S) -> (r: Result<PlanResult>)
        requires
            old(self).well_formed(),
        ensures
            final(self).well_formed(),
            final(self).config == old(self).config,
            old(self).config.complaint() matches Some(text) ==> r is Err && r->Err_0.says(text)
                && *final(self) == *old(self),
            r matches Ok(p) ==> exists|q: Request|
                #[trigger] asked_for(scorer, q) && cem_plan::<S, DeviceNoise>(scorer, old(self).config, q, p),
            r is Ok && old(self).config.deadline is None ==> !r->Ok_0.deadline_reached
                && r->Ok_0.fallback is NotUsed,
            r is Ok && old(self).config.deadline is Some && duration_nanos(
                old(self).config.deadline->0,
            ) == 0 ==> r->Ok_0.fallback is ConfiguredAction,
            old(self).config.deadline is Some && duration_nanos(old(self).config.deadline->0) == 0
                && old(self).config.fallback_action is None ==> r is Err,
            old(self).config.complaint() is None ==> exists|q: Request|
                #[trigger] asked_for(scorer, q) && reserves(
                    old(self).rng,
                    old(self).config.seed,
                    q.batch,
                    old(self).config.samples,
                    old(self).config.horizon,
                    old(self).config.action_dim,
                    old(self).config.iterations,
                    r,
                    final(self).rng,
                ) && cem_outcome::<S, DeviceNoise>(scorer, old(self).config, old(self).rng, q, r),
            old(self).config.seed is Some ==> r is Err,
    {
        let mut noise = DeviceNoise;
        self.plan_with_noise(scorer, &mut noise)
    }

    /// Plans with the noise of a source.
    pub fn plan_with_noise<S: CandidateScorer, N: NoiseSource>(
        &mut self,
        scorer: &S,
        noise: &mut N,
    ) -> (r: Result<PlanResult>)
        requires
            old(self).well_formed(),
        ensures
            final(self).well_formed(),
            final(self).config == old(self).config,
            old(self).config.complaint() matches Some(text) ==> r is Err && r->Err_0.says(text)
                && *final(self) == *old(self),
            r matches Ok(p) ==> exists|q: Request|
                #[trigger] asked_for(scorer, q) && cem_plan::<S, N>(scorer, old(self).config, q, p),
            r is Ok && old(self).config.deadline is None ==> !r->Ok_0.deadline_reached
                && r->Ok_0.fallback is NotUsed,
            r is Ok && old(self).config.deadline is Some && duration_nanos(
                old(self).config.deadline->0,
            ) == 0 ==> r->Ok_0.fallback is ConfiguredAction,
            old(self).config.deadline is Some && duration_nanos(old(self).config.deadline->0) == 0
                && old(self).config.fallback_action is None ==> r is Err,
            old(self).config.complaint() is None ==> exists|q: Request|
                #[trigger] asked_for(scorer, q) && reserves(
                    old(self).rng,
                    old(self).config.seed,
                    q.batch,
                    old(self).config.samples,
                    old(self).config.horizon,
                    old(self).config.action_dim,
                    old(self).config.iterations,
                    r,
                    final(self).rng,
                ) && cem_outcome::<S, N>(scorer, old(self).config, old(self).rng, q, r),
    {
        self.config.validate()?;
        let start = now();
        let device = scorer.device();
        let dtype = scorer.dtype();
        let asked = scorer.batch_size();
        let batch: usize = match asked {
            Some(b) => b,
            None => 1,
        };
        let ghost cfg = self.config;
        let ghost q = Request {
            batch,
            element: dtype_element(dtype),
            location: device_location(*device),
        };
        proof {
            assert(asked_for(scorer, q));
        }
        let horizon: usize = self.config.horizon;
        let samples: usize = self.config.samples;
        let elites_wanted: usize = self.config.elites;
        let iterations: usize = self.config.iterations;
        let action_dim: usize = self.config.action_dim;
        let min_std: F32 = self.config.min_std;
        let init_std: F32 = self.config.init_std;
        let deadline = self.config.deadline;
        let reserved: u64 = normal_draw_reservation(
            batch,
            samples,
            horizon,
            action_dim,
            iterations,
        )?;
        match reserve_stream(&mut self.rng, self.config.seed, reserved)? {
            Some((seed, offset)) => match noise.begin(seed, offset, device) {
                Ok(started) => {
                    proof {
                        assert(starts_with::<N>(seed, offset, q.location, Ok(started)));
                    }
                },
                Err(e) => {
                    proof {
                        assert(starts_with::<N>(seed, offset, q.location, Err(e)));
                    }
                    return Err(e);
                },
            },
            None => {},
        }
        proof {
            assert(stream_started::<N>(cfg.seed, old(self).rng, q.location));
            lemma_shapes_fit(batch, samples, horizon, action_dim);
            lemma_fewer_fit(batch, 1, samples, horizon, action_dim);
        }
        let ghost sizes = cem_sizes(cfg);
        let mut mean = self.workspace.sequence(
            batch,
            horizon,
            action_dim,
            dtype,
            device,
            F32::from_bits(0),
        )?;
        let mut std = self.workspace.sequence(
            batch,
            horizon,
            action_dim,
            dtype,
            device,
            init_std,
        )?;
        let (low, high) = self.workspace.bounds(&self.config.action_bounds, dtype, device)?;
        let ghost shape = seq![batch, horizon, action_dim];
        let ghost lo = value(low);
        let ghost hi = value(high);
        let ghost mut states: Seq<Distribution> = seq![
            Distribution { mean: value(mean), std: value(std) },
        ];
        let ghost mut rounds: Seq<Scored> = seq![];
        proof {
            lemma_usable_bounds(
                cfg.action_bounds,
                action_dim,
                q.element,
                q.location,
                lo,
                hi,
            );
        }
        let mut last: Option<Scored> = None;
        let mut completed: usize = 0;
        let mut stopped = false;
        while !stopped && completed < iterations
            invariant
                completed <= iterations,
                stopped ==> 0 < completed < iterations && deadline is Some,
                deadline is Some && duration_nanos(deadline->0) == 0 ==> completed == 0,
                deadline == cfg.deadline,
                self.config == cfg,
                cfg.valid(),
                cfg.horizon == horizon,
                cfg.samples == samples,
                cfg.elites == elites_wanted,
                cfg.iterations == iterations,
                cfg.action_dim == action_dim,
                cfg.min_std == min_std,
                q == (Request {
                    batch,
                    element: dtype_element(dtype),
                    location: device_location(*device),
                }),
                self.well_formed(),
                shape == seq![batch, horizon, action_dim],
                count(seq![batch, samples, horizon, action_dim]) <= usize::MAX,
                usable_bounds(lo, hi, q.element, action_dim),
                lo == value(low),
                hi == value(high),
                cem_search::<S, N>(scorer, cfg, q, lo, hi, states, rounds),
                rounds.len() == completed,
                value(mean) == states.last().mean,
                value(std) == states.last().std,
                tensor_dims(mean) == shape,
                tensor_dims(std) == shape,
                tensor_element(mean) == q.element,
                tensor_location(mean) == q.location,
                matching(value(mean), value(std)),
                lo.location == q.location,
                hi.location == q.location,
                completed > 0 ==> last == Some(rounds.last()),
                completed > 0 ==> tensor_dims(rounds.last().candidates) == seq![
                    batch,
                    samples,
                    horizon,
                    action_dim,
                ] && tensor_dims(rounds.last().scores) == seq![batch, samples] && tensor_keys(
                    rounds.last().candidates,
                ).len() == count(tensor_dims(rounds.last().candidates)) && tensor_element(
                    rounds.last().candidates,
                ) == q.element && tensor_location(rounds.last().candidates) == q.location,
                completed > 0 && plain(q.element) ==> bounded(
                    value(rounds.last().candidates),
                    lo,
                    hi,
                ),
                asked_for(scorer, q),
                sizes == cem_sizes(cfg),
                stream_started::<N>(cfg.seed, old(self).rng, q.location),
                count(seq![batch, horizon, action_dim]) <= usize::MAX,
                completed > 0 ==> !no_time(deadline),
                stream_after(old(self).rng, cfg.seed, reserved as int, self.rng),
                reserved == draws(batch, samples, horizon, action_dim) * iterations,
                draws_fit(batch, samples, horizon, action_dim),
                reservation_complaint(
                    old(self).rng,
                    cfg.seed,
                    batch,
                    samples,
                    horizon,
                    action_dim,
                    iterations,
                ) is None,
                old(self).config == cfg,
                cfg.complaint() is None,
            decreases iterations - completed, !stopped as int,
        {
            if deadline_elapsed(&start, deadline) {
                if completed == 0 {
                    return configured_fallback_result(
                        &self.config.fallback_action,
                        batch,
                        horizon,
                        dtype,
                        device,
                        &start,
                        "CEM",
                    );
                }
                stopped = true;
            } else {
                let candidates = match sample_candidates(
                    &mean,
                    &std,
                    samples,
                    &low,
                    &high,
                    dtype,
                    device,
                    noise,
                ) {
                    Ok(candidates) => candidates,
                    Err(e) => {
                        proof {
                            let dims = seq![batch, samples, horizon, action_dim];
                            assert(dims == seq![shape[0], samples, shape[1], shape[2]]);
                            assert(dims == seq![
                                q.batch,
                                sizes.samples,
                                sizes.horizon,
                                sizes.action_dim,
                            ]);
                            if answers_with::<N>(dims, dtype, device, Err(e)) {
                                assert(draws_refused::<N>(q, sizes, e));
                            } else if draws_unfit::<N>(dims, dtype, device) {
                                assert(odd_draws::<N>(q, sizes));
                            } else {
                                assert(!on_processor(q));
                            }
                        }
                        return Err(e);
                    },
                };
                proof {
                    assert(candidates_of(q, sizes, candidates));
                }
                let scores = match scorer.score_candidates(&candidates) {
                    Ok(scores) => scores,
                    Err(e) => {
                        return Err(e);
                    },
                };
                proof {
                    assert(scored(scorer, candidates, scores));
                }
                validate_scores_shape(&scores, batch, samples)?;
                proof {
                    lemma_fewer_fit(batch, elites_wanted, samples, horizon, action_dim);
                }
                let elites = select_elites(&candidates, &scores, elites_wanted)?;
                let (next_mean, next_std) = fit_elites(&elites, min_std)?;
                let ghost before = states.last();
                let ghost after = Distribution { mean: value(next_mean), std: value(next_std) };
                let ghost round = Scored { candidates, scores };
                proof {
                    assert(elite(value(candidates), value(scores), elites_wanted, value(elites)));
                    assert(cem_round::<S, N>(scorer, cfg, q, lo, hi, before, round, after));
                    let new_states = states.push(after);
                    let new_rounds = rounds.push(round);
                    assert forall|i: int|
                        #![trigger new_rounds[i]]
                        0 <= i < new_rounds.len() implies cem_round::<S, N>(
                        scorer,
                        cfg,
                        q,
                        lo,
                        hi,
                        new_states[i],
                        new_rounds[i],
                        new_states[i + 1],
                    ) by {
                        if i < rounds.len() {
                            assert(new_rounds[i] == rounds[i]);
                        }
                    }
                    states = new_states;
                    rounds = new_rounds;
                }
                mean = next_mean;
                std = next_std;
                last = Some(Scored { candidates, scores });
                completed = completed + 1;
            }
        }
        let last = match last {
            Some(last) => last,
            None => {
                return Err(message("CEM did not complete any iteration"));
            },
        };
        proof {
            assert(rounds.last() == rounds[completed - 1]);
            assert(candidates_of(q, sizes, last.candidates));
            assert(scored(scorer, last.candidates, last.scores));
        }
        let (sequence, best_indices) = best_candidates(&last)?;
        let first_action = pick_step(&sequence, 0)?;
        proof {
            if plain(q.element) {
                lemma_best_bounded(
                    value(last.candidates),
                    value(last.scores),
                    best_indices@,
                    value(sequence),
                    lo,
                    hi,
                );
            }
        }
        let result = PlanResult {
            first_action,
            sequence,
            scores: last.scores,
            best_indices,
            iterations_completed: completed,
            elapsed: since(&start),
            deadline_reached: stopped,
            fallback: PlanFallback::NotUsed,
            used_host_elite_selection: on_host(device),
        };
        proof {
            assert(cem_search::<S, N>(scorer, cfg, q, lo, hi, states, rounds));
            assert(cem_found::<S, N>(scorer, cfg, q, result));
        }
        Ok(result)
    }
}

impl Clone for CemPlanner {
    /// A copy goes on from the same position of the stream and keeps no tensors.
    fn clone(&self) -> (r: Self)
        ensures
            r.config.same_as(self.config),
            r.rng == self.rng,
            r.workspace.bounds_cache is None,
            r.workspace.sequence_cache is None,
            r.well_formed(),
    {
        Self {
            config: self.config.clone(),
            rng: self.rng,
            workspace: self.workspace.clone(),
        }
    }
}

} // verus!
