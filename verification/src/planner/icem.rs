//! The warm-started cross-entropy planner.

use candle_core::DType;
use candle_core::Device;
use candle_core::Tensor;
use vstd::prelude::*;

use crate::error::{lift, message, Result, SwmError};
use crate::planner::clock::{deadline_elapsed, duration_nanos, now, since};
use crate::planner::config::IcemConfig;
use crate::planner::noise::{DeviceNoise, NoiseSource};
use crate::planner::outcome::{
    candidates_of, draws_refused, no_time, odd_draws, on_processor, search_failed, starts_with,
    stream_started, Sizes,
};
use crate::planner::refit::{
    fit_elites, fits_elites, lemma_fewer_fit, lemma_shapes_fit, lemma_usable_bounds, Distribution,
};
use crate::planner::result::{
    best_candidates, best_of, configured_fallback_result, fallback_plan_result, is_fallback,
    no_fallback_complaint, on_host, repeats_action, PlanFallback, PlanResult, Scored,
};
use crate::planner::rng::{
    draws, draws_fit, normal_draw_reservation, reservation_complaint, reserve_stream, reserves,
    stream_after, PlannerRng,
};
use crate::planner::sampling::{
    answers_with, bounded, drawn, draws_unfit, sample_candidates, shift_sequence_for_warm_start,
    shifted, usable_bounds,
};
use crate::planner::scorer::{asked_for, scored, CandidateScorer, Request};
use crate::planner::selection::{elite, select_elites, validate_scores_shape};
use crate::planner::within::{
    lemma_best_bounded, lemma_elite_bounded, lemma_followed_bounded, lemma_narrowed_bounded,
};
use crate::planner::workspace::{bound_tensor, uniform, PlannerWorkspace};
use crate::scalar::F32;
use crate::tensor::join::{lemma_join_two, lemma_two_line_up, lemma_two_places};
use crate::tensor::layout::{
    cat, dims, followed, narrow, narrowed, placed, share, to_device, to_dtype,
};
use crate::tensor::select::{pick_step, step_of};
use crate::tensor::value::{
    count, device_location, dtype_element, matching, plain, resident, tensor_dims, tensor_element,
    tensor_keys, tensor_location, value, TensorValue,
};
use crate::text::{dims_text, sizes_text, with_dims};

verus! {

/// Searches by refitting a distribution to the best of its samples, from where
/// the plan before left off.
#[derive(Debug)]
pub struct IcemPlanner {
    pub config: IcemConfig,
    pub warm_start: Option<Tensor>,
    pub rng: PlannerRng,
    pub workspace: PlannerWorkspace,
}

/// The elites that a round hands on to the next: the best ones, if any are kept.
pub open spec fn kept(elites: TensorValue, keep: usize, carried: Option<TensorValue>) -> bool {
    if keep == 0 {
        carried is None
    } else {
        carried is Some && narrowed(elites, 1, 0, keep as int, carried->0)
    }
}

/// The value of an optional tensor.
pub open spec fn optional_value(t: Option<Tensor>) -> Option<TensorValue> {
    match t {
        Some(t) => Some(value(t)),
        None => None,
    }
}

/// What a round starts from.
pub struct IcemState {
    pub distribution: Distribution,
    pub carried: Option<TensorValue>,
}

/// One round of the search: candidates are drawn from a distribution, the elites
/// of the round before join them, all are scored, and the next distribution is
/// fitted to the best of them.
pub open spec fn icem_round<S: CandidateScorer, N: NoiseSource>(
    scorer: &S,
    cfg: IcemConfig,
    q: Request,
    low: TensorValue,
    high: TensorValue,
    before: IcemState,
    round: Scored,
    after: IcemState,
) -> bool {
    let d = before.distribution;
    &&& exists|sampled: TensorValue|
        #[trigger] drawn::<N>(
            d.mean,
            d.std,
            low,
            high,
            cfg.samples,
            q.element,
            q.location,
            sampled,
        ) && match before.carried {
            None => value(round.candidates) == sampled,
            Some(elites) => followed(sampled, elites, 1, value(round.candidates)),
        }
    &&& scored(scorer, round.candidates, round.scores)
    &&& tensor_dims(round.scores) == seq![d.mean.dims[0], tensor_dims(round.candidates)[1]]
    &&& exists|elites: TensorValue|
        #[trigger] elite(value(round.candidates), value(round.scores), cfg.elites, elites)
            && fits_elites(elites, cfg.min_std, after.distribution) && kept(
            elites,
            cfg.keep_elites,
            after.carried,
        )
}

/// The mean that a search starts from: the warm start, or zero without one.
pub open spec fn first_mean(
    warm_start: Option<Tensor>,
    shape: Seq<usize>,
    q: Request,
    mean: TensorValue,
) -> bool {
    match warm_start {
        Some(t) => tensor_dims(t) == shape && placed(value(t), q.element, q.location, mean),
        None => uniform(F32 { bits: 0 }, shape, q.element, q.location, mean),
    }
}

/// The rounds of a search: the first starts from the warm start and the
/// configured deviation, and each hands its state to the next.
pub open spec fn icem_search<S: CandidateScorer, N: NoiseSource>(
    scorer: &S,
    cfg: IcemConfig,
    warm_start: Option<Tensor>,
    q: Request,
    low: TensorValue,
    high: TensorValue,
    states: Seq<IcemState>,
    rounds: Seq<Scored>,
) -> bool {
    let shape = seq![q.batch, cfg.horizon, cfg.action_dim];
    &&& states.len() == rounds.len() + 1
    &&& first_mean(warm_start, shape, q, states[0].distribution.mean)
    &&& uniform(cfg.init_std, shape, q.element, q.location, states[0].distribution.std)
    &&& states[0].carried is None
    &&& forall|i: int|
        #![trigger rounds[i]]
        0 <= i < rounds.len() ==> icem_round::<S, N>(
            scorer,
            cfg,
            q,
            low,
            high,
            states[i],
            rounds[i],
            states[i + 1],
        )
}

/// A plan that a search found: the best candidate of its last round.
pub open spec fn icem_found<S: CandidateScorer, N: NoiseSource>(
    scorer: &S,
    cfg: IcemConfig,
    warm_start: Option<Tensor>,
    q: Request,
    p: PlanResult,
) -> bool {
    exists|low: TensorValue, high: TensorValue, states: Seq<IcemState>, rounds: Seq<Scored>|
        {
            &&& bound_tensor(cfg.action_bounds.low@, q.element, q.location, low)
            &&& bound_tensor(cfg.action_bounds.high@, q.element, q.location, high)
            &&& #[trigger] icem_search::<S, N>(scorer, cfg, warm_start, q, low, high, states, rounds)
            &&& rounds.len() == p.iterations_completed
            &&& 0 < p.iterations_completed <= cfg.iterations
            &&& p.scores == rounds.last().scores
            &&& best_of(
                value(rounds.last().candidates),
                value(p.scores),
                p.best_indices@,
                value(p.sequence),
            )
            &&& plain(q.element) ==> bounded(value(p.sequence), low, high)
        }
}

/// What an iCEM plan is.
pub open spec fn icem_plan<S: CandidateScorer, N: NoiseSource>(
    scorer: &S,
    cfg: IcemConfig,
    warm_start: Option<Tensor>,
    q: Request,
    p: PlanResult,
) -> bool {
    &&& tensor_dims(p.sequence) == seq![q.batch, cfg.horizon, cfg.action_dim]
    &&& step_of(value(p.sequence), 0, value(p.first_action))
    &&& p.best_indices@.len() == q.batch
    &&& p.used_host_elite_selection == (p.fallback is NotUsed && q.location is Cpu)
    &&& p.deadline_reached == (p.iterations_completed < cfg.iterations)
    &&& match p.fallback {
        PlanFallback::NotUsed => icem_found::<S, N>(scorer, cfg, warm_start, q, p),
        PlanFallback::WarmStart => {
            &&& cfg.deadline is Some
            &&& warm_start is Some
            &&& is_fallback(p, q.element, q.location, PlanFallback::WarmStart)
            &&& placed(value(warm_start->0), q.element, q.location, value(p.sequence))
        },
        PlanFallback::ConfiguredAction => {
            &&& cfg.deadline is Some
            &&& warm_start is None
            &&& cfg.fallback_action is Some
            &&& is_fallback(p, q.element, q.location, PlanFallback::ConfiguredAction)
            &&& repeats_action(
                cfg.fallback_action->0@,
                q.batch,
                cfg.horizon,
                q.element,
                q.location,
                value(p.sequence),
            )
        },
    }
}

/// What is said of a warm start in the wrong shape.
pub open spec fn warm_start_complaint(got: Seq<usize>, expected: Seq<usize>) -> Seq<char> {
    "iCEM warm-start shape "@ + sizes_text(got) + " does not match expected "@ + sizes_text(
        expected,
    )
}

/// Brings a warm start of the expected shape to a place and an element type.
pub fn place_warm_start(
    sequence: &Tensor,
    batch: usize,
    horizon: usize,
    action_dim: usize,
    dtype: DType,
    device: &Device,
) -> (r: Result<Tensor>)
    ensures
        tensor_dims(*sequence) != seq![batch, horizon, action_dim] ==> r is Err && r->Err_0.says(
            warm_start_complaint(tensor_dims(*sequence), seq![batch, horizon, action_dim]),
        ),
        tensor_dims(*sequence) == seq![batch, horizon, action_dim] ==> (r matches Err(e)
            ==> e is Backend),
        tensor_dims(*sequence) == seq![batch, horizon, action_dim] && resident(value(*sequence))
            && device_location(*device) is Cpu && plain(dtype_element(dtype)) ==> r is Ok,
        r matches Ok(o) ==> placed(
            value(*sequence),
            dtype_element(dtype),
            device_location(*device),
            value(o),
        ),
{
    let d = dims(sequence);
    if d.len() != 3 || d[0] != batch || d[1] != horizon || d[2] != action_dim {
        let expected: [usize; 3] = [batch, horizon, action_dim];
        proof {
            assert(expected@ =~= seq![batch, horizon, action_dim]);
        }
        let mut text = with_dims("iCEM warm-start shape ", d.as_slice());
        text.append(" does not match expected ");
        text.append(dims_text(&expected).as_str());
        return Err(SwmError::Message(text));
    }
    proof {
        assert(d@ =~= seq![batch, horizon, action_dim]);
    }
    let moved = lift(to_device(sequence, device))?;
    lift(to_dtype(&moved, dtype))
}

/// The sizes of a search. A round after the first scores the elites that it was
/// handed as well.
pub open spec fn icem_sizes(cfg: IcemConfig) -> Sizes {
    Sizes {
        samples: cfg.samples,
        most: cfg.samples + cfg.keep_elites,
        horizon: cfg.horizon,
        action_dim: cfg.action_dim,
    }
}

/// What is wrong with a warm start for a search, if anything is.
pub open spec fn warm_start_refused(
    warm_start: Option<Tensor>,
    cfg: IcemConfig,
    q: Request,
) -> Option<Seq<char>> {
    let shape = seq![q.batch, cfg.horizon, cfg.action_dim];
    match warm_start {
        Some(t) => if tensor_dims(t) != shape {
            Some(warm_start_complaint(tensor_dims(t), shape))
        } else {
            None
        },
        None => None,
    }
}

/// What a plan with valid settings can come to, given its warm start and
/// where the planner's stream stood before it.
pub open spec fn icem_outcome<S: CandidateScorer, N: NoiseSource>(
    scorer: &S,
    cfg: IcemConfig,
    warm_start: Option<Tensor>,
    before: PlannerRng,
    q: Request,
    r: Result<PlanResult>,
) -> bool {
    match r {
        Ok(p) => {
            &&& icem_plan::<S, N>(scorer, cfg, warm_start, q, p)
            &&& stream_started::<N>(cfg.seed, before, q.location)
            &&& warm_start_refused(warm_start, cfg, q) is None
        },
        Err(e) => {
            ||| reservation_complaint(
                before,
                cfg.seed,
                q.batch,
                cfg.samples,
                cfg.horizon,
                cfg.action_dim,
                cfg.iterations,
            ) matches Some(text) && e.says(text)
            ||| warm_start_refused(warm_start, cfg, q) matches Some(text) && e.says(text)
            ||| warm_start matches Some(t) && e is Backend && !resident(value(t))
            ||| cfg.samples + cfg.keep_elites > usize::MAX && e.says("plan shape overflowed"@)
            ||| search_failed::<S, N>(
                scorer,
                q,
                icem_sizes(cfg),
                cfg.seed,
                before,
                cfg.deadline,
                e,
            )
            ||| cfg.deadline is Some && cfg.fallback_action is None && warm_start is None
                && e.says(no_fallback_complaint("iCEM"@))
        },
    }
}

impl IcemPlanner {
    /// The tensors that the planner keeps are what they were made for.
    pub open spec fn well_formed(self) -> bool {
        self.workspace.well_formed()
    }

    pub fn new(config: IcemConfig) -> (r: Self)
        ensures
            r.config == config,
            r.warm_start is None,
            r.rng.next_offset == 0,
            r.well_formed(),
    {
        Self {
            config,
            warm_start: None,
            rng: PlannerRng::new(),
            workspace: PlannerWorkspace::new(),
        }
    }

    /// The sequence that the next plan starts from.
    pub fn warm_start_sequence(&self) -> (r: Option<&Tensor>)
        ensures
            r == (match self.warm_start {
                Some(t) => Some(&t),
                None => None,
            }),
    {
        match &self.warm_start {
            Some(t) => Some(t),
            None => None,
        }
    }

    pub fn clear_warm_start(&mut self)
        ensures
            *final(self) == (IcemPlanner { warm_start: None, ..*old(self) }),
    {
        self.warm_start = None;
    }

    pub fn set_warm_start_sequence(&mut self, sequence: Tensor)
        ensures
            *final(self) == (IcemPlanner { warm_start: Some(sequence), ..*old(self) }),
    {
        self.warm_start = Some(sequence);
    }

    pub fn config(&self) -> (r: &IcemConfig)
        ensures
            *r == self.config,
    {
        &self.config
    }

    /// Starts the stream of seeded noise over.
    pub fn reset_rng_sequence(&mut self)
        ensures
            final(self).rng.next_offset == 0,
            final(self).config == old(self).config,
            final(self).warm_start == old(self).warm_start,
            final(self).workspace == old(self).workspace,
    {
        self.rng.reset();
    }

    pub fn rng_offset(&self) -> (r: u64)
        ensures
            r == self.rng.next_offset,
    {
        self.rng.offset()
    }

    /// Plans with the noise of the device.
    pub fn plan<S: CandidateScorer>(&mut self, scorer: &S) -> (r: Result<PlanResult>)
        requires
            old(self).well_formed(),
        ensures
            final(self).well_formed(),
            final(self).config == old(self).config,
            old(self).config.complaint() matches Some(text) ==> r is Err && r->Err_0.says(text)
                && *final(self) == *old(self),
            r matches Ok(p) ==> exists|q: Request|
                #[trigger] asked_for(scorer, q) && icem_plan::<S, DeviceNoise>(
                    scorer,
                    old(self).config,
                    old(self).warm_start,
                    q,
                    p,
                ),
            r is Ok && r->Ok_0.fallback is NotUsed ==> final(self).warm_start is Some && shifted(
                value(r->Ok_0.sequence),
                value(final(self).warm_start->0),
            ),
            r is Err || !(r->Ok_0.fallback is NotUsed)
                ==> final(self).warm_start == old(self).warm_start,
            r is Ok && old(self).config.deadline is None ==> !r->Ok_0.deadline_reached
                && r->Ok_0.fallback is NotUsed,
            r is Ok && old(self).config.deadline is Some && duration_nanos(
                old(self).config.deadline->0,
            ) == 0 ==> !(r->Ok_0.fallback is NotUsed),
            old(self).config.deadline is Some && duration_nanos(old(self).config.deadline->0) == 0
                && old(self).config.fallback_action is None && old(self).warm_start is None
                ==> r is Err,
            old(self).config.complaint() is None ==> exists|q: Request|
                #[trigger] asked_for(scorer, q) && reserves(
                    old(self).rng,
                    old(self).config.seed,
                    q.batch,
                    old(self).config.samples,
                    old(self).config.horizon,
                    old(self).config.action_dim,
                    old(self).config.iterations,
                    r,
                    final(self).rng,
                ) && icem_outcome::<S, DeviceNoise>(
                    scorer,
                    old(self).config,
                    old(self).warm_start,
                    old(self).rng,
                    q,
                    r,
                ),
            old(self).config.seed is Some ==> r is Err,
    {
        let mut noise = DeviceNoise;
        self.plan_with_noise(scorer, &mut noise)
    }

    /// Plans with the noise of a source.
    pub fn plan_with_noise<S: CandidateScorer, N: NoiseSource>(
        &mut self,
        scorer: &S,
        noise: &mut N,
    ) -> (r: Result<PlanResult>)
        requires
            old(self).well_formed(),
        ensures
            final(self).well_formed(),
            final(self).config == old(self).config,
            old(self).config.complaint() matches Some(text) ==> r is Err && r->Err_0.says(text)
                && *final(self) == *old(self),
            r matches Ok(p) ==> exists|q: Request|
                #[trigger] asked_for(scorer, q) && icem_plan::<S, N>(
                    scorer,
                    old(self).config,
                    old(self).warm_start,
                    q,
                    p,
                ),
            r is Ok && r->Ok_0.fallback is NotUsed ==> final(self).warm_start is Some && shifted(
                value(r->Ok_0.sequence),
                value(final(self).warm_start->0),
            ),
            r is Err || !(r->Ok_0.fallback is NotUsed)
                ==> final(self).warm_start == old(self).warm_start,
            r is Ok && old(self).config.deadline is None ==> !r->Ok_0.deadline_reached
                && r->Ok_0.fallback is NotUsed,
            r is Ok && old(self).config.deadline is Some && duration_nanos(
                old(self).config.deadline->0,
            ) == 0 ==> !(r->Ok_0.fallback is NotUsed),
            old(self).config.deadline is Some && duration_nanos(old(self).config.deadline->0) == 0
                && old(self).config.fallback_action is None && old(self).warm_start is None
                ==> r is Err,
            old(self).config.complaint() is None ==> exists|q: Request|
                #[trigger] asked_for(scorer, q) && reserves(
                    old(self).rng,
                    old(self).config.seed,
                    q.batch,
                    old(self).config.samples,
                    old(self).config.horizon,
                    old(self).config.action_dim,
                    old(self).config.iterations,
                    r,
                    final(self).rng,
                ) && icem_outcome::<S, N>(
                    scorer,
                    old(self).config,
                    old(self).warm_start,
                    old(self).rng,
                    q,
                    r,
                ),
    {
        self.config.validate()?;
        let start = now();
        let device = scorer.device();
        let dtype = scorer.dtype();
        let asked = scorer.batch_size();
        let batch: usize = match asked {
            Some(b) => b,
            None => 1,
        };
        let ghost cfg = self.config;
        let ghost q = Request {
            batch,
            element: dtype_element(dtype),
            location: device_location(*device),
        };
        proof {
            assert(asked_for(scorer, q));
        }
        let horizon: usize = self.config.horizon;
        let samples: usize = self.config.samples;
        let elites_wanted: usize = self.config.elites;
        let keep: usize = self.config.keep_elites;
        let iterations: usize = self.config.iterations;
        let action_dim: usize = self.config.action_dim;
        let min_std: F32 = self.config.min_std;
        let init_std: F32 = self.config.init_std;
        let deadline = self.config.deadline;
        let reserved: u64 = normal_draw_reservation(
            batch,
            samples,
            horizon,
            action_dim,
            iterations,
        )?;
        match reserve_stream(&mut self.rng, self.config.seed, reserved)? {
            Some((seed, offset)) => match noise.begin(seed, offset, device) {
                Ok(started) => {
                    proof {
                        assert(starts_with::<N>(seed, offset, q.location, Ok(started)));
                    }
                },
                Err(e) => {
                    proof {
                        assert(starts_with::<N>(seed, offset, q.location, Err(e)));
                    }
                    return Err(e);
                },
            },
            None => {},
        }
        proof {
            assert(stream_started::<N>(cfg.seed, old(self).rng, q.location));
            lemma_shapes_fit(batch, samples, horizon, action_dim);
            lemma_fewer_fit(batch, 1, samples, horizon, action_dim);
        }
        let ghost sizes = icem_sizes(cfg);
        let mut mean = match &self.warm_start {
            Some(sequence) => place_warm_start(
                sequence,
                batch,
                horizon,
                action_dim,
                dtype,
                device,
            )?,
            None => self.workspace.sequence(
                batch,
                horizon,
                action_dim,
                dtype,
                device,
                F32::from_bits(0),
            )?,
        };
        let mut std = self.workspace.sequence(
            batch,
            horizon,
            action_dim,
            dtype,
            device,
            init_std,
        )?;
        let (low, high) = self.workspace.bounds(&self.config.action_bounds, dtype, device)?;
        let ghost shape = seq![batch, horizon, action_dim];
        let ghost lo = value(low);
        let ghost hi = value(high);
        let ghost warm = self.warm_start;
        let ghost mut states: Seq<IcemState> = seq![
            IcemState {
                distribution: Distribution { mean: value(mean), std: value(std) },
                carried: None,
            },
        ];
        let ghost mut rounds: Seq<Scored> = seq![];
        proof {
            lemma_usable_bounds(
                cfg.action_bounds,
                action_dim,
                q.element,
                q.location,
                lo,
                hi,
            );
        }
        if samples.checked_add(keep).is_none() {
            return Err(message("plan shape overflowed"));
        }
        let mut carried: Option<Tensor> = None;
        let mut last: Option<Scored> = None;
        let mut completed: usize = 0;
        let mut stopped = false;
        while !stopped && completed < iterations
            invariant
                completed <= iterations,
                stopped ==> 0 < completed < iterations && deadline is Some,
                deadline is Some && duration_nanos(deadline->0) == 0 ==> completed == 0,
                deadline == cfg.deadline,
                self.config == cfg,
                cfg.valid(),
                cfg.horizon == horizon,
                cfg.samples == samples,
                cfg.elites == elites_wanted,
                cfg.keep_elites == keep,
                samples + keep <= usize::MAX,
                warm == self.warm_start,
                warm == old(self).warm_start,
                warm is Some ==> tensor_dims(warm->0) == shape,
                cfg.iterations == iterations,
                cfg.action_dim == action_dim,
                cfg.min_std == min_std,
                q == (Request {
                    batch,
                    element: dtype_element(dtype),
                    location: device_location(*device),
                }),
                self.well_formed(),
                shape == seq![batch, horizon, action_dim],
                count(seq![batch, samples, horizon, action_dim]) <= usize::MAX,
                usable_bounds(lo, hi, q.element, action_dim),
                lo == value(low),
                hi == value(high),
                icem_search::<S, N>(scorer, cfg, warm, q, lo, hi, states, rounds),
                rounds.len() == completed,
                value(mean) == states.last().distribution.mean,
                value(std) == states.last().distribution.std,
                match carried {
                    None => states.last().carried is None,
                    Some(t) => states.last().carried == Some(value(t)) && tensor_dims(t) == seq![
                        batch,
                        keep,
                        horizon,
                        action_dim,
                    ] && tensor_element(t) == q.element && tensor_location(t) == q.location
                        && tensor_keys(t).len() == count(
                        tensor_dims(t),
                    ) && (plain(q.element) ==> bounded(value(t), lo, hi)),
                },
                tensor_dims(mean) == shape,
                tensor_dims(std) == shape,
                tensor_element(mean) == q.element,
                tensor_location(mean) == q.location,
                matching(value(mean), value(std)),
                lo.location == q.location,
                hi.location == q.location,
                completed > 0 ==> last == Some(rounds.last()),
                completed > 0 ==> tensor_dims(rounds.last().candidates).len() == 4 && tensor_dims(
                    rounds.last().candidates,
                )[0] == batch && tensor_dims(rounds.last().candidates)[1] >= samples && tensor_dims(
                    rounds.last().candidates,
                )[2] == horizon && tensor_dims(rounds.last().candidates)[3] == action_dim
                    && tensor_dims(rounds.last().scores) == seq![
                    batch,
                    tensor_dims(rounds.last().candidates)[1],
                ] && tensor_keys(rounds.last().candidates).len() == count(
                    tensor_dims(rounds.last().candidates),
                ) && tensor_element(rounds.last().candidates) == q.element && tensor_location(
                    rounds.last().candidates,
                ) == q.location,
                completed > 0 && plain(q.element) ==> bounded(
                    value(rounds.last().candidates),
                    lo,
                    hi,
                ),
                asked_for(scorer, q),
                sizes == icem_sizes(cfg),
                stream_started::<N>(cfg.seed, old(self).rng, q.location),
                count(seq![batch, horizon, action_dim]) <= usize::MAX,
                completed > 0 ==> !no_time(deadline),
                completed > 0 ==> candidates_of(q, sizes, rounds.last().candidates),
                stream_after(old(self).rng, cfg.seed, reserved as int, self.rng),
                reserved == draws(batch, samples, horizon, action_dim) * iterations,
                draws_fit(batch, samples, horizon, action_dim),
                reservation_complaint(
                    old(self).rng,
                    cfg.seed,
                    batch,
                    samples,
                    horizon,
                    action_dim,
                    iterations,
                ) is None,
                old(self).config == cfg,
                cfg.complaint() is None,
            decreases iterations - completed, !stopped as int,
        {
            if deadline_elapsed(&start, deadline) {
                if completed == 0 {
                    if let Some(sequence) = &self.warm_start {
                        let sequence = place_warm_start(
                            sequence,
                            batch,
                            horizon,
                            action_dim,
                            dtype,
                            device,
                        )?;
                        return fallback_plan_result(
                            sequence,
                            dtype,
                            device,
                            &start,
                            PlanFallback::WarmStart,
                        );
                    }
                    return configured_fallback_result(
                        &self.config.fallback_action,
                        batch,
                        horizon,
                        dtype,
                        device,
                        &start,
                        "iCEM",
                    );
                }
                stopped = true;
            } else {
                let sampled = match sample_candidates(
                    &mean,
                    &std,
                    samples,
                    &low,
                    &high,
                    dtype,
                    device,
                    noise,
                ) {
                    Ok(sampled) => sampled,
                    Err(e) => {
                        proof {
                            let dims = seq![batch, samples, horizon, action_dim];
                            assert(dims == seq![shape[0], samples, shape[1], shape[2]]);
                            assert(dims == seq![
                                q.batch,
                                sizes.samples,
                                sizes.horizon,
                                sizes.action_dim,
                            ]);
                            if answers_with::<N>(dims, dtype, device, Err(e)) {
                                assert(draws_refused::<N>(q, sizes, e));
                            } else if draws_unfit::<N>(dims, dtype, device) {
                                assert(odd_draws::<N>(q, sizes));
                            } else {
                                assert(!on_processor(q));
                            }
                        }
                        return Err(e);
                    },
                };
                let ghost drawn_value = value(sampled);
                let ghost before = states.last();
                let candidates = match carried {
                    Some(elites) => {
                        let parts = vec![sampled, elites];
                        proof {
                            lemma_two_places(parts@, 1);
                            if on_processor(q) {
                                lemma_two_line_up(parts@, 1);
                            }
                        }
                        let all = lift(cat(parts.as_slice(), 1))?;
                        proof {
                            lemma_join_two(parts@, 1, value(all));
                            let (first, second) = (value(parts@[0]), value(parts@[1]));
                            assert(second.dims =~= first.dims.update(1, second.dims[1]));
                            if plain(q.element) {
                                lemma_followed_bounded(
                                    value(parts@[0]),
                                    value(parts@[1]),
                                    value(all),
                                    lo,
                                    hi,
                                );
                            }
                        }
                        all
                    },
                    None => sampled,
                };
                let d = dims(&candidates);
                let candidate_count: usize = d[1];
                let ghost c = value(candidates);
                proof {
                    assert(candidates_of(q, sizes, candidates));
                    lemma_fewer_fit(batch, elites_wanted, samples, horizon, action_dim);
                }
                let scores = match scorer.score_candidates(&candidates) {
                    Ok(scores) => scores,
                    Err(e) => {
                        return Err(e);
                    },
                };
                proof {
                    assert(scored(scorer, candidates, scores));
                }
                validate_scores_shape(&scores, batch, candidate_count)?;
                let elites = select_elites(&candidates, &scores, elites_wanted)?;
                let ghost e = value(elites);
                let (next_mean, next_std) = fit_elites(&elites, min_std)?;
                proof {
                    assert(drawn::<N>(
                        before.distribution.mean,
                        before.distribution.std,
                        lo,
                        hi,
                        samples,
                        q.element,
                        q.location,
                        drawn_value,
                    ));
                    assert(elite(c, value(scores), elites_wanted, e));
                    if plain(q.element) {
                        lemma_elite_bounded(c, value(scores), elites_wanted, e, lo, hi);
                    }
                }
                let next_carried = if keep == 0 {
                    None
                } else {
                    Some(lift(narrow(&elites, 1, 0, keep))?)
                };
                let ghost after = IcemState {
                    distribution: Distribution { mean: value(next_mean), std: value(next_std) },
                    carried: optional_value(next_carried),
                };
                let ghost round = Scored { candidates, scores };
                proof {
                    if keep > 0 {
                        let t = next_carried->0;
                        assert(tensor_dims(t) =~= seq![batch, keep, horizon, action_dim]);
                        if plain(q.element) {
                            lemma_narrowed_bounded(e, keep, value(t), lo, hi);
                        }
                    }
                    assert(icem_round::<S, N>(scorer, cfg, q, lo, hi, before, round, after));
                    let new_states = states.push(after);
                    let new_rounds = rounds.push(round);
                    assert forall|i: int|
                        #![trigger new_rounds[i]]
                        0 <= i < new_rounds.len() implies icem_round::<S, N>(
                        scorer,
                        cfg,
                        q,
                        lo,
                        hi,
                        new_states[i],
                        new_rounds[i],
                        new_states[i + 1],
                    ) by {
                        if i < rounds.len() {
                            assert(new_rounds[i] == rounds[i]);
                        }
                    }
                    states = new_states;
                    rounds = new_rounds;
                }
                carried = next_carried;
                mean = next_mean;
                std = next_std;
                last = Some(Scored { candidates, scores });
                completed = completed + 1;
            }
        }
        let last = match last {
            Some(last) => last,
            None => {
                return Err(message("iCEM did not complete any iteration"));
            },
        };
        proof {
            assert(rounds.last() == rounds[completed - 1]);
            assert(candidates_of(q, sizes, last.candidates));
            assert(scored(scorer, last.candidates, last.scores));
        }
        let (sequence, best_indices) = best_candidates(&last)?;
        let warm_start = shift_sequence_for_warm_start(&sequence)?;
        let first_action = pick_step(&sequence, 0)?;
        proof {
            if plain(q.element) {
                lemma_best_bounded(
                    value(last.candidates),
                    value(last.scores),
                    best_indices@,
                    value(sequence),
                    lo,
                    hi,
                );
            }
        }
        self.warm_start = Some(warm_start);
        let result = PlanResult {
            first_action,
            sequence,
            scores: last.scores,
            best_indices,
            iterations_completed: completed,
            elapsed: since(&start),
            deadline_reached: stopped,
            fallback: PlanFallback::NotUsed,
            used_host_elite_selection: on_host(device),
        };
        proof {
            assert(icem_search::<S, N>(scorer, cfg, warm, q, lo, hi, states, rounds));
            assert(icem_found::<S, N>(scorer, cfg, warm, q, result));
        }
        Ok(result)
    }
}

impl Clone for IcemPlanner {
    /// A copy goes on from the same position of the stream and keeps no tensors.
    fn clone(&self) -> (r: Self)
        ensures
            r.config.same_as(self.config),
            r.rng == self.rng,
            r.warm_start == self.warm_start,
            r.workspace.bounds_cache is None,
            r.workspace.sequence_cache is None,
            r.well_formed(),
    {
        let warm_start = match &self.warm_start {
            Some(t) => Some(share(t)),
            None => None,
        };
        Self {
            config: self.config.clone(),
            warm_start,
            rng: self.rng,
            workspace: self.workspace.clone(),
        }
    }
}

} // verus!
