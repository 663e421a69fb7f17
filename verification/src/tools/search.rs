//! Plans that the tools make.

use candle_core::Tensor;
use vstd::prelude::*;

use crate::error::{lift, Result, SwmError};
use crate::planner::cem::{cem_outcome, cem_plan, CemPlanner};
use crate::planner::config::{unit_bounds, CemConfig, IcemConfig, MppiConfig};
use crate::planner::icem::{icem_outcome, icem_plan, IcemPlanner};
use crate::planner::mppi::{mppi_outcome, mppi_plan, MppiPlanner};
use crate::planner::noise::NoiseSource;
use crate::planner::result::PlanResult;
use crate::planner::rng::PlannerRng;
use crate::planner::scorer::{asked_for, scored, CandidateScorer, Request};
use crate::scalar::F32;
use crate::tensor::layout::unsqueeze;
use crate::tensor::value::{resident, tensor_dims, value};
use crate::tools::scores::{
    all_finite, cost_says, cost_summary, single_numbers, sums_up, CostSummary,
};

verus! {

/// The planners of the tools.
#[derive(Debug, Clone, Copy, PartialEq, Eq, Structural)]
pub enum PlannerKind {
    Cem,
    Mppi,
    Icem,
}

/// What a search is made with.
#[derive(Debug, Clone, Copy)]
pub struct SearchSettings {
    pub horizon: usize,
    pub samples: usize,
    pub elites: usize,
    pub action_dim: usize,
    pub iterations: usize,
    pub init_std: F32,
    pub min_std: F32,
    pub noise_std: F32,
    pub temperature: F32,
    pub seed: Option<u64>,
}

/// The settings of a CEM planner.
pub open spec fn cem_settings(c: CemConfig, s: SearchSettings) -> bool {
    &&& c.horizon == s.horizon && c.samples == s.samples && c.elites == s.elites
    &&& c.iterations == s.iterations && c.action_dim == s.action_dim
    &&& unit_bounds(c.action_bounds, s.action_dim)
    &&& c.init_std == s.init_std && c.min_std == s.min_std
    &&& c.deadline is None && c.fallback_action is None && c.seed == s.seed
}

/// The settings of an MPPI planner.
pub open spec fn mppi_settings(c: MppiConfig, s: SearchSettings) -> bool {
    &&& c.horizon == s.horizon && c.samples == s.samples
    &&& c.iterations == s.iterations && c.action_dim == s.action_dim
    &&& unit_bounds(c.action_bounds, s.action_dim)
    &&& c.noise_std == s.noise_std && c.temperature == s.temperature
    &&& c.deadline is None && c.fallback_action is None && c.seed == s.seed
}

/// The settings of an iCEM planner. No more elites are kept than there are
/// samples.
pub open spec fn icem_settings(c: IcemConfig, s: SearchSettings) -> bool {
    &&& c.horizon == s.horizon && c.samples == s.samples && c.elites == s.elites
    &&& c.keep_elites == if s.elites <= s.samples {
        s.elites
    } else {
        s.samples
    }
    &&& c.iterations == s.iterations && c.action_dim == s.action_dim
    &&& unit_bounds(c.action_bounds, s.action_dim)
    &&& c.init_std == s.init_std && c.min_std == s.min_std
    &&& c.deadline is None && c.fallback_action is None && c.seed == s.seed
}

/// What a planner found with settings.
pub open spec fn finds<S: CandidateScorer, N: NoiseSource>(
    kind: PlannerKind,
    s: SearchSettings,
    scorer: &S,
    q: Request,
    p: PlanResult,
) -> bool {
    match kind {
        PlannerKind::Cem => exists|c: CemConfig| #[trigger]
            cem_settings(c, s) && cem_plan::<S, N>(scorer, c, q, p),
        PlannerKind::Mppi => exists|c: MppiConfig| #[trigger]
            mppi_settings(c, s) && mppi_plan::<S, N>(scorer, c, q, p),
        PlannerKind::Icem => exists|c: IcemConfig| #[trigger]
            icem_settings(c, s) && icem_plan::<S, N>(scorer, c, None, q, p),
    }
}

/// The first thing wrong with the settings of a search.
pub open spec fn refuses(kind: PlannerKind, s: SearchSettings, text: Seq<char>) -> bool {
    match kind {
        PlannerKind::Cem => exists|c: CemConfig| #[trigger]
            cem_settings(c, s) && c.complaint() == Some(text),
        PlannerKind::Mppi => exists|c: MppiConfig| #[trigger]
            mppi_settings(c, s) && c.complaint() == Some(text),
        PlannerKind::Icem => exists|c: IcemConfig| #[trigger]
            icem_settings(c, s) && c.complaint() == Some(text),
    }
}

/// How a search with settings fails: the settings are wrong, or the planner says
/// so.
pub open spec fn search_fails<S: CandidateScorer, N: NoiseSource>(
    kind: PlannerKind,
    s: SearchSettings,
    scorer: &S,
    e: SwmError,
) -> bool {
    let start = PlannerRng { next_offset: 0 };
    match kind {
        PlannerKind::Cem => exists|c: CemConfig| #[trigger]
            cem_settings(c, s) && match c.complaint() {
                Some(text) => e.says(text),
                None => exists|q: Request|
                    #[trigger] asked_for(scorer, q) && cem_outcome::<S, N>(
                        scorer,
                        c,
                        start,
                        q,
                        Err(e),
                    ),
            },
        PlannerKind::Mppi => exists|c: MppiConfig| #[trigger]
            mppi_settings(c, s) && match c.complaint() {
                Some(text) => e.says(text),
                None => exists|q: Request|
                    #[trigger] asked_for(scorer, q) && mppi_outcome::<S, N>(
                        scorer,
                        c,
                        start,
                        q,
                        Err(e),
                    ),
            },
        PlannerKind::Icem => exists|c: IcemConfig| #[trigger]
            icem_settings(c, s) && match c.complaint() {
                Some(text) => e.says(text),
                None => exists|q: Request|
                    #[trigger] asked_for(scorer, q) && icem_outcome::<S, N>(
                        scorer,
                        c,
                        None,
                        start,
                        q,
                        Err(e),
                    ),
            },
    }
}

/// Plans with one of the planners. There is no deadline, so a plan is always the
/// outcome of the whole search.
pub fn run_planner<S: CandidateScorer, N: NoiseSource>(
    kind: PlannerKind,
    s: SearchSettings,
    scorer: &S,
    noise: &mut N,
) -> (r: Result<PlanResult>)
    ensures
        r matches Ok(p) ==> !p.deadline_reached && p.fallback is NotUsed && exists|q: Request|
            #[trigger] asked_for(scorer, q) && finds::<S, N>(kind, s, scorer, q, p),
        s.horizon == 0 || s.samples == 0 || s.iterations == 0 || s.action_dim == 0 ==> r is Err
            && r->Err_0 is Message && refuses(kind, s, r->Err_0->Message_0@),
        r matches Err(e) ==> search_fails::<S, N>(kind, s, scorer, e),
{
    match kind {
        PlannerKind::Cem => {
            let mut cfg = CemConfig::new(s.horizon, s.samples, s.elites, s.action_dim);
            cfg.iterations = s.iterations;
            cfg.init_std = s.init_std;
            cfg.min_std = s.min_std;
            cfg.seed = s.seed;
            proof {
                assert(cem_settings(cfg, s));
            }
            let mut planner = CemPlanner::new(cfg);
            planner.plan_with_noise(scorer, noise)
        },
        PlannerKind::Mppi => {
            let mut cfg = MppiConfig::new(s.horizon, s.samples, s.action_dim);
            cfg.iterations = s.iterations;
            cfg.noise_std = s.noise_std;
            cfg.temperature = s.temperature;
            cfg.seed = s.seed;
            proof {
                assert(mppi_settings(cfg, s));
            }
            let mut planner = MppiPlanner::new(cfg);
            planner.plan_with_noise(scorer, noise)
        },
        PlannerKind::Icem => {
            let mut cfg = IcemConfig::new(s.horizon, s.samples, s.elites, s.action_dim);
            cfg.iterations = s.iterations;
            cfg.keep_elites = if s.elites <= s.samples {
                s.elites
            } else {
                s.samples
            };
            cfg.init_std = s.init_std;
            cfg.min_std = s.min_std;
            cfg.seed = s.seed;
            proof {
                assert(icem_settings(cfg, s));
            }
            let mut planner = IcemPlanner::new(cfg);
            planner.plan_with_noise(scorer, noise)
        },
    }
}

/// A sequence as the only candidate of its row.
pub open spec fn alone(sequence: Tensor, candidate: Tensor) -> bool {
    value(candidate) == value(sequence).shaped(tensor_dims(sequence).insert(1, 1))
}

/// Whether an error comes from scoring a candidate or from the costs that came
/// back.
pub open spec fn costs_fail<S: CandidateScorer>(
    scorer: &S,
    candidate: Tensor,
    e: SwmError,
) -> bool {
    ||| call_ensures(S::score_candidates, (scorer, &candidate), Err(e))
    ||| exists|cost: Tensor| #[trigger]
        scored(scorer, candidate, cost) && match e {
            SwmError::Message(m) => cost_says(value(cost), m@),
            SwmError::Backend(_) => !resident(value(cost)),
        }
}

/// Scores the sequence of a plan on its own.
pub fn selected_costs<S: CandidateScorer>(scorer: &S, sequence: &Tensor) -> (r: Result<CostSummary>)
    requires
        tensor_dims(*sequence).len() == 3,
    ensures
        r matches Err(e) ==> exists|candidate: Tensor| #[trigger]
            alone(*sequence, candidate) && costs_fail(scorer, candidate, e),
        r matches Ok(s) ==> exists|candidate: Tensor, cost: Tensor, values: Seq<F32>|
            #[trigger] alone(*sequence, candidate) && #[trigger] scored(scorer, candidate, cost)
                && tensor_dims(cost).len() == 2 && #[trigger] single_numbers(value(cost), values)
                && all_finite(values) && sums_up(
                values,
                tensor_dims(cost)[0] as int,
                tensor_dims(cost)[1] as int,
                s,
            ),
{
    let candidate = lift(unsqueeze(sequence, 1))?;
    proof {
        assert(alone(*sequence, candidate));
    }
    let cost = match scorer.score_candidates(&candidate) {
        Ok(cost) => cost,
        Err(e) => {
            return Err(e);
        },
    };
    proof {
        assert(scored(scorer, candidate, cost));
    }
    cost_summary(&cost)
}

} // verus!
