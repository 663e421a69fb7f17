//! Plans over the C interface.

use candle_core::Tensor;
use vstd::prelude::*;

use crate::error::SwmError;
use crate::ffi::outputs::{copy_plan_outputs, tells, untold, OutputsWanted, PlanOutputs};
use crate::ffi::settings::{
    can_reuse, cem_config_from_ffi, icem_config_from_ffi, is_cem, is_icem, is_mppi,
    mppi_config_from_ffi, serves, SwmCemPlanConfig, SwmIcemPlanConfig, SwmMppiPlanConfig,
};
use crate::ffi::status::{reports, FfiError, FfiResult, SwmStatus};
use crate::planner::cem::{cem_outcome, cem_plan, CemPlanner};
use crate::planner::config::{ActionBounds, CemConfig, IcemConfig, MppiConfig};
use crate::planner::icem::{icem_outcome, icem_plan, IcemPlanner};
use crate::planner::mppi::{mppi_outcome, mppi_plan, MppiPlanner};
use crate::planner::noise::DeviceNoise;
use crate::planner::result::PlanResult;
use crate::planner::rng::PlannerRng;
use crate::planner::sampling::shifted;
use crate::planner::scorer::{asked_for, CandidateScorer, Request};
use crate::tensor::value::value;

verus! {

/// What is told of a CEM plan.
pub open spec fn tells_cem<S: CandidateScorer>(
    scorer: &S,
    c: CemConfig,
    wanted: OutputsWanted,
    o: PlanOutputs,
) -> bool {
    exists|q: Request, p: PlanResult|
        #[trigger] asked_for(scorer, q) && #[trigger] cem_plan::<S, DeviceNoise>(scorer, c, q, p)
            && tells(p, wanted, o)
}

/// What can keep a call from telling of a CEM plan: there was no plan, or it
/// could not be told of.
pub open spec fn no_cem<S: CandidateScorer>(
    scorer: &S,
    c: CemConfig,
    wanted: OutputsWanted,
    e: FfiError,
) -> bool {
    ||| exists|q: Request, b: SwmError|
        #[trigger] asked_for(scorer, q) && #[trigger] reports(b, e) && cem_outcome::<
            S,
            DeviceNoise,
        >(scorer, c, PlannerRng { next_offset: 0 }, q, Err(b))
    ||| exists|q: Request, p: PlanResult|
        #[trigger] asked_for(scorer, q) && #[trigger] cem_plan::<S, DeviceNoise>(scorer, c, q, p) && untold(
            p,
            wanted,
            e,
        )
}

/// What a call for a CEM plan does.
pub open spec fn cem_call<S: CandidateScorer>(
    scorer: &S,
    c: CemConfig,
    wanted: OutputsWanted,
    r: FfiResult<PlanOutputs>,
) -> bool {
    &&& c.complaint() matches Some(text) ==> r is Err && r->Err_0.is(SwmStatus::RuntimeError, text)
    &&& r matches Ok(o) ==> tells_cem(scorer, c, wanted, o)
    &&& r is Err && c.complaint() is None ==> no_cem(scorer, c, wanted, r->Err_0)
}

/// Plans with CEM and tells of the plan.
pub fn plan_cem<S: CandidateScorer>(
    scorer: &S,
    settings: SwmCemPlanConfig,
    action_dim: usize,
    bounds: &ActionBounds,
    wanted: OutputsWanted,
) -> (r: FfiResult<PlanOutputs>)
    ensures
        exists|c: CemConfig| #[trigger]
            is_cem(c, settings, action_dim, *bounds) && cem_call(scorer, c, wanted, r),
{
    let config = cem_config_from_ffi(settings, action_dim, bounds);
    let ghost c = config;
    let mut planner = CemPlanner::new(config);
    let made = planner.plan(scorer);
    proof {
        assert(is_cem(c, settings, action_dim, *bounds));
    }
    match made {
        Ok(p) => {
            let out = copy_plan_outputs(&p, wanted);
            proof {
                let q = choose|q: Request| #[trigger]
                    asked_for(scorer, q) && cem_plan::<S, DeviceNoise>(scorer, c, q, p);
                assert(cem_plan::<S, DeviceNoise>(scorer, c, q, p));
                assert(cem_call(scorer, c, wanted, out));
            }
            out
        },
        Err(b) => {
            let out: FfiResult<PlanOutputs> = Err(FfiError::runtime(b));
            proof {
                assert(reports(b, out->Err_0));
                assert(cem_call(scorer, c, wanted, out));
            }
            out
        },
    }
}

/// What is told of an MPPI plan.
pub open spec fn tells_mppi<S: CandidateScorer>(
    scorer: &S,
    c: MppiConfig,
    wanted: OutputsWanted,
    o: PlanOutputs,
) -> bool {
    exists|q: Request, p: PlanResult|
        #[trigger] asked_for(scorer, q) && #[trigger] mppi_plan::<S, DeviceNoise>(scorer, c, q, p) && tells(
            p,
            wanted,
            o,
        )
}

/// What can keep a call from telling of an MPPI plan: there was no plan, or it
/// could not be told of.
pub open spec fn no_mppi<S: CandidateScorer>(
    scorer: &S,
    c: MppiConfig,
    wanted: OutputsWanted,
    e: FfiError,
) -> bool {
    ||| exists|q: Request, b: SwmError|
        #[trigger] asked_for(scorer, q) && #[trigger] reports(b, e) && mppi_outcome::<
            S,
            DeviceNoise,
        >(scorer, c, PlannerRng { next_offset: 0 }, q, Err(b))
    ||| exists|q: Request, p: PlanResult|
        #[trigger] asked_for(scorer, q) && #[trigger] mppi_plan::<S, DeviceNoise>(scorer, c, q, p) && untold(
            p,
            wanted,
            e,
        )
}

/// What a call for an MPPI plan does.
pub open spec fn mppi_call<S: CandidateScorer>(
    scorer: &S,
    c: MppiConfig,
    wanted: OutputsWanted,
    r: FfiResult<PlanOutputs>,
) -> bool {
    &&& c.complaint() matches Some(text) ==> r is Err && r->Err_0.is(SwmStatus::RuntimeError, text)
    &&& r matches Ok(o) ==> tells_mppi(scorer, c, wanted, o)
    &&& r is Err && c.complaint() is None ==> no_mppi(scorer, c, wanted, r->Err_0)
}

/// Plans with MPPI and tells of the plan.
pub fn plan_mppi<S: CandidateScorer>(
    scorer: &S,
    settings: SwmMppiPlanConfig,
    action_dim: usize,
    bounds: &ActionBounds,
    wanted: OutputsWanted,
) -> (r: FfiResult<PlanOutputs>)
    ensures
        exists|c: MppiConfig| #[trigger]
            is_mppi(c, settings, action_dim, *bounds) && mppi_call(scorer, c, wanted, r),
{
    let config = mppi_config_from_ffi(settings, action_dim, bounds);
    let ghost c = config;
    let mut planner = MppiPlanner::new(config);
    let made = planner.plan(scorer);
    proof {
        assert(is_mppi(c, settings, action_dim, *bounds));
    }
    match made {
        Ok(p) => {
            let out = copy_plan_outputs(&p, wanted);
            proof {
                let q = choose|q: Request| #[trigger]
                    asked_for(scorer, q) && mppi_plan::<S, DeviceNoise>(scorer, c, q, p);
                assert(mppi_plan::<S, DeviceNoise>(scorer, c, q, p));
                assert(mppi_call(scorer, c, wanted, out));
            }
            out
        },
        Err(b) => {
            let out: FfiResult<PlanOutputs> = Err(FfiError::runtime(b));
            proof {
                assert(reports(b, out->Err_0));
                assert(mppi_call(scorer, c, wanted, out));
            }
            out
        },
    }
}

/// The settings, the warm start and the position of the stream that a call plans
/// with: those of the planner that was kept where it does what is asked for.
pub open spec fn start_of(
    kept: Option<IcemPlanner>,
    c: IcemConfig,
) -> (IcemConfig, Option<Tensor>, PlannerRng) {
    let afresh = (c, None, PlannerRng { next_offset: 0 });
    match kept {
        Some(p) => if serves(p.config, c) {
            (p.config, p.warm_start, p.rng)
        } else {
            afresh
        },
        None => afresh,
    }
}

/// A plan that a search found hands its sequence on to the next.
pub open spec fn hands_on(p: PlanResult, next: Option<Tensor>) -> bool {
    p.fallback is NotUsed ==> next is Some && shifted(value(p.sequence), value(next->0))
}

/// An iCEM plan and what the next one starts from.
pub open spec fn made_icem<S: CandidateScorer>(
    scorer: &S,
    start: (IcemConfig, Option<Tensor>, PlannerRng),
    p: PlanResult,
    next: Option<Tensor>,
) -> bool {
    exists|q: Request| #[trigger]
        asked_for(scorer, q) && icem_plan::<S, DeviceNoise>(scorer, start.0, start.1, q, p) && hands_on(p, next)
}

/// What can keep a call from telling of an iCEM plan: there was no plan, and the
/// next starts as this one did, or the plan could not be told of.
pub open spec fn no_icem<S: CandidateScorer>(
    scorer: &S,
    start: (IcemConfig, Option<Tensor>, PlannerRng),
    wanted: OutputsWanted,
    e: FfiError,
    next: Option<Tensor>,
) -> bool {
    ||| next == start.1 && exists|q: Request, b: SwmError|
        #[trigger] asked_for(scorer, q) && #[trigger] reports(b, e) && icem_outcome::<
            S,
            DeviceNoise,
        >(scorer, start.0, start.1, start.2, q, Err(b))
    ||| exists|p: PlanResult|
        #[trigger] made_icem(scorer, start, p, next) && untold(p, wanted, e)
}

/// What a call for an iCEM plan does, and what the next plan starts from.
pub open spec fn icem_call<S: CandidateScorer>(
    scorer: &S,
    start: (IcemConfig, Option<Tensor>, PlannerRng),
    wanted: OutputsWanted,
    r: FfiResult<PlanOutputs>,
    next: Option<Tensor>,
) -> bool {
    &&& start.0.complaint() matches Some(text) ==> r is Err && r->Err_0.is(
        SwmStatus::RuntimeError,
        text,
    ) && next == start.1
    &&& r matches Ok(o) ==> exists|p: PlanResult| #[trigger]
        made_icem(scorer, start, p, next) && tells(p, wanted, o)
    &&& r is Err && start.0.complaint() is None ==> no_icem(scorer, start, wanted, r->Err_0, next)
}

/// Plans with iCEM and tells of the plan. A planner that was kept goes on from
/// its last plan; settings that differ start over.
pub fn plan_icem<S: CandidateScorer>(
    kept: &mut Option<IcemPlanner>,
    scorer: &S,
    settings: SwmIcemPlanConfig,
    action_dim: usize,
    bounds: &ActionBounds,
    wanted: OutputsWanted,
) -> (r: FfiResult<PlanOutputs>)
    requires
        *old(kept) is Some ==> old(kept)->0.well_formed(),
    ensures
        *final(kept) is Some,
        final(kept)->0.well_formed(),
        exists|c: IcemConfig| #[trigger]
            is_icem(c, settings, action_dim, *bounds) && final(kept)->0.config == start_of(
                *old(kept),
                c,
            ).0 && icem_call(
                scorer,
                start_of(*old(kept), c),
                wanted,
                r,
                final(kept)->0.warm_start,
            ),
{
    let config = icem_config_from_ffi(settings, action_dim, bounds);
    let ghost c = config;
    let ghost start = start_of(*old(kept), c);
    let mut planner = match kept.take() {
        Some(p) => if can_reuse(&p.config, &config) {
            p
        } else {
            IcemPlanner::new(config)
        },
        None => IcemPlanner::new(config),
    };
    proof {
        assert(is_icem(c, settings, action_dim, *bounds));
        assert(planner.config == start.0 && planner.warm_start == start.1 && planner.rng == start.2);
    }
    let made = planner.plan(scorer);
    let ghost next = planner.warm_start;
    *kept = Some(planner);
    match made {
        Ok(p) => {
            let out = copy_plan_outputs(&p, wanted);
            proof {
                assert(made_icem(scorer, start, p, next));
                assert(icem_call(scorer, start, wanted, out, next));
            }
            out
        },
        Err(b) => {
            let out: FfiResult<PlanOutputs> = Err(FfiError::runtime(b));
            proof {
                assert(reports(b, out->Err_0));
                assert(icem_call(scorer, start, wanted, out, next));
            }
            out
        },
    }
}

/// Forgets what the next plan would start from.
pub fn clear_icem_warm_start(kept: &mut Option<IcemPlanner>)
    ensures
        *old(kept) is None ==> *final(kept) is None,
        *old(kept) is Some ==> *final(kept) == Some(
            IcemPlanner { warm_start: None, ..old(kept)->0 },
        ),
{
    match kept.take() {
        Some(p) => {
            let mut p = p;
            p.clear_warm_start();
            *kept = Some(p);
        },
        None => {
            *kept = None;
        },
    }
}

} // verus!
