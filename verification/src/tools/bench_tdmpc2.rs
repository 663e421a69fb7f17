//! The TD-MPC2 benchmark.

use candle_core::DType;
use candle_core::Device;
use candle_core::Tensor;
use vstd::prelude::*;

use crate::checkpoint::empty_var_builder;
use crate::error::{Result, SwmError};
use crate::ffi::outputs::{are_numbers, PlanOutputs};
use crate::ffi::planning::{cem_call, icem_call, mppi_call, start_of};
use crate::ffi::settings::{is_cem, is_icem, is_mppi};
use crate::ffi::status::{FfiError, FfiResult};
use crate::ffi::tdmpc2::SwmTdMpc2;
use crate::models::tdmpc2::actor::pair_complaint;
use crate::models::tdmpc2::bins::two_hot_value;
use crate::models::tdmpc2::config::TdMpc2Config;
use crate::models::tdmpc2::encode::{embedding_width, one_observation};
use crate::models::tdmpc2::model::TdMpc2;
use crate::models::tdmpc2::state::{
    lemma_state_observed, lemma_state_settings, state_settings_complaint, state_start_complaint,
};
use crate::planner::cem::{cem_outcome, cem_plan, CemPlanner};
use crate::planner::config::{CemConfig, IcemConfig, MppiConfig};
use crate::planner::icem::{icem_outcome, icem_plan, IcemPlanner};
use crate::planner::mppi::{mppi_outcome, mppi_plan, MppiPlanner};
use crate::planner::noise::{DeviceNoise, NoiseSource};
use crate::planner::result::PlanResult;
use crate::planner::scorer::{asked_for, Request};
use crate::scalar::F32;
use crate::session::tdmpc2::{lemma_state_refused, TdMpc2Session};
use crate::tensor::layers::is_fresh;
use crate::tensor::value::{
    count, device_location, dtype_element, tensor_dims, tensor_element, tensor_location, value,
    ElementType, Location, TensorValue,
};
use crate::tools::arguments::{
    bench_complaint, bench_elites, bench_plans, elites_for, plans_for, BenchPlans,
};
use crate::tools::bench::{
    ensure_ffi_status, everything, tells_of, want_everything, BenchRow, BenchSizes,
};

verus! {

/// What goes into the benchmark.
pub struct TdMpc2Inputs {
    pub state: Tensor,
    pub action: Tensor,
    pub action_candidates: Tensor,
    pub actor_noise: Tensor,
}

impl TdMpc2Inputs {
    /// Every input has an element type at a place.
    pub open spec fn are_at(self, e: ElementType, location: Location) -> bool {
        &&& tensor_element(self.state) == e && tensor_location(self.state) == location
        &&& tensor_element(self.action) == e && tensor_location(self.action) == location
        &&& tensor_element(self.action_candidates) == e && tensor_location(self.action_candidates)
            == location
        &&& tensor_element(self.actor_noise) == e && tensor_location(self.actor_noise) == location
    }
}

/// The TD-MPC2 benchmark: a model, its inputs, a session with planners and a
/// handle.
pub struct TdMpc2Bench {
    pub model: TdMpc2,
    pub inputs: TdMpc2Inputs,
    pub z: Tensor,
    pub session: TdMpc2Session,
    pub handle: SwmTdMpc2,
    pub plans: BenchPlans,
    pub cem: CemPlanner,
    pub mppi: MppiPlanner,
    pub icem: IcemPlanner,
    pub horizon: usize,
    pub samples: usize,
}

/// What a row comes to.
pub enum TdMpc2Output {
    /// The row is the work of a kernel or a decoder, or of another benchmark.
    Elsewhere,
    Value(Tensor),
    /// The next state and the reward logits.
    Step(Tensor, Tensor),
    /// Actions, reward logits and the last state.
    Trace(Tensor, Tensor, Tensor),
    Numbers(Vec<F32>),
    /// Actions and rewards.
    Played(Vec<F32>, Option<Vec<F32>>),
    Told(PlanOutputs),
    Plan(PlanResult),
}

impl TdMpc2Bench {
    /// The model works, and so do the planners.
    pub open spec fn well_formed(self) -> bool {
        &&& self.model.well_formed()
        &&& self.handle.well_formed()
        &&& self.cem.well_formed()
        &&& self.mppi.well_formed()
        &&& self.icem.well_formed()
    }

    /// The planners have the sizes of the benchmark and standard settings
    /// otherwise.
    pub open spec fn planners_fit(self, sizes: BenchSizes) -> bool {
        let elites = elites_for(sizes.samples, sizes.elites);
        &&& self.cem.config.horizon == sizes.horizon && self.cem.config.samples == sizes.samples
        &&& self.cem.config.elites == elites && self.cem.config.iterations
            == sizes.planner_iterations
        &&& self.cem.config.action_dim == sizes.action_dim && self.cem.config.seed is None
        &&& self.mppi.config.horizon == sizes.horizon && self.mppi.config.samples == sizes.samples
        &&& self.mppi.config.iterations == sizes.planner_iterations && self.mppi.config.action_dim
            == sizes.action_dim && self.mppi.config.seed is None
        &&& self.icem.config.horizon == sizes.horizon && self.icem.config.samples == sizes.samples
        &&& self.icem.config.elites == elites && self.icem.config.keep_elites == elites
        &&& self.icem.config.iterations == sizes.planner_iterations && self.icem.config.action_dim
            == sizes.action_dim && self.icem.config.seed is None
        &&& self.icem.warm_start is None
    }

    /// The model, the session and the handle have new parameters of an element type
    /// at a place, and the session and the handle work there.
    pub open spec fn is_new(self, e: ElementType, location: Location) -> bool {
        &&& exists|s: int| #[trigger] is_fresh(s, e, location) && self.model.loaded(s, Seq::empty())
        &&& exists|s: int| #[trigger]
            is_fresh(s, e, location) && self.session.held().loaded(s, Seq::empty())
        &&& exists|s: int| #[trigger]
            is_fresh(s, e, location) && self.handle.session.held().loaded(s, Seq::empty())
        &&& self.session.element() == e && self.session.location() == location
        &&& self.handle.session.element() == e && self.handle.session.location() == location
    }

    /// The first thing wrong with the sizes and the state of a benchmark.
    pub open spec fn setup_complaint(sizes: BenchSizes, state: Seq<usize>) -> Option<Seq<char>> {
        let start = state_start_complaint(sizes.state_dim, sizes.action_dim, state);
        if start is Some {
            start
        } else {
            bench_complaint(
                "TD-MPC2 planning"@,
                sizes.samples,
                sizes.planner_iterations,
                sizes.elites,
            )
        }
    }

    /// Sets the benchmark up with inputs.
    pub fn new(sizes: BenchSizes, device: &Device, dtype: DType, inputs: TdMpc2Inputs) -> (r: Result<
        Self,
    >)
        ensures
            state_settings_complaint(sizes.action_dim) matches Some(text) ==> r is Err
                && r->Err_0.says(text),
            bench_complaint(
                "TD-MPC2 planning"@,
                sizes.samples,
                sizes.planner_iterations,
                sizes.elites,
            ) is Some ==> r is Err,
            Self::setup_complaint(sizes, tensor_dims(inputs.state)) is Some ==> r is Err,
            r matches Err(SwmError::Message(m)) ==> Self::setup_complaint(
                sizes,
                tensor_dims(inputs.state),
            ) == Some(m@),
            r matches Ok(b) ==> {
                &&& b.well_formed()
                &&& b.inputs == inputs
                &&& b.model.cfg.sees_state(sizes.state_dim, sizes.action_dim)
                &&& b.session.held().cfg.sees_state(sizes.state_dim, sizes.action_dim)
                &&& b.is_new(dtype_element(dtype), device_location(*device))
                &&& b.model.encoded(one_observation("state", &inputs.state), value(b.z))
                &&& exists|z: Tensor| #[trigger] b.session.holds(one_observation("state", &inputs.state), z)
                &&& b.handle.action_dim == sizes.action_dim
                &&& b.horizon == sizes.horizon
                &&& b.samples == sizes.samples
                &&& b.plans == plans_for(
                    sizes.horizon,
                    sizes.samples,
                    elites_for(sizes.samples, sizes.elites),
                    sizes.planner_iterations,
                )
                &&& b.planners_fit(sizes)
            },
    {
        let (state_dim, action_dim) = (sizes.state_dim, sizes.action_dim);
        let store = empty_var_builder(dtype, device);
        let config = TdMpc2Config::state_only(state_dim, action_dim);
        let ghost obs = one_observation("state", &inputs.state);
        proof {
            lemma_state_settings(config, state_dim, action_dim);
        }
        let model = TdMpc2::new(config, &store)?;
        proof {
            lemma_state_observed(model, state_dim, action_dim, obs);
        }
        let z = model.encode_state(&inputs.state)?;
        let other = empty_var_builder(dtype, device);
        let session_config = TdMpc2Config::state_only(state_dim, action_dim);
        proof {
            lemma_state_settings(session_config, state_dim, action_dim);
        }
        let session_model = TdMpc2::new(session_config, &other)?;
        let mut session = TdMpc2Session::new(session_model, device.clone(), dtype);
        let ghost fresh = session;
        let seen = match session.reset_state(&inputs.state) {
            Ok(z) => z,
            Err(e) => {
                proof {
                    if e is Message {
                        lemma_state_refused(
                            fresh,
                            state_dim,
                            action_dim,
                            &inputs.state,
                            e->Message_0@,
                        );
                    }
                }
                return Err(e);
            },
        };
        let handle = SwmTdMpc2::synthetic_state_for_bench(
            sizes.state_dim,
            sizes.action_dim,
            dtype,
            device,
            &inputs.state,
        )?;
        let elites: usize = bench_elites(
            "TD-MPC2 planning",
            sizes.samples,
            sizes.planner_iterations,
            sizes.elites,
        )?;
        let mut cem_cfg = CemConfig::new(sizes.horizon, sizes.samples, elites, sizes.action_dim);
        cem_cfg.iterations = sizes.planner_iterations;
        let mut mppi_cfg = MppiConfig::new(sizes.horizon, sizes.samples, sizes.action_dim);
        mppi_cfg.iterations = sizes.planner_iterations;
        let mut icem_cfg = IcemConfig::new(sizes.horizon, sizes.samples, elites, sizes.action_dim);
        icem_cfg.iterations = sizes.planner_iterations;
        icem_cfg.keep_elites = elites;
        let plans = bench_plans(sizes.horizon, sizes.samples, elites, sizes.planner_iterations);
        proof {
            assert(session.holds(one_observation("state", &inputs.state), seen));
            assert(model.encoded(one_observation("state", &inputs.state), value(z)));
        }
        Ok(
            Self {
                model,
                inputs,
                z,
                session,
                handle,
                plans,
                cem: CemPlanner::new(cem_cfg),
                mppi: MppiPlanner::new(mppi_cfg),
                icem: IcemPlanner::new(icem_cfg),
                horizon: sizes.horizon,
                samples: sizes.samples,
            },
        )
    }

    /// Whether a machine integer can hold the elements of every drawn input.
    pub open spec fn draws_fit(sizes: BenchSizes) -> bool {
        let (b, s, h, a) = (sizes.batch_size, sizes.samples, sizes.horizon, sizes.action_dim);
        &&& count(seq![b, sizes.state_dim]) <= usize::MAX
        &&& count(seq![b, a]) <= usize::MAX
        &&& count(seq![b, s, h, a]) <= usize::MAX
        &&& count(seq![s, b, h, a]) <= usize::MAX
    }

    /// The first thing wrong with the sizes of a benchmark that draws its inputs.
    pub open spec fn drawn_complaint(sizes: BenchSizes) -> Option<Seq<char>> {
        if !Self::draws_fit(sizes) {
            Some("noise shape overflowed"@)
        } else {
            Self::setup_complaint(sizes, seq![sizes.batch_size, sizes.state_dim])
        }
    }

    /// Sets the benchmark up with inputs that are drawn on the device.
    pub fn drawn(sizes: BenchSizes, device: &Device, dtype: DType) -> (r: Result<Self>)
        ensures
            Self::drawn_complaint(sizes) is Some ==> r is Err,
            r matches Err(SwmError::Message(m)) ==> Self::drawn_complaint(sizes) == Some(m@),
            count(seq![sizes.batch_size, sizes.state_dim]) > usize::MAX ==> r is Err
                && r->Err_0.says("noise shape overflowed"@),
            bench_complaint(
                "TD-MPC2 planning"@,
                sizes.samples,
                sizes.planner_iterations,
                sizes.elites,
            ) is Some ==> r is Err,
            r matches Ok(b) ==> {
                &&& b.well_formed()
                &&& b.planners_fit(sizes)
                &&& b.model.cfg.sees_state(sizes.state_dim, sizes.action_dim)
                &&& b.model.encoded(one_observation("state", &b.inputs.state), value(b.z))
                &&& exists|z: Tensor| #[trigger] b.session.holds(one_observation("state", &b.inputs.state), z)
                &&& b.horizon == sizes.horizon
                &&& b.samples == sizes.samples
                &&& b.is_new(dtype_element(dtype), device_location(*device))
                &&& b.inputs.are_at(dtype_element(dtype), device_location(*device))
                &&& tensor_dims(b.inputs.state) == seq![sizes.batch_size, sizes.state_dim]
                &&& tensor_dims(b.inputs.action) == seq![sizes.batch_size, sizes.action_dim]
                &&& tensor_dims(b.inputs.action_candidates) == seq![
                    sizes.batch_size,
                    sizes.samples,
                    sizes.horizon,
                    sizes.action_dim,
                ]
                &&& tensor_dims(b.inputs.actor_noise) == seq![
                    sizes.samples,
                    sizes.batch_size,
                    sizes.horizon,
                    sizes.action_dim,
                ]
            },
    {
        let mut noise = DeviceNoise;
        let (b, s, h, a) = (sizes.batch_size, sizes.samples, sizes.horizon, sizes.action_dim);
        let state_dims: [usize; 2] = [b, sizes.state_dim];
        let action_dims: [usize; 2] = [b, a];
        let candidate_dims: [usize; 4] = [b, s, h, a];
        let noise_dims: [usize; 4] = [s, b, h, a];
        proof {
            assert(state_dims@ =~= seq![b, sizes.state_dim]);
            assert(action_dims@ =~= seq![b, a]);
            assert(candidate_dims@ =~= seq![b, s, h, a]);
            assert(noise_dims@ =~= seq![s, b, h, a]);
        }
        let state = noise.standard_normal(&state_dims, dtype, device)?;
        let action = noise.standard_normal(&action_dims, dtype, device)?;
        let action_candidates = noise.standard_normal(&candidate_dims, dtype, device)?;
        let actor_noise = noise.standard_normal(&noise_dims, dtype, device)?;
        TdMpc2Bench::new(
            sizes,
            device,
            dtype,
            TdMpc2Inputs { state, action, action_candidates, actor_noise },
        )
    }

    /// The costs after the whole way from a state.
    pub open spec fn full(self, r: TensorValue) -> bool {
        exists|z: TensorValue, next: TensorValue, logits: TensorValue|
            {
                &&& #[trigger] self.model.encoded(one_observation("state", &self.inputs.state), z)
                &&& #[trigger] self.model.stepped(z, value(self.inputs.action), next, logits)
                &&& self.model.cost_of(
                    one_observation("state", &self.inputs.state),
                    value(self.inputs.action_candidates),
                    r,
                )
            }
    }

    /// The shape of the encoded state.
    pub open spec fn state_dims(self) -> Seq<usize> {
        self.model.kept_axes(one_observation("state", &self.inputs.state)).push(
            embedding_width(self.model.cfg.encodings@) as usize,
        )
    }

    /// What can be said on the whole way from a state.
    pub open spec fn full_says(self, text: Seq<char>) -> bool {
        let obs = one_observation("state", &self.inputs.state);
        let pairs = pair_complaint(self.state_dims(), tensor_dims(self.inputs.action));
        if self.model.encode_complaint(obs) is Some {
            self.model.encode_complaint(obs) == Some(text) || self.model.cannot_join(obs, text)
        } else {
            ||| self.model.cannot_join(obs, text)
            ||| pairs == Some(text)
            ||| pairs is None && self.model.latent_complaint() == Some(text)
            ||| pairs is None && self.model.cost_says(
                obs,
                tensor_dims(self.inputs.action_candidates),
                text,
            )
        }
    }

    fn run_full(&self) -> (r: Result<Tensor>)
        requires
            self.well_formed(),
        ensures
            self.model.encode_complaint(one_observation("state", &self.inputs.state)) is Some ==> r is Err,
            pair_complaint(self.state_dims(), tensor_dims(self.inputs.action)) is Some ==> r is Err,
            self.model.candidates_complaint(tensor_dims(self.inputs.action_candidates)) is Some
                ==> r is Err,
            r matches Err(SwmError::Message(m)) ==> self.full_says(m@),
            r matches Ok(o) ==> self.full(value(o)),
    {
        let z = self.model.encode_state(&self.inputs.state)?;
        let (next, logits) = self.model.forward(&z, &self.inputs.action)?;
        let cost = self.model.get_cost_state(&self.inputs.state, &self.inputs.action_candidates)?;
        proof {
            assert(self.model.encoded(one_observation("state", &self.inputs.state), value(z)));
            assert(self.model.stepped(
                value(z),
                value(self.inputs.action),
                value(next),
                value(logits),
            ));
        }
        Ok(cost)
    }

    /// A plan of the handle with CEM.
    pub open spec fn told_cem(self, r: FfiResult<PlanOutputs>) -> bool {
        exists|c: CemConfig| #[trigger]
            is_cem(c, self.plans.cem, self.handle.action_dim, self.handle.action_bounds)
                && cem_call(&self.handle.session, c, everything(), r)
    }

    /// A plan of the handle with MPPI.
    pub open spec fn told_mppi(self, r: FfiResult<PlanOutputs>) -> bool {
        exists|c: MppiConfig| #[trigger]
            is_mppi(c, self.plans.mppi, self.handle.action_dim, self.handle.action_bounds)
                && mppi_call(&self.handle.session, c, everything(), r)
    }

    /// A plan of the handle with iCEM, and what the next starts from.
    pub open spec fn told_icem(self, r: FfiResult<PlanOutputs>, next: Option<Tensor>) -> bool {
        exists|c: IcemConfig| #[trigger]
            is_icem(c, self.plans.icem, self.handle.action_dim, self.handle.action_bounds)
                && icem_call(
                &self.handle.session,
                start_of(self.handle.icem_planner, c),
                everything(),
                r,
                next,
            )
    }

    /// What a row comes to that leaves the planners as they are.
    pub open spec fn computes(self, row: BenchRow, o: TdMpc2Output) -> bool {
        match row {
            BenchRow::Encode => o is Value && self.model.encoded(
                one_observation("state", &self.inputs.state),
                value(o->Value_0),
            ),
            BenchRow::Dynamics => o is Step && self.model.stepped(
                value(self.z),
                value(self.inputs.action),
                value(o->Step_0),
                value(o->Step_1),
            ),
            BenchRow::Score => o is Value && self.model.cost_of(
                one_observation("state", &self.inputs.state),
                value(self.inputs.action_candidates),
                value(o->Value_0),
            ),
            BenchRow::Full => o is Value && self.full(value(o->Value_0)),
            BenchRow::PolicyRollout => o is Trace && self.model.mean_logits(
                value(self.z),
                self.horizon as nat,
                value(o->Trace_0),
                value(o->Trace_1),
                value(o->Trace_2),
            ),
            BenchRow::PolicySampleFixed => o is Value && self.model.mean_of_draws(
                value(self.z),
                value(self.inputs.actor_noise),
                value(o->Value_0),
            ),
            BenchRow::PolicySampleGenerated => o is Value && exists|noise: TensorValue|
                noise.dims == seq![
                    self.samples,
                    tensor_dims(self.z)[0],
                    self.horizon,
                    self.model.cfg.action_dim,
                ] && #[trigger] self.model.mean_of_draws(value(self.z), noise, value(o->Value_0)),
            BenchRow::FfiActorMean => o is Numbers && exists|action: TensorValue| #[trigger]
                self.handle.session.held().mean_action(
                    value(self.handle.session.latent()->0),
                    action,
                ) && are_numbers(action, o->Numbers_0@),
            BenchRow::FfiPolicyRoll => o is Played && o->Played_1 is Some && self.played(
                o->Played_0@,
                o->Played_1->0@,
            ),
            BenchRow::FfiPolicySamp => o is Numbers && self.drew_actions(o->Numbers_0@),
            BenchRow::FfiPlanCem => o is Told && self.told_cem(Ok(o->Told_0)),
            BenchRow::FfiPlanMppi => o is Told && self.told_mppi(Ok(o->Told_0)),
            _ => true,
        }
    }

    /// The mean actions of the handle's policy and their rewards, as numbers.
    pub open spec fn played(self, actions: Seq<F32>, rewards: Seq<F32>) -> bool {
        let m = self.handle.session.held();
        exists|taken: TensorValue, logits: TensorValue, end: TensorValue, gained: TensorValue|
            #[trigger] m.mean_logits(
                value(self.handle.session.latent()->0),
                self.horizon as nat,
                taken,
                logits,
                end,
            ) && #[trigger] two_hot_value(logits, m.cfg.vmin, m.cfg.vmax, m.cfg.num_bins, gained)
                && are_numbers(taken, actions) && are_numbers(gained, rewards)
    }

    /// The mean over drawn actions of the handle's policy, as numbers.
    pub open spec fn drew_actions(self, actions: Seq<F32>) -> bool {
        let m = self.handle.session.held();
        exists|noise: TensorValue, taken: TensorValue|
            noise.dims == seq![
                self.samples,
                tensor_dims(self.handle.session.latent()->0)[0],
                self.horizon,
                m.cfg.action_dim,
            ] && #[trigger] m.mean_of_draws(
                value(self.handle.session.latent()->0),
                noise,
                taken,
            ) && are_numbers(taken, actions)
    }

    /// How a row fails that leaves the planners as they are.
    pub open spec fn compute_failed(self, row: BenchRow, e: SwmError) -> bool {
        let obs = one_observation("state", &self.inputs.state);
        match row {
            BenchRow::Encode => e matches SwmError::Message(m) ==> self.model.encode_complaint(obs)
                == Some(m@) || self.model.cannot_join(obs, m@),
            BenchRow::Dynamics => e matches SwmError::Message(m) ==> match pair_complaint(
                tensor_dims(self.z),
                tensor_dims(self.inputs.action),
            ) {
                Some(text) => m@ == text,
                None => self.model.latent_complaint() == Some(m@),
            },
            BenchRow::Score => e matches SwmError::Message(m) ==> self.model.cost_says(
                obs,
                tensor_dims(self.inputs.action_candidates),
                m@,
            ),
            BenchRow::Full => e matches SwmError::Message(m) ==> self.full_says(m@),
            BenchRow::PolicyRollout => e matches SwmError::Message(m)
                ==> self.model.rollout_complaint(self.horizon as nat, m@),
            BenchRow::PolicySampleFixed => e matches SwmError::Message(m)
                ==> match self.model.draws_complaint(
                tensor_dims(self.z),
                tensor_dims(self.inputs.actor_noise),
            ) {
                Some(text) => m@ == text,
                None => self.model.actor_complaint() == Some(m@) || self.model.latent_complaint()
                    == Some(m@),
            },
            BenchRow::PolicySampleGenerated => e matches SwmError::Message(m)
                ==> match self.model.sampling_complaint(
                tensor_dims(self.z),
                self.horizon,
                self.samples,
            ) {
                Some(text) => m@ == text,
                None => self.model.actor_complaint() == Some(m@) || self.model.latent_complaint()
                    == Some(m@),
            },
            BenchRow::FfiActorMean => exists|f: FfiError|
                #[trigger] tells_of(e, f) && self.handle.no_mean_action(true, f),
            BenchRow::FfiPolicyRoll => exists|f: FfiError|
                #[trigger] tells_of(e, f) && self.handle.no_mean_rollout(
                    self.horizon,
                    true,
                    true,
                    f,
                ),
            BenchRow::FfiPolicySamp => exists|f: FfiError|
                #[trigger] tells_of(e, f) && self.handle.no_sampled_rollout(
                    self.horizon,
                    self.samples,
                    true,
                    f,
                ),
            BenchRow::FfiPlanCem => exists|f: FfiError|
                #[trigger] tells_of(e, f) && self.told_cem(Err(f)),
            BenchRow::FfiPlanMppi => exists|f: FfiError|
                #[trigger] tells_of(e, f) && self.told_mppi(Err(f)),
            _ => false,
        }
    }

    /// Runs a row that leaves the planners as they are.
    fn compute(&self, row: BenchRow) -> (r: Result<TdMpc2Output>)
        requires
            self.well_formed(),
        ensures
            r matches Ok(o) ==> self.computes(row, o),
            r matches Err(e) ==> self.compute_failed(row, e),
            row.is_media() || row is Rollout || row is Cost ==> r is Ok && r->Ok_0 is Elsewhere,
    {
        match row {
            BenchRow::Encode => Ok(
                TdMpc2Output::Value(self.model.encode_state(&self.inputs.state)?),
            ),
            BenchRow::Dynamics => {
                let (next, logits) = self.model.forward(&self.z, &self.inputs.action)?;
                Ok(TdMpc2Output::Step(next, logits))
            },
            BenchRow::Score => Ok(
                TdMpc2Output::Value(
                    self.model.get_cost_state(&self.inputs.state, &self.inputs.action_candidates)?,
                ),
            ),
            BenchRow::Full => Ok(TdMpc2Output::Value(self.run_full()?)),
            BenchRow::PolicyRollout => {
                let (actions, logits, last) = self.model.rollout_actor_mean_logits(
                    &self.z,
                    self.horizon,
                )?;
                Ok(TdMpc2Output::Trace(actions, logits, last))
            },
            BenchRow::PolicySampleFixed => Ok(
                TdMpc2Output::Value(
                    self.model.rollout_actor_sampled_with_noise(&self.z, &self.inputs.actor_noise)?,
                ),
            ),
            BenchRow::PolicySampleGenerated => Ok(
                TdMpc2Output::Value(
                    self.model.rollout_actor_sampled(&self.z, self.horizon, self.samples)?,
                ),
            ),
            BenchRow::FfiActorMean => Ok(
                TdMpc2Output::Numbers(ensure_ffi_status(self.handle.actor_mean_action(true))?),
            ),
            BenchRow::FfiPolicyRoll => {
                let (actions, rewards) = ensure_ffi_status(
                    self.handle.rollout_actor_mean(self.horizon, true, true),
                )?;
                Ok(TdMpc2Output::Played(actions, rewards))
            },
            BenchRow::FfiPolicySamp => Ok(
                TdMpc2Output::Numbers(
                    ensure_ffi_status(
                        self.handle.rollout_actor_sample(self.horizon, self.samples, true),
                    )?,
                ),
            ),
            BenchRow::FfiPlanCem => Ok(
                TdMpc2Output::Told(
                    ensure_ffi_status(self.handle.plan_cem(self.plans.cem, want_everything()))?,
                ),
            ),
            BenchRow::FfiPlanMppi => Ok(
                TdMpc2Output::Told(
                    ensure_ffi_status(self.handle.plan_mppi(self.plans.mppi, want_everything()))?,
                ),
            ),
            _ => Ok(TdMpc2Output::Elsewhere),
        }
    }

    /// Whether a row uses a planner of the benchmark or the kept one of the
    /// handle.
    pub open spec fn uses_planner(row: BenchRow) -> bool {
        row is PlanCem || row is PlanMppi || row is PlanIcem || row is FfiPlanIcem
    }

    /// A plan of one of the benchmark's own planners.
    pub open spec fn planned(self, row: BenchRow, p: PlanResult) -> bool {
        exists|q: Request| #[trigger]
            asked_for(&self.session, q) && match row {
                BenchRow::PlanCem => cem_plan::<TdMpc2Session, DeviceNoise>(&self.session, self.cem.config, q, p),
                BenchRow::PlanMppi => mppi_plan::<TdMpc2Session, DeviceNoise>(&self.session, self.mppi.config, q, p),
                _ => icem_plan::<TdMpc2Session, DeviceNoise>(&self.session, self.icem.config, self.icem.warm_start, q, p),
            }
    }

    /// How a row of one of the benchmark's own planners fails.
    pub open spec fn plan_failed(self, row: BenchRow, e: SwmError) -> bool {
        let session = &self.session;
        match row {
            BenchRow::PlanCem => match self.cem.config.complaint() {
                Some(text) => e.says(text),
                None => exists|q: Request|
                    #[trigger] asked_for(session, q) && cem_outcome::<TdMpc2Session, DeviceNoise>(
                        session,
                        self.cem.config,
                        self.cem.rng,
                        q,
                        Err(e),
                    ),
            },
            BenchRow::PlanMppi => match self.mppi.config.complaint() {
                Some(text) => e.says(text),
                None => exists|q: Request|
                    #[trigger] asked_for(session, q) && mppi_outcome::<TdMpc2Session, DeviceNoise>(
                        session,
                        self.mppi.config,
                        self.mppi.rng,
                        q,
                        Err(e),
                    ),
            },
            _ => match self.icem.config.complaint() {
                Some(text) => e.says(text),
                None => exists|q: Request|
                    #[trigger] asked_for(session, q) && icem_outcome::<TdMpc2Session, DeviceNoise>(
                        session,
                        self.icem.config,
                        self.icem.warm_start,
                        self.icem.rng,
                        q,
                        Err(e),
                    ),
            },
        }
    }

    /// Runs a row once.
    pub fn run(&mut self, row: BenchRow) -> (r: Result<TdMpc2Output>)
        requires
            old(self).well_formed(),
        ensures
            final(self).well_formed(),
            final(self).inputs == old(self).inputs,
            final(self).model == old(self).model,
            final(self).z == old(self).z,
            final(self).session == old(self).session,
            final(self).plans == old(self).plans,
            final(self).cem.config == old(self).cem.config,
            final(self).mppi.config == old(self).mppi.config,
            final(self).icem.config == old(self).icem.config,
            !Self::uses_planner(row) ==> *final(self) == *old(self),
            r matches Ok(o) ==> !Self::uses_planner(row) ==> old(self).computes(row, o),
            r matches Ok(o) ==> (row is PlanCem || row is PlanMppi || row is PlanIcem) ==> o is Plan
                && old(self).planned(row, o->Plan_0),
            r matches Ok(o) ==> row is FfiPlanIcem ==> o is Told
                && final(self).handle.icem_planner is Some && old(self).told_icem(
                Ok(o->Told_0),
                final(self).handle.icem_planner->0.warm_start,
            ),
            row.is_media() ==> r is Ok && r->Ok_0 is Elsewhere,
            r matches Err(e) ==> !Self::uses_planner(row) ==> old(self).compute_failed(row, e),
            r matches Err(e) ==> (row is PlanCem || row is PlanMppi || row is PlanIcem)
                ==> old(self).plan_failed(row, e),
            r matches Err(e) ==> row is FfiPlanIcem ==> exists|f: FfiError|
                #[trigger] tells_of(e, f) && final(self).handle.icem_planner is Some
                    && old(self).told_icem(Err(f), final(self).handle.icem_planner->0.warm_start),
    {
        match row {
            BenchRow::PlanCem => {
                let p = self.cem.plan(&self.session)?;
                Ok(TdMpc2Output::Plan(p))
            },
            BenchRow::PlanMppi => {
                let p = self.mppi.plan(&self.session)?;
                Ok(TdMpc2Output::Plan(p))
            },
            BenchRow::PlanIcem => {
                let p = self.icem.plan(&self.session)?;
                Ok(TdMpc2Output::Plan(p))
            },
            BenchRow::FfiPlanIcem => {
                let plan = ensure_ffi_status(
                    self.handle.plan_icem(self.plans.icem, want_everything()),
                )?;
                Ok(TdMpc2Output::Told(plan))
            },
            _ => self.compute(row),
        }
    }
}

} // verus!
