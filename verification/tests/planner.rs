use candle_core::{DType, Device, Tensor};
use stable_worldmodel::checkpoint::empty_var_builder;
use stable_worldmodel::error::{Result, SwmError};
use stable_worldmodel::models::tdmpc2::{TdMpc2, TdMpc2Config};
use stable_worldmodel::planner::rng::{
    normal_draw_reservation, reserve_stream, round_curand_normal_count, PlannerRng,
};
use stable_worldmodel::planner::sampling::{
    clamp_actions, enforce_min_std, mppi_weighted_sequence, sample_candidates,
    shift_sequence_for_warm_start,
};
use stable_worldmodel::planner::selection::{
    best_indices_from_tensor, gather_candidate_sequences, select_elites, sorted_score_indices,
    validate_scores_shape, validate_scores_values,
};
use stable_worldmodel::planner::workspace::PlannerWorkspace;
use stable_worldmodel::planner::{
    ActionBounds, CandidateScorer, CemConfig, CemPlanner, IcemConfig, IcemPlanner, MppiConfig,
    MppiPlanner, NoiseSource, PlanFallback,
};
use stable_worldmodel::scalar::F32;
use stable_worldmodel::session::TdMpc2Session;
use std::time::Duration;

fn num(x: f32) -> F32 {
    F32::from_bits(x.to_bits())
}

fn nums(xs: &[f32]) -> Vec<F32> {
    xs.iter().map(|x| num(*x)).collect()
}

fn reset_session(state_dim: usize, action_dim: usize, batch: usize) -> TdMpc2Session {
    let device = Device::Cpu;
    let store = empty_var_builder(DType::F32, &device);
    let model = TdMpc2::new(TdMpc2Config::state_only(state_dim, action_dim), &store).unwrap();
    let mut session = TdMpc2Session::new(model, device.clone(), DType::F32);
    let state = Tensor::randn(0f32, 1f32, (batch, state_dim), &device).unwrap();
    session.reset_state(&state).unwrap();
    session
}

fn within(t: &Tensor, limit: f32) {
    for row in t.to_vec2::<f32>().unwrap() {
        for value in row {
            assert!((-limit..=limit).contains(&value));
        }
    }
}

fn finite(t: &Tensor) {
    for row in t.to_vec2::<f32>().unwrap() {
        for value in row {
            assert!(value.is_finite());
        }
    }
}

#[test]
fn cem_plans_tdmpc2_action_sequence() {
    let (state_dim, action_dim, batch) = (12, 4, 2);
    let session = reset_session(state_dim, action_dim, batch);

    let mut cem_cfg = CemConfig::new(3, 8, 3, action_dim);
    cem_cfg.iterations = 2;
    cem_cfg.init_std = num(0.5);
    cem_cfg.action_bounds = ActionBounds::symmetric(action_dim, num(0.75));

    let result = CemPlanner::new(cem_cfg).plan(&session).unwrap();

    assert_eq!(result.first_action.dims(), &[batch, action_dim]);
    assert_eq!(result.sequence.dims(), &[batch, 3, action_dim]);
    assert_eq!(result.scores.dims(), &[batch, 8]);
    assert_eq!(result.best_indices.len(), batch);
    assert_eq!(result.iterations_completed, 2);
    assert!(result.used_host_elite_selection);

    within(&result.first_action, 0.75);
    finite(&result.scores);
}

#[test]
fn cem_propagates_scorer_reset_error() {
    let device = Device::Cpu;
    let dtype = DType::F32;
    let action_dim = 4;
    let store = empty_var_builder(dtype, &device);
    let model = TdMpc2::new(TdMpc2Config::state_only(12, action_dim), &store).unwrap();
    let session = TdMpc2Session::new(model, device, dtype);

    let mut planner = CemPlanner::new(CemConfig::new(3, 8, 3, action_dim));
    let err = planner.plan(&session).unwrap_err();

    assert!(err.message().contains("must be reset"));
}

#[test]
fn mppi_plans_tdmpc2_action_sequence() {
    let (state_dim, action_dim, batch) = (12, 4, 2);
    let session = reset_session(state_dim, action_dim, batch);

    let mut mppi_cfg = MppiConfig::new(3, 8, action_dim);
    mppi_cfg.iterations = 2;
    mppi_cfg.noise_std = num(0.5);
    mppi_cfg.temperature = num(0.75);
    mppi_cfg.action_bounds = ActionBounds::symmetric(action_dim, num(0.75));

    let result = MppiPlanner::new(mppi_cfg).plan(&session).unwrap();

    assert_eq!(result.first_action.dims(), &[batch, action_dim]);
    assert_eq!(result.sequence.dims(), &[batch, 3, action_dim]);
    assert_eq!(result.scores.dims(), &[batch, 8]);
    assert_eq!(result.best_indices.len(), batch);
    assert_eq!(result.iterations_completed, 2);
    assert!(!result.used_host_elite_selection);

    within(&result.first_action, 0.75);
    finite(&result.scores);
}

#[test]
fn icem_keeps_shifted_warm_start_between_plans() {
    let (state_dim, action_dim, batch) = (12, 4, 2);
    let session = reset_session(state_dim, action_dim, batch);

    let mut icem_cfg = IcemConfig::new(3, 8, 3, action_dim);
    icem_cfg.keep_elites = 2;
    icem_cfg.iterations = 2;
    icem_cfg.init_std = num(0.5);
    icem_cfg.action_bounds = ActionBounds::symmetric(action_dim, num(0.75));

    let mut planner = IcemPlanner::new(icem_cfg);
    let first = planner.plan(&session).unwrap();
    let warm_start = planner
        .warm_start_sequence()
        .expect("iCEM should retain a warm-start sequence")
        .clone();
    let second = planner.plan(&session).unwrap();

    assert_eq!(first.first_action.dims(), &[batch, action_dim]);
    assert_eq!(first.sequence.dims(), &[batch, 3, action_dim]);
    assert_eq!(first.scores.dims(), &[batch, 10]);
    assert_eq!(first.best_indices.len(), batch);
    assert_eq!(first.iterations_completed, 2);
    assert!(first.used_host_elite_selection);
    assert_eq!(warm_start.dims(), &[batch, 3, action_dim]);
    assert_eq!(second.first_action.dims(), &[batch, action_dim]);
    assert!(planner.warm_start_sequence().is_some());

    within(&first.first_action, 0.75);

    let sequence = first.sequence.to_vec3::<f32>().unwrap();
    let kept = warm_start.to_vec3::<f32>().unwrap();
    for (old, new) in sequence.iter().zip(kept.iter()) {
        assert_eq!(new[0], old[1]);
        assert_eq!(new[1], old[2]);
        assert_eq!(new[2], old[2]);
    }
}

#[test]
fn select_elites_uses_device_sort_and_gather_per_batch() {
    let device = Device::Cpu;
    let candidates = Tensor::arange(0f32, 8f32, &device)
        .unwrap()
        .reshape((2, 4, 1, 1))
        .unwrap();
    let scores = Tensor::new(&[[3f32, 1., 4., 0.5], [9., -1., 2., -2.]], &device).unwrap();

    let elites = select_elites(&candidates, &scores, 2).unwrap();
    assert_eq!(
        elites.reshape((2, 2)).unwrap().to_vec2::<f32>().unwrap(),
        &[[3., 1.], [7., 5.]]
    );

    let sorted_indices = sorted_score_indices(&scores).unwrap();
    let best_indices = sorted_indices.narrow(1, 0, 1).unwrap();
    let sequences = gather_candidate_sequences(&candidates, &best_indices)
        .unwrap()
        .squeeze(1)
        .unwrap();

    assert_eq!(best_indices_from_tensor(&best_indices).unwrap(), &[3, 3]);
    assert_eq!(
        sequences.reshape((2,)).unwrap().to_vec1::<f32>().unwrap(),
        &[3., 7.]
    );
}

#[test]
fn sorted_score_indices_rejects_non_finite_scores() {
    let device = Device::Cpu;
    let scores = Tensor::new(&[[0f32, f32::INFINITY]], &device).unwrap();
    let err = sorted_score_indices(&scores).unwrap_err();

    assert!(err.message().contains("non-finite"));
}

#[test]
fn planner_workspace_reuses_cached_tensors() {
    let device = Device::Cpu;
    let mut workspace = PlannerWorkspace::new();
    let bounds = ActionBounds::symmetric(4, num(0.5));

    let (low_a, high_a) = workspace.bounds(&bounds, DType::F32, &device).unwrap();
    let (low_b, high_b) = workspace.bounds(&bounds, DType::F32, &device).unwrap();
    let zeros_a = workspace.sequence(2, 3, 4, DType::F32, &device, num(0.0)).unwrap();
    let zeros_b = workspace.sequence(2, 3, 4, DType::F32, &device, num(0.0)).unwrap();
    let std_a = workspace.sequence(2, 3, 4, DType::F32, &device, num(0.75)).unwrap();
    let std_b = workspace.sequence(2, 3, 4, DType::F32, &device, num(0.75)).unwrap();

    assert_eq!(low_a.id(), low_b.id());
    assert_eq!(high_a.id(), high_b.id());
    assert_eq!(zeros_a.id(), zeros_b.id());
    assert_eq!(std_a.id(), std_b.id());
    assert_eq!(low_a.flatten_all().unwrap().to_vec1::<f32>().unwrap(), vec![-0.5; 4]);
    assert_eq!(high_a.flatten_all().unwrap().to_vec1::<f32>().unwrap(), vec![0.5; 4]);
    assert_eq!(std_a.flatten_all().unwrap().to_vec1::<f32>().unwrap(), vec![0.75; 24]);
}

/// Draws the same numbers again and again.
struct FixedNoise {
    value: f64,
}

impl NoiseSource for FixedNoise {
    fn begin(&mut self, _seed: u64, _offset: u64, _device: &Device) -> Result<()> {
        Ok(())
    }

    fn standard_normal(&mut self, shape: &[usize], dtype: DType, device: &Device) -> Result<Tensor> {
        Tensor::ones(shape, dtype, device)
            .and_then(|t| t.affine(self.value, 0.0))
            .map_err(SwmError::Backend)
    }
}

/// Draws a rising row of numbers.
struct RampNoise;

impl NoiseSource for RampNoise {
    fn begin(&mut self, _seed: u64, _offset: u64, _device: &Device) -> Result<()> {
        Ok(())
    }

    fn standard_normal(&mut self, shape: &[usize], dtype: DType, device: &Device) -> Result<Tensor> {
        let n: usize = shape.iter().product();
        Tensor::arange(0f32, n as f32, device)
            .and_then(|t| t.reshape(shape))
            .and_then(|t| t.to_dtype(dtype))
            .map_err(SwmError::Backend)
    }
}

/// Scores a candidate by its first component.
struct FirstComponent {
    device: Device,
}

impl CandidateScorer for FirstComponent {
    fn device(&self) -> &Device {
        &self.device
    }

    fn dtype(&self) -> DType {
        DType::F32
    }

    fn score_candidates(&self, action_candidates: &Tensor) -> Result<Tensor> {
        let (b, s, _, _) = action_candidates.dims4().map_err(SwmError::Backend)?;
        action_candidates
            .flatten_from(2)
            .and_then(|t| t.narrow(2, 0, 1))
            .and_then(|t| t.reshape((b, s)))
            .map_err(SwmError::Backend)
    }
}

#[test]
fn cem_returns_the_best_candidate_of_the_last_round() {
    let scorer = FirstComponent { device: Device::Cpu };
    let mut cfg = CemConfig::new(1, 4, 2, 1);
    cfg.iterations = 1;
    cfg.action_bounds = ActionBounds::symmetric(1, num(2.0));
    let mut noise = RampNoise;
    let plan = CemPlanner::new(cfg).plan_with_noise(&scorer, &mut noise).unwrap();
    assert_eq!(plan.scores.to_vec2::<f32>().unwrap(), vec![vec![0.0, 1.0, 2.0, 2.0]]);
    assert_eq!(plan.best_indices, vec![0]);
    assert_eq!(plan.sequence.to_vec3::<f32>().unwrap(), vec![vec![vec![0.0]]]);
    assert_eq!(plan.fallback, PlanFallback::NotUsed);
    assert!(!plan.deadline_reached);
}

#[test]
fn plans_stay_within_asymmetric_bounds() {
    let scorer = FirstComponent { device: Device::Cpu };
    let mut cfg = CemConfig::new(2, 4, 2, 2);
    cfg.iterations = 3;
    cfg.action_bounds = ActionBounds { low: nums(&[0.25, -3.0]), high: nums(&[0.5, -2.0]) };
    let mut noise = FixedNoise { value: 100.0 };
    let plan = CemPlanner::new(cfg).plan_with_noise(&scorer, &mut noise).unwrap();
    assert_eq!(
        plan.sequence.to_vec3::<f32>().unwrap(),
        vec![vec![vec![0.5, -2.0], vec![0.5, -2.0]]]
    );
}

#[test]
fn a_passed_deadline_falls_back_to_the_configured_action() {
    let scorer = FirstComponent { device: Device::Cpu };
    let mut cfg = CemConfig::new(2, 4, 2, 2);
    cfg.deadline = Some(Duration::ZERO);
    cfg.fallback_action = Some(nums(&[0.5, -0.5]));
    let plan = CemPlanner::new(cfg).plan(&scorer).unwrap();
    assert_eq!(plan.fallback, PlanFallback::ConfiguredAction);
    assert!(plan.deadline_reached);
    assert!(!plan.used_host_elite_selection);
    assert_eq!(plan.iterations_completed, 0);
    assert_eq!(plan.scores.to_vec2::<f32>().unwrap(), vec![vec![0.0]]);
    assert_eq!(
        plan.sequence.to_vec3::<f32>().unwrap(),
        vec![vec![vec![0.5, -0.5], vec![0.5, -0.5]]]
    );
    assert_eq!(plan.first_action.to_vec2::<f32>().unwrap(), vec![vec![0.5, -0.5]]);
}

#[test]
fn a_passed_deadline_without_fallback_is_an_error() {
    let scorer = FirstComponent { device: Device::Cpu };
    let mut cfg = MppiConfig::new(2, 4, 2);
    cfg.deadline = Some(Duration::ZERO);
    let err = MppiPlanner::new(cfg).plan(&scorer).unwrap_err();
    assert!(matches!(err, SwmError::Message(_)));
}

#[test]
fn a_passed_deadline_keeps_the_warm_start() {
    let device = Device::Cpu;
    let scorer = FirstComponent { device: device.clone() };
    let mut cfg = IcemConfig::new(2, 4, 2, 1);
    cfg.deadline = Some(Duration::ZERO);
    cfg.fallback_action = Some(nums(&[0.5]));
    let mut planner = IcemPlanner::new(cfg);
    let warm = Tensor::new(&[[[0.25f32], [0.75]]], &device).unwrap();
    planner.set_warm_start_sequence(warm);
    let plan = planner.plan(&scorer).unwrap();
    assert_eq!(plan.fallback, PlanFallback::WarmStart);
    assert_eq!(plan.sequence.to_vec3::<f32>().unwrap(), vec![vec![vec![0.25], vec![0.75]]]);
    assert!(planner.warm_start_sequence().is_some());
    planner.clear_warm_start();
    assert!(planner.warm_start_sequence().is_none());
    let plan = planner.plan(&scorer).unwrap();
    assert_eq!(plan.fallback, PlanFallback::ConfiguredAction);
}

#[test]
fn seeded_plans_reserve_disjoint_streams() {
    let scorer = FirstComponent { device: Device::Cpu };
    let mut cfg = CemConfig::new(3, 5, 2, 1);
    cfg.iterations = 2;
    cfg.seed = Some(7);
    let mut planner = CemPlanner::new(cfg);
    let mut noise = FixedNoise { value: 0.5 };
    assert_eq!(planner.rng_offset(), 0);
    planner.plan_with_noise(&scorer, &mut noise).unwrap();
    let after_one = planner.rng_offset();
    planner.plan_with_noise(&scorer, &mut noise).unwrap();
    assert_eq!(planner.rng_offset(), 2 * after_one);
    planner.reset_rng_sequence();
    assert_eq!(planner.rng_offset(), 0);
}

#[test]
fn seeded_plans_need_a_positioned_source() {
    let scorer = FirstComponent { device: Device::Cpu };
    let mut cfg = CemConfig::new(1, 4, 2, 1);
    cfg.seed = Some(1);
    assert!(CemPlanner::new(cfg).plan(&scorer).is_err());
}

#[test]
fn settings_are_checked_in_order() {
    let mut cfg = CemConfig::new(0, 0, 0, 0);
    assert_eq!(cfg.validate().unwrap_err().message(), "CEM horizon must be greater than zero");
    cfg.horizon = 1;
    assert!(cfg.validate().unwrap_err().message().contains("samples"));
    let good = IcemConfig::new(3, 8, 4, 2);
    assert!(good.validate().is_ok());
    assert_eq!(good.keep_elites, 4);
    let mut bad = MppiConfig::new(3, 8, 2);
    bad.action_bounds = ActionBounds::scalar(2, num(1.0), num(-1.0));
    assert_eq!(
        bad.validate().unwrap_err().message(),
        "action bound 0 has low greater than high"
    );
    bad.action_bounds = ActionBounds::scalar(2, num(f32::NAN), num(1.0));
    assert_eq!(bad.validate().unwrap_err().message(), "action bound 0 is not finite");
}

#[test]
fn draws_are_rounded_up_to_pairs() {
    assert_eq!(round_curand_normal_count(0).unwrap(), 0);
    assert_eq!(round_curand_normal_count(1).unwrap(), 2);
    assert_eq!(round_curand_normal_count(2).unwrap(), 2);
    assert_eq!(round_curand_normal_count(7).unwrap(), 8);
    assert!(round_curand_normal_count(usize::MAX).is_err());
    assert_eq!(normal_draw_reservation(1, 3, 3, 1, 2).unwrap(), 20);
    assert!(normal_draw_reservation(usize::MAX, 2, 2, 2, 2).is_err());
    let mut rng = PlannerRng::new();
    assert_eq!(reserve_stream(&mut rng, None, 20).unwrap(), None);
    assert_eq!(rng.offset(), 0);
    assert_eq!(reserve_stream(&mut rng, Some(9), 20).unwrap(), Some((9, 0)));
    assert_eq!(reserve_stream(&mut rng, Some(9), 20).unwrap(), Some((9, 20)));
}

#[test]
fn sampling_shifts_scales_and_clamps() {
    let device = Device::Cpu;
    let mean = Tensor::new(&[[[0.5f32]]], &device).unwrap();
    let std = Tensor::new(&[[[2f32]]], &device).unwrap();
    let low = Tensor::new(&[[[-1f32]]], &device).unwrap().reshape((1, 1, 1, 1)).unwrap();
    let high = Tensor::new(&[[[3f32]]], &device).unwrap().reshape((1, 1, 1, 1)).unwrap();
    let mut noise = RampNoise;
    let drawn = sample_candidates(&mean, &std, 3, &low, &high, DType::F32, &device, &mut noise).unwrap();
    assert_eq!(drawn.flatten_all().unwrap().to_vec1::<f32>().unwrap(), vec![0.5, 2.5, 3.0]);
    let wild = Tensor::new(&[[[[-9f32], [9.0]]]], &device).unwrap();
    let tame = clamp_actions(&wild, &low, &high).unwrap();
    assert_eq!(tame.flatten_all().unwrap().to_vec1::<f32>().unwrap(), vec![-1.0, 3.0]);
    let small = Tensor::new(&[[[0.0f32, 1.0]]], &device).unwrap();
    let raised = enforce_min_std(&small, num(0.25)).unwrap();
    assert_eq!(raised.flatten_all().unwrap().to_vec1::<f32>().unwrap(), vec![0.25, 1.0]);
    let sequence = Tensor::new(&[[[1f32], [2.0], [3.0]]], &device).unwrap();
    let next = shift_sequence_for_warm_start(&sequence).unwrap();
    assert_eq!(next.flatten_all().unwrap().to_vec1::<f32>().unwrap(), vec![2.0, 3.0, 3.0]);
    let single = sequence.narrow(1, 0, 1).unwrap();
    let kept = shift_sequence_for_warm_start(&single).unwrap();
    assert_eq!(kept.flatten_all().unwrap().to_vec1::<f32>().unwrap(), vec![1.0]);
}

#[test]
fn mppi_weighs_low_costs_most() {
    let device = Device::Cpu;
    let candidates = Tensor::new(&[[[[0f32]], [[1.0]]]], &device).unwrap();
    let equal = Tensor::new(&[[2f32, 2.0]], &device).unwrap();
    let even = mppi_weighted_sequence(&candidates, &equal, num(1.0)).unwrap();
    assert_eq!(even.flatten_all().unwrap().to_vec1::<f32>().unwrap(), vec![0.5]);
    let far = Tensor::new(&[[0f32, 1000.0]], &device).unwrap();
    let best = mppi_weighted_sequence(&candidates, &far, num(1.0)).unwrap();
    assert_eq!(best.flatten_all().unwrap().to_vec1::<f32>().unwrap(), vec![0.0]);
}

#[test]
fn scores_are_checked() {
    let device = Device::Cpu;
    let scores = Tensor::new(&[[1f32, 2.0]], &device).unwrap();
    assert!(validate_scores_shape(&scores, 1, 2).is_ok());
    assert!(validate_scores_shape(&scores, 2, 1).is_err());
    assert!(validate_scores_values(&scores).is_ok());
    let nan = Tensor::new(&[[f32::NAN]], &device).unwrap();
    assert_eq!(
        validate_scores_values(&nan).unwrap_err().message(),
        "scores contain non-finite values"
    );
    let empty = Tensor::zeros((0, 2), DType::F32, &device).unwrap();
    assert_eq!(validate_scores_values(&empty).unwrap_err().message(), "scores are empty");
}

#[test]
fn reported_indices_name_the_least_score_of_each_row() {
    let session = reset_session(6, 2, 3);
    let cem = CemPlanner::new(CemConfig::new(2, 8, 3, 2)).plan(&session).unwrap();
    let icem = IcemPlanner::new(IcemConfig::new(2, 8, 3, 2)).plan(&session).unwrap();
    let mppi = MppiPlanner::new(MppiConfig::new(2, 8, 2)).plan(&session).unwrap();
    for plan in [cem, icem, mppi] {
        let rows = plan.scores.to_vec2::<f32>().unwrap();
        assert_eq!(plan.best_indices.len(), rows.len());
        for (row, best) in rows.iter().zip(plan.best_indices.iter()) {
            assert!(row.iter().all(|score| row[*best] <= *score));
        }
    }
}

#[test]
fn elites_come_in_the_order_of_their_scores() {
    let device = Device::Cpu;
    let candidates = Tensor::arange(0f32, 6f32, &device).unwrap().reshape((1, 6, 1, 1)).unwrap();
    let scores = Tensor::new(&[[5f32, -2.0, 0.0, 9.0, -7.0, 1.0]], &device).unwrap();
    let elites = select_elites(&candidates, &scores, 3).unwrap();
    assert_eq!(elites.flatten_all().unwrap().to_vec1::<f32>().unwrap(), vec![4.0, 1.0, 2.0]);
}

#[test]
fn a_full_stream_is_refused_and_stays() {
    let mut rng = PlannerRng { next_offset: u64::MAX - 3 };
    let err = reserve_stream(&mut rng, Some(7), 4).unwrap_err();
    assert_eq!(err.message(), "planner CUDA RNG offset overflowed");
    assert_eq!(rng.next_offset, u64::MAX - 3);
    assert_eq!(reserve_stream(&mut rng, Some(7), 3).unwrap(), Some((7, u64::MAX - 3)));
    assert_eq!(rng.next_offset, u64::MAX);
}

/// Notes where its streams start.
struct NotingNoise {
    started: Vec<(u64, u64)>,
}

impl NoiseSource for NotingNoise {
    fn begin(&mut self, seed: u64, offset: u64, _device: &Device) -> Result<()> {
        self.started.push((seed, offset));
        Ok(())
    }

    fn standard_normal(&mut self, shape: &[usize], dtype: DType, device: &Device) -> Result<Tensor> {
        Tensor::zeros(shape, dtype, device).map_err(SwmError::Backend)
    }
}

#[test]
fn seeded_plans_hand_their_position_to_the_source() {
    let scorer = FirstComponent { device: Device::Cpu };
    let mut cfg = CemConfig::new(2, 4, 2, 1);
    cfg.iterations = 1;
    cfg.seed = Some(7);
    let mut planner = CemPlanner::new(cfg);
    let mut noise = NotingNoise { started: Vec::new() };
    planner.plan_with_noise(&scorer, &mut noise).unwrap();
    planner.plan_with_noise(&scorer, &mut noise).unwrap();
    planner.reset_rng_sequence();
    planner.plan_with_noise(&scorer, &mut noise).unwrap();
    assert_eq!(noise.started, vec![(7, 0), (7, 8), (7, 0)]);
}

/// Answers with one tensor, or with an error.
struct OneAnswer {
    device: Device,
    scores: Option<Tensor>,
}

impl CandidateScorer for OneAnswer {
    fn device(&self) -> &Device {
        &self.device
    }

    fn dtype(&self) -> DType {
        DType::F32
    }

    fn score_candidates(&self, _action_candidates: &Tensor) -> Result<Tensor> {
        match &self.scores {
            Some(t) => Ok(t.clone()),
            None => Err(SwmError::Message("no scores today".to_string())),
        }
    }
}

#[test]
fn what_fails_a_plan_comes_back() {
    let device = Device::Cpu;
    let answer = |scores: Option<Tensor>| OneAnswer { device: Device::Cpu, scores };
    let narrow = Tensor::zeros((1, 3), DType::F32, &device).unwrap();
    let broken = Tensor::new(&[[0f32, f32::INFINITY, 1.0, 2.0]], &device).unwrap();
    let cases = [
        (answer(None), "no scores today"),
        (answer(Some(narrow)), "candidate scorer must return [1, 4] scores, got [1, 3]"),
        (answer(Some(broken)), "scores contain non-finite values"),
    ];
    for (scorer, text) in cases {
        let cem = CemPlanner::new(CemConfig::new(2, 4, 2, 1)).plan(&scorer).unwrap_err();
        assert_eq!(cem.message(), text);
        let icem = IcemPlanner::new(IcemConfig::new(2, 4, 2, 1)).plan(&scorer).unwrap_err();
        assert_eq!(icem.message(), text);
        let mppi = MppiPlanner::new(MppiConfig::new(2, 4, 1)).plan(&scorer).unwrap_err();
        assert_eq!(mppi.message(), text);
    }
}

#[test]
fn a_warm_start_must_fit_the_plan() {
    let device = Device::Cpu;
    let scorer = FirstComponent { device: Device::Cpu };
    let mut planner = IcemPlanner::new(IcemConfig::new(2, 4, 2, 1));
    planner.set_warm_start_sequence(Tensor::zeros((1, 3, 1), DType::F32, &device).unwrap());
    let err = planner.plan(&scorer).unwrap_err();
    assert_eq!(
        err.message(),
        "iCEM warm-start shape [1, 3, 1] does not match expected [1, 2, 1]"
    );
    assert!(planner.warm_start_sequence().is_some());
}

/// Scores a candidate by how far its first component is from a third, and keeps
/// the least score of each call.
struct Remembering {
    device: Device,
    least: std::cell::RefCell<Vec<f32>>,
}

impl CandidateScorer for Remembering {
    fn device(&self) -> &Device {
        &self.device
    }

    fn dtype(&self) -> DType {
        DType::F32
    }

    fn score_candidates(&self, action_candidates: &Tensor) -> Result<Tensor> {
        let (b, s, _, _) = action_candidates.dims4().map_err(SwmError::Backend)?;
        let scores = action_candidates
            .flatten_from(2)
            .and_then(|t| t.narrow(2, 0, 1))
            .and_then(|t| t.affine(1.0, -1.0 / 3.0))
            .and_then(|t| t.abs())
            .and_then(|t| t.reshape((b, s)))
            .map_err(SwmError::Backend)?;
        let all = scores.flatten_all().unwrap().to_vec1::<f32>().unwrap();
        self.least.borrow_mut().push(all.into_iter().fold(f32::INFINITY, f32::min));
        Ok(scores)
    }
}

#[test]
fn kept_elites_lose_no_ground_from_round_to_round() {
    for kept in [1, 3] {
        let scorer = Remembering { device: Device::Cpu, least: std::cell::RefCell::new(vec![]) };
        let mut cfg = IcemConfig::new(2, 8, 3, 2);
        cfg.keep_elites = kept;
        cfg.iterations = 6;
        let plan = IcemPlanner::new(cfg).plan(&scorer).unwrap();
        let least = scorer.least.borrow();
        assert_eq!(least.len(), 6);
        assert!(least.windows(2).all(|w| w[1] <= w[0]), "{least:?}");
        let last = plan.scores.to_vec2::<f32>().unwrap()[0][plan.best_indices[0]];
        assert!(least.iter().all(|x| last <= *x));
    }
}
