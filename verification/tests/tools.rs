use candle_core::{DType, Device, Tensor};
use stable_worldmodel::error::{Result, SwmError};
use stable_worldmodel::ffi::FfiError;
use stable_worldmodel::media::ImagePreprocess;
use stable_worldmodel::models::lewm::LeWmConfig;
use stable_worldmodel::planner::{CandidateScorer, DeviceNoise};
use stable_worldmodel::runtime::DTypeSpec;
use stable_worldmodel::scalar::{F32, F64};
use stable_worldmodel::tools::arguments::{
    bench_elites, bench_plans, check_batch, check_model, comparison_source, elite_count,
    fixture_horizon, history_path_index, logs_step, plan_sizes, planner_source, search_elites,
    validate_args, validate_rounds, validate_training, validate_training_dtype, ModelSource,
};
use stable_worldmodel::tools::bench::{
    ensure_ffi_status, lewm_rows, tdmpc2_rows, BenchMedia, BenchRow, BenchSizes,
};
use stable_worldmodel::tools::bench_tdmpc2::{TdMpc2Bench, TdMpc2Inputs, TdMpc2Output};
use stable_worldmodel::tools::compare::{
    check_ordering, compare, compare_cost_ordering, fixture_model, fixture_names, row_argmins,
    time_deviations, FixtureKind,
};
use stable_worldmodel::tools::report::{
    count_bins, html_escape, image_name, render_action_svg, render_cost_svg, render_html,
    render_images, render_metrics, Bar, Metric, Page,
};
use stable_worldmodel::tools::scores::{
    argmin, cost_summary, ensure_finite, ensure_finite_loss, percentile_index, rank_scores, sort_numbers,
    summarize_costs,
};
use stable_worldmodel::tools::search::{run_planner, selected_costs, PlannerKind, SearchSettings};

fn num(x: f32) -> F32 {
    F32::from_bits(x.to_bits())
}

fn nums(xs: &[f32]) -> Vec<F32> {
    xs.iter().map(|x| num(*x)).collect()
}

fn double(x: f64) -> F64 {
    F64::from_bits(x.to_bits())
}

#[test]
fn elites_are_a_quarter_of_the_samples() {
    assert_eq!(elite_count(64, None), 16);
    assert_eq!(elite_count(4, None), 2);
    assert_eq!(elite_count(1, None), 1);
    assert_eq!(elite_count(64, Some(5)), 5);
    assert_eq!(bench_elites("LeWM", 64, 1, None).unwrap(), 16);
    assert_eq!(
        bench_elites("LeWM", 1, 1, None).unwrap_err().message(),
        "LeWM benchmarks require --samples >= 2"
    );
    assert!(bench_elites("LeWM", 8, 0, None).is_err());
    assert!(bench_elites("LeWM", 8, 1, Some(1)).is_err());
    assert_eq!(
        bench_elites("LeWM", 8, 1, Some(9)).unwrap_err().message(),
        "--elites cannot exceed --samples"
    );
    assert_eq!(search_elites(8, None).unwrap(), 2);
    assert!(search_elites(8, Some(9)).is_err());
    assert!(validate_rounds(1, false, 4).is_ok());
    assert!(validate_rounds(0, false, 1).is_err());
    assert!(validate_rounds(1, true, 4).is_err());
    let plans = bench_plans(3, 8, 2, 4);
    assert_eq!((plans.cem.horizon, plans.cem.samples, plans.cem.elites), (3, 8, 2));
    assert_eq!(plans.icem.keep_elites, 2);
    assert_eq!(plans.mppi.iterations, 4);
}

#[test]
fn planner_arguments_are_checked() {
    assert!(validate_args(1, 1, 2, 1).is_ok());
    assert_eq!(
        validate_args(0, 0, 0, 0).unwrap_err().message(),
        "provide at least one --current JPEG"
    );
    assert!(validate_args(1, 0, 2, 1).is_err());
    assert!(validate_args(1, 1, 1, 1).is_err());
    assert!(validate_args(1, 1, 2, 0).is_err());
    let sizes = plan_sizes(None, 3, None, 16, None).unwrap();
    assert_eq!((sizes.history, sizes.elites), (3, 4));
    assert!(plan_sizes(Some(0), 3, None, 16, None).is_err());
    assert_eq!(
        plan_sizes(Some(5), 3, Some(4), 16, None).unwrap_err().message(),
        "--horizon 4 must be >= input history size 5"
    );
    assert!(plan_sizes(None, 3, None, 4, Some(5)).is_err());
    assert_eq!(history_path_index(1, 3, 2, "current").unwrap(), 0);
    assert_eq!(history_path_index(3, 3, 2, "current").unwrap(), 2);
    assert_eq!(
        history_path_index(2, 3, 2, "current").unwrap_err().message(),
        "--current accepts either one JPEG or exactly history_size (3) JPEGs, got 2"
    );
}

#[test]
fn models_come_from_files_or_the_hub() {
    assert_eq!(planner_source(true, true, false).unwrap(), ModelSource::Local);
    assert_eq!(planner_source(false, false, true).unwrap(), ModelSource::Hub);
    assert!(planner_source(false, true, false).is_err());
    assert!(planner_source(false, false, false).is_err());
    assert_eq!(comparison_source(true, false).unwrap(), ModelSource::Local);
    assert_eq!(comparison_source(false, true).unwrap(), ModelSource::Hub);
    assert!(comparison_source(false, false).is_err());
}

#[test]
fn training_arguments_are_checked() {
    assert!(validate_training(1, 1, double(1e-4), double(0.0)).is_ok());
    assert!(validate_training(0, 1, double(1e-4), double(0.0)).is_err());
    assert!(validate_training(1, 0, double(1e-4), double(0.0)).is_err());
    assert!(validate_training(1, 1, double(0.0), double(0.0)).is_err());
    assert!(validate_training(1, 1, double(f64::NAN), double(0.0)).is_err());
    assert!(validate_training(1, 1, double(1e-4), double(-1.0)).is_err());
    assert!(validate_training_dtype(DTypeSpec::F32).is_ok());
    assert!(validate_training_dtype(DTypeSpec::Bf16).is_err());
    assert!(logs_step(1, 10, 5));
    assert!(logs_step(10, 10, 3));
    assert!(!logs_step(4, 10, 5));
    assert!(check_batch(3, 3, 3).is_ok());
    assert_eq!(
        check_batch(3, 4, 3).unwrap_err().message(),
        "pixels channel dimension must be 3, got 4"
    );
    assert_eq!(check_batch(3, 3, 2).unwrap_err().message(), "pixels/actions time mismatch: 3 vs 2");
    let cfg = LeWmConfig::tiny_patch14_224(2);
    assert!(check_model(&cfg, 3, 224, 224, 2).is_ok());
    assert!(check_model(&cfg, 3, 224, 224, 3).is_err());
    assert!(check_model(&cfg, 4, 224, 224, 2).is_err());
    assert!(check_model(&cfg, 3, 224, 112, 2).is_err());
    assert_eq!(fixture_horizon(2, 2, None, 5, 3).unwrap(), 5);
    assert_eq!(fixture_horizon(2, 2, Some(4), 5, 3).unwrap(), 4);
    assert!(fixture_horizon(3, 2, None, 5, 3).is_err());
    assert!(fixture_horizon(2, 2, Some(2), 5, 3).is_err());
}

#[test]
fn costs_are_ranked() {
    assert_eq!(argmin(&nums(&[3.0, -1.0, 2.0, -1.0])), 1);
    assert_eq!(sort_numbers(&nums(&[2.0, -1.0, 0.5])), nums(&[-1.0, 0.5, 2.0]));
    assert_eq!(rank_scores(&nums(&[2.0, -1.0])).unwrap(), nums(&[-1.0, 2.0]));
    assert!(rank_scores(&nums(&[f32::NAN])).is_err());
    assert!(rank_scores(&[]).is_err());
    assert_eq!(percentile_index(101, 50), 50);
    assert_eq!(percentile_index(4, 95), 3);
    assert_eq!(percentile_index(0, 50), 0);
    let err = ensure_finite("cost", &nums(&[1.0, f32::NEG_INFINITY])).unwrap_err();
    assert_eq!(err.message(), "cost contains non-finite value -inf at flat index 1");
    assert!(ensure_finite_loss(3, num(0.5)).is_ok());
    assert_eq!(
        ensure_finite_loss(3, num(f32::NAN)).unwrap_err().message(),
        "loss at step 3 is not finite: NaN"
    );
    let s = summarize_costs(nums(&[4.0, 3.0, 1.0, 2.0]), 2, 2).unwrap();
    assert_eq!(s.best, num(1.0));
    assert_eq!(s.argmin, vec![1, 0]);
    let cost = Tensor::new(&[[4f32, 3.0], [1.0, 2.0]], &Device::Cpu).unwrap();
    let s = cost_summary(&cost).unwrap();
    assert_eq!(s.values, nums(&[4.0, 3.0, 1.0, 2.0]));
    assert!(cost_summary(&cost.flatten_all().unwrap()).is_err());
}

#[test]
fn tensors_are_compared_place_by_place() {
    let device = Device::Cpu;
    let a = Tensor::new(&[[1f32, 2.0], [3.0, 4.0]], &device).unwrap();
    let b = Tensor::new(&[[1f32, 2.5], [3.0, 4.0]], &device).unwrap();
    let same = compare("z", &a, &a, num(0.0)).unwrap();
    assert!(same.within);
    assert_eq!(same.max_abs, num(0.0));
    let off = compare("z", &a, &b, num(0.25)).unwrap();
    assert!(!off.within);
    assert_eq!(off.max_abs, num(0.5));
    assert_eq!(off.mean_abs, num(0.125));
    assert_eq!(off.distances, nums(&[0.0, 0.5, 0.0, 0.0]));
    assert!(compare("z", &a, &b.flatten_all().unwrap(), num(1.0)).is_err());
    assert_eq!(row_argmins(&nums(&[2.0, 1.0, 0.0, 5.0]), 2, 2), vec![1, 0]);
    assert_eq!(compare_cost_ordering(&a, &b).unwrap(), Some(2));
    let c = Tensor::new(&[[2f32, 1.0], [3.0, 4.0]], &device).unwrap();
    assert!(compare_cost_ordering(&a, &c).is_err());
    assert!(check_ordering(&[1, 2], &[1, 2]).is_ok());
    assert!(check_ordering(&[1, 2], &[1, 3]).unwrap_err().message().contains("argmin mismatch"));
    let roll = Tensor::arange(0f32, 8f32, &device).unwrap().reshape((1, 2, 2, 2)).unwrap();
    let later = time_deviations(&roll, &(&roll + 1.0).unwrap()).unwrap();
    assert_eq!(later.len(), 2);
    assert_eq!(later[1].max_abs, num(1.0));
    assert_eq!(time_deviations(&a, &b).unwrap().len(), 0);
}

#[test]
fn fixtures_name_their_observations() {
    let state = fixture_names(FixtureKind::State);
    assert_eq!(state[0], "state");
    assert_eq!(state[state.len() - 1], "cost");
    assert!(!state.contains(&"pixels"));
    let pixel = fixture_names(FixtureKind::Pixel);
    assert!(pixel.contains(&"pixels") && !pixel.contains(&"state"));
    let both = fixture_names(FixtureKind::Both);
    assert!(both.contains(&"state") && both.contains(&"pixels"));
    let cfg = fixture_model(FixtureKind::Both, 12, 64, 128, 4);
    assert_eq!(cfg.action_dim, 4);
    assert_eq!(cfg.image_size, Some(64));
    assert_eq!(cfg.encodings.len(), 2);
}

#[test]
fn pages_escape_their_texts() {
    assert_eq!(html_escape("a<b>&\"'"), "a&lt;b&gt;&amp;&quot;&#39;");
    assert_eq!(
        render_images(&vec!["a.jpg".to_string()]),
        "<div><img src=\"a.jpg\" alt=\"a.jpg\"></div>"
    );
    assert_eq!(image_name("current", 3), "current-03.jpg");
    assert_eq!(image_name("goal", 12), "goal-12.jpg");
    assert_eq!(count_bins(&[0, 1, 1, 9], 3), vec![1, 2, 1]);
    let metric = Metric { label: "p<95".to_string(), shown: "1.5".to_string() };
    let metrics = render_metrics(&vec![metric.clone()]);
    assert!(metrics.contains("p&lt;95") && metrics.contains("1.5"));
    let actions = render_action_svg(&vec![vec!["0,1".to_string(), "2,3".to_string()]]);
    assert!(actions.starts_with("<svg") && actions.contains("0,1 2,3") && actions.ends_with("</svg>"));
    let bar = Bar {
        x: "1".to_string(),
        y: "2".to_string(),
        width: "3".to_string(),
        height: "4".to_string(),
    };
    let costs = render_cost_svg(&vec![bar], "7", "0.1", "0.9");
    assert!(costs.contains("0.1") && costs.contains("0.9") && costs.ends_with("</svg>"));
    let page = render_html(&Page {
        json_name: "plan.json".to_string(),
        current: vec!["current-00.jpg".to_string()],
        goal: vec!["goal-00.jpg".to_string()],
        metrics: vec![metric],
        action_svg: actions.clone(),
        cost_svg: costs.clone(),
        first_action: "[0.5]".to_string(),
    });
    assert!(page.contains("plan.json") && page.contains(&actions) && page.contains(&costs));
    assert!(page.contains("current-00.jpg") && page.contains("[0.5]"));
}

/// Scores a candidate by its first component.
struct FirstComponent {
    device: Device,
}

impl CandidateScorer for FirstComponent {
    fn device(&self) -> &Device {
        &self.device
    }

    fn dtype(&self) -> DType {
        DType::F32
    }

    fn batch_size(&self) -> Option<usize> {
        Some(2)
    }

    fn score_candidates(&self, action_candidates: &Tensor) -> Result<Tensor> {
        let (b, s, _, _) = action_candidates.dims4().map_err(SwmError::Backend)?;
        action_candidates
            .flatten_from(2)
            .and_then(|t| t.narrow(2, 0, 1))
            .and_then(|t| t.reshape((b, s)))
            .map_err(SwmError::Backend)
    }
}

#[test]
fn every_planner_can_search() {
    let scorer = FirstComponent { device: Device::Cpu };
    let settings = SearchSettings {
        horizon: 2,
        samples: 8,
        elites: 3,
        action_dim: 2,
        iterations: 2,
        init_std: num(1.0),
        min_std: num(0.05),
        noise_std: num(1.0),
        temperature: num(1.0),
        seed: None,
    };
    for kind in [PlannerKind::Cem, PlannerKind::Mppi, PlannerKind::Icem] {
        let mut noise = DeviceNoise;
        let plan = run_planner(kind, settings, &scorer, &mut noise).unwrap();
        assert_eq!(plan.sequence.dims(), &[2, 2, 2]);
        let costs = selected_costs(&scorer, &plan.sequence).unwrap();
        assert_eq!(costs.values.len(), 2);
        let first = plan.first_action.to_vec2::<f32>().unwrap();
        assert_eq!(costs.values, nums(&[first[0][0], first[1][0]]));
    }
}

#[test]
fn benchmarks_run_their_rows() {
    assert!(lewm_rows().contains(&BenchRow::FfiPlanCem));
    assert!(tdmpc2_rows(true).contains(&BenchRow::MediaJpeg));
    assert!(!tdmpc2_rows(false).contains(&BenchRow::MediaJpeg));
    let sizes = BenchSizes {
        batch_size: 1,
        samples: 8,
        horizon: 2,
        planner_iterations: 1,
        elites: None,
        state_dim: 6,
        action_dim: 2,
    };
    let mut bench = TdMpc2Bench::drawn(sizes, &Device::Cpu, DType::F32).unwrap();
    for row in tdmpc2_rows(true) {
        assert!(!row.name().is_empty());
        match bench.run(row).unwrap() {
            TdMpc2Output::Elsewhere => {
                assert!(matches!(
                    row,
                    BenchRow::MediaJpeg | BenchRow::MediaPacked | BenchRow::MediaNv12
                ));
            }
            TdMpc2Output::Plan(plan) => assert_eq!(plan.sequence.dims(), &[1, 2, 2]),
            TdMpc2Output::Told(told) => assert_eq!(told.action.len(), 2),
            _ => {}
        }
    }
    let failed: std::result::Result<(), FfiError> = Err(FfiError::invalid("no"));
    assert!(ensure_ffi_status(failed).unwrap_err().message().contains("no"));
    assert_eq!(ensure_ffi_status(Ok(3)).unwrap(), 3);
}

#[test]
fn percentiles_stand_in_order() {
    for len in 1..40usize {
        assert_eq!(percentile_index(len, 0), 0);
        assert_eq!(percentile_index(len, 100), len - 1);
        for p in 0..100usize {
            assert!(percentile_index(len, p) <= percentile_index(len, p + 1));
        }
    }
}

fn bench_sizes() -> BenchSizes {
    BenchSizes {
        batch_size: 1,
        samples: 4,
        horizon: 2,
        planner_iterations: 1,
        elites: None,
        state_dim: 3,
        action_dim: 2,
    }
}

#[test]
fn benchmarks_say_what_is_wrong_with_their_inputs() {
    let device = Device::Cpu;
    let state = Tensor::zeros((1, 5), DType::F32, &device).unwrap();
    let inputs = TdMpc2Inputs {
        state: state.clone(),
        action: state.clone(),
        action_candidates: state.clone(),
        actor_noise: state,
    };
    let err = TdMpc2Bench::new(bench_sizes(), &device, DType::F32, inputs).err().unwrap();
    assert_eq!(err.message(), "encoder state expects last dim 3, got [1, 5]");
    let mut wide = bench_sizes();
    wide.state_dim = usize::MAX;
    wide.batch_size = 2;
    let err = TdMpc2Bench::drawn(wide, &device, DType::F32).err().unwrap();
    assert_eq!(err.message(), "noise shape overflowed");
    let mut few = bench_sizes();
    few.samples = 1;
    let err = TdMpc2Bench::drawn(few, &device, DType::F32).err().unwrap();
    assert_eq!(err.message(), "TD-MPC2 planning benchmarks require --samples >= 2");
    let config = ImagePreprocess::imagenet_224();
    let err = BenchMedia::new(&device, 0, 224, config).err().unwrap();
    assert_eq!(err.message(), "packed CUDA image dimensions must be greater than zero");
    let err = BenchMedia::new(&device, 1, 224, config).err().unwrap();
    assert_eq!(err.message(), "packed_u8_tensor requires a CUDA Candle device");
}

#[test]
fn the_first_cost_that_is_not_finite_is_named() {
    let device = Device::Cpu;
    let costs = Tensor::new(&[[1f32, f32::INFINITY], [f32::NAN, 0.0]], &device).unwrap();
    let err = cost_summary(&costs).err().unwrap();
    assert_eq!(err.message(), "cost contains non-finite value inf");
    let scorer = FirstComponent { device: device.clone() };
    let sequence = Tensor::new(&[[[f32::NAN]], [[1.0]]], &device).unwrap();
    let err = selected_costs(&scorer, &sequence).err().unwrap();
    assert_eq!(err.message(), "cost contains non-finite value NaN");
}

#[test]
fn time_slices_follow_the_last_axis_but_one() {
    let device = Device::Cpu;
    let five = Tensor::arange(0f32, 8f32, &device).unwrap().reshape((1, 2, 2, 2, 1)).unwrap();
    let slices = time_deviations(&five, &(&five + 2.0).unwrap()).unwrap();
    assert_eq!(slices.len(), 2);
    assert_eq!(slices[0].max_abs, num(2.0));
    let short = five.narrow(2, 0, 1).unwrap();
    assert_eq!(
        time_deviations(&short, &short).unwrap_err().message(),
        "time slice is out of range"
    );
    let three = five.reshape((2, 2, 2)).unwrap();
    assert_eq!(
        time_deviations(&three, &three).unwrap_err().message(),
        "time slices need four axes"
    );
    let none = Tensor::zeros((0, 2), DType::F32, &device).unwrap();
    assert_eq!(
        compare("z", &none, &none, num(0.0)).unwrap_err().message(),
        "nothing to compare"
    );
    let a = Tensor::new(&[[1f32, 2.0], [3.0, 4.0]], &device).unwrap();
    let b = Tensor::new(&[[2f32, 1.0], [3.0, 4.0]], &device).unwrap();
    assert_eq!(
        compare_cost_ordering(&a, &b).unwrap_err().message(),
        "cost argmin mismatch by batch: [(0, 0, 1)]"
    );
    assert_eq!(
        compare_cost_ordering(&five, &five).unwrap_err().message(),
        "unexpected rank, expected: 2, got: 5 ([1, 2, 2, 2, 1])"
    );
}

#[test]
fn fixture_models_have_standard_settings() {
    let state = fixture_model(FixtureKind::State, 5, 64, 32, 3);
    assert_eq!((state.action_dim, state.image_size, state.num_q), (3, None, 5));
    assert_eq!((state.num_bins, state.mlp_dim, state.simnorm_dim), (101, 384, 8));
    assert_eq!(state.encodings[0].input_dim, 5);
    let both = fixture_model(FixtureKind::Both, 5, 64, 32, 3);
    assert_eq!((both.action_dim, both.image_size, both.num_q), (3, Some(64), 5));
    assert_eq!(both.encodings[0].output_dim, 32);
    assert_eq!((both.encodings[1].input_dim, both.encodings[1].output_dim), (5, 128));
}

#[test]
fn benchmark_rows_tell_of_failed_calls() {
    let device = Device::Cpu;
    let mut bench = TdMpc2Bench::drawn(bench_sizes(), &device, DType::F32).unwrap();
    bench.horizon = 0;
    let err = bench.run(BenchRow::FfiPolicyRoll).err().unwrap();
    assert_eq!(
        err.message(),
        "C ABI call failed with RuntimeError: TD-MPC2 actor rollout horizon must be greater than zero"
    );
    let err = bench.run(BenchRow::PolicySampleGenerated).err().unwrap();
    assert_eq!(
        err.message(),
        "TD-MPC2 sampled actor rollout horizon must be greater than zero"
    );
}
