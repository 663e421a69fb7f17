use candle_core::{DType, Device, Tensor};
use stable_worldmodel::artifact::{
    require_file, ActionSpec, DeploymentArtifact, ObservationKind, ObservationSpec,
    PreprocessConfig, RuntimeSchema,
};
use stable_worldmodel::checkpoint::{empty_var_builder, CheckpointContent};
use stable_worldmodel::config::ModelConfig;
use stable_worldmodel::ffi::inputs::{
    action_bounds_from_schema, history_input_len, history_tensor, image_preprocess_from_config,
    parse_pixel_layout, pixel_input_len, pixel_tensor, require_frames, state_input_len,
    state_tensor, tdmpc2_observation_dims, validate_lewm_media_history,
};
use stable_worldmodel::ffi::media::{
    codec_from_ffi, color_space_from_ffi, decoder_config_from_ffi,
};
use stable_worldmodel::ffi::options::{device_from_ffi, dtype_from_ffi};
use stable_worldmodel::ffi::outputs::{best_costs, copy_plan_outputs, flatten2, flatten3};
use stable_worldmodel::ffi::settings::{can_reuse, icem_config_from_ffi, same_number};
use stable_worldmodel::ffi::status::{conclude, escape_nul, CallOutcome};
use stable_worldmodel::ffi::{
    FfiError, OutputsWanted, SwmCemPlanConfig, SwmCudaImage, SwmCudaNv12, SwmIcemPlanConfig,
    SwmLeWm, SwmMppiPlanConfig, SwmNvDecCaps, SwmPixelLayout, SwmStatus, SwmTdMpc2,
};
use stable_worldmodel::media::nvdec::{
    NvDecCaps, NvDecChromaFormat, NvDecCodec,
};
use stable_worldmodel::media::{Nv12ColorSpace, Nv12ImageShape, PackedImageFormat, PackedImageShape};
use stable_worldmodel::models::lewm::LeWmConfig;
use stable_worldmodel::models::tdmpc2::{EncodingConfig, TdMpc2, TdMpc2Config};
use stable_worldmodel::planner::{ActionBounds, PlanFallback, PlanResult};
use stable_worldmodel::scalar::F32;
use stable_worldmodel::session::TdMpc2Session;
use std::time::Duration;

fn num(x: f32) -> F32 {
    F32::from_bits(x.to_bits())
}

fn nums(xs: &[f32]) -> Vec<F32> {
    xs.iter().map(|x| num(*x)).collect()
}

fn finite(xs: &[F32]) -> bool {
    xs.iter().all(|x| x.is_finite())
}

fn state_handle(batch: usize) -> SwmTdMpc2 {
    let device = Device::Cpu;
    let dtype = DType::F32;
    let action_dim = 4;
    let store = empty_var_builder(dtype, &device);
    let model = TdMpc2::new(TdMpc2Config::state_only(12, action_dim), &store).unwrap();
    let mut session = TdMpc2Session::new(model, device.clone(), dtype);
    let state = Tensor::randn(0f32, 1f32, (batch, 12), &device).unwrap();
    session.reset_state(&state).unwrap();
    SwmTdMpc2 {
        session,
        state_dim: Some(12),
        image_size: None,
        image_preprocess: None,
        packed_preprocessor: None,
        nv12_preprocessor: None,
        action_dim,
        action_bounds: ActionBounds::symmetric(action_dim, num(1.0)),
        icem_planner: None,
    }
}

fn everything() -> OutputsWanted {
    OutputsWanted { action: true, sequence: true, best_costs: true }
}

#[test]
fn tdmpc2_observation_dims_support_state_pixel_and_mixed() {
    assert_eq!(
        tdmpc2_observation_dims(&TdMpc2Config::state_only(12, 4)).unwrap(),
        (Some(12), None)
    );
    assert_eq!(
        tdmpc2_observation_dims(&TdMpc2Config::pixel_only(64, 4, 128)).unwrap(),
        (None, Some(64))
    );

    let mut mixed = TdMpc2Config::pixel_only(64, 4, 128);
    mixed.encodings.push(EncodingConfig::new("state", 12, 128));
    assert_eq!(tdmpc2_observation_dims(&mixed).unwrap(), (Some(12), Some(64)));
}

#[test]
fn tdmpc2_observation_dims_reject_unknown_observation() {
    let mut config = TdMpc2Config::state_only(12, 4);
    config.encodings.push(EncodingConfig::new("proprioceptive", 6, 128));

    let err = tdmpc2_observation_dims(&config).unwrap_err();
    assert_eq!(err.status, SwmStatus::InvalidArgument);
    assert!(err.message.contains("proprioceptive"));
}

#[test]
fn tdmpc2_actor_policy_c_abi_writes_outputs() {
    let action_dim = 4;
    let handle = state_handle(2);

    let action = handle.actor_mean_action(true).unwrap();
    assert_eq!(action.len(), 2 * action_dim);
    assert!(finite(&action));

    let horizon = 3;
    let (actions, rewards) = handle.rollout_actor_mean(horizon, true, true).unwrap();
    let rewards = rewards.unwrap();
    assert_eq!(actions.len(), 2 * horizon * action_dim);
    assert_eq!(rewards.len(), 2 * horizon);
    assert!(finite(&actions));
    assert!(finite(&rewards));

    let sampled_actions = handle.rollout_actor_sample(horizon, 2, true).unwrap();
    assert_eq!(sampled_actions.len(), 2 * horizon * action_dim);
    assert!(finite(&sampled_actions));
}

#[test]
fn ffi_load_rejects_missing_artifact_dir() {
    let path = "/definitely/not/a/stable-worldmodel-artifact/config.json";
    let err = FfiError::runtime(require_file(path, false).unwrap_err());
    let (status, message) = conclude(CallOutcome::Failed(err));

    assert_eq!(status, SwmStatus::RuntimeError);
    assert!(message.unwrap().contains("config.json"));
}

#[test]
fn ffi_cuda_image_alloc_rejects_unknown_format() {
    let err = SwmCudaImage::with_room(&Device::Cpu, 1, 2, 3, 99).err().unwrap();

    assert_eq!(err.status, SwmStatus::RuntimeError);
    assert!(err.message.contains("unknown packed CUDA image format"));
}

#[test]
fn ffi_nvdec_query_420_rejects_unknown_codec() {
    let err = codec_from_ffi(99).unwrap_err();

    assert_eq!(err.status, SwmStatus::RuntimeError);
    assert!(err.message.contains("unknown NVDECODE codec"));
}

#[test]
fn ffi_nvdec_decoder_create_420_rejects_odd_dimensions() {
    let config = decoder_config_from_ffi(0, 63, 64, 20, 2).unwrap();
    let err = FfiError::runtime(config.validate().unwrap_err());

    assert_eq!(err.status, SwmStatus::RuntimeError);
    assert!(err.message.contains("NVDECODE NV12 decoder dimensions must be even"));
}

#[test]
fn pitches_count_the_bytes_of_a_row() {
    let device = Device::Cpu;
    let image = SwmCudaImage {
        tensor: Tensor::zeros((1, 2, 3, 3), DType::U8, &device).unwrap(),
        shape: PackedImageShape::new(1, 2, 3, PackedImageFormat::Rgb),
    };
    assert_eq!(image.pitch_bytes(), 9);
    let nv12 = SwmCudaNv12 {
        y_plane: Tensor::zeros((1, 4, 6), DType::U8, &device).unwrap(),
        uv_plane: Tensor::zeros((1, 2, 3, 2), DType::U8, &device).unwrap(),
        shape: Nv12ImageShape::new(1, 4, 6),
    };
    assert_eq!(nv12.pitch_bytes(), 6);
    assert!(SwmCudaNv12::with_room(&device, 1, 4, 6).is_err());
}

#[test]
fn statuses_have_numbers_and_texts() {
    assert_eq!(SwmStatus::Success.code(), 0);
    let codes: Vec<i32> = [
        SwmStatus::Success,
        SwmStatus::NullPointer,
        SwmStatus::InvalidArgument,
        SwmStatus::RuntimeError,
        SwmStatus::Panic,
    ]
    .iter()
    .map(|s| s.code())
    .collect();
    let mut distinct = codes.clone();
    distinct.dedup();
    assert_eq!(codes, distinct);
    assert!(FfiError::null("handle").message.contains("handle"));
    assert_eq!(FfiError::null("handle").status, SwmStatus::NullPointer);
    assert_eq!(escape_nul("a\0b"), "a\\0b");
    assert_eq!(conclude(CallOutcome::Finished), (SwmStatus::Success, None));
    let (status, text) = conclude(CallOutcome::Panicked);
    assert_eq!(status, SwmStatus::Panic);
    assert!(text.unwrap().contains("panic"));
    let (status, text) = conclude(CallOutcome::Failed(FfiError::invalid("x\0y")));
    assert_eq!(status, SwmStatus::InvalidArgument);
    assert_eq!(text.unwrap(), "x\\0y");
}

#[test]
fn options_have_defaults() {
    assert_eq!(dtype_from_ffi(None).unwrap(), DType::F32);
    assert_eq!(dtype_from_ffi(Some("f16")).unwrap(), DType::F16);
    assert_eq!(dtype_from_ffi(Some("i8")).unwrap_err().status, SwmStatus::InvalidArgument);
    assert_eq!(device_from_ffi(Some("cpu")).err().unwrap().status, SwmStatus::InvalidArgument);
    assert_eq!(device_from_ffi(None).err().unwrap().status, SwmStatus::RuntimeError);
}

#[test]
fn pixel_layouts_are_numbered() {
    assert_eq!(parse_pixel_layout(0).unwrap(), SwmPixelLayout::Nchw);
    assert_eq!(parse_pixel_layout(1).unwrap(), SwmPixelLayout::Nhwc);
    let err = parse_pixel_layout(-2).unwrap_err();
    assert_eq!(err.status, SwmStatus::InvalidArgument);
    assert_eq!(err.message, "unknown pixel layout -2; expected 0=NCHW or 1=NHWC");
}

#[test]
fn inputs_are_counted() {
    assert_eq!(state_input_len(Some(12), 2, 12).unwrap(), 24);
    assert!(state_input_len(Some(12), 2, 11).is_err());
    assert!(state_input_len(None, 2, 12).is_err());
    assert!(state_input_len(Some(12), 0, 12).is_err());
    assert_eq!(pixel_input_len(Some(4), 2, 4, 4).unwrap(), 96);
    assert!(pixel_input_len(Some(4), 2, 5, 4).is_err());
    assert!(pixel_input_len(None, 2, 4, 4).is_err());
    assert_eq!(history_input_len(4, 2, 3, 4, 4).unwrap(), 288);
    assert!(history_input_len(4, 2, 3, 5, 4).is_err());
    assert!(require_frames(3, 3).is_ok());
    assert!(require_frames(3, 2).is_err());
    assert!(validate_lewm_media_history(3, 3, 1, 3, true).is_ok());
    assert!(validate_lewm_media_history(3, 4, 1, 3, true).is_err());
    assert!(validate_lewm_media_history(3, 2, 1, 2, true).is_err());
    assert!(validate_lewm_media_history(3, 2, 1, 2, false).is_ok());
}

#[test]
fn inputs_become_tensors() {
    let device = Device::Cpu;
    let state = state_tensor(&nums(&[1.0, 2.0, 3.0, 4.0]), 2, 2, &device).unwrap();
    assert_eq!(state.to_vec2::<f32>().unwrap(), vec![vec![1.0, 2.0], vec![3.0, 4.0]]);
    let values = nums(&[0.0, 1.0, 2.0, 3.0, 4.0, 5.0]);
    let nchw = pixel_tensor(&values, 1, 1, 2, 0, &device).unwrap();
    let nhwc = pixel_tensor(&values, 1, 1, 2, 1, &device).unwrap();
    assert_eq!(nchw.dims(), &[1, 3, 1, 2]);
    assert_eq!(nhwc.dims(), &[1, 1, 2, 3]);
    assert!(pixel_tensor(&values, 1, 1, 2, 2, &device).is_err());
    let history = history_tensor(&values, 1, 2, 1, 1, &device).unwrap();
    assert_eq!(history.dims(), &[1, 2, 3, 1, 1]);
}

fn artifact(config: ModelConfig, name: &str) -> DeploymentArtifact {
    DeploymentArtifact {
        root: "artifact".to_string(),
        config,
        weights: "model.safetensors".to_string(),
        preprocess: PreprocessConfig::default(),
        schema: RuntimeSchema {
            observations: vec![ObservationSpec {
                name: name.to_string(),
                kind: ObservationKind::State,
                shape: vec![12],
                dtype: None,
            }],
            action: ActionSpec { dim: 4, min: Some(nums(&[-0.5; 4])), max: Some(nums(&[0.5; 4])) },
        },
    }
}

#[test]
fn action_bounds_come_from_the_schema_first() {
    let mut a = artifact(ModelConfig::tdmpc2_state_only(12, 4), "state");
    a.preprocess.action_min = Some(nums(&[-2.0; 4]));
    a.preprocess.action_max = Some(nums(&[2.0; 4]));
    let bounds = action_bounds_from_schema(&a.schema, &a.preprocess, 4).unwrap();
    assert_eq!(bounds.low, nums(&[-0.5; 4]));
    assert_eq!(bounds.high, nums(&[0.5; 4]));
    a.schema.action.min = None;
    let bounds = action_bounds_from_schema(&a.schema, &a.preprocess, 4).unwrap();
    assert_eq!(bounds.low, nums(&[-2.0; 4]));
    a.preprocess.action_min = None;
    let bounds = action_bounds_from_schema(&a.schema, &a.preprocess, 4).unwrap();
    assert_eq!(bounds.low, nums(&[-1.0; 4]));
    assert!(action_bounds_from_schema(&a.schema, &a.preprocess, 5).is_err());
    let p = image_preprocess_from_config(&a.preprocess, 64);
    assert_eq!((p.output_height, p.output_width), (64, 64));
}

#[test]
fn checkpoints_without_parameters_are_refused() {
    let device = Device::Cpu;
    let empty = || Ok(CheckpointContent::Named(vec![], vec![]));
    let a = artifact(ModelConfig::tdmpc2_state_only(12, 4), "state");
    let err = SwmTdMpc2::load(a, empty(), DType::F32, &device).err().unwrap();
    assert_eq!(err.status, SwmStatus::RuntimeError);
    let a = artifact(ModelConfig::tdmpc2_state_only(12, 4), "state");
    let err = SwmTdMpc2::load(a, Err("unreadable".to_string()), DType::F32, &device).err().unwrap();
    assert_eq!((err.status, err.message.as_str()), (SwmStatus::RuntimeError, "unreadable"));
    let a = artifact(ModelConfig::lewm_tiny_patch14_224(4), "pixels");
    let err = SwmTdMpc2::load(a, empty(), DType::F32, &device).err().unwrap();
    assert_eq!(err.status, SwmStatus::InvalidArgument);
    let a = artifact(ModelConfig::tdmpc2_state_only(12, 4), "state");
    let err = SwmLeWm::load(a, empty(), DType::F32, &device).err().unwrap();
    assert_eq!(err.status, SwmStatus::InvalidArgument);
    let bytes = Ok(CheckpointContent::Bytes(vec![1, 2, 3]));
    let a = artifact(ModelConfig::tdmpc2_state_only(12, 4), "state");
    assert!(SwmTdMpc2::load(a, bytes, DType::F32, &device).is_err());
}

#[test]
fn handles_plan_with_every_planner() {
    let mut handle = state_handle(2);
    let mut cem = SwmCemPlanConfig::default();
    cem.horizon = 2;
    cem.samples = 8;
    cem.elites = 3;
    cem.iterations = 2;
    let out = handle.plan_cem(cem, everything()).unwrap();
    assert_eq!(out.action.len(), 8);
    assert_eq!(out.sequence.unwrap().len(), 16);
    assert_eq!(out.best_costs.unwrap().len(), 2);
    let mut mppi = SwmMppiPlanConfig::default();
    mppi.horizon = 2;
    mppi.samples = 8;
    let little = OutputsWanted { action: true, sequence: false, best_costs: false };
    let out = handle.plan_mppi(mppi, little).unwrap();
    assert_eq!(out.action.len(), 8);
    assert!(out.sequence.is_none());
    assert!(out.best_costs.is_none());
    let mut icem = SwmIcemPlanConfig::default();
    icem.horizon = 2;
    icem.samples = 8;
    icem.elites = 3;
    icem.keep_elites = 2;
    icem.iterations = 1;
    assert!(handle.plan_icem(icem, everything()).is_ok());
    assert!(handle.icem_planner.as_ref().unwrap().warm_start_sequence().is_some());
    handle.clear_icem_warm_start();
    assert!(handle.icem_planner.as_ref().unwrap().warm_start_sequence().is_none());
    let nothing = OutputsWanted { action: false, sequence: true, best_costs: true };
    let err = handle.plan_cem(cem, nothing).err().unwrap();
    assert_eq!(err.status, SwmStatus::NullPointer);
    assert!(err.message.contains("action_out"));
}

#[test]
fn handles_take_the_observations_of_their_model() {
    let mut handle = state_handle(1);
    assert_eq!(handle.state_dim(), 12);
    assert_eq!(handle.image_size(), 0);
    assert_eq!(handle.reset_state_len(2, 12).unwrap(), 24);
    assert!(handle.reset_state_len(2, 13).is_err());
    handle.reset_state(&nums(&[0.5; 24]), 2, 12).unwrap();
    assert_eq!(handle.actor_mean_action(true).unwrap().len(), 8);
    assert!(handle.reset_pixels_len(1, 4, 4).is_err());
    assert!(handle.reset_pixels(&nums(&[0.0; 48]), 1, 4, 4, 0).is_err());
    assert_eq!(handle.actor_mean_action(true).unwrap().len(), 8);
    assert_eq!(handle.actor_mean_action(false).unwrap_err().status, SwmStatus::NullPointer);
}

#[test]
fn kept_planners_are_reused_for_equal_settings() {
    let bounds = ActionBounds::symmetric(2, num(1.0));
    let a = icem_config_from_ffi(SwmIcemPlanConfig::default(), 2, &bounds);
    assert_eq!((a.samples, a.elites, a.keep_elites), (512, 64, 64));
    let mut b = a.clone();
    assert!(can_reuse(&a, &b));
    b.samples = 256;
    assert!(!can_reuse(&a, &b));
    assert!(same_number(num(0.0), num(-0.0)));
    assert!(!same_number(num(f32::NAN), num(f32::NAN)));
}

#[test]
fn results_are_flattened_row_by_row() {
    let device = Device::Cpu;
    let sequence = Tensor::new(&[[[1f32, 2.0], [3.0, 4.0]]], &device).unwrap();
    let first = sequence.narrow(1, 0, 1).unwrap().squeeze(1).unwrap();
    let scores = Tensor::new(&[[5f32, 4.0, 6.0]], &device).unwrap();
    assert_eq!(flatten2(&first).unwrap(), nums(&[1.0, 2.0]));
    assert_eq!(flatten3(&sequence).unwrap(), nums(&[1.0, 2.0, 3.0, 4.0]));
    assert_eq!(best_costs(&scores, &[1]).unwrap(), nums(&[4.0]));
    let plan = PlanResult {
        first_action: first,
        sequence,
        scores,
        best_indices: vec![1],
        iterations_completed: 1,
        elapsed: Duration::ZERO,
        deadline_reached: false,
        fallback: PlanFallback::NotUsed,
        used_host_elite_selection: false,
    };
    let out = copy_plan_outputs(&plan, everything()).unwrap();
    assert_eq!(out.action, nums(&[1.0, 2.0]));
    assert_eq!(out.sequence.unwrap(), nums(&[1.0, 2.0, 3.0, 4.0]));
    assert_eq!(out.best_costs.unwrap(), nums(&[4.0]));
}

#[test]
fn decoders_are_described_in_numbers() {
    let caps = NvDecCaps {
        codec: NvDecCodec::Vp9,
        chroma_format: NvDecChromaFormat::Yuv420,
        bit_depth_minus_8: 0,
        supported: true,
        nvdec_count: 1,
        output_format_mask: 3,
        min_width: 128,
        min_height: 128,
        max_width: 8192,
        max_height: 8192,
        max_macroblock_count: 262144,
        histogram_supported: false,
        histogram_counter_bit_depth: 0,
        max_histogram_bins: 0,
    };
    let told = SwmNvDecCaps::told(caps);
    assert_eq!((told.supported, told.supports_nv12, told.supports_p016), (1, 1, 1));
    assert_eq!((told.supports_yuv444, told.supports_yuv444_16bit), (0, 0));
    assert_eq!((told.histogram_supported, told.max_width), (0, 8192));
    assert_eq!(codec_from_ffi(3).unwrap(), NvDecCodec::Vp9);
    assert_eq!(color_space_from_ffi(1).unwrap(), Nv12ColorSpace::Bt709Video);
    assert!(color_space_from_ffi(-1).is_err());
}

#[test]
fn lewm_handles_plan_towards_their_goal() {
    let device = Device::Cpu;
    let cfg = LeWmConfig {
        encoder: stable_worldmodel::models::lewm::VitEncoderConfig {
            image_size: 28,
            patch_size: 14,
            hidden_size: 32,
            num_hidden_layers: 1,
            num_attention_heads: 4,
            intermediate_size: 64,
            ..stable_worldmodel::models::lewm::VitEncoderConfig::tiny_patch14_224()
        },
        predictor: stable_worldmodel::models::lewm::PredictorConfig {
            hidden_dim: 32,
            depth: 1,
            heads: 2,
            dim_head: 16,
            mlp_dim: 64,
            ..stable_worldmodel::models::lewm::PredictorConfig::lewm_tiny(32, 3)
        },
        action_encoder: stable_worldmodel::models::lewm::ActionEmbedderConfig::new(2, 32),
        projector: stable_worldmodel::models::lewm::MlpConfig::projector(32),
        pred_proj: stable_worldmodel::models::lewm::MlpConfig::projector(32),
        history_size: 3,
    };
    let pixels = Tensor::randn(0f32, 1f32, (1, 3, 3, 28, 28), &device).unwrap();
    let goal = Tensor::randn(0f32, 1f32, (1, 1, 32), &device).unwrap();
    let mut handle =
        SwmLeWm::synthetic_for_bench(cfg, DType::F32, &device, &pixels, &goal).unwrap();
    let mut cem = SwmCemPlanConfig::default();
    cem.horizon = 3;
    cem.samples = 6;
    cem.elites = 2;
    cem.iterations = 1;
    let out = handle.plan_cem(cem, everything()).unwrap();
    assert_eq!(out.action.len(), 2);
    assert_eq!(out.sequence.unwrap().len(), 6);
    assert_eq!(handle.reset_pixels_len(1, 3, 28, 28).unwrap(), 3 * 3 * 28 * 28);
    assert!(handle.reset_pixels_len(1, 2, 28, 28).is_err());
    assert!(handle.goal_pixels_len(1, 1, 28, 28).is_ok());
    handle.set_goal_pixels(&nums(&vec![0.5; 3 * 28 * 28]), 1, 1, 28, 28).unwrap();
    handle.reset_pixels(&nums(&vec![0.5; 9 * 28 * 28]), 1, 3, 28, 28).unwrap();
    assert!(handle.plan_cem(cem, everything()).is_ok());
}

#[test]
fn failures_carry_their_texts_over() {
    let device = Device::Cpu;
    let sequence = Tensor::new(&[[[1f32, 2.0], [3.0, 4.0]]], &device).unwrap();
    let plan = PlanResult {
        first_action: sequence.narrow(1, 0, 1).unwrap().squeeze(1).unwrap(),
        sequence,
        scores: Tensor::new(&[[5f32, 4.0]], &device).unwrap(),
        best_indices: vec![2],
        iterations_completed: 1,
        elapsed: Duration::ZERO,
        deadline_reached: false,
        fallback: PlanFallback::NotUsed,
        used_host_elite_selection: false,
    };
    let err = copy_plan_outputs(&plan, everything()).unwrap_err();
    assert_eq!(err.status, SwmStatus::RuntimeError);
    assert_eq!(err.message, "best index 2 out of range for score row length 2");
    let silent = OutputsWanted { action: false, sequence: false, best_costs: false };
    let err = copy_plan_outputs(&plan, silent).unwrap_err();
    assert_eq!(err.status, SwmStatus::NullPointer);
    assert_eq!(err.message, "action_out pointer is null");

    let err = color_space_from_ffi(9).unwrap_err();
    assert_eq!(
        err.message,
        "unknown NV12 color space 9; expected 0=BT.601 video, 1=BT.709 video, 2=BT.601 full, or 3=BT.709 full"
    );
    let err = decoder_config_from_ffi(5, 64, 64, 1, 1).unwrap_err();
    assert_eq!(
        err.message,
        "unknown NVDECODE codec 5; expected 0=H264, 1=HEVC, 2=AV1, or 3=VP9"
    );

    let mut handle = state_handle(1);
    let err = handle.reset_state(&nums(&[1.0, 2.0]), 1, 2).unwrap_err();
    assert_eq!(err.status, SwmStatus::RuntimeError);
    let err = handle.rollout_actor_sample(2, 0, true).unwrap_err();
    assert_eq!(
        err.message,
        "TD-MPC2 sampled actor rollout requires at least one trajectory"
    );
    let err = handle.actor_mean_action(false).unwrap_err();
    assert_eq!(err.status, SwmStatus::NullPointer);
}
