use candle_core::{DType, Device, Tensor};
use candle_nn::VarMap;
use stable_worldmodel::artifact::{
    ActionSpec, DeploymentArtifact, ObservationKind, ObservationSpec, PreprocessConfig,
    RuntimeSchema,
};
use stable_worldmodel::checkpoint::{var_builder_from_content, CheckpointContent};
use stable_worldmodel::config::ModelConfig;
use stable_worldmodel::ffi::SwmTdMpc2;
use stable_worldmodel::models::lewm::{
    batch_loss, ActionEmbedderConfig, LeWm, LeWmConfig, LeWmLossWeights, MlpConfig, NormKind,
    PredictorConfig, VitEncoderConfig,
};
use stable_worldmodel::models::tdmpc2::{TdMpc2, TdMpc2Config};
use stable_worldmodel::scalar::{F32, F64};
use stable_worldmodel::session::{LeWmSession, TdMpc2Session};
use stable_worldmodel::tensor::layers::ParameterStore;

/// The variables of a model as a parameter file: the length of a header, the
/// header, and the numbers one after the other.
fn file_of(vars: &VarMap) -> Vec<u8> {
    file_without(vars, "")
}

/// The same without the parameter of a name.
fn file_without(vars: &VarMap, left_out: &str) -> Vec<u8> {
    let held = vars.data().lock().unwrap();
    let mut names: Vec<&String> = held.keys().filter(|name| name.as_str() != left_out).collect();
    names.sort();
    let mut entries: Vec<String> = Vec::new();
    let mut data: Vec<u8> = Vec::new();
    for name in names {
        let tensor = held[name].as_tensor();
        let start = data.len();
        let numbers = tensor.flatten_all().unwrap().to_vec1::<f32>().unwrap();
        for x in numbers {
            data.extend_from_slice(&x.to_le_bytes());
        }
        entries.push(format!(
            "\"{}\":{{\"dtype\":\"F32\",\"shape\":{:?},\"data_offsets\":[{},{}]}}",
            name,
            tensor.dims(),
            start,
            data.len()
        ));
    }
    let header = format!("{{{}}}", entries.join(","));
    let mut out = (header.len() as u64).to_le_bytes().to_vec();
    out.extend_from_slice(header.as_bytes());
    out.extend_from_slice(&data);
    out
}

fn config(norm: NormKind) -> LeWmConfig {
    let width = 16;
    LeWmConfig {
        encoder: VitEncoderConfig {
            image_size: 28,
            patch_size: 14,
            hidden_size: width,
            num_hidden_layers: 1,
            num_attention_heads: 4,
            intermediate_size: 32,
            layer_norm_eps: F64::from_bits(1e-5f64.to_bits()),
            num_channels: 3,
            qkv_bias: true,
        },
        predictor: PredictorConfig {
            num_frames: 3,
            input_dim: width,
            hidden_dim: 24,
            output_dim: width,
            depth: 2,
            heads: 2,
            dim_head: 8,
            mlp_dim: 32,
        },
        action_encoder: ActionEmbedderConfig {
            input_dim: 2,
            smoothed_dim: 4,
            emb_dim: width,
            mlp_scale: 2,
        },
        projector: MlpConfig { input_dim: width, hidden_dim: 32, output_dim: width, norm },
        pred_proj: MlpConfig { input_dim: width, hidden_dim: 32, output_dim: width, norm },
        history_size: 3,
    }
}

fn lewm_file(cfg: &LeWmConfig) -> Vec<u8> {
    let vars = VarMap::new();
    LeWm::new(cfg.clone(), &ParameterStore::from_varmap(&vars, DType::F32, &Device::Cpu)).unwrap();
    file_of(&vars)
}

fn lewm(norm: NormKind, dtype: DType) -> LeWm {
    let cfg = config(norm);
    let store =
        ParameterStore::from_safetensors(lewm_file(&cfg), dtype, &Device::Cpu).unwrap();
    LeWm::new(cfg, &store).unwrap()
}

fn normal(dims: &[usize], dtype: DType) -> Tensor {
    Tensor::randn(0f32, 1f32, dims, &Device::Cpu).unwrap().to_dtype(dtype).unwrap()
}

fn numbers(t: &Tensor) -> Vec<f32> {
    t.to_dtype(DType::F32).unwrap().flatten_all().unwrap().to_vec1::<f32>().unwrap()
}

#[test]
fn lewm_from_a_file_answers_on_the_processor() {
    for norm in [NormKind::LayerNorm, NormKind::BatchNorm1d, NormKind::NoNorm] {
        let model = lewm(norm, DType::F32);
        let pixels = normal(&[2, 3, 3, 28, 28], DType::F32);
        let emb = model.encode_pixels(&pixels).unwrap();
        assert_eq!(emb.dims(), &[2, 3, 16]);
        let actions = normal(&[2, 3, 2], DType::F32);
        let act = model.encode_actions(&actions).unwrap();
        assert_eq!(act.dims(), &[2, 3, 16]);
        assert_eq!(model.predict(&emb, &actions).unwrap().dims(), &[2, 3, 16]);
        let frames = normal(&[2, 4, 3, 16], DType::F32);
        let candidates = normal(&[2, 4, 5, 2], DType::F32);
        let rollout = model.rollout_embeddings(&frames, &candidates).unwrap();
        assert_eq!(rollout.dims(), &[2, 4, 6, 16]);
        let goal = normal(&[2, 16], DType::F32);
        assert_eq!(model.cost_to_goal(&frames, &goal, &candidates).unwrap().dims(), &[2, 4]);
        let loss = batch_loss(&model, &pixels, &actions, LeWmLossWeights::default()).unwrap();
        assert_eq!(loss.total_loss.dims().len(), 0);
        assert_eq!(loss.covariance_t_loss.dtype(), DType::F32);
    }
}

#[test]
fn lewm_encodes_and_predicts_in_half_precision() {
    for norm in [NormKind::LayerNorm, NormKind::BatchNorm1d, NormKind::NoNorm] {
        let model = lewm(norm, DType::F16);
        let emb = model.encode_pixels(&normal(&[2, 3, 3, 28, 28], DType::F16)).unwrap();
        assert_eq!(emb.dims(), &[2, 3, 16]);
        assert_eq!(emb.dtype(), DType::F16);
        for dtype in [DType::F16, DType::BF16] {
            let model = lewm(norm, dtype);
            let emb = normal(&[2, 2, 16], dtype);
            let act = normal(&[2, 2, 16], dtype);
            let out = model.predict_from_action_embeddings(&emb, &act).unwrap();
            assert_eq!(out.dims(), &[2, 2, 16]);
            assert_eq!(out.dtype(), dtype);
        }
    }
}

#[test]
fn lewm_session_scores_are_direct_costs_after_any_number_of_frames() {
    for seen in 1..4usize {
        let file = lewm_file(&config(NormKind::LayerNorm));
        let store = |data: Vec<u8>| {
            ParameterStore::from_safetensors(data, DType::F32, &Device::Cpu).unwrap()
        };
        let model = LeWm::new(config(NormKind::LayerNorm), &store(file.clone())).unwrap();
        let twin = LeWm::new(config(NormKind::LayerNorm), &store(file)).unwrap();
        let mut session = LeWmSession::new(model, Device::Cpu, DType::F32);
        let emb = session.reset_pixels(&normal(&[2, seen, 3, 28, 28], DType::F32)).unwrap();
        let candidates = normal(&[2, 4, 5, 2], DType::F32);
        let goal = normal(&[2, 16], DType::F32);
        let scores = session.score_candidates(&candidates, &goal).unwrap();
        let frames = emb.unsqueeze(1).unwrap().broadcast_as((2, 4, seen, 16)).unwrap();
        let rollout = twin.rollout_embeddings_with_history(&frames, &candidates, seen).unwrap();
        let costs = twin.goal_cost(&rollout, &goal).unwrap();
        assert_eq!(numbers(&scores), numbers(&costs));
    }
}

fn tdmpc2_file(cfg: &TdMpc2Config) -> Vec<u8> {
    let vars = VarMap::new();
    TdMpc2::new(cfg.clone(), &ParameterStore::from_varmap(&vars, DType::F32, &Device::Cpu))
        .unwrap();
    file_of(&vars)
}

fn tdmpc2(cfg: TdMpc2Config, dtype: DType) -> TdMpc2Session {
    let content = CheckpointContent::Bytes(tdmpc2_file(&cfg));
    let store = var_builder_from_content(content, dtype, &Device::Cpu).unwrap();
    TdMpc2Session::new(TdMpc2::new(cfg, &store).unwrap(), Device::Cpu, dtype)
}

#[test]
fn tdmpc2_from_a_file_answers_on_the_processor() {
    for dtype in [DType::F32, DType::F16, DType::BF16] {
        let mut session = tdmpc2(TdMpc2Config::state_only(12, 4), dtype);
        let z = session.reset_state(&normal(&[2, 12], DType::F32)).unwrap();
        assert_eq!(z.dims(), &[2, 128]);
        assert_eq!(z.dtype(), dtype);
        assert_eq!(session.actor_mean_action().unwrap().dims(), &[2, 4]);
        let (actions, rewards, end) = session.rollout_actor_mean(3).unwrap();
        assert_eq!(actions.dims(), &[2, 3, 4]);
        assert_eq!(actions.dtype(), dtype);
        assert_eq!(rewards.dims(), &[2, 3, 1]);
        assert_eq!(end.dims(), &[2, 128]);
        assert_eq!(session.rollout_actor_sampled(3, 2).unwrap().dims(), &[2, 3, 4]);
        let scores = session.score_candidates(&normal(&[2, 5, 3, 4], DType::F32)).unwrap();
        assert_eq!(scores.dims(), &[2, 5]);
    }
    for dtype in [DType::F32, DType::F16] {
        let mut session = tdmpc2(TdMpc2Config::pixel_only(64, 4, 128), dtype);
        let z = session.reset_pixels(&normal(&[2, 3, 64, 64], DType::F32)).unwrap();
        assert_eq!(z.dims(), &[2, 128]);
        let scores = session.score_candidates(&normal(&[2, 5, 3, 4], DType::F32)).unwrap();
        assert_eq!(scores.dims(), &[2, 5]);
    }
}

#[test]
fn a_rollout_of_zero_draws_takes_the_mean_actions() {
    let mut session = tdmpc2(TdMpc2Config::state_only(12, 4), DType::F32);
    session.reset_state(&normal(&[2, 12], DType::F32)).unwrap();
    let (actions, _, _) = session.rollout_actor_mean(3).unwrap();
    let none = Tensor::zeros((1, 2, 3, 4), DType::F32, &Device::Cpu).unwrap();
    let drawn = session.rollout_actor_sampled_with_noise(&none).unwrap();
    assert_eq!(numbers(&drawn), numbers(&actions));
    let some = normal(&[1, 2, 3, 4], DType::F32);
    let other = session.rollout_actor_sampled_with_noise(&some).unwrap();
    assert_ne!(numbers(&other), numbers(&actions));
}

#[test]
fn unreadable_files_are_refused() {
    for data in [vec![], vec![1u8, 2, 3], vec![255u8; 64]] {
        assert!(ParameterStore::from_safetensors(data.clone(), DType::F32, &Device::Cpu).is_err());
        let content = CheckpointContent::Bytes(data);
        assert!(var_builder_from_content(content, DType::F32, &Device::Cpu).is_err());
    }
    let file = tdmpc2_file(&TdMpc2Config::state_only(12, 4));
    let cut = file[..file.len() - 4].to_vec();
    assert!(ParameterStore::from_safetensors(cut, DType::F32, &Device::Cpu).is_err());
    let store = ParameterStore::from_safetensors(file, DType::F32, &Device::Cpu).unwrap();
    assert!(TdMpc2::new(TdMpc2Config::state_only(13, 4), &store).is_err());
}

#[test]
fn every_parameter_of_a_model_is_read() {
    for norm in [NormKind::LayerNorm, NormKind::BatchNorm1d] {
        let cfg = config(norm);
        let vars = VarMap::new();
        LeWm::new(cfg.clone(), &ParameterStore::from_varmap(&vars, DType::F32, &Device::Cpu))
            .unwrap();
        let names: Vec<String> = vars.data().lock().unwrap().keys().cloned().collect();
        for name in &names {
            let file = file_without(&vars, name);
            let store = ParameterStore::from_safetensors(file, DType::F32, &Device::Cpu).unwrap();
            assert!(LeWm::new(cfg.clone(), &store).is_err(), "{name}");
        }
        for name in [
            "encoder.embeddings.cls_token",
            "encoder.encoder.layer.0.attention.attention.query.bias",
            "predictor.pos_embedding",
            "predictor.transformer.layers.1.adaLN_modulation.1.weight",
            "action_encoder.patch_embed.weight",
            "projector.net.1.weight",
            "pred_proj.net.3.bias",
        ] {
            assert!(names.iter().any(|n| n == name), "{name}");
        }
        let wide = LeWmConfig { history_size: 2, ..cfg.clone() };
        let store = ParameterStore::from_safetensors(file_of(&vars), DType::F32, &Device::Cpu);
        assert!(LeWm::new(wide, &store.unwrap()).is_ok());
    }
}

#[test]
fn a_handle_loads_from_a_complete_file() {
    let artifact = || DeploymentArtifact {
        root: "artifact".to_string(),
        config: ModelConfig::tdmpc2_state_only(12, 4),
        weights: "model.safetensors".to_string(),
        preprocess: PreprocessConfig::default(),
        schema: RuntimeSchema {
            observations: vec![ObservationSpec {
                name: "state".to_string(),
                kind: ObservationKind::State,
                shape: vec![12],
                dtype: None,
            }],
            action: ActionSpec { dim: 4, min: None, max: None },
        },
    };
    let vars = VarMap::new();
    let fresh = ParameterStore::from_varmap(&vars, DType::F32, &Device::Cpu);
    TdMpc2::new(TdMpc2Config::state_only(12, 4), &fresh).unwrap();
    let content = |data: Vec<u8>| Ok(CheckpointContent::Bytes(data));
    let mut handle =
        SwmTdMpc2::load(artifact(), content(file_of(&vars)), DType::F32, &Device::Cpu).unwrap();
    let state: Vec<F32> = (0..24).map(|k| F32::from_bits((k as f32 / 8.0).to_bits())).collect();
    handle.reset_state(&state, 2, 12).unwrap();
    assert_eq!(handle.actor_mean_action(true).unwrap().len(), 8);
    let (actions, rewards) = handle.rollout_actor_mean(3, true, true).unwrap();
    assert_eq!((actions.len(), rewards.unwrap().len()), (24, 6));
    assert_eq!(handle.rollout_actor_sample(3, 2, true).unwrap().len(), 24);
    let short = file_without(&vars, "qs.1.2.bias");
    assert!(SwmTdMpc2::load(artifact(), content(short), DType::F32, &Device::Cpu).is_err());
}
