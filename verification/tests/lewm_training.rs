use candle_core::{DType, Device, Tensor};
use candle_nn::{AdamW, Optimizer, ParamsAdamW, VarMap};
use stable_worldmodel::models::lewm::{
    batch_loss, pldm_loss, temporal_straightening_loss, vc_reg, ActionEmbedderConfig, LeWm,
    LeWmConfig, LeWmLossWeights, MlpConfig, NormKind, PredictorConfig, VitEncoderConfig,
};
use stable_worldmodel::scalar::F64;
use stable_worldmodel::tensor::layers::ParameterStore;

fn double(x: f64) -> F64 {
    F64::from_bits(x.to_bits())
}

#[test]
fn lewm_training_step_updates_cuda_weights() {
    let device = Device::Cpu;
    let cfg = tiny_training_config();
    let varmap = VarMap::new();
    let vb = ParameterStore::from_varmap(&varmap, DType::F32, &device);
    let model = LeWm::new(cfg.clone(), &vb).unwrap();

    let pixels = Tensor::randn(
        0f32,
        1f32,
        (
            2,
            cfg.history_size,
            cfg.encoder.num_channels,
            cfg.encoder.image_size,
            cfg.encoder.image_size,
        ),
        &device,
    )
    .unwrap();
    let actions =
        Tensor::randn(0f32, 1f32, (2, cfg.history_size, cfg.action_encoder.input_dim), &device)
            .unwrap();

    let vars = varmap.all_vars();
    assert!(!vars.is_empty());
    let before = vars
        .iter()
        .map(|var| var.as_tensor().sum_all()?.to_scalar::<f32>())
        .collect::<candle_core::Result<Vec<_>>>()
        .unwrap();
    let mut opt = AdamW::new(
        vars.clone(),
        ParamsAdamW { lr: 1e-4, weight_decay: 0.0, ..ParamsAdamW::default() },
    )
    .unwrap();

    let loss = batch_loss(&model, &pixels, &actions, LeWmLossWeights::default()).unwrap();
    let loss_before = loss.total_loss.to_scalar::<f32>().unwrap();
    assert!(loss_before.is_finite());
    opt.backward_step(&loss.total_loss).unwrap();

    let changed = vars
        .iter()
        .zip(before.iter())
        .map(|(var, before)| Ok((var.as_tensor().sum_all()?.to_scalar::<f32>()? - before).abs()))
        .collect::<candle_core::Result<Vec<_>>>()
        .unwrap()
        .into_iter()
        .filter(|diff| *diff > 0.0)
        .count();
    assert!(changed > 0, "AdamW step did not update any LeWM variable");

    let loss_after = batch_loss(&model, &pixels, &actions, LeWmLossWeights::default())
        .unwrap()
        .total_loss
        .to_scalar::<f32>()
        .unwrap();
    assert!(loss_after.is_finite());
}

fn tiny_training_config() -> LeWmConfig {
    let embed_dim = 32;
    let history_size = 3;
    LeWmConfig {
        encoder: VitEncoderConfig {
            image_size: 28,
            patch_size: 14,
            hidden_size: embed_dim,
            num_hidden_layers: 1,
            num_attention_heads: 4,
            intermediate_size: 64,
            layer_norm_eps: double(1e-5),
            num_channels: 3,
            qkv_bias: true,
        },
        predictor: PredictorConfig {
            num_frames: history_size,
            input_dim: embed_dim,
            hidden_dim: embed_dim,
            output_dim: embed_dim,
            depth: 1,
            heads: 2,
            dim_head: 16,
            mlp_dim: 64,
        },
        action_encoder: ActionEmbedderConfig {
            input_dim: 2,
            smoothed_dim: 2,
            emb_dim: embed_dim,
            mlp_scale: 2,
        },
        projector: MlpConfig {
            input_dim: embed_dim,
            hidden_dim: 64,
            output_dim: embed_dim,
            norm: NormKind::LayerNorm,
        },
        pred_proj: MlpConfig {
            input_dim: embed_dim,
            hidden_dim: 64,
            output_dim: embed_dim,
            norm: NormKind::LayerNorm,
        },
        history_size,
    }
}

fn tiny_model() -> LeWm {
    let vars = VarMap::new();
    let vb = ParameterStore::from_varmap(&vars, DType::F32, &Device::Cpu);
    LeWm::new(tiny_training_config(), &vb).unwrap()
}

fn randn(shape: &[usize]) -> Tensor {
    Tensor::randn(0f32, 1f32, shape, &Device::Cpu).unwrap()
}

fn scalar(t: &Tensor) -> f32 {
    t.to_scalar::<f32>().unwrap()
}

#[test]
fn rollouts_hold_every_step() {
    let model = tiny_model();
    let init = randn(&[2, 4, 1, 32]);
    let actions = randn(&[2, 4, 5, 2]);
    let rollout = model.rollout_embeddings_with_history(&init, &actions, 1).unwrap();
    assert_eq!(rollout.dims(), &[2, 4, 6, 32]);
    let first = rollout.narrow(2, 0, 1).unwrap().flatten_all().unwrap();
    assert_eq!(
        first.to_vec1::<f32>().unwrap(),
        init.flatten_all().unwrap().to_vec1::<f32>().unwrap()
    );
    let init = randn(&[1, 2, 3, 32]);
    let actions = randn(&[1, 2, 4, 2]);
    let rollout = model.rollout_embeddings(&init, &actions).unwrap();
    assert_eq!(rollout.dims(), &[1, 2, 5, 32]);
}

#[test]
fn the_goal_itself_costs_nothing() {
    let model = tiny_model();
    let goal = randn(&[1, 1, 32]);
    let there = goal.unsqueeze(1).unwrap().broadcast_as((1, 2, 1, 32)).unwrap();
    let cost = model.goal_cost(&there.contiguous().unwrap(), &goal).unwrap();
    assert_eq!(cost.to_vec2::<f32>().unwrap(), vec![vec![0.0, 0.0]]);
    let away = (there.contiguous().unwrap() + 2.0).unwrap();
    let cost = model.goal_cost(&away, &goal).unwrap().to_vec2::<f32>().unwrap();
    assert!((cost[0][0] - 128.0).abs() < 1e-2);
}

#[test]
fn losses_have_known_values() {
    let device = Device::Cpu;
    let still = Tensor::zeros((2, 3, 4), DType::F32, &device).unwrap();
    let vc = vc_reg(&still).unwrap();
    assert!((scalar(&vc.std_loss) - 0.99).abs() < 1e-3);
    assert!((scalar(&vc.std_t_loss) - 0.99).abs() < 1e-3);
    assert_eq!(scalar(&vc.cov_loss), 0.0);
    assert_eq!(scalar(&vc.cov_t_loss), 0.0);
    let none = pldm_loss(&still, None, None).unwrap();
    assert!(none.idm_loss.is_none());
    assert_eq!(scalar(&none.temp_align_loss), 0.0);
    let a = Tensor::new(&[[[1f32, 2.0], [3.0, 4.0]], [[1.0, 2.0], [3.0, 4.0]]], &device).unwrap();
    let b = Tensor::zeros((2, 2, 2), DType::F32, &device).unwrap();
    let some = pldm_loss(&still, Some(&a), Some(&b)).unwrap();
    assert_eq!(scalar(&some.idm_loss.unwrap()), 7.5);
    let line = Tensor::new(&[[[0f32, 0.0], [1.0, 0.0], [3.0, 0.0]]], &device).unwrap();
    assert!((scalar(&temporal_straightening_loss(&line).unwrap()) + 1.0).abs() < 1e-6);
    assert!(temporal_straightening_loss(&line.narrow(1, 0, 2).unwrap()).is_err());
}

#[test]
fn broken_weights_are_refused() {
    let mut weights = LeWmLossWeights::default();
    assert!(weights.validate().is_ok());
    weights.std = double(f64::NAN);
    assert!(weights.validate().is_err());
    let model = tiny_model();
    let pixels = randn(&[2, 3, 3, 28, 28]);
    let actions = randn(&[2, 3, 2]);
    assert!(batch_loss(&model, &pixels, &actions, weights).is_err());
}

#[test]
fn predictions_depend_on_the_actions() {
    let model = tiny_model();
    let emb = randn(&[1, 3, 32]);
    let a = model.predict(&emb, &randn(&[1, 3, 2])).unwrap();
    let b = model.predict(&emb, &randn(&[1, 3, 2])).unwrap();
    assert_eq!(a.dims(), &[1, 3, 32]);
    let zero_start = a.to_vec3::<f32>().unwrap() == b.to_vec3::<f32>().unwrap();
    assert!(!zero_start);
    assert_eq!(model.encode_pixels(&randn(&[1, 2, 3, 28, 28])).unwrap().dims(), &[1, 2, 32]);
    assert_eq!(model.encode_actions(&randn(&[1, 2, 2])).unwrap().dims(), &[1, 2, 32]);
}

#[test]
fn losses_of_integers_are_refused() {
    let whole = Tensor::zeros((2, 3, 4), DType::U32, &Device::Cpu).unwrap();
    assert!(vc_reg(&whole).is_err());
    assert!(pldm_loss(&whole, None, None).is_err());
    assert!(temporal_straightening_loss(&whole).is_err());
    let model = tiny_model();
    let there = Tensor::zeros((1, 2, 1, 32), DType::U32, &Device::Cpu).unwrap();
    let goal = Tensor::zeros((1, 1, 32), DType::U32, &Device::Cpu).unwrap();
    assert!(model.goal_cost(&there, &goal).is_err());
}

#[test]
fn costs_are_those_of_the_rolled_out_future() {
    let model = tiny_model();
    let init = randn(&[1, 2, 1, 32]);
    let actions = randn(&[1, 2, 3, 2]);
    let goal = randn(&[1, 1, 32]);
    let rolled = model.rollout_embeddings(&init, &actions).unwrap();
    let expected = model.goal_cost(&rolled, &goal).unwrap().to_vec2::<f32>().unwrap();
    let cost = model.cost_to_goal(&init, &goal, &actions).unwrap();
    assert_eq!(cost.to_vec2::<f32>().unwrap(), expected);
    assert!(model.cost_to_goal(&init, &goal, &randn(&[1, 3, 3, 2])).is_err());
}

#[test]
fn targets_stay_out_of_the_gradient() {
    let device = Device::Cpu;
    let varmap = VarMap::new();
    let store = ParameterStore::from_varmap(&varmap, DType::F32, &device);
    let model = LeWm::new(tiny_training_config(), &store).unwrap();
    let pixels = randn(&[2, 3, 3, 28, 28]);
    let actions = randn(&[2, 3, 2]);
    let loss = batch_loss(&model, &pixels, &actions, LeWmLossWeights::default())
        .unwrap()
        .prediction_loss;
    let emb = model.encode_pixels(&pixels).unwrap();
    let pred = model.predict(&emb, &actions).unwrap();
    let guess = pred.narrow(1, 0, 2).unwrap();
    let truth = emb.narrow(1, 1, 2).unwrap();
    let error = |truth: &Tensor| (&guess - truth).unwrap().sqr().unwrap().mean_all().unwrap();
    let vars = varmap.all_vars();
    let gradients = |loss: &Tensor| {
        let store = loss.backward().unwrap();
        vars.iter().map(|v| store.get(v.as_tensor()).cloned()).collect::<Vec<_>>()
    };
    let size = |t: &Tensor| t.abs().unwrap().max_all().unwrap().to_scalar::<f32>().unwrap();
    let far = |a: &[Option<Tensor>], b: &[Option<Tensor>]| {
        a.iter()
            .zip(b.iter())
            .map(|pair| match pair {
                (Some(x), Some(y)) => size(&(x - y).unwrap()),
                (Some(x), None) | (None, Some(x)) => size(x),
                (None, None) => 0.0,
            })
            .fold(0f32, f32::max)
    };
    let fixed = gradients(&error(&truth.detach()));
    let moving = gradients(&error(&truth));
    assert!(far(&fixed, &moving) > 0.0);
    assert!(far(&gradients(&loss), &fixed) * 100.0 < far(&fixed, &moving));
}
