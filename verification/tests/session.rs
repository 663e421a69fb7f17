use candle_core::{DType, Device, Tensor};
use stable_worldmodel::checkpoint::empty_var_builder;
use stable_worldmodel::models::lewm::{LeWm, LeWmConfig};
use stable_worldmodel::models::tdmpc2::{TdMpc2, TdMpc2Config};
use stable_worldmodel::session::{LeWmSession, TdMpc2Session};

#[test]
fn tdmpc2_session_scores_candidates_after_reset() {
    let device = Device::Cpu;
    let dtype = DType::F32;
    let model = TdMpc2::new(TdMpc2Config::state_only(12, 4), &empty_var_builder(dtype, &device)).unwrap();
    let mut session = TdMpc2Session::new(model, device.clone(), dtype);

    let state = Tensor::randn(0f32, 1f32, (2, 12), &device).unwrap();
    let z = session.reset_state(&state).unwrap();
    assert_eq!(z.shape().dims(), &[2, 128]);
    assert!(session.cached_latent().is_some());

    let action = session.actor_mean_action().unwrap();
    assert_eq!(action.shape().dims(), &[2, 4]);

    let zero_noise = Tensor::zeros((2, 4), dtype, &device).unwrap();
    let sampled_action = session.actor_sample_action(&zero_noise).unwrap();
    assert_eq!(sampled_action.shape().dims(), &[2, 4]);

    let (policy_actions, rewards, final_z) = session.rollout_actor_mean(3).unwrap();
    assert_eq!(policy_actions.shape().dims(), &[2, 3, 4]);
    assert_eq!(rewards.shape().dims(), &[2, 3, 1]);
    assert_eq!(final_z.shape().dims(), &[2, 128]);

    let rollout_noise = Tensor::randn(0f32, 1f32, (3, 2, 3, 4), &device).unwrap();
    let sampled_rollout = session.rollout_actor_sampled_with_noise(&rollout_noise).unwrap();
    assert_eq!(sampled_rollout.shape().dims(), &[2, 3, 4]);

    let generated_rollout = session.rollout_actor_sampled(3, 3).unwrap();
    assert_eq!(generated_rollout.shape().dims(), &[2, 3, 4]);

    let candidates = Tensor::randn(0f32, 1f32, (2, 5, 3, 4), &device).unwrap();
    let cost = session.score_candidates(&candidates).unwrap();
    assert_eq!(cost.shape().dims(), &[2, 5]);
}

#[test]
fn tdmpc2_session_requires_reset_before_scoring() {
    let device = Device::Cpu;
    let dtype = DType::F32;
    let model = TdMpc2::new(TdMpc2Config::state_only(12, 4), &empty_var_builder(dtype, &device)).unwrap();
    let session = TdMpc2Session::new(model, device.clone(), dtype);

    let candidates = Tensor::randn(0f32, 1f32, (2, 5, 3, 4), &device).unwrap();
    let err = session.score_candidates(&candidates).unwrap_err();

    assert!(err.message().contains("must be reset"));
}

#[test]
fn tdmpc2_session_scores_pixel_candidates_after_reset() {
    let device = Device::Cpu;
    let dtype = DType::F32;
    let model = TdMpc2::new(
        TdMpc2Config::pixel_only(64, 4, 128),
        &empty_var_builder(dtype, &device),
    )
    .unwrap();
    let mut session = TdMpc2Session::new(model, device.clone(), dtype);

    let pixels = Tensor::randn(0f32, 1f32, (2, 3, 64, 64), &device).unwrap();
    let z = session.reset_pixels(&pixels).unwrap();
    assert_eq!(z.shape().dims(), &[2, 128]);

    let candidates = Tensor::randn(0f32, 1f32, (2, 5, 3, 4), &device).unwrap();
    let cost = session.score_candidates(&candidates).unwrap();
    assert_eq!(cost.shape().dims(), &[2, 5]);
}

#[test]
fn lewm_session_scores_with_cached_input_history() {
    let device = Device::Cpu;
    let dtype = DType::F32;
    let mut cfg = LeWmConfig::tiny_patch14_224(2);
    assert_eq!(cfg.history_size, 3);
    // The host encodes 224-pixel frames slowly, so the encoder is shallow here.
    cfg.encoder.num_hidden_layers = 2;
    let model = LeWm::new(cfg, &empty_var_builder(dtype, &device)).unwrap();
    let direct_model = model.clone();
    let mut session = LeWmSession::new(model, device.clone(), dtype);

    let pixels = Tensor::randn(0f32, 1f32, (1, 1, 3, 224, 224), &device).unwrap();
    let goal_pixels = Tensor::randn(0f32, 1f32, (1, 1, 3, 224, 224), &device).unwrap();
    let actions = Tensor::randn(0f32, 1f32, (1, 2, 5, 2), &device).unwrap();

    let emb = session.reset_pixels(&pixels).unwrap();
    let goal_emb = session.encode_pixels(&goal_pixels).unwrap();
    let session_cost = session.score_candidates(&actions, &goal_emb).unwrap();

    let emb_init = emb
        .unsqueeze(1)
        .unwrap()
        .broadcast_as((1, 2, 1, emb.dim(2).unwrap()))
        .unwrap();
    let rollout = direct_model
        .rollout_embeddings_with_history(&emb_init, &actions, 1)
        .unwrap();
    let direct_cost = direct_model.goal_cost(&rollout, &goal_emb).unwrap();
    let max_abs = (session_cost - direct_cost)
        .unwrap()
        .abs()
        .unwrap()
        .max_all()
        .unwrap()
        .to_scalar::<f32>()
        .unwrap();

    assert!(max_abs <= 1e-6, "max abs diff {max_abs}");
}

#[test]
fn a_step_that_cannot_be_encoded_leaves_the_one_before() {
    let device = Device::Cpu;
    let dtype = DType::F32;
    let model = TdMpc2::new(TdMpc2Config::state_only(12, 4), &empty_var_builder(dtype, &device)).unwrap();
    let mut session = TdMpc2Session::new(model, device.clone(), dtype);
    let state = Tensor::randn(0f32, 1f32, (2, 12), &device).unwrap();
    session.reset_state(&state).unwrap();
    let before = session.cached_latent().unwrap().id();
    assert!(session.reset_pixels(&state).is_err());
    let wrong = Tensor::randn(0f32, 1f32, (2, 5), &device).unwrap();
    assert!(session.reset_state(&wrong).is_err());
    assert_eq!(session.cached_latent().unwrap().id(), before);
}

#[test]
fn sessions_say_what_they_need() {
    let device = Device::Cpu;
    let dtype = DType::F32;
    let model = TdMpc2::new(TdMpc2Config::state_only(12, 4), &empty_var_builder(dtype, &device)).unwrap();
    let mut session = TdMpc2Session::new(model, device.clone(), dtype);
    assert_eq!(
        session.actor_mean_action().unwrap_err().message(),
        "TdMpc2Session must be reset before actor action"
    );
    assert_eq!(
        session.rollout_actor_mean(3).unwrap_err().message(),
        "TdMpc2Session must be reset before actor rollout"
    );
    let state = Tensor::randn(0f32, 1f32, (1, 12), &device).unwrap();
    session.reset_state(&state).unwrap();
    assert_eq!(
        session.rollout_actor_mean(0).unwrap_err().message(),
        "TD-MPC2 actor rollout horizon must be greater than zero"
    );
    assert_eq!(
        session.rollout_actor_sampled(0, 1).unwrap_err().message(),
        "TD-MPC2 sampled actor rollout horizon must be greater than zero"
    );
    assert_eq!(
        session.rollout_actor_sampled(1, 0).unwrap_err().message(),
        "TD-MPC2 sampled actor rollout requires at least one trajectory"
    );
}
