use candle_core::{DType, Device, Tensor};
use candle_nn::VarMap;
use stable_worldmodel::models::tdmpc2::bins::{bin_values, symexp, two_hot_inv};
use stable_worldmodel::models::tdmpc2::pixels::{cnn_out_dim, conv_out_size, pixels_to_nchw};
use stable_worldmodel::models::tdmpc2::{EncodingConfig, SimNorm, TdMpc2, TdMpc2Config};
use stable_worldmodel::scalar::F64;
use stable_worldmodel::tensor::layers::ParameterStore;

fn build(cfg: TdMpc2Config) -> TdMpc2 {
    let device = Device::Cpu;
    let vars = VarMap::new();
    let vb = ParameterStore::from_varmap(&vars, DType::F32, &device);
    TdMpc2::new(cfg, &vb).unwrap()
}

fn model(state_dim: usize, action_dim: usize) -> TdMpc2 {
    build(TdMpc2Config::state_only(state_dim, action_dim))
}

fn model_pixels(image_size: usize, action_dim: usize, pixel_dim: usize) -> TdMpc2 {
    build(TdMpc2Config::pixel_only(image_size, action_dim, pixel_dim))
}

fn randn(shape: &[usize]) -> Tensor {
    Tensor::randn(0f32, 1f32, shape, &Device::Cpu).unwrap()
}

fn double(x: f64) -> F64 {
    F64::from_bits(x.to_bits())
}

#[test]
fn encodes_state_observations() {
    let model = model(12, 4);
    let state = randn(&[2, 12]);

    let z = model.encode_state(&state).unwrap();

    assert_eq!(z.dims(), &[2, 128]);
}

#[test]
fn forward_predicts_next_latent_and_reward_logits() {
    let model = model(12, 4);
    let z = randn(&[2, 128]);
    let action = randn(&[2, 4]);

    let (next_z, reward_logits) = model.forward(&z, &action).unwrap();

    assert_eq!(next_z.dims(), &[2, 128]);
    assert_eq!(reward_logits.dims(), &[2, 101]);
}

#[test]
fn scores_action_candidates_from_state_batch() {
    let model = model(12, 4);
    let state = randn(&[2, 12]);
    let actions = randn(&[2, 5, 3, 4]);

    let cost = model.get_cost_state(&state, &actions).unwrap();

    assert_eq!(cost.dims(), &[2, 5]);
    for row in cost.to_vec2::<f32>().unwrap() {
        for value in row {
            assert!(value.is_finite());
        }
    }
}

#[test]
fn scores_action_candidates_from_expanded_state_batch() {
    let model = model(12, 4);
    let state = randn(&[2, 5, 12]);
    let actions = randn(&[2, 5, 3, 4]);

    let cost = model.get_cost_state(&state, &actions).unwrap();

    assert_eq!(cost.dims(), &[2, 5]);
}

#[test]
fn encodes_pixel_observations_from_nchw_and_nhwc() {
    let model = model_pixels(64, 4, 128);
    let nchw = randn(&[2, 3, 64, 64]);
    let nhwc = randn(&[2, 64, 64, 3]);

    let z_nchw = model.encode_pixels(&nchw).unwrap();
    let z_nhwc = model.encode_pixels(&nhwc).unwrap();

    assert_eq!(z_nchw.dims(), &[2, 128]);
    assert_eq!(z_nhwc.dims(), &[2, 128]);
}

#[test]
fn scores_action_candidates_from_pixel_batch() {
    let model = model_pixels(64, 4, 128);
    let pixels = randn(&[2, 3, 64, 64]);
    let actions = randn(&[2, 5, 3, 4]);

    let cost = model.get_cost(&[("pixels", &pixels)], &actions).unwrap();

    assert_eq!(cost.dims(), &[2, 5]);
}

#[test]
fn encodes_combined_pixel_and_state_observations() {
    let mut cfg = TdMpc2Config::pixel_only(64, 4, 128);
    cfg.encodings.push(EncodingConfig::new("state", 12, 128));
    let model = build(cfg);
    let pixels = randn(&[2, 3, 64, 64]);
    let state = randn(&[2, 12]);

    let z = model.encode(&[("pixels", &pixels), ("state", &state)]).unwrap();

    assert_eq!(z.dims(), &[2, 256]);
}

#[test]
fn latents_of_simplices_add_up_to_one() {
    let xs = randn(&[3, 16]);
    let ys = SimNorm::new(8).forward(&xs).unwrap();
    assert_eq!(ys.dims(), &[3, 16]);
    let sums = ys.reshape((3, 2, 8)).unwrap().sum(2).unwrap().flatten_all().unwrap();
    for sum in sums.to_vec1::<f32>().unwrap() {
        assert!((sum - 1.0).abs() < 1e-5);
    }
    assert!(SimNorm::new(5).forward(&xs).is_err());
    assert!(SimNorm::new(0).forward(&xs).is_err());
}

#[test]
fn bins_span_the_range_evenly() {
    let bins = bin_values(double(-10.0), double(10.0), 5).unwrap();
    assert_eq!(
        bins.flatten_all().unwrap().to_vec1::<f32>().unwrap(),
        vec![-10.0, -5.0, 0.0, 5.0, 10.0]
    );
}

#[test]
fn symexp_undoes_the_signed_logarithm() {
    let xs = Tensor::new(&[0f32, 1.0, -1.0], &Device::Cpu).unwrap();
    let ys = symexp(&xs).unwrap().to_vec1::<f32>().unwrap();
    let e = std::f32::consts::E - 1.0;
    assert_eq!(ys[0], 0.0);
    assert!((ys[1] - e).abs() < 1e-5);
    assert!((ys[2] + e).abs() < 1e-5);
}

#[test]
fn one_certain_bin_gives_its_value() {
    let logits = Tensor::new(&[[-1000f32, 1000.0, -1000.0]], &Device::Cpu).unwrap();
    let value = two_hot_inv(&logits, double(-10.0), double(10.0), 3).unwrap();
    assert_eq!(value.dims(), &[1, 1]);
    assert_eq!(value.flatten_all().unwrap().to_vec1::<f32>().unwrap(), vec![0.0]);
}

#[test]
fn convolutions_shrink_images() {
    assert_eq!(conv_out_size(64, 7, 2).unwrap(), 29);
    assert_eq!(cnn_out_dim(64).unwrap(), 32 * 4 * 4);
    assert!(conv_out_size(3, 7, 2).is_err());
    assert!(cnn_out_dim(10).is_err());
}

#[test]
fn channels_last_images_are_turned() {
    let nhwc = Tensor::arange(0f32, 12f32, &Device::Cpu).unwrap().reshape((1, 2, 2, 3)).unwrap();
    let nchw = pixels_to_nchw(&nhwc, 2).unwrap();
    assert_eq!(nchw.dims(), &[1, 3, 2, 2]);
    assert_eq!(
        nchw.flatten_all().unwrap().to_vec1::<f32>().unwrap(),
        vec![0.0, 3.0, 6.0, 9.0, 1.0, 4.0, 7.0, 10.0, 2.0, 5.0, 8.0, 11.0]
    );
    assert!(pixels_to_nchw(&nhwc, 5).is_err());
}

#[test]
fn sampled_actions_without_noise_are_mean_actions() {
    let model = model(12, 4);
    let z = randn(&[2, 128]);
    let mean = model.actor_mean_action(&z).unwrap().to_vec2::<f32>().unwrap();
    let zero = Tensor::zeros((2, 4), DType::F32, &Device::Cpu).unwrap();
    let drawn = model.actor_sample_action(&z, &zero).unwrap().to_vec2::<f32>().unwrap();
    for (a, b) in mean.iter().flatten().zip(drawn.iter().flatten()) {
        assert!((a - b).abs() < 1e-6);
        assert!(a.abs() <= 1.0);
    }
}

#[test]
fn missing_observations_are_named() {
    let model = model(12, 4);
    let pixels = randn(&[2, 3, 8, 8]);
    assert!(model.encode(&[("pixels", &pixels)]).unwrap_err().message().contains("state"));
    assert!(model.encode_pixels(&pixels).is_err());
}

#[test]
fn costs_change_with_the_actions() {
    let model = model(12, 4);
    let state = randn(&[1, 12]);
    let first = randn(&[1, 1, 3, 4]);
    let second = (&first * 3.0).unwrap();
    let both = Tensor::cat(&[&first, &second, &first], 1).unwrap();
    let cost = model.get_cost_state(&state, &both).unwrap().to_vec2::<f32>().unwrap();
    assert!((cost[0][0] - cost[0][2]).abs() < 1e-4);
    assert!(cost[0][0] != cost[0][1]);
}

#[test]
fn integers_are_not_computed_with() {
    let whole = Tensor::new(&[[1u32, 2, 3, 4]], &Device::Cpu).unwrap();
    assert!(SimNorm::new(2).forward(&whole).is_err());
    assert!(symexp(&whole).is_err());
    assert!(two_hot_inv(&whole, double(-1.0), double(1.0), 4).is_err());
}
