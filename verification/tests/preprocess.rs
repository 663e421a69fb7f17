use candle_core::{DType, Device};
use stable_worldmodel::preprocess::{
    preprocess_actions, preprocess_latest_rgb_frame_u8, preprocess_rgb_frames_u8,
    preprocess_states, ImagePreprocess, RgbFrameShape,
};
use stable_worldmodel::scalar::F32;

fn device() -> Device {
    Device::Cpu
}

fn num(x: f32) -> F32 {
    F32::from_bits(x.to_bits())
}

fn nums(xs: &[f32]) -> Vec<F32> {
    xs.iter().map(|x| num(*x)).collect()
}

fn plain(image_size: usize) -> ImagePreprocess {
    ImagePreprocess {
        image_size,
        mean: [num(0.0), num(0.0), num(0.0)],
        std: [num(1.0), num(1.0), num(1.0)],
    }
}

fn frame(batch: usize, time: usize, height: usize, width: usize) -> RgbFrameShape {
    RgbFrameShape { batch, time, height, width }
}

#[test]
fn preprocesses_rgb_frames_to_batched_ncthw_tensor() {
    let frames = [255u8, 0, 127];
    let tensor =
        preprocess_rgb_frames_u8(&frames, frame(1, 1, 1, 1), plain(1), DType::F32, &device())
            .unwrap();

    assert_eq!(tensor.shape().dims(), &[1, 1, 3, 1, 1]);
    let values = tensor.flatten_all().unwrap().to_vec1::<f32>().unwrap();
    assert_eq!(values[0], 1.0);
    assert_eq!(values[1], 0.0);
    assert!((values[2] - (127.0 / 255.0)).abs() < 1e-6);
}

#[test]
fn resizes_rgb_frames_with_nearest_neighbor() {
    let frames = [
        10u8, 20, 30, 40, 50, 60, //
        70, 80, 90, 100, 110, 120,
    ];
    let tensor =
        preprocess_rgb_frames_u8(&frames, frame(1, 1, 2, 2), plain(1), DType::F32, &device())
            .unwrap();

    let values = tensor.flatten_all().unwrap().to_vec1::<f32>().unwrap();
    assert!((values[0] - (10.0 / 255.0)).abs() < 1e-6);
    assert!((values[1] - (20.0 / 255.0)).abs() < 1e-6);
    assert!((values[2] - (30.0 / 255.0)).abs() < 1e-6);
}

#[test]
fn extracts_latest_rgb_frame_for_pixel_models() {
    let frames = [1u8, 2, 3, 10, 20, 30];
    let tensor =
        preprocess_latest_rgb_frame_u8(&frames, frame(1, 2, 1, 1), plain(1), DType::F32, &device())
            .unwrap();

    assert_eq!(tensor.shape().dims(), &[1, 3, 1, 1]);
    let values = tensor.flatten_all().unwrap().to_vec1::<f32>().unwrap();
    assert_eq!(values, vec![10.0 / 255.0, 20.0 / 255.0, 30.0 / 255.0]);
}

#[test]
fn preprocesses_states_with_optional_normalization() {
    let tensor = preprocess_states(
        &nums(&[2.0, 4.0, 8.0, 16.0]),
        2,
        2,
        Some(&nums(&[1.0, 2.0])),
        Some(&nums(&[1.0, 2.0])),
        DType::F32,
        &device(),
    )
    .unwrap();

    assert_eq!(tensor.shape().dims(), &[2, 2]);
    assert_eq!(
        tensor.flatten_all().unwrap().to_vec1::<f32>().unwrap(),
        vec![1.0, 1.0, 7.0, 7.0]
    );
}

#[test]
fn rejects_state_normalization_with_wrong_dim() {
    let err = preprocess_states(
        &nums(&[1.0, 2.0]),
        1,
        2,
        Some(&nums(&[0.0])),
        None,
        DType::F32,
        &device(),
    )
    .unwrap_err();

    assert!(err.message().contains("state mean length"));
}

#[test]
fn rejects_wrong_rgb_buffer_length() {
    let err = preprocess_rgb_frames_u8(
        &[0u8; 2],
        frame(1, 1, 1, 1),
        ImagePreprocess::imagenet_224(),
        DType::F32,
        &device(),
    )
    .unwrap_err();

    assert!(err.message().contains("expected 3"));
}

#[test]
fn clamps_actions_to_bounds() {
    let tensor = preprocess_actions(
        &nums(&[-2.0, 0.5, 3.0, 4.0]),
        1,
        2,
        2,
        &nums(&[-1.0, 0.0]),
        &nums(&[1.0, 2.0]),
        DType::F32,
        &device(),
    )
    .unwrap();

    assert_eq!(tensor.shape().dims(), &[1, 2, 2]);
    assert_eq!(
        tensor.flatten_all().unwrap().to_vec1::<f32>().unwrap(),
        vec![-1.0, 0.5, 1.0, 2.0]
    );
}

#[test]
fn rejects_action_bounds_with_wrong_dim() {
    let err = preprocess_actions(
        &nums(&[0.0, 1.0]),
        1,
        1,
        2,
        &nums(&[0.0]),
        &nums(&[1.0, 1.0]),
        DType::F32,
        &device(),
    )
    .unwrap_err();

    assert!(err.message().contains("action bounds"));
}

#[test]
fn enlarged_frames_repeat_their_pixels() {
    let frames = [51u8, 0, 0, 102, 0, 0];
    let tensor =
        preprocess_rgb_frames_u8(&frames, frame(1, 1, 1, 2), plain(4), DType::F32, &device())
            .unwrap();
    assert_eq!(tensor.dims(), &[1, 1, 3, 4, 4]);
    let values = tensor.flatten_all().unwrap().to_vec1::<f32>().unwrap();
    assert_eq!(&values[0..4], &[0.2, 0.2, 0.4, 0.4]);
    assert_eq!(&values[12..16], &[0.2, 0.2, 0.4, 0.4]);
    assert!(values[16..].iter().all(|x| *x == 0.0));
}

#[test]
fn frames_are_normalized_per_channel() {
    let config = ImagePreprocess {
        image_size: 1,
        mean: [num(0.5), num(0.0), num(1.0)],
        std: [num(0.5), num(2.0), num(0.25)],
    };
    let tensor =
        preprocess_rgb_frames_u8(&[255, 255, 0], frame(1, 1, 1, 1), config, DType::F32, &device())
            .unwrap();
    let values = tensor.flatten_all().unwrap().to_vec1::<f32>().unwrap();
    assert_eq!(values, vec![1.0, 0.5, -4.0]);
}

#[test]
fn broken_image_settings_are_refused() {
    assert!(plain(1).validate().is_ok());
    assert!(plain(0).validate().is_err());
    let mut flat = plain(1);
    flat.std[1] = num(0.0);
    assert!(flat.validate().is_err());
    let mut lost = plain(1);
    lost.mean[2] = num(f32::NAN);
    let refused = preprocess_rgb_frames_u8(&[1, 2, 3], frame(1, 1, 1, 1), lost, DType::F32, &device());
    assert_eq!(refused.is_err(), lost.validate().is_err());
    assert!(frame(0, 1, 1, 1).validate().is_err());
    assert_eq!(frame(2, 3, 4, 5).input_len(), Some(360));
    assert_eq!(frame(usize::MAX, 2, 1, 1).input_len(), None);
}

#[test]
fn states_are_rounded_to_the_element_type() {
    let tensor =
        preprocess_states(&nums(&[1.0, 2.5]), 1, 2, None, None, DType::F16, &device()).unwrap();
    assert_eq!(tensor.dtype(), DType::F16);
    let back = tensor.to_dtype(DType::F32).unwrap().flatten_all().unwrap();
    assert_eq!(back.to_vec1::<f32>().unwrap(), vec![1.0, 2.5]);
}

#[test]
fn crossed_action_bounds_are_refused() {
    let err = preprocess_actions(
        &nums(&[0.0]),
        1,
        1,
        1,
        &nums(&[1.0]),
        &nums(&[-1.0]),
        DType::F32,
        &device(),
    );
    assert!(err.is_err());
}
