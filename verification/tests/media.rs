use candle_core::{DType, Device, Tensor};
use stable_worldmodel::media::launch::{
    nv12_launch, packed_launch, MediaOutputLayout, PlaneView,
};
use stable_worldmodel::media::nvjpeg::{
    alloc_rgb_interleaved, check_nvjpeg, decode_pitch, image_info, require_encoded,
    require_preprocessor_shape, status_name, validate_info, validate_rgb_output, JpegAnswer,
    NvJpegImageInfo,
};
use stable_worldmodel::media::tensors::{validate_input_tensor, validate_nv12_tensors};
use stable_worldmodel::media::{
    nv12_tensors, packed_u8_tensor, ImageHistoryPreprocessor, ImagePreprocess, ImagePreprocessor,
    Nv12ColorSpace, Nv12HistoryPreprocessor, Nv12ImageShape, Nv12Preprocessor, PackedImageFormat,
    PackedImageShape,
};
use stable_worldmodel::scalar::F32;
use stable_worldmodel::tensor::value::ElementType;

fn num(x: f32) -> F32 {
    F32::from_bits(x.to_bits())
}

fn config(height: usize, width: usize) -> ImagePreprocess {
    ImagePreprocess {
        output_height: height,
        output_width: width,
        mean: [num(0.0), num(0.0), num(0.0)],
        std: [num(1.0), num(1.0), num(1.0)],
    }
}

fn view(element: ElementType, dims: &[usize]) -> PlaneView {
    PlaneView { element, dims: dims.to_vec(), contiguous: true }
}

#[test]
fn formats_and_color_spaces_have_numbers() {
    for format in [
        PackedImageFormat::Rgb,
        PackedImageFormat::Bgr,
        PackedImageFormat::Rgba,
        PackedImageFormat::Bgra,
    ] {
        assert_eq!(PackedImageFormat::try_from(format.kernel_id()).unwrap(), format);
    }
    assert_eq!(PackedImageFormat::Rgb.channels(), 3);
    assert_eq!(PackedImageFormat::Bgra.channels(), 4);
    assert!(PackedImageFormat::try_from(4).is_err());
    for space in [
        Nv12ColorSpace::Bt601Video,
        Nv12ColorSpace::Bt709Video,
        Nv12ColorSpace::Bt601Full,
        Nv12ColorSpace::Bt709Full,
    ] {
        assert_eq!(Nv12ColorSpace::try_from(space.kernel_id()).unwrap(), space);
    }
    assert!(Nv12ColorSpace::try_from(4).is_err());
}

#[test]
fn shapes_count_their_bytes() {
    let shape = PackedImageShape::new(2, 3, 5, PackedImageFormat::Rgba);
    assert_eq!(shape.channels(), 4);
    assert_eq!(shape.elem_count(), 120);
    assert_eq!(shape.checked_elem_count(), Some(120));
    assert!(shape.validate().is_ok());
    let wide = PackedImageShape::new(usize::MAX, 2, 1, PackedImageFormat::Rgb);
    assert_eq!(wide.checked_elem_count(), None);
    assert!(PackedImageShape::new(0, 1, 1, PackedImageFormat::Rgb).validate().is_err());
    assert!(Nv12ImageShape::new(1, 2, 2).validate().is_ok());
    assert!(Nv12ImageShape::new(1, 3, 2).validate().is_err());
    assert!(Nv12ImageShape::new(1, 2, 3).validate().is_err());
    assert!(config(0, 1).validate().is_err());
    assert!(ImagePreprocess::imagenet_224().validate().is_ok());
    assert_eq!(ImagePreprocess::imagenet_224().output_height, 224);
}

#[test]
fn images_are_prepared_on_cuda_only() {
    let device = Device::Cpu;
    let packed = PackedImageShape::new(1, 2, 2, PackedImageFormat::Rgb);
    let planes = Nv12ImageShape::new(1, 2, 2);
    let full = Nv12ColorSpace::Bt601Full;
    assert!(ImagePreprocessor::new(&device, packed, config(2, 2)).is_err());
    assert!(ImageHistoryPreprocessor::new(&device, packed, 3, config(2, 2)).is_err());
    assert!(Nv12Preprocessor::new(&device, planes, full, config(2, 2)).is_err());
    assert!(Nv12HistoryPreprocessor::new(&device, planes, full, 3, config(2, 2)).is_err());
    assert!(packed_u8_tensor(packed, &device).is_err());
    assert!(nv12_tensors(planes, &device).is_err());
}

#[test]
fn tensors_are_held_to_their_shapes() {
    let device = Device::Cpu;
    let shape = PackedImageShape::new(1, 2, 2, PackedImageFormat::Rgb);
    let right = Tensor::zeros((1, 2, 2, 3), DType::U8, &device).unwrap();
    let wrong = Tensor::zeros((1, 2, 2, 4), DType::U8, &device).unwrap();
    let floats = Tensor::zeros((1, 2, 2, 3), DType::F32, &device).unwrap();
    assert!(validate_input_tensor(&right, shape).is_err());
    assert!(validate_input_tensor(&wrong, shape).is_err());
    assert!(validate_input_tensor(&floats, shape).is_err());
    let y = Tensor::zeros((1, 2, 2), DType::U8, &device).unwrap();
    let uv = Tensor::zeros((1, 1, 1, 2), DType::U8, &device).unwrap();
    assert!(validate_nv12_tensors(&y, &uv, Nv12ImageShape::new(1, 2, 2)).is_err());
}

#[test]
fn packed_kernels_are_launched_over_every_pixel() {
    let shape = PackedImageShape::new(2, 4, 6, PackedImageFormat::Bgra);
    let input = view(ElementType::U8, &[2, 4, 6, 4]);
    let output = view(ElementType::F32, &[2, 3, 8, 10]);
    let launch =
        packed_launch(&output, &input, &shape, &config(8, 10), MediaOutputLayout::Latest).unwrap();
    assert_eq!(launch.items, 2 * 3 * 8 * 10);
    assert_eq!((launch.batch, launch.in_h, launch.in_w, launch.channels), (2, 4, 6, 4));
    assert_eq!((launch.out_h, launch.out_w), (8, 10));
    assert_eq!(launch.encoding, PackedImageFormat::Bgra.kernel_id());
    assert_eq!((launch.history_len, launch.history_slot), (0, 0));
    let slot = MediaOutputLayout::History { history_len: 3, history_slot: 1 };
    assert!(packed_launch(&output, &input, &shape, &config(8, 10), slot).is_err());
    let history = view(ElementType::F32, &[2, 3, 3, 8, 10]);
    let launch = packed_launch(&history, &input, &shape, &config(8, 10), slot).unwrap();
    assert_eq!((launch.history_len, launch.history_slot), (3, 1));
    let mut strided = input;
    strided.contiguous = false;
    assert!(packed_launch(&output, &strided, &shape, &config(8, 10), MediaOutputLayout::Latest).is_err());
}

#[test]
fn nv12_kernels_read_both_planes() {
    let shape = Nv12ImageShape::new(1, 4, 6);
    let y = view(ElementType::U8, &[1, 4, 6]);
    let uv = view(ElementType::U8, &[1, 2, 3, 2]);
    let output = view(ElementType::F32, &[1, 3, 2, 2]);
    let space = Nv12ColorSpace::Bt709Video;
    let latest = MediaOutputLayout::Latest;
    let launch = nv12_launch(&output, &y, &uv, &shape, space, &config(2, 2), latest).unwrap();
    assert_eq!(launch.items, 4);
    assert_eq!(launch.encoding, space.kernel_id());
    assert!(nv12_launch(&output, &y, &y, &shape, space, &config(2, 2), latest).is_err());
    assert!(nv12_launch(&output, &uv, &uv, &shape, space, &config(2, 2), latest).is_err());
}

fn picture(width: i32, height: i32) -> JpegAnswer {
    JpegAnswer { status: 0, components: 3, subsampling: 2, width, height }
}

#[test]
fn pictures_say_their_size() {
    let info = image_info(picture(5, 4)).unwrap();
    assert_eq!((info.width, info.height, info.components, info.subsampling), (5, 4, 3, 2));
    assert_eq!(info.packed_rgb_shape(), PackedImageShape::new(1, 4, 5, PackedImageFormat::Rgb));
    assert_eq!(info.pitch(), Some(15));
    assert!(image_info(picture(0, 4)).is_err());
    assert!(image_info(picture(5, -1)).is_err());
    let mut failed = picture(5, 4);
    failed.status = 3;
    assert!(image_info(failed).is_err());
    assert!(require_encoded(&[]).is_err());
    assert!(require_encoded(&[1]).is_ok());
    assert!(check_nvjpeg(0, "decode").is_ok());
    assert!(check_nvjpeg(2, "decode").unwrap_err().message().contains(status_name(2)));
}

#[test]
fn pictures_are_decoded_into_matching_tensors() {
    let device = Device::Cpu;
    let info = NvJpegImageInfo { width: 5, height: 4, components: 3, subsampling: 0 };
    assert!(validate_info(info).is_ok());
    let room = Tensor::zeros((1, 4, 5, 3), DType::U8, &device).unwrap();
    assert!(validate_rgb_output(&room, info).is_err());
    assert_eq!(alloc_rgb_interleaved(info, &device).unwrap().dims(), &[1, 4, 5, 3]);
    let plane = view(ElementType::U8, &[1, 4, 5, 3]);
    assert_eq!(decode_pitch(&plane, info).unwrap(), 15);
    let shape = PackedImageShape::new(1, 4, 5, PackedImageFormat::Rgb);
    assert!(require_preprocessor_shape(info, shape).is_ok());
    let other = PackedImageShape::new(1, 5, 4, PackedImageFormat::Rgb);
    assert!(require_preprocessor_shape(info, other).is_err());
}
