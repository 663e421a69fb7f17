use stable_worldmodel::media::nvdec::{
    caps_from_answer, caps_query, check_cuvid, plan_nv12, CapsAnswer, DecoderCall, DecoderHold,
    DecoderProgress, NvDecChromaFormat, NvDecCodec, NvDecDecoderConfig, NvDecSurfaceFormat,
};
use stable_worldmodel::tensor::value::Location;

#[test]
fn unsupported_codec_ids_are_rejected() {
    let err = NvDecCodec::try_from(99).unwrap_err();
    assert!(err.message().contains("unknown NVDECODE codec"));
}

#[test]
fn rejects_odd_nv12_decoder_dimensions() {
    let config = NvDecDecoderConfig::new(NvDecCodec::H264, 63, 64);
    let err = config.validate().unwrap_err();
    assert!(err.message().contains("NVDECODE NV12 decoder dimensions must be even"));
}

fn answer() -> CapsAnswer {
    CapsAnswer {
        is_supported: 1,
        num_nvdecs: 2,
        output_format_mask: 0b0101,
        max_width: 4096,
        max_height: 4096,
        max_mb_count: 65536,
        min_width: 48,
        min_height: 16,
        is_histogram_supported: 1,
        counter_bit_depth: 32,
        max_histogram_bins: 256,
    }
}

#[test]
fn codec_numbers_read_back() {
    let codecs = [NvDecCodec::H264, NvDecCodec::Hevc, NvDecCodec::Av1, NvDecCodec::Vp9];
    for (number, codec) in codecs.into_iter().enumerate() {
        assert_eq!(NvDecCodec::try_from(number as u32).unwrap(), codec);
    }
    assert_eq!(NvDecCodec::H264.raw(), 4);
    assert_eq!(NvDecCodec::H264.name(), "H.264");
    for format in [
        NvDecChromaFormat::Monochrome,
        NvDecChromaFormat::Yuv420,
        NvDecChromaFormat::Yuv422,
        NvDecChromaFormat::Yuv444,
    ] {
        assert_eq!(NvDecChromaFormat::try_from(format.raw()).unwrap(), format);
    }
    assert!(NvDecChromaFormat::try_from(9).is_err());
}

#[test]
fn capabilities_are_read_from_the_answer() {
    let caps =
        caps_from_answer(NvDecCodec::H264, NvDecChromaFormat::Yuv420, 0, 0, answer()).unwrap();
    assert!(caps.supported);
    assert_eq!(caps.nvdec_count, 2);
    assert_eq!(caps.min_width, 48);
    assert_eq!(caps.max_macroblock_count, 65536);
    assert!(caps.supports(NvDecSurfaceFormat::Nv12));
    assert!(!caps.supports(NvDecSurfaceFormat::P016));
    assert!(caps.supports(NvDecSurfaceFormat::Yuv444));
    assert!(!caps.supports(NvDecSurfaceFormat::Yuv44416Bit));
    assert!(caps_from_answer(NvDecCodec::H264, NvDecChromaFormat::Yuv420, 0, 3, answer()).is_err());
    assert!(check_cuvid(0, "call").is_ok());
    assert!(check_cuvid(1, "call").unwrap_err().message().contains("call"));
}

#[test]
fn capabilities_are_asked_of_a_cuda_device() {
    let asked =
        caps_query(Location::Cuda(0), NvDecCodec::Hevc, NvDecChromaFormat::Yuv420, 2).unwrap();
    assert_eq!(asked.codec_type, NvDecCodec::Hevc.raw());
    assert_eq!(asked.chroma_format, 1);
    assert_eq!(asked.bit_depth_minus_8, 2);
    assert!(caps_query(Location::Cpu, NvDecCodec::Hevc, NvDecChromaFormat::Yuv420, 2).is_err());
}

#[test]
fn plans_name_the_whole_frame() {
    let caps =
        caps_from_answer(NvDecCodec::H264, NvDecChromaFormat::Yuv420, 0, 0, answer()).unwrap();
    let plan = plan_nv12(NvDecDecoderConfig::new(NvDecCodec::H264, 64, 32), caps).unwrap();
    assert_eq!(plan.width, 64);
    assert_eq!(plan.height, 32);
    assert_eq!(plan.target_width, 64);
    assert_eq!(plan.display_area.right, 64);
    assert_eq!(plan.target_rect.bottom, 32);
    assert_eq!(plan.decode_surfaces, 20);
    assert_eq!(plan.output_surfaces, 2);
    assert_eq!(plan.output_format, NvDecSurfaceFormat::Nv12.raw());
    assert!(plan_nv12(NvDecDecoderConfig::new(NvDecCodec::H264, 40, 32), caps).is_err());
    assert!(plan_nv12(NvDecDecoderConfig::new(NvDecCodec::H264, 4098, 32), caps).is_err());
    let mut without = caps;
    without.output_format_mask = 2;
    assert!(plan_nv12(NvDecDecoderConfig::new(NvDecCodec::H264, 64, 32), without).is_err());
    let mut missing = caps;
    missing.supported = false;
    assert!(plan_nv12(NvDecDecoderConfig::new(NvDecCodec::H264, 64, 32), missing).is_err());
}

#[test]
fn an_opened_decoder_is_given_back_in_order() {
    let p = DecoderProgress::start();
    assert_eq!(p.call(), DecoderCall::CreateLock);
    let (p, r) = p.step(0);
    assert!(r.is_ok());
    assert_eq!(p.call(), DecoderCall::CreateDecoder);
    let (p, r) = p.step(0);
    assert!(r.is_ok());
    assert_eq!(p.call(), DecoderCall::Done);
    assert_eq!(p.hold, DecoderHold::LockAndDecoder);
    let p = p.close();
    assert_eq!(p.call(), DecoderCall::DestroyDecoder);
    let (p, _) = p.step(7);
    assert_eq!(p.call(), DecoderCall::DestroyLock);
    let (p, _) = p.step(7);
    assert_eq!(p.call(), DecoderCall::Done);
    assert_eq!(p.hold, DecoderHold::Nothing);
}

#[test]
fn a_refused_decoder_gives_the_lock_back() {
    let (p, r) = DecoderProgress::start().step(1);
    assert!(r.is_err());
    assert_eq!(p.call(), DecoderCall::Done);
    assert_eq!(p.hold, DecoderHold::Nothing);
    let (p, _) = DecoderProgress::start().step(0);
    let (p, r) = p.step(1);
    assert!(r.is_err());
    assert_eq!(p.call(), DecoderCall::DestroyLock);
    let (p, _) = p.step(0);
    assert_eq!(p.call(), DecoderCall::Done);
    assert_eq!(p.hold, DecoderHold::Nothing);
}
