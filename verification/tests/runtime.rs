use std::str::FromStr;

use candle_core::{DType, Device};
use stable_worldmodel::runtime::{DTypeSpec, DeviceSpec};

#[test]
fn parses_device_specs() {
    assert_eq!(DeviceSpec::from_str("cuda").unwrap(), DeviceSpec::Cuda(0));
    assert_eq!(DeviceSpec::from_str("cuda:2").unwrap(), DeviceSpec::Cuda(2));
}

#[test]
fn rejects_invalid_device_specs() {
    assert!(DeviceSpec::from_str("cpu").is_err());
    assert!(DeviceSpec::from_str("cuda:").is_err());
    assert!(DeviceSpec::from_str("cuda:abc").is_err());
    assert!(DeviceSpec::from_str("metal").is_err());
    assert!(DeviceSpec::from_str("gpu").is_err());
}

#[test]
fn parses_dtype_specs() {
    assert_eq!(DTypeSpec::from_str("f32").unwrap().dtype(), DType::F32);
    assert_eq!(DTypeSpec::from_str("float32").unwrap().dtype(), DType::F32);
    assert_eq!(DTypeSpec::from_str("bf16").unwrap().dtype(), DType::BF16);
    assert_eq!(
        DTypeSpec::from_str("bfloat16").unwrap().dtype(),
        DType::BF16
    );
    assert_eq!(DTypeSpec::from_str("f16").unwrap().dtype(), DType::F16);
    assert_eq!(DTypeSpec::from_str("float16").unwrap().dtype(), DType::F16);
}

#[test]
fn rejects_invalid_dtype_specs() {
    assert!(DTypeSpec::from_str("i8").is_err());
    assert!(DTypeSpec::from_str("").is_err());
}

#[test]
fn options_are_trimmed_and_read_in_any_case() {
    assert_eq!(DeviceSpec::parse(" CUDA:3 ").unwrap(), DeviceSpec::Cuda(3));
    assert_eq!(DTypeSpec::parse("\tBF16\n").unwrap(), DTypeSpec::Bf16);
    assert_eq!(
        DeviceSpec::parse("gpu").unwrap_err(),
        "unsupported device 'gpu', expected cuda or cuda:<index>"
    );
    assert_eq!(DeviceSpec::parse("cuda:").unwrap_err(), "missing device index after 'cuda:'");
    assert_eq!(
        DeviceSpec::parse("cuda:99999999999999999999").unwrap_err(),
        "invalid device index '99999999999999999999' after 'cuda:'"
    );
    assert_eq!(
        DTypeSpec::parse("i8").unwrap_err(),
        "unsupported dtype 'i8', expected f32, bf16, or f16"
    );
}

#[test]
fn texts_read_back() {
    for index in [0usize, 7, 10, 123] {
        let spec = DeviceSpec::Cuda(index);
        assert_eq!(DeviceSpec::parse(spec.text().as_str()).unwrap(), spec);
    }
    for spec in [DTypeSpec::F32, DTypeSpec::Bf16, DTypeSpec::F16] {
        assert_eq!(DTypeSpec::parse(spec.text().as_str()).unwrap(), spec);
    }
    assert_eq!(DeviceSpec::Cpu.text(), "cpu");
    assert_eq!(DeviceSpec::Metal(2).text(), "metal:2");
}

#[test]
fn the_host_can_always_be_opened() {
    assert!(matches!(DeviceSpec::Cpu.resolve().unwrap(), Device::Cpu));
    assert!(DeviceSpec::Cuda(0).resolve().is_err());
    assert!(DeviceSpec::Metal(0).resolve().is_err());
}
