//! The device and the element type that a caller asks for.

use candle_core::DType;
use candle_core::Device;
use vstd::prelude::*;

use crate::ffi::status::{backend_failed, carry, FfiError, FfiResult, SwmStatus};
use crate::runtime::{plain_option, DTypeSpec, DeviceSpec};
use crate::tensor::value::{device_location, dtype_element, Location};

verus! {

/// The option that a caller gave, or the one that stands in for it.
pub open spec fn option_or(given: Option<&str>, other: Seq<char>) -> Seq<char> {
    match given {
        Some(s) => s@,
        None => other,
    }
}

/// The device that a caller asks for. Without a wish it is the first CUDA
/// device.
pub fn device_from_ffi(given: Option<&str>) -> (r: FfiResult<Device>)
    ensures
        DeviceSpec::named(plain_option(option_or(given, "cuda:0"@))) matches Err(text) ==> r is Err
            && r->Err_0.is(SwmStatus::InvalidArgument, text),
        DeviceSpec::named(plain_option(option_or(given, "cuda:0"@))) matches Ok(spec) ==> (
        r matches Err(e) ==> backend_failed(e)) && (r matches Ok(d) ==> (
        spec matches DeviceSpec::Cuda(index) ==> device_location(d) == Location::Cuda(index))),
{
    let option = match given {
        Some(s) => s,
        None => "cuda:0",
    };
    match DeviceSpec::parse(option) {
        Ok(spec) => carry(spec.resolve()),
        Err(text) => Err(FfiError::invalid_text(text)),
    }
}

/// The element type that a caller asks for. Without a wish it is single
/// precision.
pub fn dtype_from_ffi(given: Option<&str>) -> (r: FfiResult<DType>)
    ensures
        DTypeSpec::named(plain_option(option_or(given, "f32"@))) matches Err(text) ==> r is Err
            && r->Err_0.is(SwmStatus::InvalidArgument, text),
        DTypeSpec::named(plain_option(option_or(given, "f32"@))) matches Ok(spec) ==> r is Ok
            && dtype_element(r->Ok_0) == spec.element(),
{
    let option = match given {
        Some(s) => s,
        None => "f32",
    };
    match DTypeSpec::parse(option) {
        Ok(spec) => Ok(spec.dtype()),
        Err(text) => Err(FfiError::invalid_text(text)),
    }
}

} // verus!
