//! Where planners get their standard normal noise from.

use candle_core::DType;
use candle_core::Device;
use candle_core::Tensor;
use vstd::prelude::*;

use crate::error::{lift, message, Result, SwmError};
use crate::tensor::layout::{dtype_of, to_dtype};
use crate::tensor::make::{normal_like, zeros};
use crate::tensor::ranks::element_count;
use crate::tensor::value::{
    count, device_location, dtype_element, plain, tensor_dims, tensor_element, tensor_location,
    ElementType,
};

verus! {

/// A source of standard normal draws.
pub trait NoiseSource {
    /// Starts a seeded stream at a position.
    fn begin(&mut self, seed: u64, offset: u64, device: &Device) -> (r: Result<()>);

    /// Draws a tensor of the given shape.
    fn standard_normal(&mut self, shape: &[usize], dtype: DType, device: &Device) -> (r: Result<
        Tensor,
    >);
}

/// The generator of the device itself, which has no positioned streams.
#[derive(Debug, Clone, Copy)]
pub struct DeviceNoise;

/// `candle_core::Device::as_cuda_device`, of which only the refusal is used: a
/// device that is not a CUDA device is refused.
#[verifier::external_body]
fn require_cuda(device: &Device) -> (r: core::result::Result<(), candle_core::Error>)
    ensures
        !(device_location(*device) is Cuda) ==> r is Err,
{
    device.as_cuda_device()?;
    Ok(())
}

impl NoiseSource for DeviceNoise {
    /// Refuses: seeded streams need a CUDA generator, which the device's own
    /// generator is not.
    fn begin(&mut self, seed: u64, offset: u64, device: &Device) -> (r: Result<()>)
        ensures
            r is Err,
            r matches Err(SwmError::Message(m)) ==> m@ == "seeded noise needs a CUDA noise source"@,
    {
        lift(require_cuda(device))?;
        Err(message("seeded noise needs a CUDA noise source"))
    }

    /// Draws in single precision and rounds to the element type.
    fn standard_normal(&mut self, shape: &[usize], dtype: DType, device: &Device) -> (r: Result<
        Tensor,
    >)
        ensures
            r matches Ok(t) ==> tensor_dims(t) == shape@ && tensor_element(t) == dtype_element(
                dtype,
            ) && tensor_location(t) == device_location(*device),
            count(shape@) > usize::MAX ==> r is Err && r->Err_0.says("noise shape overflowed"@),
            count(shape@) <= usize::MAX ==> (r matches Err(e) ==> e is Backend),
            count(shape@) <= usize::MAX && device_location(*device) is Cpu && plain(
                dtype_element(dtype),
            ) ==> r is Ok,
    {
        if element_count(shape).is_none() {
            return Err(message("noise shape overflowed"));
        }
        let blank = lift(zeros(shape, dtype_of(ElementType::F32), device))?;
        let noise = lift(normal_like(&blank))?;
        lift(to_dtype(&noise, dtype))
    }
}

} // verus!
