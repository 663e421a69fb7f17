//! Operations that make a tensor.

use candle_core::DType;
use candle_core::Device;
use candle_core::Tensor;
use vstd::prelude::*;

use crate::scalar::{F32, F64};
use crate::tensor::value::{
    count, device_location, dtype_element, hosted, plain, tensor_dims, tensor_keys,
    value, ElementType, Location, TensorValue,
};

verus! {

/// `candle_core::Device::Cpu`.
#[verifier::external_body]
pub(crate) fn cpu() -> (r: Device)
    ensures
        device_location(r) is Cpu,
{
    Device::Cpu
}

/// A shape whose elements all have one key.
pub open spec fn filled(dims: Seq<usize>, key: int) -> Seq<int> {
    Seq::new(count(dims), |k: int| key)
}

/// `candle_core::Tensor::zeros`. Of the element types that have no plain zero
/// only the shape is claimed.
#[verifier::external_body]
pub(crate) fn zeros(shape: &[usize], d: DType, device: &Device) -> (r: Result<
    Tensor,
    candle_core::Error,
>)
    requires
        count(shape@) <= usize::MAX,
    ensures
        r matches Ok(o) ==> value(o) == (TensorValue {
            dims: shape@,
            keys: tensor_keys(o),
            element: dtype_element(d),
            location: device_location(*device),
        }) && tensor_keys(o).len() == count(shape@),
        r matches Ok(o) ==> plain(dtype_element(d)) ==> tensor_keys(o) == filled(shape@, 0),
        device_location(*device) is Cpu && plain(dtype_element(d)) ==> r is Ok,
{
    Tensor::zeros(shape, d, device)
}

/// `candle_core::Tensor::from_raw_buffer` on the bits of single-precision
/// numbers, in row-major order.
#[verifier::external_body]
pub(crate) fn from_f32(values: &[F32], shape: &[usize], device: &Device) -> (r: Result<
    Tensor,
    candle_core::Error,
>)
    requires
        count(shape@) == values@.len(),
    ensures
        r matches Ok(o) ==> value(o) == (TensorValue {
            dims: shape@,
            keys: values@.map_values(|x: F32| x.key()),
            element: ElementType::F32,
            location: device_location(*device),
        }),
        device_location(*device) is Cpu ==> r is Ok,
{
    let bytes: Vec<u8> = values.iter().flat_map(|x| x.bits.to_ne_bytes()).collect();
    Tensor::from_raw_buffer(&bytes, DType::F32, shape, device)
}

/// Bytes as the elements of a tensor.
pub open spec fn bytes_value(data: Seq<u8>, dims: Seq<usize>, location: Location) -> TensorValue {
    TensorValue {
        dims,
        keys: data.map_values(|b: u8| b as int),
        element: ElementType::U8,
        location,
    }
}

/// `candle_core::Tensor::from_slice` on bytes, in row-major order.
#[verifier::external_body]
pub(crate) fn from_u8(data: &[u8], shape: &[usize], device: &Device) -> (r: Result<
    Tensor,
    candle_core::Error,
>)
    requires
        count(shape@) == data@.len(),
    ensures
        r matches Ok(o) ==> value(o) == bytes_value(data@, shape@, device_location(*device)),
        device_location(*device) is Cpu ==> r is Ok,
{
    Tensor::from_slice(data, shape, device)
}

/// A double-precision number as a tensor without axes on the CPU.
pub open spec fn double(x: F64) -> TensorValue {
    TensorValue {
        dims: Seq::empty(),
        keys: seq![x.key()],
        element: ElementType::F64,
        location: Location::Cpu,
    }
}

/// A natural number as a tensor without axes on the CPU.
pub open spec fn natural(n: u32) -> TensorValue {
    TensorValue {
        dims: Seq::empty(),
        keys: seq![n as int],
        element: ElementType::U32,
        location: Location::Cpu,
    }
}

/// A natural number as a tensor of 64-bit integers without axes on the CPU.
pub open spec fn whole(n: u64) -> TensorValue {
    TensorValue {
        dims: Seq::empty(),
        keys: seq![n as int],
        element: ElementType::I64,
        location: Location::Cpu,
    }
}

/// `candle_core::Tensor::new` on one 64-bit integer, on the CPU.
#[verifier::external_body]
pub(crate) fn from_u64(n: u64) -> (r: Result<Tensor, candle_core::Error>)
    requires
        n <= i64::MAX,
    ensures
        r matches Ok(o) ==> value(o) == whole(n),
        r is Ok,
{
    Tensor::new(n as i64, &Device::Cpu)
}

/// `candle_core::Tensor::new` on one 32-bit integer, on the CPU.
#[verifier::external_body]
pub(crate) fn from_u32(n: u32) -> (r: Result<Tensor, candle_core::Error>)
    ensures
        r matches Ok(o) ==> value(o) == natural(n),
        r is Ok,
{
    Tensor::new(n, &Device::Cpu)
}

/// `candle_core::Tensor::from_raw_buffer` on the bits of one double-precision
/// number, as a tensor without axes on the CPU.
#[verifier::external_body]
pub(crate) fn from_f64(x: F64) -> (r: Result<Tensor, candle_core::Error>)
    ensures
        r matches Ok(o) ==> value(o) == double(x),
        r is Ok,
{
    Tensor::from_raw_buffer(&x.bits.to_ne_bytes(), DType::F64, &[], &Device::Cpu)
}

/// `candle_core::Tensor::randn_like` with mean zero and deviation one: draws
/// with the shape, element type and place of a tensor. The draws themselves are
/// left to chance.
#[verifier::external_body]
pub(crate) fn normal_like(t: &Tensor) -> (r: Result<Tensor, candle_core::Error>)
    ensures
        r matches Ok(o) ==> value(o) == value(*t).alongside(tensor_dims(*t), tensor_keys(o))
            && tensor_keys(o).len() == tensor_keys(*t).len(),
        hosted(value(*t)) ==> r is Ok,
{
    t.randn_like(Default::default(), 1i32.into())
}

/// `candle_core::Tensor::arange` over the 32-bit integers below a bound.
#[verifier::external_body]
pub(crate) fn indices(n: u32, device: &Device) -> (r: Result<Tensor, candle_core::Error>)
    ensures
        r matches Ok(o) ==> value(o) == (TensorValue {
            dims: seq![n as usize],
            keys: Seq::new(n as nat, |k: int| k),
            element: ElementType::U32,
            location: device_location(*device),
        }),
        device_location(*device) is Cpu ==> r is Ok,
{
    Tensor::arange(0u32, n, device)
}

} // verus!
