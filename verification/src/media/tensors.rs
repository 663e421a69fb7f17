//! Images as tensors in device memory.

use candle_core::Device;
use candle_core::Tensor;
use vstd::prelude::*;

use crate::error::{lift, message, Result, SwmError};
use crate::media::shape::{Nv12ImageShape, PackedImageShape};
use crate::tensor::facts::lemma_counts;
use crate::tensor::layout::{device_of, dims, dtype, dtype_of, element, location};
use crate::tensor::make::{bytes_value, filled, from_u8, zeros};
use crate::tensor::ranks::{element_count, same_sizes};
use crate::tensor::value::{
    count, device_location, tensor_dims, tensor_element, tensor_location, value, ElementType,
    Location, TensorValue,
};
use crate::text::{decimal, sizes_text, with_dims, with_numbers};

verus! {

/// Room for bytes of a shape on a device.
pub open spec fn is_room(t: Tensor, dims: Seq<usize>, device: Device) -> bool {
    tensor_dims(t) == dims && tensor_element(t) is U8 && tensor_location(t) == device_location(device)
}

/// The name of an element type in messages.
pub open spec fn element_name(e: ElementType) -> Seq<char> {
    match e {
        ElementType::U8 => "U8"@,
        ElementType::U32 => "U32"@,
        ElementType::I16 => "I16"@,
        ElementType::I32 => "I32"@,
        ElementType::I64 => "I64"@,
        ElementType::BF16 => "BF16"@,
        ElementType::F16 => "F16"@,
        ElementType::F32 => "F32"@,
        ElementType::F64 => "F64"@,
        ElementType::F8E4M3 => "F8E4M3"@,
        ElementType::F6E2M3 => "F6E2M3"@,
        ElementType::F6E3M2 => "F6E3M2"@,
        ElementType::F4 => "F4"@,
        ElementType::F8E8M0 => "F8E8M0"@,
    }
}

pub(crate) fn name_of(e: ElementType) -> (r: &'static str)
    ensures
        r@ == element_name(e),
{
    match e {
        ElementType::U8 => "U8",
        ElementType::U32 => "U32",
        ElementType::I16 => "I16",
        ElementType::I32 => "I32",
        ElementType::I64 => "I64",
        ElementType::BF16 => "BF16",
        ElementType::F16 => "F16",
        ElementType::F32 => "F32",
        ElementType::F64 => "F64",
        ElementType::F8E4M3 => "F8E4M3",
        ElementType::F6E2M3 => "F6E2M3",
        ElementType::F6E3M2 => "F6E3M2",
        ElementType::F4 => "F4",
        ElementType::F8E8M0 => "F8E8M0",
    }
}

/// Whether a device is a CUDA device.
pub fn is_cuda(device: &Device) -> (r: bool)
    ensures
        r == device_location(*device) is Cuda,
{
    match location(device) {
        Location::Cuda(_) => true,
        _ => false,
    }
}

/// What is said of a shape that is not the expected one.
pub open spec fn mismatch(name: Seq<char>, expected: Seq<usize>, got: Seq<usize>) -> Seq<char> {
    name + " shape mismatch: expected "@ + sizes_text(expected) + ", got "@ + sizes_text(got)
}

fn shape_error(name: &str, expected: &[usize], got: &[usize]) -> (r: SwmError)
    ensures
        r.says(mismatch(name@, expected@, got@)),
{
    let mut text = String::from_str(name);
    let middle = with_dims(" shape mismatch: expected ", expected);
    let tail = with_dims(", got ", got);
    text.append(middle.as_str());
    text.append(tail.as_str());
    proof {
        assert(text@ =~= mismatch(name@, expected@, got@));
    }
    SwmError::Message(text)
}

/// The first thing wrong with packed images.
pub open spec fn packed_complaint(v: TensorValue, shape: PackedImageShape) -> Option<Seq<char>> {
    if !(v.location is Cuda) {
        Some("packed image input must live on a CUDA Candle device"@)
    } else if !(v.element is U8) {
        Some("packed image input must use U8 dtype, got "@ + element_name(v.element))
    } else if v.dims != shape.dims() {
        Some(mismatch("packed image input"@, shape.dims(), v.dims))
    } else {
        None
    }
}

/// Whether packed images are as they should be.
pub fn validate_input_tensor(input: &Tensor, shape: PackedImageShape) -> (r: Result<()>)
    ensures
        r is Ok <==> packed_complaint(value(*input), shape) is None,
        r matches Err(e) ==> e.says(packed_complaint(value(*input), shape)->0),
{
    if !is_cuda(device_of(input)) {
        return Err(message("packed image input must live on a CUDA Candle device"));
    }
    let e = element(dtype(input));
    if e != ElementType::U8 {
        let mut text = String::from_str("packed image input must use U8 dtype, got ");
        text.append(name_of(e));
        return Err(SwmError::Message(text));
    }
    let got = dims(input);
    let expected: [usize; 4] = [shape.batch, shape.height, shape.width, shape.channels()];
    proof {
        assert(expected@ =~= shape.dims());
    }
    if !same_sizes(got.as_slice(), &expected) {
        return Err(shape_error("packed image input", &expected, got.as_slice()));
    }
    Ok(())
}

/// The first thing wrong with a pair of planes.
pub open spec fn planes_complaint(y: TensorValue, uv: TensorValue, shape: Nv12ImageShape) -> Option<
    Seq<char>,
> {
    if !(y.location is Cuda) || !(uv.location is Cuda) {
        Some("NV12 input tensors must live on a CUDA Candle device"@)
    } else if !(y.element is U8) || !(uv.element is U8) {
        Some(
            "NV12 input tensors must use U8 dtype, got y="@ + element_name(y.element) + ", uv="@
                + element_name(uv.element),
        )
    } else if y.dims != shape.y_dims() {
        Some(mismatch("NV12 Y plane"@, shape.y_dims(), y.dims))
    } else if uv.dims != shape.uv_dims() {
        Some(mismatch("NV12 UV plane"@, shape.uv_dims(), uv.dims))
    } else {
        None
    }
}

/// Whether a pair of planes is as it should be.
pub fn validate_nv12_tensors(y_plane: &Tensor, uv_plane: &Tensor, shape: Nv12ImageShape) -> (r:
    Result<()>)
    ensures
        r is Ok <==> planes_complaint(value(*y_plane), value(*uv_plane), shape) is None,
        r matches Err(e) ==> e.says(
            planes_complaint(value(*y_plane), value(*uv_plane), shape)->0,
        ),
{
    if !is_cuda(device_of(y_plane)) || !is_cuda(device_of(uv_plane)) {
        return Err(message("NV12 input tensors must live on a CUDA Candle device"));
    }
    let ye = element(dtype(y_plane));
    let uve = element(dtype(uv_plane));
    if ye != ElementType::U8 || uve != ElementType::U8 {
        let mut text = String::from_str("NV12 input tensors must use U8 dtype, got y=");
        text.append(name_of(ye));
        text.append(", uv=");
        text.append(name_of(uve));
        return Err(SwmError::Message(text));
    }
    let got_y = dims(y_plane);
    let expected_y: [usize; 3] = [shape.batch, shape.height, shape.width];
    let got_uv = dims(uv_plane);
    let expected_uv: [usize; 4] = [shape.batch, shape.height / 2, shape.width / 2, 2];
    proof {
        assert(expected_y@ =~= shape.y_dims());
        assert(expected_uv@ =~= shape.uv_dims());
    }
    if !same_sizes(got_y.as_slice(), &expected_y) {
        return Err(shape_error("NV12 Y plane", &expected_y, got_y.as_slice()));
    }
    if !same_sizes(got_uv.as_slice(), &expected_uv) {
        return Err(shape_error("NV12 UV plane", &expected_uv, got_uv.as_slice()));
    }
    Ok(())
}

/// The first thing wrong with packed images that should go to a device.
pub open spec fn packed_alloc_complaint(
    shape: PackedImageShape,
    location: Location,
    name: Seq<char>,
) -> Option<Seq<char>> {
    if !shape.filled() {
        Some("packed CUDA image dimensions must be greater than zero"@)
    } else if !(location is Cuda) {
        Some(name + " requires a CUDA Candle device"@)
    } else if shape.elements() > usize::MAX {
        Some("packed CUDA image shape overflowed"@)
    } else {
        None
    }
}

fn check_packed(shape: PackedImageShape, device: &Device, name: &str) -> (r: Result<usize>)
    ensures
        packed_alloc_complaint(shape, device_location(*device), name@) matches Some(text)
            ==> r is Err && r->Err_0.says(text),
        packed_alloc_complaint(shape, device_location(*device), name@) is None ==> r is Ok
            && r->Ok_0 == shape.elements() && count(shape.dims()) == shape.elements(),
{
    shape.validate()?;
    if !is_cuda(device) {
        let mut text = String::from_str(name);
        text.append(" requires a CUDA Candle device");
        return Err(SwmError::Message(text));
    }
    proof {
        let (b, h, w, c) = (
            shape.batch as int,
            shape.height as int,
            shape.width as int,
            shape.format.width() as int,
        );
        lemma_counts(shape.batch, shape.height, shape.width, shape.format.width());
        assert(b * h * w * c == b * (h * (w * c))) by (nonlinear_arith);
    }
    match shape.checked_elem_count() {
        Some(n) => Ok(n),
        None => Err(message("packed CUDA image shape overflowed")),
    }
}

/// Packed images in device memory, from bytes of the host.
pub fn packed_u8_tensor_from_host(bytes: &[u8], shape: PackedImageShape, device: &Device) -> (r:
    Result<Tensor>)
    ensures
        packed_alloc_complaint(
            shape,
            device_location(*device),
            "packed_u8_tensor_from_host"@,
        ) matches Some(text) ==> r is Err && r->Err_0.says(text),
        packed_alloc_complaint(shape, device_location(*device), "packed_u8_tensor_from_host"@)
            is None && bytes@.len() != shape.elements() ==> r is Err && r->Err_0.says(
            "packed image buffer has "@ + decimal(bytes@.len()) + " bytes, expected "@ + decimal(
                shape.elements() as nat,
            ),
        ),
        packed_alloc_complaint(shape, device_location(*device), "packed_u8_tensor_from_host"@)
            is None && bytes@.len() == shape.elements() ==> (r matches Err(e) ==> e is Backend),
        r matches Ok(o) ==> value(o) == bytes_value(
            bytes@,
            shape.dims(),
            device_location(*device),
        ),
{
    let expected: usize = check_packed(shape, device, "packed_u8_tensor_from_host")?;
    if bytes.len() != expected {
        let text = with_numbers(
            "packed image buffer has ",
            bytes.len(),
            " bytes, expected ",
            expected,
            "",
        );
        proof {
            reveal_strlit("");
            assert(text@ =~= "packed image buffer has "@ + decimal(bytes@.len())
                + " bytes, expected "@ + decimal(shape.elements() as nat));
        }
        return Err(SwmError::Message(text));
    }
    let sizes: [usize; 4] = [shape.batch, shape.height, shape.width, shape.channels()];
    proof {
        assert(sizes@ =~= shape.dims());
    }
    lift(from_u8(bytes, &sizes, device))
}

/// Packed images in device memory, filled with zeros.
pub fn packed_u8_tensor(shape: PackedImageShape, device: &Device) -> (r: Result<Tensor>)
    ensures
        packed_alloc_complaint(shape, device_location(*device), "packed_u8_tensor"@) matches Some(
            text,
        ) ==> r is Err && r->Err_0.says(text),
        packed_alloc_complaint(shape, device_location(*device), "packed_u8_tensor"@) is None ==> (
        r matches Err(e) ==> e is Backend),
        r matches Ok(o) ==> value(o) == (TensorValue {
            dims: shape.dims(),
            keys: filled(shape.dims(), 0),
            element: ElementType::U8,
            location: device_location(*device),
        }),
{
    let expected: usize = check_packed(shape, device, "packed_u8_tensor")?;
    let sizes: [usize; 4] = [shape.batch, shape.height, shape.width, shape.channels()];
    proof {
        assert(sizes@ =~= shape.dims());
    }
    lift(zeros(&sizes, dtype_of(ElementType::U8), device))
}

/// The first thing wrong with planes that should go to a device.
pub open spec fn planes_alloc_complaint(
    shape: Nv12ImageShape,
    location: Location,
    name: Seq<char>,
) -> Option<Seq<char>> {
    if shape.complaint() is Some {
        shape.complaint()
    } else if !(location is Cuda) {
        Some(name + " requires a CUDA Candle device"@)
    } else if shape.y_bytes() > usize::MAX {
        Some("NV12 CUDA image shape overflowed"@)
    } else {
        None
    }
}

fn check_planes(shape: Nv12ImageShape, device: &Device, name: &str) -> (r: Result<(usize, usize)>)
    ensures
        planes_alloc_complaint(shape, device_location(*device), name@) matches Some(text)
            ==> r is Err && r->Err_0.says(text),
        planes_alloc_complaint(shape, device_location(*device), name@) is None ==> r is Ok
            && r->Ok_0.0 == shape.y_bytes() && r->Ok_0.1 == shape.uv_bytes() && count(
            shape.y_dims(),
        ) == shape.y_bytes() && count(shape.uv_dims()) == shape.uv_bytes(),
{
    shape.validate()?;
    if !is_cuda(device) {
        let mut text = String::from_str(name);
        text.append(" requires a CUDA Candle device");
        return Err(SwmError::Message(text));
    }
    let y_sizes: [usize; 3] = [shape.batch, shape.height, shape.width];
    let uv_sizes: [usize; 4] = [shape.batch, shape.height / 2, shape.width / 2, 2];
    proof {
        assert(y_sizes@ =~= shape.y_dims());
        assert(uv_sizes@ =~= shape.uv_dims());
        let (b, h, w) = (shape.batch as int, shape.height as int, shape.width as int);
        let (p, q) = (h / 2, w / 2);
        lemma_counts(shape.batch, shape.height, shape.width, 0);
        lemma_counts(shape.batch, (shape.height / 2) as usize, (shape.width / 2) as usize, 2);
        assert(b * h * w == b * (h * w)) by (nonlinear_arith);
        assert(b * p * q * 2 == b * (p * (q * 2))) by (nonlinear_arith);
        assert(h == 2 * p && w == 2 * q);
        assert(0 <= b * p * q * 2 && b * p * q * 2 <= b * (2 * p) * (2 * q)) by (nonlinear_arith)
            requires
                b >= 0,
                p >= 0,
                q >= 0,
        ;
    }
    match element_count(&y_sizes) {
        Some(y) => match element_count(&uv_sizes) {
            Some(uv) => Ok((y, uv)),
            None => Err(message("NV12 CUDA image shape overflowed")),
        },
        None => Err(message("NV12 CUDA image shape overflowed")),
    }
}

/// The first thing wrong with the bytes of planes.
pub open spec fn plane_bytes_complaint(
    shape: Nv12ImageShape,
    y: nat,
    uv: nat,
) -> Option<Seq<char>> {
    if y != shape.y_bytes() {
        Some(
            "NV12 Y plane has "@ + decimal(y) + " bytes, expected "@ + decimal(
                shape.y_bytes() as nat,
            ),
        )
    } else if uv != shape.uv_bytes() {
        Some(
            "NV12 UV plane has "@ + decimal(uv) + " bytes, expected "@ + decimal(
                shape.uv_bytes() as nat,
            ),
        )
    } else {
        None
    }
}

/// Planes in device memory, from bytes of the host.
pub fn nv12_tensors_from_host(
    y_plane: &[u8],
    uv_plane: &[u8],
    shape: Nv12ImageShape,
    device: &Device,
) -> (r: Result<(Tensor, Tensor)>)
    ensures
        planes_alloc_complaint(
            shape,
            device_location(*device),
            "nv12_tensors_from_host"@,
        ) matches Some(text) ==> r is Err && r->Err_0.says(text),
        planes_alloc_complaint(shape, device_location(*device), "nv12_tensors_from_host"@) is None
            ==> (plane_bytes_complaint(shape, y_plane@.len(), uv_plane@.len()) matches Some(text)
            ==> r is Err && r->Err_0.says(text)),
        planes_alloc_complaint(shape, device_location(*device), "nv12_tensors_from_host"@) is None
            && plane_bytes_complaint(shape, y_plane@.len(), uv_plane@.len()) is None ==> (
        r matches Err(e) ==> e is Backend),
        r matches Ok(o) ==> value(o.0) == bytes_value(
            y_plane@,
            shape.y_dims(),
            device_location(*device),
        ) && value(o.1) == bytes_value(uv_plane@, shape.uv_dims(), device_location(*device)),
{
    let (expected_y, expected_uv) = check_planes(shape, device, "nv12_tensors_from_host")?;
    proof {
        reveal_strlit("");
    }
    if y_plane.len() != expected_y {
        let text = with_numbers(
            "NV12 Y plane has ",
            y_plane.len(),
            " bytes, expected ",
            expected_y,
            "",
        );
        proof {
            assert(text@ =~= plane_bytes_complaint(shape, y_plane@.len(), uv_plane@.len())->0);
        }
        return Err(SwmError::Message(text));
    }
    if uv_plane.len() != expected_uv {
        let text = with_numbers(
            "NV12 UV plane has ",
            uv_plane.len(),
            " bytes, expected ",
            expected_uv,
            "",
        );
        proof {
            assert(text@ =~= plane_bytes_complaint(shape, y_plane@.len(), uv_plane@.len())->0);
        }
        return Err(SwmError::Message(text));
    }
    let y_sizes: [usize; 3] = [shape.batch, shape.height, shape.width];
    let uv_sizes: [usize; 4] = [shape.batch, shape.height / 2, shape.width / 2, 2];
    proof {
        assert(y_sizes@ =~= shape.y_dims());
        assert(uv_sizes@ =~= shape.uv_dims());
    }
    let y = lift(from_u8(y_plane, &y_sizes, device))?;
    let uv = lift(from_u8(uv_plane, &uv_sizes, device))?;
    Ok((y, uv))
}

/// Planes in device memory, filled with zeros.
pub fn nv12_tensors(shape: Nv12ImageShape, device: &Device) -> (r: Result<(Tensor, Tensor)>)
    ensures
        planes_alloc_complaint(shape, device_location(*device), "nv12_tensors"@) matches Some(text)
            ==> r is Err && r->Err_0.says(text),
        planes_alloc_complaint(shape, device_location(*device), "nv12_tensors"@) is None ==> (
        r matches Err(e) ==> e is Backend),
        r matches Ok(o) ==> value(o.0) == (TensorValue {
            dims: shape.y_dims(),
            keys: filled(shape.y_dims(), 0),
            element: ElementType::U8,
            location: device_location(*device),
        }) && value(o.1) == (TensorValue {
            dims: shape.uv_dims(),
            keys: filled(shape.uv_dims(), 0),
            element: ElementType::U8,
            location: device_location(*device),
        }),
{
    let sizes = check_planes(shape, device, "nv12_tensors")?;
    let y_sizes: [usize; 3] = [shape.batch, shape.height, shape.width];
    let uv_sizes: [usize; 4] = [shape.batch, shape.height / 2, shape.width / 2, 2];
    proof {
        assert(y_sizes@ =~= shape.y_dims());
        assert(uv_sizes@ =~= shape.uv_dims());
    }
    let y = lift(zeros(&y_sizes, dtype_of(ElementType::U8), device))?;
    let uv = lift(zeros(&uv_sizes, dtype_of(ElementType::U8), device))?;
    Ok((y, uv))
}

} // verus!
