//! Operations that look at a tensor or move its elements: none of them computes
//! with an element.

use candle_core::DType;
use candle_core::Device;
use candle_core::DeviceLocation;
use candle_core::Tensor;
use vstd::prelude::*;

use crate::scalar::F32;
use crate::tensor::value::{
    count, device_location, dtype_element, in_range, is_float, is_nan, offset, plain, resident,
    spread, spreads, tensor_dims, tensor_element, tensor_keys, tensor_location, valid_index, value,
    values, ElementType, Location, TensorValue,
};
use crate::rounding::{exact_type, rounds_to, scale};
use crate::tensor::arithmetic::{converted, exact, finite_at};

verus! {

/// `candle_core::Tensor::dims`. The shape has as many elements as the tensor.
#[verifier::external_body]
pub(crate) fn dims(t: &Tensor) -> (r: Vec<usize>)
    ensures
        r@ == tensor_dims(*t),
        count(r@) == tensor_keys(*t).len(),
{
    t.dims().to_vec()
}

/// `candle_core::Tensor::dtype`.
#[verifier::external_body]
pub(crate) fn dtype(t: &Tensor) -> (r: DType)
    ensures
        dtype_element(r) == tensor_element(*t),
{
    t.dtype()
}

/// The tags of `candle_core::DType`, one by one.
#[verifier::external_body]
pub(crate) fn element(d: DType) -> (r: ElementType)
    ensures
        r == dtype_element(d),
{
    match d {
        DType::U8 => ElementType::U8,
        DType::U32 => ElementType::U32,
        DType::I16 => ElementType::I16,
        DType::I32 => ElementType::I32,
        DType::I64 => ElementType::I64,
        DType::BF16 => ElementType::BF16,
        DType::F16 => ElementType::F16,
        DType::F32 => ElementType::F32,
        DType::F64 => ElementType::F64,
        DType::F8E4M3 => ElementType::F8E4M3, DType::F6E2M3 => ElementType::F6E2M3,
        DType::F6E3M2 => ElementType::F6E3M2, DType::F4 => ElementType::F4,
        _ => ElementType::F8E8M0,
    }
}

/// The tag of `candle_core::DType` for an element type.
#[verifier::external_body]
pub(crate) fn dtype_of(e: ElementType) -> (r: DType)
    ensures
        dtype_element(r) == e,
{
    match e {
        ElementType::U8 => DType::U8,
        ElementType::U32 => DType::U32,
        ElementType::I16 => DType::I16,
        ElementType::I32 => DType::I32,
        ElementType::I64 => DType::I64,
        ElementType::BF16 => DType::BF16,
        ElementType::F16 => DType::F16,
        ElementType::F32 => DType::F32,
        ElementType::F64 => DType::F64,
        ElementType::F8E4M3 => DType::F8E4M3, ElementType::F6E2M3 => DType::F6E2M3,
        ElementType::F6E3M2 => DType::F6E3M2, ElementType::F4 => DType::F4,
        ElementType::F8E8M0 => DType::F8E8M0,
    }
}

/// `candle_core::Tensor::device`, a device at the place of the tensor.
#[verifier::external_body]
pub(crate) fn device_of(t: &Tensor) -> (r: &Device)
    ensures
        device_location(*r) == tensor_location(*t),
{
    t.device()
}

/// `candle_core::Device::location`.
#[verifier::external_body]
pub(crate) fn location(d: &Device) -> (r: Location)
    ensures
        r == device_location(*d),
{
    match d.location() {
        DeviceLocation::Cpu => Location::Cpu,
        DeviceLocation::Cuda { gpu_id } => Location::Cuda(gpu_id),
        DeviceLocation::Metal { gpu_id } => Location::Metal(gpu_id),
    }
}

/// `clone` of `candle_core::Tensor`: another handle on the same elements.
pub assume_specification[ <Tensor as Clone>::clone ](t: &Tensor) -> (r: Tensor)
    ensures
        r == *t,
;

/// `clone` of `candle_core::Device`: another handle on the same device.
pub assume_specification[ <Device as Clone>::clone ](d: &Device) -> (r: Device)
    ensures
        device_location(r) == device_location(*d),
;

/// Another handle on the same elements.
pub fn share(t: &Tensor) -> (r: Tensor)
    ensures
        r == *t,
{
    t.clone()
}

/// Whether gradients are carried through a tensor: what
/// `candle_core::Tensor::track_op` says of it.
pub uninterp spec fn carries_gradient(t: Tensor) -> bool;

/// `candle_core::Tensor::detach`, the same elements outside the gradient graph.
#[verifier::external_body]
pub(crate) fn detach(t: &Tensor) -> (r: Tensor)
    ensures
        value(r) == value(*t),
        !carries_gradient(r),
{
    t.detach()
}

/// `candle_core::Tensor::to_device`. The elements stay as they are; only their
/// place changes.
#[verifier::external_body]
pub(crate) fn to_device(t: &Tensor, d: &Device) -> (r: Result<Tensor, candle_core::Error>)
    ensures
        r matches Ok(o) ==> value(o) == (TensorValue {
            location: device_location(*d),
            ..value(*t)
        }),
        device_location(*d) is Cpu && tensor_location(*t) is Cpu ==> r is Ok,
{
    t.to_device(d)
}

/// Whether `r` is `x` with each element rounded to another element type.
pub uninterp spec fn is_cast(x: TensorValue, r: TensorValue) -> bool;

/// A finite number that changes between single and double precision, and an integer
/// that changes to either, becomes the nearest number of the other type.
#[verifier::opaque]
pub open spec fn cast_rounds(x: TensorValue, r: TensorValue) -> bool {
    &&& exact(x) && exact_type(r.element) ==> forall|k: int|
        0 <= k < r.keys.len() && finite_at(x, k) ==> converted(
            x.element,
            x.keys[k],
            r.element,
            #[trigger] r.keys[k],
        )
    &&& (x.element is U8 || x.element is U32 || x.element is I64) && x.location is Cpu
        && exact_type(r.element) ==> forall|k: int|
        0 <= k < r.keys.len() ==> rounds_to(
            r.element,
            x.keys[k] * scale(r.element),
            1,
            #[trigger] r.keys[k],
        )
}

/// Whether `r` is `x` in another element type, of the same shape and at the same
/// place, rounded where the processor changes it.
pub open spec fn cast_of(x: TensorValue, r: TensorValue) -> bool {
    &&& is_cast(x, r)
    &&& cast_rounds(x, r)
    &&& r.dims == x.dims
    &&& r.location == x.location
    &&& r.keys.len() == x.keys.len()
    &&& r.element == x.element ==> r.keys == x.keys
}

/// `candle_core::Tensor::to_dtype`. The shape and the place stay; elements that
/// have the type already stay as they are, and between floating-point types a
/// NaN and only a NaN gives a NaN. On the processor, numbers that change between
/// single and double precision, and integers that change to either, are
/// rounded as IEEE 754 says. How other elements are rounded is left to the name.
#[verifier::external_body]
pub(crate) fn to_dtype(t: &Tensor, d: DType) -> (r: Result<Tensor, candle_core::Error>)
    ensures
        r matches Ok(o) ==> is_cast(value(*t), value(o)) && value(o) == (TensorValue {
            element: dtype_element(d),
            keys: tensor_keys(o),
            ..value(*t)
        }),
        tensor_element(*t) == dtype_element(d) ==> r is Ok && r->Ok_0 == *t,
        r matches Ok(o) ==> tensor_keys(o).len() == tensor_keys(*t).len(),
        r matches Ok(o) ==> is_float(tensor_element(*t)) && is_float(dtype_element(d)) ==> forall|
            k: int,
        |
            0 <= k < tensor_keys(o).len()
                ==> is_nan(tensor_element(o), #[trigger] tensor_keys(o)[k])
                == is_nan(tensor_element(*t), tensor_keys(*t)[k]),
        resident(value(*t)) && plain(dtype_element(d)) ==> r is Ok,
        r matches Ok(o) ==> cast_rounds(value(*t), value(o)),
{
    t.to_dtype(d)
}

/// A tensor brought to a place and an element type.
pub open spec fn placed(
    v: TensorValue,
    e: ElementType,
    location: Location,
    r: TensorValue,
) -> bool {
    &&& cast_of(TensorValue { location, ..v }, r)
    &&& r == (TensorValue { location, element: e, keys: r.keys, ..v })
    &&& v.element == e ==> r.keys == v.keys
}

/// Whether the elements of a tensor are in row-major storage: what
/// `candle_core::Tensor::is_contiguous` says of it.
pub uninterp spec fn laid_out(t: Tensor) -> bool;

/// `candle_core::Tensor::contiguous`, the same value in row-major storage.
#[verifier::external_body]
pub(crate) fn contiguous(t: &Tensor) -> (r: Result<Tensor, candle_core::Error>)
    ensures
        r matches Ok(o) ==> value(o) == value(*t),
        r matches Ok(o) ==> laid_out(o),
        resident(value(*t)) ==> r is Ok,
{
    t.contiguous()
}

/// `candle_core::Tensor::reshape`. The elements keep their row-major order; a
/// shape of another size is refused.
#[verifier::external_body]
pub(crate) fn reshape(t: &Tensor, shape: &[usize]) -> (r: Result<Tensor, candle_core::Error>)
    requires
        count(shape@) <= usize::MAX || count(shape@) == tensor_keys(*t).len(),
    ensures
        r matches Ok(o) ==> value(o) == value(*t).shaped(shape@) && count(shape@)
            == tensor_keys(*t).len(),
        r matches Ok(o) ==> laid_out(o),
        (resident(value(*t)) || laid_out(*t)) && (count(shape@) == tensor_keys(*t).len() || count(
            shape@,
        ) == count(tensor_dims(*t))) ==> r is Ok,
{
    t.reshape(shape)
}

/// `candle_core::Tensor::squeeze` on an axis of size one: the axis goes, the
/// elements stay.
#[verifier::external_body]
pub(crate) fn squeeze(t: &Tensor, axis: usize) -> (r: Result<Tensor, candle_core::Error>)
    requires
        axis < tensor_dims(*t).len(),
        tensor_dims(*t)[axis as int] == 1,
    ensures
        r is Ok,
        value(r->Ok_0) == value(*t).shaped(tensor_dims(*t).remove(axis as int)),
        laid_out(*t) ==> laid_out(r->Ok_0),
{
    t.squeeze(axis)
}

/// `candle_core::Tensor::unsqueeze`: an axis of size one comes in, the elements
/// stay.
#[verifier::external_body]
pub(crate) fn unsqueeze(t: &Tensor, axis: usize) -> (r: Result<Tensor, candle_core::Error>)
    requires
        axis <= tensor_dims(*t).len(),
    ensures
        r is Ok,
        value(r->Ok_0) == value(*t).shaped(tensor_dims(*t).insert(axis as int, 1)),
        laid_out(*t) ==> laid_out(r->Ok_0),
{
    t.unsqueeze(axis)
}

/// Places `start .. start + len` of an axis.
pub open spec fn narrowed(v: TensorValue, axis: int, start: int, len: int, r: TensorValue) -> bool {
    &&& r.dims == v.dims.update(axis, len as usize)
    &&& r.element == v.element
    &&& r.location == v.location
    &&& r.keys.len() == count(r.dims)
    &&& forall|o: int, m: int, i: int|
        in_range(r.dims, axis, o, m, i) ==> #[trigger] r.at(axis, o, m, i) == v.at(
            axis,
            o,
            start + m,
            i,
        )
}

/// `candle_core::Tensor::narrow`. Gradients are carried through the part where
/// they are carried through the whole.
#[verifier::external_body]
pub(crate) fn narrow(t: &Tensor, axis: usize, start: usize, len: usize) -> (r: Result<
    Tensor,
    candle_core::Error,
>)
    requires
        axis < tensor_dims(*t).len(),
        start + len <= tensor_dims(*t)[axis as int],
    ensures
        r is Ok,
        narrowed(value(*t), axis as int, start as int, len as int, value(r->Ok_0)),
        carries_gradient(r->Ok_0) == carries_gradient(*t),
{
    t.narrow(axis, start, len)
}

/// `candle_core::Tensor::broadcast_as` to a shape of the same rank: an axis of
/// size one repeats, any other axis must have the size already.
#[verifier::external_body]
pub(crate) fn broadcast_as(t: &Tensor, shape: &[usize]) -> (r: Result<Tensor, candle_core::Error>)
    requires
        shape@.len() == tensor_dims(*t).len(),
        count(shape@) <= usize::MAX,
    ensures
        r is Ok <==> spreads(tensor_dims(*t), shape@),
        r matches Ok(o) ==> value(o) == spread(value(*t), shape@),
{
    t.broadcast_as(shape)
}

/// Axis `k` of `r` is axis `order[k]` of `v`.
pub open spec fn permuted(v: TensorValue, order: Seq<usize>, r: TensorValue) -> bool {
    &&& r.dims == order.map_values(|k: usize| v.dims[k as int])
    &&& r.element == v.element
    &&& r.location == v.location
    &&& r.keys.len() == v.keys.len()
    &&& forall|src: Seq<int>, dst: Seq<int>|
        #![trigger valid_index(v.dims, src), valid_index(r.dims, dst)]
        valid_index(v.dims, src) && valid_index(r.dims, dst) && (forall|k: int|
            0 <= k < order.len() ==> src[order[k] as int] == #[trigger] dst[k])
            ==> r.keys[offset(r.dims, dst)] == v.keys[offset(v.dims, src)]
}

/// Whether the matrices over the last two of four axes follow one another at even
/// distances in storage.
pub uninterp spec fn batched(t: Tensor) -> bool;

/// `candle_core::Tensor::permute`, on an order that names every axis once.
#[verifier::external_body]
pub(crate) fn permute(t: &Tensor, order: Vec<usize>) -> (r: Result<Tensor, candle_core::Error>)
    requires
        order@.len() == tensor_dims(*t).len(),
        forall|k: int| 0 <= k < order@.len() ==> #[trigger] order@[k] < order@.len(),
        order@.no_duplicates(),
    ensures
        r is Ok,
        permuted(value(*t), order@, value(r->Ok_0)),
        laid_out(*t) && order@.len() == 4 && order@[0] == 0 && order@[1] == 1 ==> batched(r->Ok_0),
{
    t.permute(order)
}

/// Tensors one after the other along an axis.
pub open spec fn joined(vs: Seq<TensorValue>, axis: int, r: TensorValue) -> bool {
    vs.len() > 0 && exists|parts: Seq<TensorValue>|
        #[trigger] gathers(vs, axis, parts) && r == parts.last()
}

/// What has been joined after each tensor of a list.
#[verifier::opaque]
pub open spec fn gathers(vs: Seq<TensorValue>, axis: int, parts: Seq<TensorValue>) -> bool {
    &&& parts.len() == vs.len()
    &&& parts[0] == vs[0]
    &&& forall|k: int|
        0 <= k < vs.len() - 1 ==> followed(#[trigger] parts[k], vs[k + 1], axis, parts[k + 1])
}

/// Two tensors one after the other along an axis.
pub open spec fn followed(a: TensorValue, b: TensorValue, axis: int, r: TensorValue) -> bool {
    &&& b.dims == a.dims.update(axis, b.dims[axis])
    &&& r.dims == a.dims.update(axis, (a.dims[axis] + b.dims[axis]) as usize)
    &&& r.element == a.element
    &&& r.location == a.location
    &&& r.keys.len() == count(r.dims)
    &&& forall|o: int, m: int, i: int|
        in_range(r.dims, axis, o, m, i) ==> #[trigger] r.at(axis, o, m, i) == if m < a.dims[axis] {
            a.at(axis, o, m, i)
        } else {
            b.at(axis, o, m - a.dims[axis], i)
        }
}

/// The places of a list of tensors along an axis, added up.
pub open spec fn total_places(vs: Seq<TensorValue>, axis: int) -> nat
    decreases vs.len(),
{
    if vs.len() == 0 {
        0
    } else {
        total_places(vs.drop_last(), axis) + vs.last().dims[axis] as nat
    }
}

/// Whether a machine integer can hold the places of tensors along an axis that
/// they all have.
pub open spec fn joinable(vs: Seq<TensorValue>, axis: int) -> bool {
    (forall|k: int| 0 <= k < vs.len() ==> axis < (#[trigger] vs[k]).dims.len()) ==> total_places(
        vs,
        axis,
    ) <= usize::MAX
}

/// Whether tensors in the memory of the processor can be joined: they have one
/// element type, and one shape but for the axis.
pub open spec fn lines_up(vs: Seq<TensorValue>, axis: int) -> bool {
    &&& vs.len() > 0
    &&& 0 <= axis < vs[0].dims.len()
    &&& forall|k: int|
        0 <= k < vs.len() ==> {
            &&& resident(#[trigger] vs[k])
            &&& vs[k].element == vs[0].element
            &&& vs[k].dims == vs[0].dims.update(axis, vs[k].dims[axis])
        }
}

/// `candle_core::Tensor::cat`. A single tensor comes back as it is; shapes that
/// differ on another axis are refused.
#[verifier::external_body]
pub(crate) fn cat(ts: &[Tensor], axis: usize) -> (r: Result<Tensor, candle_core::Error>)
    requires
        joinable(values(ts@), axis as int),
    ensures
        r matches Ok(o) ==> joined(values(ts@), axis as int, value(o)),
        lines_up(values(ts@), axis as int) ==> r is Ok,
        r matches Ok(o) ==> (forall|k: int| 0 <= k < ts@.len() ==> laid_out(#[trigger] ts@[k]))
            ==> laid_out(o),
{
    Tensor::cat(ts, axis)
}

/// The element of `v` at the place along an axis that `index` names.
pub open spec fn gathered(v: TensorValue, index: TensorValue, axis: int, r: TensorValue) -> bool {
    &&& r.dims == index.dims
    &&& r.element == v.element
    &&& r.location == v.location
    &&& r.keys.len() == index.keys.len()
    &&& forall|o: int, m: int, i: int|
        in_range(r.dims, axis, o, m, i) ==> #[trigger] r.at(axis, o, m, i) == v.at(
            axis,
            o,
            index.at(axis, o, m, i),
            i,
        )
}

/// Whether every index names a place on an axis, and none of them is the index
/// that the backend fills with zero.
pub open spec fn names_places(v: TensorValue, index: TensorValue, axis: int) -> bool {
    &&& index.element is U32
    &&& 0 <= axis < v.dims.len()
    &&& index.dims == v.dims.update(axis, index.dims[axis])
    &&& forall|k: int|
        0 <= k < index.keys.len() ==> 0 <= #[trigger] index.keys[k] < v.dims[axis]
            && index.keys[k] < u32::MAX
}

/// `candle_core::Tensor::gather`.
#[verifier::external_body]
pub(crate) fn gather(t: &Tensor, index: &Tensor, axis: usize) -> (r: Result<
    Tensor,
    candle_core::Error,
>)
    requires
        names_places(value(*t), value(*index), axis as int),
    ensures
        r matches Ok(o) ==> gathered(value(*t), value(*index), axis as int, value(o)),
        resident(value(*t)) && tensor_location(*index) is Cpu && laid_out(*t) && laid_out(*index)
            ==> r is Ok,
{
    t.gather(index, axis)
}

/// Whether `r` holds, for each row along the last axis, the places of the row
/// from its smallest element to its largest.
pub open spec fn sorts_rows(v: TensorValue, r: TensorValue) -> bool {
    let axis = v.dims.len() - 1;
    &&& r.dims == v.dims
    &&& r.element is U32
    &&& r.location == v.location
    &&& r.keys.len() == v.keys.len()
    &&& forall|o: int, m: int|
        in_range(r.dims, axis, o, m, 0) ==> 0 <= #[trigger] r.at(axis, o, m, 0) < v.dims[axis]
    &&& forall|o: int, m: int, n: int|
        #![trigger r.at(axis, o, m, 0), r.at(axis, o, n, 0)]
        in_range(r.dims, axis, o, m, 0) && in_range(r.dims, axis, o, n, 0) && m < n ==> r.at(
            axis,
            o,
            m,
            0,
        ) != r.at(axis, o, n, 0) && v.at(axis, o, r.at(axis, o, m, 0), 0) <= v.at(
            axis,
            o,
            r.at(axis, o, n, 0),
            0,
        )
}

/// `candle_core::Tensor::arg_sort_last_dim` in ascending order, on rows that a
/// 32-bit index can address and that hold no NaN. Which of two equal elements
/// comes first is open.
#[verifier::external_body]
pub(crate) fn arg_sort_last_dim(t: &Tensor) -> (r: Result<Tensor, candle_core::Error>)
    requires
        tensor_dims(*t).len() > 0,
        0 < tensor_dims(*t).last() < u32::MAX,
        plain(tensor_element(*t)),
        forall|k: int|
            0 <= k < tensor_keys(*t).len() ==> !is_nan(
                tensor_element(*t),
                #[trigger] tensor_keys(*t)[k],
            ),
    ensures
        r matches Ok(o) ==> sorts_rows(value(*t), value(o)),
        tensor_location(*t) is Cpu && laid_out(*t) ==> r is Ok,
{
    t.arg_sort_last_dim(true)
}

/// `candle_core::Tensor::to_vec1` of all elements of a tensor of 32-bit
/// integers.
#[verifier::external_body]
pub(crate) fn u32_values(t: &Tensor) -> (r: Result<Vec<u32>, candle_core::Error>)
    requires
        tensor_element(*t) is U32,
    ensures
        r matches Ok(v) ==> v@.len() == tensor_keys(*t).len() && forall|k: int|
            0 <= k < v@.len() ==> #[trigger] v@[k] == tensor_keys(*t)[k],
        tensor_location(*t) is Cpu ==> r is Ok,
{
    t.flatten_all()?.to_vec1()
}

/// `candle_core::Tensor::write_bytes` of a single-precision tensor, which writes
/// the bits of each element with the low byte first.
#[verifier::external_body]
pub(crate) fn f32_values(t: &Tensor) -> (r: Result<Vec<F32>, candle_core::Error>)
    requires
        tensor_element(*t) is F32,
    ensures
        r matches Ok(v) ==> v@.len() == tensor_keys(*t).len() && forall|k: int|
            0 <= k < v@.len() ==> #[trigger] v@[k].key() == tensor_keys(*t)[k],
        tensor_location(*t) is Cpu ==> r is Ok,
{
    let mut bytes = Vec::new();
    t.write_bytes(&mut bytes)?;
    let words = bytes.chunks_exact(4);
    Ok(words.map(|b| F32 { bits: u32::from_le_bytes([b[0], b[1], b[2], b[3]]) }).collect())
}

} // verus!
