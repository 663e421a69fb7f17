//! What a backend tensor holds, as far as the library speaks of it.

use vstd::prelude::*;

use crate::scalar::{nan_key, F64_INFINITY};

verus! {

#[verifier::external_type_specification]
#[verifier::external_body]
pub struct ExTensor(candle_core::Tensor);

#[verifier::external_type_specification]
#[verifier::external_body]
pub struct ExDevice(candle_core::Device);

#[verifier::external_type_specification]
#[verifier::external_body]
pub struct ExDType(candle_core::DType);

/// The element types of the backend.
#[derive(Debug, Clone, Copy, PartialEq, Eq, Structural)]
pub enum ElementType {
    U8,
    U32,
    I16,
    I32,
    I64,
    BF16,
    F16,
    F32,
    F64,
    F8E4M3,
    F6E2M3,
    F6E3M2,
    F4,
    F8E8M0,
}

/// Where a device or a tensor is.
#[derive(Debug, Clone, Copy, PartialEq, Eq, Structural)]
pub enum Location {
    Cpu,
    Cuda(usize),
    Metal(usize),
}

/// The size of each axis of a tensor.
pub uninterp spec fn tensor_dims(t: candle_core::Tensor) -> Seq<usize>;

/// One integer for each element of a tensor, in row-major order of the axes.
/// An integer element stands for itself. A floating-point element has the key
/// of `scalar`: that of the equal double-precision number for `ElementType::F64`, and
/// that of the equal single-precision number for the narrower types.
pub uninterp spec fn tensor_keys(t: candle_core::Tensor) -> Seq<int>;

/// The element type of a tensor.
pub uninterp spec fn tensor_element(t: candle_core::Tensor) -> ElementType;

/// Where the elements of a tensor are.
pub uninterp spec fn tensor_location(t: candle_core::Tensor) -> Location;

/// The element type that a backend tag stands for.
pub uninterp spec fn dtype_element(d: candle_core::DType) -> ElementType;

/// Where a device is.
pub uninterp spec fn device_location(d: candle_core::Device) -> Location;

/// The floating-point element types that keep their numbers apart by key.
pub open spec fn is_float(e: ElementType) -> bool {
    e is BF16 || e is F16 || e is F32 || e is F64
}

/// The integer element types.
pub open spec fn is_integer(e: ElementType) -> bool {
    e is U8 || e is U32 || e is I16 || e is I32 || e is I64
}

/// The element types whose keys tell numbers from NaNs.
pub open spec fn plain(e: ElementType) -> bool {
    is_float(e) || is_integer(e)
}

/// Whether a key of an element type belongs to no number.
pub open spec fn is_nan(e: ElementType, key: int) -> bool {
    match e {
        ElementType::F64 => key < -F64_INFINITY || key > F64_INFINITY,
        ElementType::BF16 | ElementType::F16 | ElementType::F32 => nan_key(key),
        _ => false,
    }
}

/// A tensor as a value.
pub struct TensorValue {
    pub dims: Seq<usize>,
    pub keys: Seq<int>,
    pub element: ElementType,
    pub location: Location,
}

/// The value of a backend tensor.
pub open spec fn value(t: candle_core::Tensor) -> TensorValue {
    TensorValue {
        dims: tensor_dims(t),
        keys: tensor_keys(t),
        element: tensor_element(t),
        location: tensor_location(t),
    }
}

/// Whether a tensor is in the memory of the processor, with elements that the
/// processor computes with.
pub open spec fn hosted(v: TensorValue) -> bool {
    v.location is Cpu && is_float(v.element)
}

/// Whether a tensor is in the memory of the processor, with plain elements.
pub open spec fn resident(v: TensorValue) -> bool {
    v.location is Cpu && plain(v.element)
}

/// Whether two tensors have one shape, one element type and one place.
pub open spec fn matching(a: TensorValue, b: TensorValue) -> bool {
    a.dims == b.dims && a.element == b.element && a.location == b.location
}

/// Whether a tensor is one double-precision number in the memory of the
/// processor.
pub open spec fn is_double(v: TensorValue) -> bool {
    v.dims == Seq::<usize>::empty() && v.element is F64 && v.location is Cpu
}

/// The values of a list of tensors.
pub open spec fn values(ts: Seq<candle_core::Tensor>) -> Seq<TensorValue> {
    ts.map_values(|t: candle_core::Tensor| value(t))
}

/// The number of elements of a shape.
pub open spec fn count(dims: Seq<usize>) -> nat
    decreases dims.len(),
{
    if dims.len() == 0 {
        1
    } else {
        dims[0] as nat * count(dims.skip(1))
    }
}

/// The number of elements that one step along an axis passes over.
pub open spec fn inner(dims: Seq<usize>, axis: int) -> nat {
    count(dims.skip(axis + 1))
}

/// The number of index tuples of the axes before an axis.
pub open spec fn outer(dims: Seq<usize>, axis: int) -> nat {
    count(dims.take(axis))
}

/// The row-major position of the element at place `m` of an axis, below the
/// index tuple number `o` of the axes before it and above number `i` of those
/// after it.
pub open spec fn position(dims: Seq<usize>, axis: int, o: int, m: int, i: int) -> int {
    (o * dims[axis] + m) * inner(dims, axis) + i
}

/// Whether such a place exists.
pub open spec fn in_range(dims: Seq<usize>, axis: int, o: int, m: int, i: int) -> bool {
    0 <= o < outer(dims, axis) && 0 <= m < dims[axis] && 0 <= i < inner(dims, axis)
}

impl TensorValue {
    /// The key at a place along an axis.
    pub open spec fn at(self, axis: int, o: int, m: int, i: int) -> int {
        self.keys[position(self.dims, axis, o, m, i)]
    }

    /// The number of axes.
    pub open spec fn rank(self) -> nat {
        self.dims.len()
    }

    /// The same elements in another shape.
    pub open spec fn shaped(self, dims: Seq<usize>) -> TensorValue {
        TensorValue { dims, ..self }
    }

    /// Another tensor of the same element type in the same place.
    pub open spec fn alongside(self, dims: Seq<usize>, keys: Seq<int>) -> TensorValue {
        TensorValue { dims, keys, ..self }
    }
}

/// Whether `index` picks one place on each axis.
pub open spec fn valid_index(dims: Seq<usize>, index: Seq<int>) -> bool {
    index.len() == dims.len() && forall|k: int|
        0 <= k < dims.len() ==> 0 <= #[trigger] index[k] < dims[k]
}

/// The row-major position of an index tuple.
pub open spec fn offset(dims: Seq<usize>, index: Seq<int>) -> int
    decreases dims.len(),
{
    if dims.len() == 0 || index.len() == 0 {
        0
    } else {
        index[0] * count(dims.skip(1)) + offset(dims.skip(1), index.skip(1))
    }
}

/// Whether a shape can be spread over another of the same rank.
pub open spec fn spreads(src: Seq<usize>, dst: Seq<usize>) -> bool {
    src.len() == dst.len() && forall|k: int|
        0 <= k < src.len() ==> #[trigger] src[k] == dst[k] || src[k] == 1
}

/// The element of `src` that stands at position `k` of `dst` when `src` is
/// spread over it: an axis of size one repeats its only place.
pub open spec fn spread_position(src: Seq<usize>, dst: Seq<usize>, k: int) -> int
    decreases src.len(),
{
    if src.len() == 0 || dst.len() == 0 {
        0
    } else {
        let below = count(dst.skip(1)) as int;
        let place = if src[0] == dst[0] {
            k / below
        } else {
            0
        };
        place * count(src.skip(1)) + spread_position(src.skip(1), dst.skip(1), k % below)
    }
}

/// A tensor spread over a shape of the same rank.
pub open spec fn spread(v: TensorValue, dims: Seq<usize>) -> TensorValue {
    v.alongside(
        dims,
        Seq::new(count(dims), |k: int| v.keys[spread_position(v.dims, dims, k)]),
    )
}

} // verus!
