//! Operations that compute with the elements of tensors.
//!
//! How a device rounds a floating-point result is its own affair. Each operation
//! has a relation in place of a number: it holds of the operands that went in and
//! of the result that came out. In the memory of the processor, an operation on
//! floating-point operands that fit does not fail, and in single and double
//! precision the basic operations give the number nearest to the exact result.

use candle_core::DType;
use candle_core::Device;
use candle_core::Tensor;
use vstd::prelude::*;

use crate::scalar::{finite_key, nan_key};
use crate::tensor::layout::{batched, dtype, element, laid_out};
use crate::tensor::value::{
    count, device_location, dtype_element, hosted, in_range, inner, is_double, is_float, is_integer,
    is_nan, matching, outer, plain, tensor_dims, tensor_element, tensor_keys, tensor_location,
    value, ElementType, Location, TensorValue,
};
use crate::rounding::{exact_type, finite, number, roots_to, rounds_to, scale, units};

verus! {

/// The element types that the backend computes with. On integers most of its
/// operations stop the program or overflow.
pub open spec fn computes(e: ElementType) -> bool {
    !is_integer(e)
}

/// `candle_core::Error::msg`. Nothing is claimed of the error.
#[verifier::external_body]
fn no_arithmetic() -> (r: candle_core::Error) {
    candle_core::Error::msg("integer elements are not computed with")
}

/// Refuses a tensor whose elements the backend does not compute with.
pub(crate) fn require_computable(t: &Tensor) -> (r: Result<(), candle_core::Error>)
    ensures
        r is Ok <==> computes(tensor_element(*t)),
{
    match element(dtype(t)) {
        ElementType::U8 | ElementType::U32 | ElementType::I16 | ElementType::I32
        | ElementType::I64 => Err(no_arithmetic()),
        _ => Ok(()),
    }
}

/// A tensor of the same shape and element type in the same place.
pub open spec fn like(v: TensorValue, r: TensorValue) -> bool {
    &&& r.dims == v.dims
    &&& r.element == v.element
    &&& r.location == v.location
    &&& r.keys.len() == v.keys.len()
}

/// A tensor with one axis taken out.
pub open spec fn reduced(v: TensorValue, axis: int, r: TensorValue) -> bool {
    &&& r.dims == v.dims.remove(axis)
    &&& r.element == v.element
    &&& r.location == v.location
    &&& r.keys.len() == count(r.dims)
}

/// Whether a floating-point tensor holds a number at a place.
pub open spec fn is_number(x: TensorValue, k: int) -> bool {
    is_float(x.element) && !is_nan(x.element, x.keys[k])
}

/// Whether `r` is the sum of two tensors, element by element.
pub uninterp spec fn is_sum(a: TensorValue, b: TensorValue, r: TensorValue) -> bool;

/// Both operands are in single precision in the memory of the processor.
pub open spec fn plain_singles(a: TensorValue, b: TensorValue) -> bool {
    a.element is F32 && b.element is F32 && a.location is Cpu
}

/// Zero changes no number that it is added to.
pub open spec fn keeps(a: TensorValue, b: TensorValue, r: TensorValue) -> bool {
    &&& like(a, r)
    &&& b.keys.len() == a.keys.len()
    &&& plain_singles(a, b) ==> forall|k: int|
        0 <= k < r.keys.len() && !nan_key(a.keys[k]) && b.keys[k] == 0
            ==> #[trigger] r.keys[k] == a.keys[k]
}

/// A finite number times zero is zero.
pub open spec fn vanishes(a: TensorValue, b: TensorValue, r: TensorValue) -> bool {
    &&& like(a, r)
    &&& b.keys.len() == a.keys.len()
    &&& plain_singles(a, b) ==> forall|k: int|
        0 <= k < r.keys.len() && finite_key(a.keys[k]) && b.keys[k] == 0
            ==> #[trigger] r.keys[k] == 0
}

/// Whether a tensor is in the memory of the processor, in single or double
/// precision.
pub open spec fn exact(v: TensorValue) -> bool {
    v.location is Cpu && exact_type(v.element)
}

/// The number at a place, in units of its type.
pub open spec fn units_at(v: TensorValue, k: int) -> int {
    units(v.element, v.keys[k])
}

/// Whether the number at a place is finite.
pub open spec fn finite_at(v: TensorValue, k: int) -> bool {
    finite(v.element, v.keys[k])
}

/// Whether the number at a place of `r` is the one nearest to `n / d` units.
pub open spec fn nearest_at(r: TensorValue, k: int, n: int, d: int) -> bool {
    rounds_to(r.element, n, d, r.keys[k])
}

/// What holds of a sum with an infinity: it is that infinity, unless the other
/// number is the opposite one.
pub open spec fn swallows(e: ElementType, a: int, b: int, r: int) -> bool {
    &&& finite(e, a) && number(e, b) && !finite(e, b) ==> r == b
    &&& number(e, a) && !finite(e, a) && (finite(e, b) || b == a) ==> r == a
}

/// The sum of finite numbers is the number nearest to the exact one, and an infinity
/// stays what it is.
#[verifier::opaque]
pub open spec fn sum_rounds(a: TensorValue, b: TensorValue, r: TensorValue) -> bool {
    exact(a) && b.element == a.element && r.element == a.element ==> {
        &&& forall|k: int|
            0 <= k < r.keys.len() && finite_at(a, k) && finite_at(b, k) ==> #[trigger] nearest_at(
                r,
                k,
                units_at(a, k) + units_at(b, k),
                1,
            )
        &&& forall|k: int|
            0 <= k < r.keys.len() ==> swallows(a.element, a.keys[k], b.keys[k], #[trigger] r.keys[k])
    }
}

/// The difference of finite numbers is the number nearest to the exact one.
#[verifier::opaque]
pub open spec fn difference_rounds(a: TensorValue, b: TensorValue, r: TensorValue) -> bool {
    exact(a) && b.element == a.element && r.element == a.element ==> forall|k: int|
        0 <= k < r.keys.len() && finite_at(a, k) && finite_at(b, k) ==> #[trigger] nearest_at(
            r,
            k,
            units_at(a, k) - units_at(b, k),
            1,
        )
}

/// The product of finite numbers is the number nearest to the exact one.
#[verifier::opaque]
pub open spec fn product_rounds(a: TensorValue, b: TensorValue, r: TensorValue) -> bool {
    exact(a) && b.element == a.element && r.element == a.element ==> forall|k: int|
        0 <= k < r.keys.len() && finite_at(a, k) && finite_at(b, k) ==> #[trigger] nearest_at(
            r,
            k,
            units_at(a, k) * units_at(b, k),
            scale(r.element),
        )
}

/// The quotient of a finite and a positive finite number is the number nearest to
/// the exact one.
#[verifier::opaque]
pub open spec fn quotient_rounds(a: TensorValue, b: TensorValue, r: TensorValue) -> bool {
    exact(a) && b.element == a.element && r.element == a.element ==> forall|k: int|
        0 <= k < r.keys.len() && finite_at(a, k) && finite_at(b, k) && b.keys[k] > 0
            ==> #[trigger] nearest_at(r, k, units_at(a, k) * scale(r.element), units_at(b, k))
}

/// One divided by a positive finite number is the number nearest to the exact one.
#[verifier::opaque]
pub open spec fn reciprocal_rounds(x: TensorValue, r: TensorValue) -> bool {
    exact(x) && r.element == x.element ==> forall|k: int|
        0 <= k < r.keys.len() && finite_at(x, k) && x.keys[k] > 0 ==> #[trigger] nearest_at(
            r,
            k,
            scale(r.element) * scale(r.element),
            units_at(x, k),
        )
}

/// The square of a finite number is the number nearest to the exact one.
#[verifier::opaque]
pub open spec fn square_rounds(x: TensorValue, r: TensorValue) -> bool {
    exact(x) && r.element == x.element ==> forall|k: int|
        0 <= k < r.keys.len() && finite_at(x, k) ==> #[trigger] nearest_at(
            r,
            k,
            units_at(x, k) * units_at(x, k),
            scale(r.element),
        )
}

/// The square root of a finite number that is not negative is the number nearest
/// to the exact one.
#[verifier::opaque]
pub open spec fn root_rounds(x: TensorValue, r: TensorValue) -> bool {
    exact(x) && r.element == x.element ==> forall|k: int|
        0 <= k < r.keys.len() && finite_at(x, k) && x.keys[k] >= 0 ==> roots_to(
            r.element,
            units_at(x, k) * scale(r.element),
            #[trigger] r.keys[k],
        )
}

/// Whether `r` is the number nearest to one of another type.
pub open spec fn converted(from: ElementType, key: int, to: ElementType, r: int) -> bool {
    rounds_to(to, units(from, key) * scale(to), scale(from), r)
}

/// Whether `r` is a number times `f`, rounded to `p`, plus `t`, rounded again.
pub open spec fn by_way_of(e: ElementType, x: int, f: int, t: int, p: int, r: int) -> bool {
    finite(e, f) && finite(e, t) ==> {
        &&& rounds_to(e, units(e, x) * units(e, f), scale(e), p)
        &&& if finite(e, p) {
            rounds_to(e, units(e, p) + units(e, t), 1, r)
        } else {
            r == p
        }
    }
}

/// Whether `r` is a number times a factor plus a term, both of which are given in
/// double precision: they are rounded to the type of the number, and so are the
/// product and the sum.
pub open spec fn multiplied(e: ElementType, x: int, factor: int, term: int, r: int) -> bool {
    exists|f: int, t: int, p: int|
        converted(ElementType::F64, factor, e, f) && converted(ElementType::F64, term, e, t)
            && #[trigger] by_way_of(e, x, f, t, p, r)
}

/// A finite number times a finite factor plus a finite term.
#[verifier::opaque]
pub open spec fn affine_rounds(
    x: TensorValue,
    factor: TensorValue,
    term: TensorValue,
    r: TensorValue,
) -> bool {
    exact(x) && r.element == x.element && is_double(factor) && is_double(term) && finite_at(
        factor,
        0,
    ) && finite_at(term, 0) ==> forall|k: int|
        0 <= k < r.keys.len() && finite_at(x, k) ==> multiplied(
            r.element,
            x.keys[k],
            factor.keys[0],
            term.keys[0],
            #[trigger] r.keys[k],
        )
}

/// What holds of the sum of finite numbers along an axis, in whatever order they
/// are added: one number is its own sum, two are added, and numbers that are not
/// negative add up to no less than each of them, and to nothing where they are all
/// zero.
pub open spec fn adds_up(x: TensorValue, axis: int, o: int, i: int, r: TensorValue) -> bool {
    let k = o * inner(x.dims, axis) + i;
    &&& x.dims[axis] == 1 ==> r.keys[k] == x.at(axis, o, 0, i)
    &&& x.dims[axis] == 2 ==> nearest_at(
        r,
        k,
        units(x.element, x.at(axis, o, 0, i)) + units(x.element, x.at(axis, o, 1, i)),
        1,
    )
    &&& (forall|m: int| 0 <= m < x.dims[axis] ==> #[trigger] x.at(axis, o, m, i) >= 0) ==> number(
        r.element,
        r.keys[k],
    ) && r.keys[k] >= 0 && forall|m: int|
        0 <= m < x.dims[axis] ==> r.keys[k] >= #[trigger] x.at(axis, o, m, i)
    &&& (forall|m: int| 0 <= m < x.dims[axis] ==> #[trigger] x.at(axis, o, m, i) == 0) ==> r.keys[k]
        == 0
}

/// Whether the numbers along an axis are all finite.
pub open spec fn finite_along(x: TensorValue, axis: int, o: int, i: int) -> bool {
    forall|m: int| 0 <= m < x.dims[axis] ==> finite(x.element, #[trigger] x.at(axis, o, m, i))
}

/// A sum along an axis.
#[verifier::opaque]
pub open spec fn total_rounds(x: TensorValue, axis: int, r: TensorValue) -> bool {
    exact(x) && r.element == x.element ==> forall|o: int, i: int|
        0 <= o < outer(x.dims, axis) && 0 <= i < inner(x.dims, axis) && finite_along(x, axis, o, i)
            ==> #[trigger] adds_up(x, axis, o, i, r)
}

/// Whether `r` is a number divided by a count: times the double-precision number
/// nearest to one over the count.
pub open spec fn shared(e: ElementType, x: int, n: int, r: int) -> bool {
    exists|w: int|
        #[trigger] rounds_to(ElementType::F64, scale(ElementType::F64), n, w) && multiplied(
            e,
            x,
            w,
            0,
            r,
        )
}

/// A mean along an axis is the sum divided by the number of places, where the sum is
/// finite and the places can be counted in double precision.
#[verifier::opaque]
pub open spec fn average_rounds(x: TensorValue, axis: int, r: TensorValue) -> bool {
    exact(x) && r.element == x.element && 1 <= x.dims[axis] <= 0x20_0000_0000_0000 ==> exists|
        total: TensorValue,
    | #[trigger]
        total_of(x, axis, total) && forall|k: int|
            0 <= k < r.keys.len() && finite_at(total, k) ==> shared(
                r.element,
                total.keys[k],
                x.dims[axis] as int,
                #[trigger] r.keys[k],
            )
}

/// What holds of the sum of all elements, which are finite, in whatever order they are
/// added: one number is its own sum, two are added, and numbers that are not negative
/// add up to no less than each of them, and to nothing where they are all zero.
pub open spec fn adds_all(x: TensorValue, t: int) -> bool {
    &&& x.keys.len() == 1 ==> t == x.keys[0]
    &&& x.keys.len() == 2 ==> rounds_to(x.element, units_at(x, 0) + units_at(x, 1), 1, t)
    &&& (forall|k: int| 0 <= k < x.keys.len() ==> #[trigger] x.keys[k] >= 0) ==> number(x.element, t)
        && t >= 0 && forall|k: int| 0 <= k < x.keys.len() ==> t >= #[trigger] x.keys[k]
    &&& (forall|k: int| 0 <= k < x.keys.len() ==> #[trigger] x.keys[k] == 0) ==> t == 0
}

/// Whether `r` is a sum of all elements divided by their number, where the sum is
/// finite.
pub open spec fn shared_by_all(x: TensorValue, t: int, r: int) -> bool {
    adds_all(x, t) && (finite(x.element, t) ==> shared(x.element, t, x.keys.len() as int, r))
}

/// A mean of all elements is their sum divided by their number, where they are finite
/// and can be counted in double precision.
#[verifier::opaque]
pub open spec fn overall_mean_rounds(x: TensorValue, r: TensorValue) -> bool {
    exact(x) && r.element == x.element && 1 <= x.keys.len() <= 0x20_0000_0000_0000 && (forall|
        k: int,
    |
        0 <= k < x.keys.len() ==> finite(x.element, #[trigger] x.keys[k])) ==> exists|t: int|
        #[trigger] shared_by_all(x, t, r.keys[0])
}

/// A variance is not negative.
#[verifier::opaque]
pub open spec fn variance_rounds(x: TensorValue, axis: int, r: TensorValue) -> bool {
    exact(x) && r.element == x.element ==> forall|k: int|
        0 <= k < r.keys.len() && number(r.element, r.keys[k]) ==> #[trigger] r.keys[k] >= 0
}

/// Two tensors that are computed with element by element: they have one shape and,
/// where there are any elements, one element type and one place, and so has the
/// result.
pub open spec fn side_by_side(a: TensorValue, b: TensorValue, r: TensorValue) -> bool {
    &&& b.dims == a.dims
    &&& b.keys.len() == a.keys.len()
    &&& a.keys.len() > 0 ==> matching(a, b)
    &&& like(a, r)
}

/// Whether `r` is the sum of two tensors, element by element, rounded where the
/// processor adds them.
pub open spec fn sum_of(a: TensorValue, b: TensorValue, r: TensorValue) -> bool {
    is_sum(a, b, r) && side_by_side(a, b, r) && sum_rounds(a, b, r)
}

/// Whether `r` is the difference of two tensors, element by element, rounded where
/// the processor subtracts them.
pub open spec fn difference_of(a: TensorValue, b: TensorValue, r: TensorValue) -> bool {
    is_difference(a, b, r) && side_by_side(a, b, r) && difference_rounds(a, b, r)
}

/// Whether `r` is the product of two tensors, element by element, rounded where the
/// processor multiplies them.
pub open spec fn product_of(a: TensorValue, b: TensorValue, r: TensorValue) -> bool {
    is_product(a, b, r) && side_by_side(a, b, r) && product_rounds(a, b, r)
}

/// Whether `r` is the quotient of two tensors, element by element, rounded where
/// the processor divides them.
pub open spec fn quotient_of(a: TensorValue, b: TensorValue, r: TensorValue) -> bool {
    is_quotient(a, b, r) && side_by_side(a, b, r) && quotient_rounds(a, b, r)
}

/// Whether `r` is one divided by each element, rounded where the processor divides.
pub open spec fn reciprocal_of(x: TensorValue, r: TensorValue) -> bool {
    is_reciprocal(x, r) && like(x, r) && reciprocal_rounds(x, r)
}

/// Whether `r` is the square of each element, rounded where the processor
/// multiplies.
pub open spec fn square_of(x: TensorValue, r: TensorValue) -> bool {
    is_square(x, r) && like(x, r) && square_rounds(x, r)
}

/// Whether `r` is the square root of each element, rounded where the processor
/// takes it.
pub open spec fn root_of(x: TensorValue, r: TensorValue) -> bool {
    is_root(x, r) && like(x, r) && root_rounds(x, r)
}

/// Whether `r` is each element times one number plus another, rounded where the
/// processor computes it.
pub open spec fn affine_of(
    x: TensorValue,
    factor: TensorValue,
    term: TensorValue,
    r: TensorValue,
) -> bool {
    is_affine(x, factor, term, r) && like(x, r) && affine_rounds(x, factor, term, r)
}

/// Whether `r` is the sum of `x` along an axis, which goes, with what holds of it in
/// any order of adding on the processor.
pub open spec fn total_of(x: TensorValue, axis: int, r: TensorValue) -> bool {
    is_total(x, axis, r) && reduced(x, axis, r) && total_rounds(x, axis, r)
}

/// Whether `r` is the mean of `x` along an axis, which goes, rounded where the
/// processor computes it.
pub open spec fn average_of(x: TensorValue, axis: int, r: TensorValue) -> bool {
    is_average(x, axis, r) && reduced(x, axis, r) && average_rounds(x, axis, r)
}

/// Whether `r` is the unbiased variance of `x` along an axis, which goes, and not
/// negative where the processor computes it.
pub open spec fn variance_of(x: TensorValue, axis: int, r: TensorValue) -> bool {
    is_variance(x, axis, r) && reduced(x, axis, r) && variance_rounds(x, axis, r)
}

/// Whether `r` is the mean of all elements, one number, rounded where the processor
/// computes it.
pub open spec fn overall_mean_of(x: TensorValue, r: TensorValue) -> bool {
    &&& is_overall_mean(x, r)
    &&& overall_mean_rounds(x, r)
    &&& r.dims.len() == 0
    &&& r.keys.len() == 1
    &&& r.element == x.element
    &&& r.location == x.location
}

/// `candle_core::Tensor::add`. Shapes that differ are refused, and so
/// are element types and places unless there are no elements. On the processor,
/// single-precision numbers stay as they are where zero is added to them, and
/// numbers in single or double precision are added as IEEE 754 says.
#[verifier::external_body]
fn backend_plus(a: &Tensor, b: &Tensor) -> (r: Result<Tensor, candle_core::Error>)
    requires
        computes(tensor_element(*a)),
    ensures
        r matches Ok(o) ==> tensor_dims(*b) == tensor_dims(*a) && like(value(*a), value(o))
            && is_sum(
            value(*a),
            value(*b),
            value(o),
        ),
        r matches Ok(o) ==> keeps(value(*a), value(*b), value(o)),
        hosted(value(*a)) && matching(value(*a), value(*b)) ==> r is Ok,
        r matches Ok(o) ==> sum_rounds(value(*a), value(*b), value(o)),
        r matches Ok(o) ==> side_by_side(value(*a), value(*b), value(o)),
{
    a.add(b)
}

/// The sum of two tensors of one shape. Integers are refused.
pub(crate) fn plus(a: &Tensor, b: &Tensor) -> (r: Result<Tensor, candle_core::Error>)
    ensures
        r matches Ok(o) ==> tensor_dims(*b) == tensor_dims(*a) && like(value(*a), value(o))
            && is_sum(
            value(*a),
            value(*b),
            value(o),
        ),
        r matches Ok(o) ==> keeps(value(*a), value(*b), value(o)),
        r is Ok ==> computes(tensor_element(*a)),
        hosted(value(*a)) && matching(value(*a), value(*b)) ==> r is Ok,
        r matches Ok(o) ==> sum_rounds(value(*a), value(*b), value(o)),
        r matches Ok(o) ==> side_by_side(value(*a), value(*b), value(o)),
{
    require_computable(a)?;
    backend_plus(a, b)
}

/// Whether `r` is the difference of two tensors, element by element.
pub uninterp spec fn is_difference(a: TensorValue, b: TensorValue, r: TensorValue) -> bool;

/// `candle_core::Tensor::sub`. Shapes that differ are refused, and so
/// are element types and places unless there are no elements. On the processor,
/// finite numbers in single or double precision are subtracted as IEEE 754 says.
#[verifier::external_body]
fn backend_subtract(a: &Tensor, b: &Tensor) -> (r: Result<Tensor, candle_core::Error>)
    requires
        computes(tensor_element(*a)),
    ensures
        r matches Ok(o) ==> tensor_dims(*b) == tensor_dims(*a) && like(value(*a), value(o))
            && is_difference(
            value(*a),
            value(*b),
            value(o),
        ),
        hosted(value(*a)) && matching(value(*a), value(*b)) ==> r is Ok,
        r matches Ok(o) ==> difference_rounds(value(*a), value(*b), value(o)),
        r matches Ok(o) ==> side_by_side(value(*a), value(*b), value(o)),
{
    a.sub(b)
}

/// The difference of two tensors of one shape. Integers are refused.
pub(crate) fn subtract(a: &Tensor, b: &Tensor) -> (r: Result<Tensor, candle_core::Error>)
    ensures
        r matches Ok(o) ==> tensor_dims(*b) == tensor_dims(*a) && like(value(*a), value(o))
            && is_difference(
            value(*a),
            value(*b),
            value(o),
        ),
        r is Ok ==> computes(tensor_element(*a)),
        hosted(value(*a)) && matching(value(*a), value(*b)) ==> r is Ok,
        r matches Ok(o) ==> difference_rounds(value(*a), value(*b), value(o)),
        r matches Ok(o) ==> side_by_side(value(*a), value(*b), value(o)),
{
    require_computable(a)?;
    backend_subtract(a, b)
}

/// Whether `r` is the product of two tensors, element by element.
pub uninterp spec fn is_product(a: TensorValue, b: TensorValue, r: TensorValue) -> bool;

/// `candle_core::Tensor::mul`. Shapes that differ are refused, and so
/// are element types and places unless there are no elements. On the processor,
/// a finite single-precision number times zero is zero, and finite numbers in
/// single or double precision are multiplied as IEEE 754 says.
#[verifier::external_body]
fn backend_multiply(a: &Tensor, b: &Tensor) -> (r: Result<Tensor, candle_core::Error>)
    requires
        computes(tensor_element(*a)),
    ensures
        r matches Ok(o) ==> tensor_dims(*b) == tensor_dims(*a) && like(value(*a), value(o))
            && is_product(
            value(*a),
            value(*b),
            value(o),
        ),
        r matches Ok(o) ==> vanishes(value(*a), value(*b), value(o)),
        hosted(value(*a)) && matching(value(*a), value(*b)) ==> r is Ok,
        r matches Ok(o) ==> product_rounds(value(*a), value(*b), value(o)),
        r matches Ok(o) ==> side_by_side(value(*a), value(*b), value(o)),
{
    a.mul(b)
}

/// The product of two tensors of one shape, element by element. Integers are
/// refused.
pub(crate) fn multiply(a: &Tensor, b: &Tensor) -> (r: Result<Tensor, candle_core::Error>)
    ensures
        r matches Ok(o) ==> tensor_dims(*b) == tensor_dims(*a) && like(value(*a), value(o))
            && is_product(
            value(*a),
            value(*b),
            value(o),
        ),
        r matches Ok(o) ==> vanishes(value(*a), value(*b), value(o)),
        r is Ok ==> computes(tensor_element(*a)),
        hosted(value(*a)) && matching(value(*a), value(*b)) ==> r is Ok,
        r matches Ok(o) ==> product_rounds(value(*a), value(*b), value(o)),
        r matches Ok(o) ==> side_by_side(value(*a), value(*b), value(o)),
{
    require_computable(a)?;
    backend_multiply(a, b)
}

/// Whether `r` is the quotient of two tensors, element by element.
pub uninterp spec fn is_quotient(a: TensorValue, b: TensorValue, r: TensorValue) -> bool;

/// `candle_core::Tensor::div`. Shapes that differ are refused, and so
/// are element types and places unless there are no elements. On the processor, a
/// finite number in single or double precision is divided by a positive one as IEEE
/// 754 says.
#[verifier::external_body]
fn backend_divide(a: &Tensor, b: &Tensor) -> (r: Result<Tensor, candle_core::Error>)
    requires
        computes(tensor_element(*a)),
    ensures
        r matches Ok(o) ==> tensor_dims(*b) == tensor_dims(*a) && like(value(*a), value(o))
            && is_quotient(
            value(*a),
            value(*b),
            value(o),
        ),
        hosted(value(*a)) && matching(value(*a), value(*b)) ==> r is Ok,
        r matches Ok(o) ==> quotient_rounds(value(*a), value(*b), value(o)),
        r matches Ok(o) ==> side_by_side(value(*a), value(*b), value(o)),
{
    a.div(b)
}

/// The quotient of two tensors of one shape, element by element. Integers are
/// refused.
pub(crate) fn divide(a: &Tensor, b: &Tensor) -> (r: Result<Tensor, candle_core::Error>)
    ensures
        r matches Ok(o) ==> tensor_dims(*b) == tensor_dims(*a) && like(value(*a), value(o))
            && is_quotient(
            value(*a),
            value(*b),
            value(o),
        ),
        r is Ok ==> computes(tensor_element(*a)),
        hosted(value(*a)) && matching(value(*a), value(*b)) ==> r is Ok,
        r matches Ok(o) ==> quotient_rounds(value(*a), value(*b), value(o)),
        r matches Ok(o) ==> side_by_side(value(*a), value(*b), value(o)),
{
    require_computable(a)?;
    backend_divide(a, b)
}

/// `candle_core::Tensor::maximum`: the larger of two numbers. A NaN on the left
/// stays or gives way to the right; what a NaN on the right does is left open.
#[verifier::external_body]
pub(crate) fn maximum(a: &Tensor, b: &Tensor) -> (r: Result<Tensor, candle_core::Error>)
    ensures
        r matches Ok(o) ==> tensor_dims(*b) == tensor_dims(*a) && like(value(*a), value(o))
            && maximum_of(
            value(*a),
            value(*b),
            value(o),
        ),
        hosted(value(*a)) && matching(value(*a), value(*b)) ==> r is Ok,
{
    a.maximum(b)
}

/// The larger of two numbers at each place, for element types whose keys
/// tell numbers from NaNs.
pub open spec fn maximum_of(a: TensorValue, b: TensorValue, r: TensorValue) -> bool {
    forall|k: int|
        plain(a.element) && a.element == b.element && 0 <= k < a.keys.len()
            && !is_nan(b.element, b.keys[k]) ==> if is_nan(a.element, a.keys[k]) {
            is_nan(r.element, #[trigger] r.keys[k]) || r.keys[k] == b.keys[k]
        } else {
            r.keys[k] == if a.keys[k] >= b.keys[k] {
                a.keys[k]
            } else {
                b.keys[k]
            }
        }
}

/// `candle_core::Tensor::minimum`: the smaller of two numbers. A NaN on the left
/// stays or gives way to the right; what a NaN on the right does is left open.
#[verifier::external_body]
pub(crate) fn minimum(a: &Tensor, b: &Tensor) -> (r: Result<Tensor, candle_core::Error>)
    ensures
        r matches Ok(o) ==> tensor_dims(*b) == tensor_dims(*a) && like(value(*a), value(o))
            && minimum_of(
            value(*a),
            value(*b),
            value(o),
        ),
        hosted(value(*a)) && matching(value(*a), value(*b)) ==> r is Ok,
{
    a.minimum(b)
}

/// The smaller of two numbers at each place, for element types whose keys
/// tell numbers from NaNs.
pub open spec fn minimum_of(a: TensorValue, b: TensorValue, r: TensorValue) -> bool {
    forall|k: int|
        plain(a.element) && a.element == b.element && 0 <= k < a.keys.len()
            && !is_nan(b.element, b.keys[k]) ==> if is_nan(a.element, a.keys[k]) {
            is_nan(r.element, #[trigger] r.keys[k]) || r.keys[k] == b.keys[k]
        } else {
            r.keys[k] == if a.keys[k] <= b.keys[k] {
                a.keys[k]
            } else {
                b.keys[k]
            }
        }
}

/// Whether `r` is the negation of each element.
pub open spec fn is_negation(x: TensorValue, r: TensorValue) -> bool {
    like(x, r) && forall|k: int|
        0 <= k < x.keys.len() && is_number(x, k) ==> #[trigger] r.keys[k] == -x.keys[k]
}

/// `candle_core::Tensor::neg`.
#[verifier::external_body]
fn backend_negate(x: &Tensor) -> (r: Result<Tensor, candle_core::Error>)
    requires
        computes(tensor_element(*x)),
    ensures
        r matches Ok(o) ==> like(value(*x), value(o)) && is_negation(value(*x), value(o)),
        hosted(value(*x)) ==> r is Ok,
{
    x.neg()
}

/// The negation of each element. Integers are refused.
pub(crate) fn negate(x: &Tensor) -> (r: Result<Tensor, candle_core::Error>)
    ensures
        r matches Ok(o) ==> like(value(*x), value(o)) && is_negation(value(*x), value(o)),
        r is Ok ==> computes(tensor_element(*x)),
        hosted(value(*x)) ==> r is Ok,
{
    require_computable(x)?;
    backend_negate(x)
}

/// Whether `r` is one divided by each element.
pub uninterp spec fn is_reciprocal(x: TensorValue, r: TensorValue) -> bool;

/// `candle_core::Tensor::recip`. On the processor, one is divided by a positive
/// number in single or double precision as IEEE 754 says.
#[verifier::external_body]
fn backend_reciprocal(x: &Tensor) -> (r: Result<Tensor, candle_core::Error>)
    requires
        computes(tensor_element(*x)),
    ensures
        r matches Ok(o) ==> like(value(*x), value(o)) && is_reciprocal(value(*x), value(o)),
        hosted(value(*x)) ==> r is Ok,
        r matches Ok(o) ==> reciprocal_rounds(value(*x), value(o)),
{
    x.recip()
}

/// One divided by each element. Integers are refused.
pub(crate) fn reciprocal(x: &Tensor) -> (r: Result<Tensor, candle_core::Error>)
    ensures
        r matches Ok(o) ==> like(value(*x), value(o)) && is_reciprocal(value(*x), value(o)),
        r is Ok ==> computes(tensor_element(*x)),
        hosted(value(*x)) ==> r is Ok,
        r matches Ok(o) ==> reciprocal_rounds(value(*x), value(o)),
{
    require_computable(x)?;
    backend_reciprocal(x)
}

/// Whether `r` is the square of each element.
pub uninterp spec fn is_square(x: TensorValue, r: TensorValue) -> bool;

/// `candle_core::Tensor::sqr`. On the processor, a finite number in single or
/// double precision is multiplied by itself as IEEE 754 says.
#[verifier::external_body]
fn backend_square(x: &Tensor) -> (r: Result<Tensor, candle_core::Error>)
    requires
        computes(tensor_element(*x)),
    ensures
        r matches Ok(o) ==> like(value(*x), value(o)) && is_square(value(*x), value(o)),
        hosted(value(*x)) ==> r is Ok,
        r matches Ok(o) ==> square_rounds(value(*x), value(o)),
{
    x.sqr()
}

/// The square of each element. Integers are refused.
pub(crate) fn square(x: &Tensor) -> (r: Result<Tensor, candle_core::Error>)
    ensures
        r matches Ok(o) ==> like(value(*x), value(o)) && is_square(value(*x), value(o)),
        r is Ok ==> computes(tensor_element(*x)),
        hosted(value(*x)) ==> r is Ok,
        r matches Ok(o) ==> square_rounds(value(*x), value(o)),
{
    require_computable(x)?;
    backend_square(x)
}

/// Whether `r` is the square root of each element.
pub uninterp spec fn is_root(x: TensorValue, r: TensorValue) -> bool;

/// `candle_core::Tensor::sqrt`. On the processor, the root of a number in single or
/// double precision is the exact one, rounded as IEEE 754 says.
#[verifier::external_body]
fn backend_square_root(x: &Tensor) -> (r: Result<Tensor, candle_core::Error>)
    requires
        computes(tensor_element(*x)),
    ensures
        r matches Ok(o) ==> like(value(*x), value(o)) && is_root(value(*x), value(o)),
        hosted(value(*x)) ==> r is Ok,
        r matches Ok(o) ==> root_rounds(value(*x), value(o)),
{
    x.sqrt()
}

/// The square root of each element. Integers are refused.
pub(crate) fn square_root(x: &Tensor) -> (r: Result<Tensor, candle_core::Error>)
    ensures
        r matches Ok(o) ==> like(value(*x), value(o)) && is_root(value(*x), value(o)),
        r is Ok ==> computes(tensor_element(*x)),
        hosted(value(*x)) ==> r is Ok,
        r matches Ok(o) ==> root_rounds(value(*x), value(o)),
{
    require_computable(x)?;
    backend_square_root(x)
}

/// Whether `r` is the absolute value of each element.
pub open spec fn is_magnitude(x: TensorValue, r: TensorValue) -> bool {
    forall|k: int|
        0 <= k < x.keys.len() && is_number(x, k) ==> #[trigger] r.keys[k] == if x.keys[k] < 0 {
            -x.keys[k]
        } else {
            x.keys[k]
        }
}

/// `candle_core::Tensor::abs`.
#[verifier::external_body]
fn backend_absolute(x: &Tensor) -> (r: Result<Tensor, candle_core::Error>)
    requires
        computes(tensor_element(*x)),
    ensures
        r matches Ok(o) ==> like(value(*x), value(o)) && is_magnitude(value(*x), value(o)),
        hosted(value(*x)) ==> r is Ok,
{
    x.abs()
}

/// The absolute value of each element. Integers are refused.
pub(crate) fn absolute(x: &Tensor) -> (r: Result<Tensor, candle_core::Error>)
    ensures
        r matches Ok(o) ==> like(value(*x), value(o)) && is_magnitude(value(*x), value(o)),
        r is Ok ==> computes(tensor_element(*x)),
        hosted(value(*x)) ==> r is Ok,
{
    require_computable(x)?;
    backend_absolute(x)
}

/// Whether `r` is the sign of each element.
pub open spec fn is_sign(x: TensorValue, r: TensorValue) -> bool {
    forall|k: int|
        0 <= k < x.keys.len() && is_number(x, k) ==> #[trigger] r.keys[k] == if x.keys[k] < 0 {
            -unit_key(x.element)
        } else if x.keys[k] > 0 {
            unit_key(x.element)
        } else {
            0
        }
}

/// `candle_core::Tensor::sign`.
#[verifier::external_body]
fn backend_sign(x: &Tensor) -> (r: Result<Tensor, candle_core::Error>)
    requires
        computes(tensor_element(*x)),
    ensures
        r matches Ok(o) ==> like(value(*x), value(o)) && is_sign(value(*x), value(o)),
        hosted(value(*x)) ==> r is Ok,
{
    x.sign()
}

/// The sign of each element. Integers are refused.
pub(crate) fn sign(x: &Tensor) -> (r: Result<Tensor, candle_core::Error>)
    ensures
        r matches Ok(o) ==> like(value(*x), value(o)) && is_sign(value(*x), value(o)),
        r is Ok ==> computes(tensor_element(*x)),
        hosted(value(*x)) ==> r is Ok,
{
    require_computable(x)?;
    backend_sign(x)
}

/// Whether `r` is the exponential of each element.
pub uninterp spec fn is_exponential(x: TensorValue, r: TensorValue) -> bool;

/// `candle_core::Tensor::exp`.
#[verifier::external_body]
fn backend_exponential(x: &Tensor) -> (r: Result<Tensor, candle_core::Error>)
    requires
        computes(tensor_element(*x)),
    ensures
        r matches Ok(o) ==> like(value(*x), value(o)) && is_exponential(value(*x), value(o)),
        hosted(value(*x)) ==> r is Ok,
{
    x.exp()
}

/// The exponential of each element. Integers are refused.
pub(crate) fn exponential(x: &Tensor) -> (r: Result<Tensor, candle_core::Error>)
    ensures
        r matches Ok(o) ==> like(value(*x), value(o)) && is_exponential(value(*x), value(o)),
        r is Ok ==> computes(tensor_element(*x)),
        hosted(value(*x)) ==> r is Ok,
{
    require_computable(x)?;
    backend_exponential(x)
}

/// Whether `r` is the hyperbolic tangent of each element.
pub uninterp spec fn is_tangent(x: TensorValue, r: TensorValue) -> bool;

/// `candle_core::Tensor::tanh`.
#[verifier::external_body]
fn backend_tanh(x: &Tensor) -> (r: Result<Tensor, candle_core::Error>)
    requires
        computes(tensor_element(*x)),
    ensures
        r matches Ok(o) ==> like(value(*x), value(o)) && is_tangent(value(*x), value(o)),
        hosted(value(*x)) ==> r is Ok,
{
    x.tanh()
}

/// The hyperbolic tangent of each element. Integers are refused.
pub(crate) fn tanh(x: &Tensor) -> (r: Result<Tensor, candle_core::Error>)
    ensures
        r matches Ok(o) ==> like(value(*x), value(o)) && is_tangent(value(*x), value(o)),
        r is Ok ==> computes(tensor_element(*x)),
        hosted(value(*x)) ==> r is Ok,
{
    require_computable(x)?;
    backend_tanh(x)
}

/// Whether `r` is each element, or zero where it is negative.
pub open spec fn is_ramp(x: TensorValue, r: TensorValue) -> bool {
    forall|k: int|
        0 <= k < x.keys.len() && is_number(x, k) ==> #[trigger] r.keys[k] == if x.keys[k] < 0 {
            0
        } else {
            x.keys[k]
        }
}

/// `candle_core::Tensor::relu`.
#[verifier::external_body]
fn backend_relu(x: &Tensor) -> (r: Result<Tensor, candle_core::Error>)
    requires
        computes(tensor_element(*x)),
    ensures
        r matches Ok(o) ==> like(value(*x), value(o)) && is_ramp(value(*x), value(o)),
        hosted(value(*x)) ==> r is Ok,
{
    x.relu()
}

/// Each element, or zero where it is negative. Integers are refused.
pub(crate) fn relu(x: &Tensor) -> (r: Result<Tensor, candle_core::Error>)
    ensures
        r matches Ok(o) ==> like(value(*x), value(o)) && is_ramp(value(*x), value(o)),
        r is Ok ==> computes(tensor_element(*x)),
        hosted(value(*x)) ==> r is Ok,
{
    require_computable(x)?;
    backend_relu(x)
}

/// Whether `r` is the Gaussian error unit of each element.
pub uninterp spec fn is_gelu(x: TensorValue, r: TensorValue) -> bool;

/// `candle_core::Tensor::gelu`.
#[verifier::external_body]
fn backend_gelu(x: &Tensor) -> (r: Result<Tensor, candle_core::Error>)
    requires
        computes(tensor_element(*x)),
    ensures
        r matches Ok(o) ==> like(value(*x), value(o)) && is_gelu(value(*x), value(o)),
        hosted(value(*x)) ==> r is Ok,
{
    x.gelu()
}

/// The Gaussian error unit of each element. Integers are refused.
pub(crate) fn gelu(x: &Tensor) -> (r: Result<Tensor, candle_core::Error>)
    ensures
        r matches Ok(o) ==> like(value(*x), value(o)) && is_gelu(value(*x), value(o)),
        r is Ok ==> computes(tensor_element(*x)),
        hosted(value(*x)) ==> r is Ok,
{
    require_computable(x)?;
    backend_gelu(x)
}

/// Whether `r` is the sigmoid-weighted unit of each element.
pub uninterp spec fn is_silu(x: TensorValue, r: TensorValue) -> bool;

/// `candle_core::Tensor::silu`.
#[verifier::external_body]
fn backend_silu(x: &Tensor) -> (r: Result<Tensor, candle_core::Error>)
    requires
        computes(tensor_element(*x)),
    ensures
        r matches Ok(o) ==> like(value(*x), value(o)) && is_silu(value(*x), value(o)),
        hosted(value(*x)) ==> r is Ok,
{
    x.silu()
}

/// The sigmoid-weighted unit of each element. Integers are refused.
pub(crate) fn silu(x: &Tensor) -> (r: Result<Tensor, candle_core::Error>)
    ensures
        r matches Ok(o) ==> like(value(*x), value(o)) && is_silu(value(*x), value(o)),
        r is Ok ==> computes(tensor_element(*x)),
        hosted(value(*x)) ==> r is Ok,
{
    require_computable(x)?;
    backend_silu(x)
}

/// Whether `r` is the Mish unit of each element.
pub uninterp spec fn is_mish(x: TensorValue, r: TensorValue) -> bool;

/// `candle_nn::ops::mish`, which is `candle_nn::Activation::Mish`.
#[verifier::external_body]
fn backend_mish(x: &Tensor) -> (r: Result<Tensor, candle_core::Error>)
    requires
        computes(tensor_element(*x)),
    ensures
        r matches Ok(o) ==> like(value(*x), value(o)) && is_mish(value(*x), value(o)),
        hosted(value(*x)) ==> r is Ok,
{
    candle_nn::ops::mish(x)
}

/// The Mish unit of each element. Integers are refused.
pub(crate) fn mish(x: &Tensor) -> (r: Result<Tensor, candle_core::Error>)
    ensures
        r matches Ok(o) ==> like(value(*x), value(o)) && is_mish(value(*x), value(o)),
        r is Ok ==> computes(tensor_element(*x)),
        hosted(value(*x)) ==> r is Ok,
{
    require_computable(x)?;
    backend_mish(x)
}

/// Whether `r` is each element times one number plus another.
pub uninterp spec fn is_affine(
    x: TensorValue,
    factor: TensorValue,
    term: TensorValue,
    r: TensorValue,
) -> bool;

/// `candle_core::Tensor::affine`, with the two numbers as double-precision
/// tensors without axes. On the processor, in single or double precision, the two
/// numbers are rounded to the type of the elements, each element is multiplied by
/// one and the other is added, both as IEEE 754 says.
#[verifier::external_body]
fn backend_affine(x: &Tensor, factor: &Tensor, term: &Tensor) -> (r: Result<
    Tensor,
    candle_core::Error,
>)
    requires
        computes(tensor_element(*x)),
    ensures
        r matches Ok(o) ==> like(value(*x), value(o)) && is_affine(
            value(*x),
            value(*factor),
            value(*term),
            value(o),
        ),
        hosted(value(*x)) && is_double(value(*factor)) && is_double(value(*term)) ==> r is Ok,
        r matches Ok(o) ==> laid_out(*x) ==> laid_out(o),
        r matches Ok(o) ==> affine_rounds(value(*x), value(*factor), value(*term), value(o)),
{
    x.affine(factor.to_scalar()?, term.to_scalar()?)
}

/// Each element times one number plus another. Integers are refused.
pub(crate) fn affine(x: &Tensor, factor: &Tensor, term: &Tensor) -> (r: Result<
    Tensor,
    candle_core::Error,
>)
    ensures
        r matches Ok(o) ==> like(value(*x), value(o)) && is_affine(
            value(*x),
            value(*factor),
            value(*term),
            value(o),
        ),
        r is Ok ==> computes(tensor_element(*x)),
        hosted(value(*x)) && is_double(value(*factor)) && is_double(value(*term)) ==> r is Ok,
        r matches Ok(o) ==> laid_out(*x) ==> laid_out(o),
        r matches Ok(o) ==> affine_rounds(value(*x), value(*factor), value(*term), value(o)),
{
    require_computable(x)?;
    backend_affine(x, factor, term)
}

/// Whether `r` is each element raised to a power.
pub uninterp spec fn is_power(x: TensorValue, exponent: TensorValue, r: TensorValue) -> bool;

/// `candle_core::Tensor::powf`, with the exponent as a double-precision tensor
/// without axes.
#[verifier::external_body]
pub(crate) fn power(x: &Tensor, exponent: &Tensor) -> (r: Result<Tensor, candle_core::Error>)
    ensures
        r matches Ok(o) ==> like(value(*x), value(o)) && is_power(
            value(*x),
            value(*exponent),
            value(o),
        ),
        hosted(value(*x)) && is_double(value(*exponent)) ==> r is Ok,
{
    x.powf(exponent.to_scalar()?)
}

/// Whether `r` is the matrix product of two tensors over their last two axes.
pub uninterp spec fn is_matrix_product(a: TensorValue, b: TensorValue, r: TensorValue) -> bool;

/// Whether two tensors in the memory of the processor can be multiplied as
/// matrices: the axes before the last two agree, and so do the last axis of one
/// and the one before the last of the other.
pub open spec fn multiplies(a: TensorValue, b: TensorValue) -> bool {
    let n = a.dims.len();
    &&& hosted(a)
    &&& b.element == a.element
    &&& b.location == a.location
    &&& n >= 2
    &&& b.dims.len() == n
    &&& a.dims[n - 1] == b.dims[n - 2]
    &&& forall|k: int| 0 <= k < n - 2 ==> #[trigger] a.dims[k] == b.dims[k]
}

/// `candle_core::Tensor::matmul`. On the processor, floating-point matrices that
/// fit are multiplied whatever their strides, and stacks of stacks of them where
/// they follow one another at even distances.
#[verifier::external_body]
pub(crate) fn matmul(a: &Tensor, b: &Tensor) -> (r: Result<Tensor, candle_core::Error>)
    ensures
        r matches Ok(o) ==> {
            let n = tensor_dims(*a).len();
            &&& n >= 2
            &&& tensor_dims(*b).len() == n
            &&& tensor_dims(*a)[n - 1] == tensor_dims(*b)[n - 2]
            &&& value(o) == value(*a).alongside(
                tensor_dims(*a).update(n - 1, tensor_dims(*b)[n - 1]),
                tensor_keys(o),
            )
            &&& tensor_keys(o).len() == count(tensor_dims(o))
            &&& is_matrix_product(value(*a), value(*b), value(o))
        },
        multiplies(value(*a), value(*b)) && (tensor_dims(*a).len() <= 3 || tensor_dims(*a).len() == 4
            && (laid_out(*a) || batched(*a)) && (laid_out(*b) || batched(*b))) ==> r is Ok,
{
    a.matmul(b)
}

/// Whether `r` is the sum of `x` along an axis, which goes.
pub uninterp spec fn is_total(x: TensorValue, axis: int, r: TensorValue) -> bool;

/// `candle_core::Tensor::sum` over one axis. On the processor the numbers are added
/// one by one or in groups, starting from zero, each time as IEEE 754 says.
#[verifier::external_body]
fn backend_sum(x: &Tensor, axis: usize) -> (r: Result<Tensor, candle_core::Error>)
    requires
        computes(tensor_element(*x)),
        axis < tensor_dims(*x).len(),
    ensures
        r matches Ok(o) ==> reduced(value(*x), axis as int, value(o)) && is_total(
            value(*x),
            axis as int,
            value(o),
        ),
        hosted(value(*x)) ==> r is Ok,
        r matches Ok(o) ==> laid_out(o),
        r matches Ok(o) ==> total_rounds(value(*x), axis as int, value(o)),
{
    x.sum(axis)
}

/// The sum along an axis. Integers are refused.
pub(crate) fn sum(x: &Tensor, axis: usize) -> (r: Result<Tensor, candle_core::Error>)
    requires
        axis < tensor_dims(*x).len(),
    ensures
        r matches Ok(o) ==> reduced(value(*x), axis as int, value(o)) && is_total(
            value(*x),
            axis as int,
            value(o),
        ),
        r is Ok ==> computes(tensor_element(*x)),
        hosted(value(*x)) ==> r is Ok,
        r matches Ok(o) ==> laid_out(o),
        r matches Ok(o) ==> total_rounds(value(*x), axis as int, value(o)),
{
    require_computable(x)?;
    backend_sum(x, axis)
}

/// Whether `r` is the mean of `x` along an axis, which goes.
pub uninterp spec fn is_average(x: TensorValue, axis: int, r: TensorValue) -> bool;

/// `candle_core::Tensor::mean` over one axis. On the processor it is the sum times
/// one over the number of places, in single or double precision as IEEE 754 says.
#[verifier::external_body]
fn backend_mean(x: &Tensor, axis: usize) -> (r: Result<Tensor, candle_core::Error>)
    requires
        computes(tensor_element(*x)),
        axis < tensor_dims(*x).len(),
    ensures
        r matches Ok(o) ==> reduced(value(*x), axis as int, value(o)) && is_average(
            value(*x),
            axis as int,
            value(o),
        ),
        hosted(value(*x)) ==> r is Ok,
        r matches Ok(o) ==> average_rounds(value(*x), axis as int, value(o)),
{
    x.mean(axis)
}

/// The mean along an axis. Integers are refused.
pub(crate) fn mean(x: &Tensor, axis: usize) -> (r: Result<Tensor, candle_core::Error>)
    requires
        axis < tensor_dims(*x).len(),
    ensures
        r matches Ok(o) ==> reduced(value(*x), axis as int, value(o)) && is_average(
            value(*x),
            axis as int,
            value(o),
        ),
        r is Ok ==> computes(tensor_element(*x)),
        hosted(value(*x)) ==> r is Ok,
        r matches Ok(o) ==> average_rounds(value(*x), axis as int, value(o)),
{
    require_computable(x)?;
    backend_mean(x, axis)
}

/// Whether `r` is the unbiased variance of `x` along an axis, which goes.
pub uninterp spec fn is_variance(x: TensorValue, axis: int, r: TensorValue) -> bool;

/// `candle_core::Tensor::var` over one axis. On the processor it is made of squares,
/// so no number that comes out is negative.
#[verifier::external_body]
fn backend_variance(x: &Tensor, axis: usize) -> (r: Result<Tensor, candle_core::Error>)
    requires
        computes(tensor_element(*x)),
        axis < tensor_dims(*x).len(),
        tensor_dims(*x)[axis as int] >= 1,
    ensures
        r matches Ok(o) ==> reduced(value(*x), axis as int, value(o)) && is_variance(
            value(*x),
            axis as int,
            value(o),
        ),
        hosted(value(*x)) ==> r is Ok,
        r matches Ok(o) ==> variance_rounds(value(*x), axis as int, value(o)),
{
    x.var(axis)
}

/// The variance along an axis. Integers are refused.
pub(crate) fn variance(x: &Tensor, axis: usize) -> (r: Result<Tensor, candle_core::Error>)
    requires
        axis < tensor_dims(*x).len(),
        tensor_dims(*x)[axis as int] >= 1,
    ensures
        r matches Ok(o) ==> reduced(value(*x), axis as int, value(o)) && is_variance(
            value(*x),
            axis as int,
            value(o),
        ),
        r is Ok ==> computes(tensor_element(*x)),
        hosted(value(*x)) ==> r is Ok,
        r matches Ok(o) ==> variance_rounds(value(*x), axis as int, value(o)),
{
    require_computable(x)?;
    backend_variance(x, axis)
}

/// Whether `r` is the mean of all elements.
pub uninterp spec fn is_overall_mean(x: TensorValue, r: TensorValue) -> bool;

/// `candle_core::Tensor::mean_all`. On the processor it is the sum times one over the
/// number of elements, in single or double precision as IEEE 754 says.
#[verifier::external_body]
fn backend_mean_all(x: &Tensor) -> (r: Result<Tensor, candle_core::Error>)
    requires
        computes(tensor_element(*x)),
    ensures
        r matches Ok(o) ==> value(o) == value(*x).alongside(Seq::empty(), tensor_keys(o))
            && tensor_keys(o).len() == 1 && is_overall_mean(value(*x), value(o)),
        hosted(value(*x)) ==> r is Ok,
        r matches Ok(o) ==> overall_mean_rounds(value(*x), value(o)),
{
    x.mean_all()
}

/// The mean of all elements. Integers are refused.
pub(crate) fn mean_all(x: &Tensor) -> (r: Result<Tensor, candle_core::Error>)
    ensures
        r matches Ok(o) ==> value(o) == value(*x).alongside(Seq::empty(), tensor_keys(o))
            && tensor_keys(o).len() == 1 && is_overall_mean(value(*x), value(o)),
        r is Ok ==> computes(tensor_element(*x)),
        hosted(value(*x)) ==> r is Ok,
        r matches Ok(o) ==> overall_mean_rounds(value(*x), value(o)),
{
    require_computable(x)?;
    backend_mean_all(x)
}

/// The smallest element along an axis, where the elements are ordered as their
/// keys and none is a NaN.
pub open spec fn least_along(x: TensorValue, axis: int, r: TensorValue) -> bool {
    &&& r.dims == x.dims.update(axis, 1)
    &&& r.element == x.element
    &&& r.location == x.location
    &&& r.keys.len() == count(r.dims)
    &&& plain(x.element) && (forall|k: int|
        0 <= k < x.keys.len() ==> !is_nan(x.element, #[trigger] x.keys[k])) ==> forall|
        o: int,
        m: int,
        i: int,
    |
        #![trigger r.at(axis, o, 0, i), x.at(axis, o, m, i)]
        in_range(x.dims, axis, o, m, i) ==> r.at(axis, o, 0, i) <= x.at(axis, o, m, i) && exists|
            n: int,
        |
            in_range(x.dims, axis, o, n, i) && #[trigger] x.at(axis, o, n, i) == r.at(axis, o, 0, i)
}

/// `candle_core::Tensor::min_keepdim`, on an axis that is not empty. Nothing is
/// claimed of the order where an element is a NaN or has a narrow float type.
#[verifier::external_body]
pub(crate) fn min_keepdim(x: &Tensor, axis: usize) -> (r: Result<Tensor, candle_core::Error>)
    requires
        axis < tensor_dims(*x).len(),
        tensor_dims(*x)[axis as int] > 0,
    ensures
        r matches Ok(o) ==> least_along(value(*x), axis as int, value(o)),
        hosted(value(*x)) && tensor_keys(*x).len() > 0 ==> r is Ok,
{
    x.min_keepdim(axis)
}

/// Whether `r` is `x` turned into shares that add up to one along an axis.
pub uninterp spec fn is_softmax(x: TensorValue, axis: int, r: TensorValue) -> bool;

/// `candle_nn::ops::softmax`, on an axis that is not empty.
#[verifier::external_body]
fn backend_softmax(x: &Tensor, axis: usize) -> (r: Result<Tensor, candle_core::Error>)
    requires
        computes(tensor_element(*x)),
        axis < tensor_dims(*x).len(),
        tensor_dims(*x)[axis as int] > 0,
    ensures
        r matches Ok(o) ==> like(value(*x), value(o)) && is_softmax(
            value(*x),
            axis as int,
            value(o),
        ),
        hosted(value(*x)) && tensor_keys(*x).len() > 0 ==> r is Ok,
{
    candle_nn::ops::softmax(x, axis)
}

/// Shares along an axis. Integers are refused.
pub(crate) fn softmax(x: &Tensor, axis: usize) -> (r: Result<Tensor, candle_core::Error>)
    requires
        axis < tensor_dims(*x).len(),
        tensor_dims(*x)[axis as int] > 0,
    ensures
        r matches Ok(o) ==> like(value(*x), value(o)) && is_softmax(
            value(*x),
            axis as int,
            value(o),
        ),
        r is Ok ==> computes(tensor_element(*x)),
        hosted(value(*x)) && tensor_keys(*x).len() > 0 ==> r is Ok,
{
    require_computable(x)?;
    backend_softmax(x, axis)
}

/// Whether `r` is the fused softmax of `x` along its last axis.
pub uninterp spec fn is_last_softmax(x: TensorValue, r: TensorValue) -> bool;

/// `candle_nn::ops::softmax_last_dim`, on a last axis that is not empty.
#[verifier::external_body]
pub(crate) fn softmax_last_dim(x: &Tensor) -> (r: Result<Tensor, candle_core::Error>)
    requires
        tensor_dims(*x).len() > 0,
        tensor_dims(*x).last() > 0,
    ensures
        r matches Ok(o) ==> like(value(*x), value(o)) && is_last_softmax(value(*x), value(o)),
        hosted(value(*x)) && laid_out(*x) ==> r is Ok,
        r matches Ok(o) ==> laid_out(o),
{
    candle_nn::ops::softmax_last_dim(x)
}

/// The elements of `a` where the condition is not zero, and those of `b`
/// elsewhere.
pub open spec fn chosen(cond: TensorValue, a: TensorValue, b: TensorValue, r: TensorValue) -> bool {
    &&& like(a, r)
    &&& forall|k: int|
        0 <= k < r.keys.len() ==> #[trigger] r.keys[k] == if cond.keys[k] != 0 {
            a.keys[k]
        } else {
            b.keys[k]
        }
}

/// `candle_core::Tensor::where_cond`.
#[verifier::external_body]
pub(crate) fn where_cond(cond: &Tensor, a: &Tensor, b: &Tensor) -> (r: Result<
    Tensor,
    candle_core::Error,
>)
    ensures
        r matches Ok(o) ==> tensor_dims(*cond) == tensor_dims(*a) && tensor_dims(*b) == tensor_dims(
            *a,
        ) && chosen(value(*cond), value(*a), value(*b), value(o)),
        tensor_element(*cond) is U8 && tensor_location(*cond) is Cpu && tensor_dims(*cond)
            == tensor_dims(*a) && hosted(value(*a)) && matching(value(*a), value(*b)) ==> r is Ok,
        r matches Ok(o) ==> laid_out(o),
{
    cond.where_cond(a, b)
}

/// `candle_core::Tensor::tril2` with 8-bit elements: one on the diagonal and
/// below it, zero above.
#[verifier::external_body]
pub(crate) fn lower_triangle(n: usize, device: &Device) -> (r: Result<Tensor, candle_core::Error>)
    requires
        n <= u32::MAX,
        n * n <= usize::MAX,
    ensures
        r matches Ok(o) ==> value(o) == (TensorValue {
            dims: seq![n, n],
            keys: Seq::new((n * n) as nat, |k: int| if k % n as int <= k / n as int { 1 } else { 0 }),
            element: ElementType::U8,
            location: device_location(*device),
        }),
        n > 0 && device_location(*device) is Cpu ==> r is Ok,
{
    Tensor::tril2(n, DType::U8, device)
}

/// The key of the number one in a floating-point type.
pub open spec fn unit_key(e: ElementType) -> int {
    match e {
        ElementType::F64 => 0x3ff0_0000_0000_0000,
        _ => 0x3f80_0000,
    }
}

/// One on the diagonal, zero elsewhere.
pub open spec fn identity(n: usize, e: ElementType, location: Location) -> TensorValue {
    TensorValue {
        dims: seq![n, n],
        keys: Seq::new(
            (n * n) as nat,
            |k: int|
                if k % n as int == k / n as int {
                    unit_key(e)
                } else {
                    0
                },
        ),
        element: e,
        location,
    }
}

/// `candle_core::Tensor::eye`: one on the diagonal, zero elsewhere.
#[verifier::external_body]
pub(crate) fn identity_matrix(n: usize, d: DType, device: &Device) -> (r: Result<
    Tensor,
    candle_core::Error,
>)
    requires
        n <= u32::MAX,
        n * n <= usize::MAX,
        is_float(dtype_element(d)),
    ensures
        r matches Ok(o) ==> value(o) == identity(n, dtype_element(d), device_location(*device)),
        n > 0 && device_location(*device) is Cpu ==> r is Ok,
{
    Tensor::eye(n, d, device)
}

} // verus!
