//! Tensors that a planner keeps from one plan to the next.

use candle_core::DType;
use candle_core::Device;
use candle_core::Tensor;
use vstd::prelude::*;

use crate::error::{lift, message, Result, SwmError};
use crate::planner::config::{copy_numbers, ActionBounds};
use crate::scalar::{nan_key, F32};
use crate::tensor::facts::{lemma_counts, lemma_spread_in_range};
use crate::tensor::layout::{
    broadcast_as, cast_of, contiguous, element, location, reshape, share, to_dtype,
};
use crate::tensor::make::{filled, from_f32, zeros};
use crate::tensor::ranks::element_count;
use crate::tensor::value::{
    count, device_location, dtype_element, is_float, is_nan, plain, spreads, tensor_dims,
    tensor_keys, value, ElementType, Location, TensorValue,
};

verus! {

/// The order keys of a list of numbers.
pub open spec fn keys_of(values: Seq<F32>) -> Seq<int> {
    values.map_values(|x: F32| x.key())
}

/// A list of numbers as a single-precision tensor.
pub open spec fn single(values: Seq<F32>, dims: Seq<usize>, location: Location) -> TensorValue {
    TensorValue { dims, keys: keys_of(values), element: ElementType::F32, location }
}

/// Numbers rounded to an element type: in single precision they stay as they
/// are, and no rounding makes or removes a NaN.
pub open spec fn rounded(
    values: Seq<F32>,
    dims: Seq<usize>,
    e: ElementType,
    location: Location,
    keys: Seq<int>,
) -> bool {
    &&& keys.len() == values.len()
    &&& cast_of(
        single(values, dims, location),
        TensorValue { dims, keys, element: e, location },
    )
    &&& e is F32 ==> keys == keys_of(values)
    &&& is_float(e) ==> forall|k: int|
        0 <= k < keys.len() ==> is_nan(e, #[trigger] keys[k]) == nan_key(values[k].key())
}

/// One number rounded to an element type.
pub open spec fn rounded_number(x: F32, e: ElementType, location: Location, c: Seq<int>) -> bool {
    rounded(seq![x], seq![1usize, 1, 1], e, location, c)
}

/// One bound for each action component, ready to be spread over candidates.
pub open spec fn bound_tensor(
    values: Seq<F32>,
    e: ElementType,
    location: Location,
    v: TensorValue,
) -> bool {
    &&& v.dims == seq![1usize, 1, 1, values.len() as usize]
    &&& v.element == e
    &&& v.location == location
    &&& rounded(values, seq![values.len() as usize], e, location, v.keys)
}

/// A sequence whose elements are all one number.
pub open spec fn uniform(
    x: F32,
    dims: Seq<usize>,
    e: ElementType,
    location: Location,
    v: TensorValue,
) -> bool {
    &&& v.dims == dims
    &&& v.element == e
    &&& v.location == location
    &&& v.keys.len() == count(dims)
    &&& x.key() == 0 && plain(e) ==> v.keys == filled(dims, 0)
    &&& x.key() != 0 ==> exists|c: Seq<int>|
        #[trigger] rounded_number(x, e, location, c) && v.keys == filled(dims, c[0])
}

/// Bound tensors with what they were made for.
#[derive(Debug)]
pub struct CachedBounds {
    pub location: Location,
    pub element: ElementType,
    pub low_values: Vec<F32>,
    pub high_values: Vec<F32>,
    pub low: Tensor,
    pub high: Tensor,
}

/// A uniform sequence with what it was made for.
#[derive(Debug)]
pub struct CachedSequence {
    pub location: Location,
    pub element: ElementType,
    pub batch: usize,
    pub horizon: usize,
    pub action_dim: usize,
    pub value_bits: u32,
    pub tensor: Tensor,
}

fn same_values(a: &[F32], b: &[F32]) -> (r: bool)
    ensures
        r == (keys_of(a@) == keys_of(b@)),
{
    if a.len() != b.len() {
        proof {
            assert(keys_of(a@).len() != keys_of(b@).len());
        }
        return false;
    }
    let mut i: usize = 0;
    while i < a.len()
        invariant
            i <= a@.len(),
            a@.len() == b@.len(),
            forall|k: int| 0 <= k < i ==> (#[trigger] a@[k]).key() == b@[k].key(),
        decreases a@.len() - i,
    {
        if a[i].order_key() != b[i].order_key() {
            proof {
                assert(keys_of(a@)[i as int] != keys_of(b@)[i as int]);
            }
            return false;
        }
        i = i + 1;
    }
    proof {
        assert(keys_of(a@) =~= keys_of(b@));
    }
    true
}

impl CachedBounds {
    pub open spec fn fits(self, bounds: ActionBounds, e: ElementType, location: Location) -> bool {
        &&& self.location == location
        &&& self.element == e
        &&& keys_of(self.low_values@) == keys_of(bounds.low@)
        &&& keys_of(self.high_values@) == keys_of(bounds.high@)
    }

    pub open spec fn well_formed(self) -> bool {
        &&& bound_tensor(self.low_values@, self.element, self.location, value(self.low))
        &&& bound_tensor(self.high_values@, self.element, self.location, value(self.high))
    }

    /// Whether the tensors were made for these bounds.
    pub fn matches(&self, bounds: &ActionBounds, e: ElementType, location: Location) -> (r: bool)
        ensures
            r == self.fits(*bounds, e, location),
    {
        self.location == location && self.element == e && same_values(
            self.low_values.as_slice(),
            bounds.low.as_slice(),
        ) && same_values(self.high_values.as_slice(), bounds.high.as_slice())
    }
}

impl CachedSequence {
    pub open spec fn fits(
        self,
        batch: usize,
        horizon: usize,
        action_dim: usize,
        e: ElementType,
        location: Location,
        x: F32,
    ) -> bool {
        &&& self.location == location
        &&& self.element == e
        &&& self.batch == batch
        &&& self.horizon == horizon
        &&& self.action_dim == action_dim
        &&& self.value_bits == x.bits
    }

    pub open spec fn well_formed(self) -> bool {
        uniform(
            F32 { bits: self.value_bits },
            seq![self.batch, self.horizon, self.action_dim],
            self.element,
            self.location,
            value(self.tensor),
        )
    }

    /// Whether the sequence was made for this request.
    pub fn matches(
        &self,
        batch: usize,
        horizon: usize,
        action_dim: usize,
        e: ElementType,
        location: Location,
        x: F32,
    ) -> (r: bool)
        ensures
            r == self.fits(batch, horizon, action_dim, e, location, x),
    {
        self.location == location && self.element == e && self.batch == batch && self.horizon
            == horizon && self.action_dim == action_dim && self.value_bits == x.bits
    }
}

/// What a planner keeps: the latest bound tensors and the latest sequence.
#[derive(Debug)]
pub struct PlannerWorkspace {
    pub bounds_cache: Option<CachedBounds>,
    pub sequence_cache: Option<CachedSequence>,
}

impl PlannerWorkspace {
    pub open spec fn well_formed(self) -> bool {
        &&& self.bounds_cache matches Some(c) ==> c.well_formed()
        &&& self.sequence_cache matches Some(c) ==> c.well_formed()
    }

    pub fn new() -> (r: Self)
        ensures
            r.bounds_cache is None,
            r.sequence_cache is None,
            r.well_formed(),
    {
        Self { bounds_cache: None, sequence_cache: None }
    }

    /// The bounds as tensors: those kept from before when they were made for the
    /// same bounds, element type and place, and new ones otherwise, which are
    /// then kept.
    pub fn bounds(&mut self, bounds: &ActionBounds, dtype: DType, device: &Device) -> (r: Result<
        (Tensor, Tensor),
    >)
        requires
            old(self).well_formed(),
        ensures
            final(self).well_formed(),
            final(self).sequence_cache == old(self).sequence_cache,
            r matches Ok(p) ==> bound_tensor(
                bounds.low@,
                dtype_element(dtype),
                device_location(*device),
                value(p.0),
            ) && bound_tensor(
                bounds.high@,
                dtype_element(dtype),
                device_location(*device),
                value(p.1),
            ),
            old(self).bounds_cache matches Some(c) ==> c.fits(
                *bounds,
                dtype_element(dtype),
                device_location(*device),
            ) ==> r == Ok::<(Tensor, Tensor), SwmError>((c.low, c.high))
                && *final(self) == *old(self),
            r matches Ok(p) ==> final(self).bounds_cache matches Some(c) && c.low == p.0 && c.high
                == p.1 && c.fits(*bounds, dtype_element(dtype), device_location(*device)),
            r is Err ==> *final(self) == *old(self) && r->Err_0 is Backend,
            device_location(*device) is Cpu && plain(dtype_element(dtype)) ==> r is Ok,
    {
        let place = location(device);
        let e = element(dtype);
        if let Some(cached) = &self.bounds_cache {
            if cached.matches(bounds, e, place) {
                proof {
                    assert(keys_of(bounds.low@).len() == bounds.low@.len());
                    assert(keys_of(cached.low_values@).len() == cached.low_values@.len());
                    assert(keys_of(bounds.high@).len() == bounds.high@.len());
                    assert(keys_of(cached.high_values@).len() == cached.high_values@.len());
                    lemma_same_keys(cached.low_values@, bounds.low@, e, place, value(cached.low));
                    lemma_same_keys(cached.high_values@, bounds.high@, e, place, value(cached.high));
                }
                return Ok((share(&cached.low), share(&cached.high)));
            }
        }
        let low = bound_values(bounds.low.as_slice(), dtype, device)?;
        let high = bound_values(bounds.high.as_slice(), dtype, device)?;
        self.bounds_cache = Some(
            CachedBounds {
                location: place,
                element: e,
                low_values: copy_numbers(bounds.low.as_slice()),
                high_values: copy_numbers(bounds.high.as_slice()),
                low: share(&low),
                high: share(&high),
            },
        );
        Ok((low, high))
    }

    /// A sequence `[batch, horizon, action_dim]` of one number: the one kept
    /// from before when it was made for the same request, and a new one
    /// otherwise, which is then kept.
    pub fn sequence(
        &mut self,
        batch: usize,
        horizon: usize,
        action_dim: usize,
        dtype: DType,
        device: &Device,
        x: F32,
    ) -> (r: Result<Tensor>)
        requires
            old(self).well_formed(),
        ensures
            final(self).well_formed(),
            final(self).bounds_cache == old(self).bounds_cache,
            r matches Ok(t) ==> uniform(
                x,
                seq![batch, horizon, action_dim],
                dtype_element(dtype),
                device_location(*device),
                value(t),
            ),
            old(self).sequence_cache matches Some(c) ==> c.fits(
                batch,
                horizon,
                action_dim,
                dtype_element(dtype),
                device_location(*device),
                x,
            ) ==> r == Ok::<Tensor, SwmError>(c.tensor) && *final(self) == *old(self),
            r matches Ok(t) ==> final(self).sequence_cache matches Some(c) && c.tensor == t
                && c.fits(
                batch,
                horizon,
                action_dim,
                dtype_element(dtype),
                device_location(*device),
                x,
            ),
            r is Err ==> *final(self) == *old(self),
            r matches Err(SwmError::Message(m)) ==> m@ == "plan shape overflowed"@ && count(
                seq![batch, horizon, action_dim],
            ) > usize::MAX,
            device_location(*device) is Cpu && plain(dtype_element(dtype)) && count(
                seq![batch, horizon, action_dim],
            ) <= usize::MAX ==> r is Ok,
    {
        let place = location(device);
        let e = element(dtype);
        if let Some(cached) = &self.sequence_cache {
            if cached.matches(batch, horizon, action_dim, e, place, x) {
                return Ok(share(&cached.tensor));
            }
        }
        let tensor = uniform_sequence(batch, horizon, action_dim, dtype, device, x)?;
        self.sequence_cache = Some(
            CachedSequence {
                location: place,
                element: e,
                batch,
                horizon,
                action_dim,
                value_bits: x.bits,
                tensor: share(&tensor),
            },
        );
        Ok(tensor)
    }
}

impl Clone for PlannerWorkspace {
    /// A copy of a planner starts with an empty workspace.
    fn clone(&self) -> (r: Self)
        ensures
            r.bounds_cache is None,
            r.sequence_cache is None,
    {
        Self::new()
    }
}

proof fn lemma_same_keys(
    a: Seq<F32>,
    b: Seq<F32>,
    e: ElementType,
    location: Location,
    v: TensorValue,
)
    requires
        keys_of(a) == keys_of(b),
        bound_tensor(a, e, location, v),
    ensures
        bound_tensor(b, e, location, v),
{
    assert(keys_of(a).len() == a.len() && keys_of(b).len() == b.len());
    assert forall|k: int| 0 <= k < b.len() implies (#[trigger] b[k]).key() == a[k].key() by {
        assert(keys_of(a)[k] == a[k].key());
        assert(keys_of(b)[k] == b[k].key());
    }
}

fn bound_values(values: &[F32], dtype: DType, device: &Device) -> (r: Result<Tensor>)
    ensures
        r matches Ok(t) ==> bound_tensor(
            values@,
            dtype_element(dtype),
            device_location(*device),
            value(t),
        ),
        r is Err ==> r->Err_0 is Backend,
        device_location(*device) is Cpu && plain(dtype_element(dtype)) ==> r is Ok,
{
    let n: usize = values.len();
    proof {
        lemma_counts(n, 0, 0, 0);
        lemma_counts(1, 1, 1, n);
        vstd::arithmetic::mul::lemma_mul_basics(n as int);
    }
    let flat_shape: [usize; 1] = [n];
    let shape: [usize; 4] = [1, 1, 1, n];
    proof {
        assert(flat_shape@ =~= seq![n]);
        assert(shape@ =~= seq![1usize, 1, 1, n]);
    }
    let flat = lift(from_f32(values, &flat_shape, device))?;
    let cast = lift(to_dtype(&flat, dtype))?;
    proof {
        assert(value(flat) == single(values@, seq![n], device_location(*device)));
        assert(keys_of(values@).len() == values@.len());
        assert forall|k: int| 0 <= k < tensor_keys(cast).len() && is_float(
            dtype_element(dtype),
        ) implies is_nan(dtype_element(dtype), #[trigger] tensor_keys(cast)[k]) == nan_key(
            values@[k].key(),
        ) by {
            assert(tensor_keys(flat)[k] == values@[k].key());
        }
    }
    let out = lift(reshape(&cast, &shape))?;
    proof {
        assert(tensor_dims(out) =~= seq![1usize, 1, 1, n]);
        assert(value(cast) == TensorValue {
            dims: seq![n],
            keys: tensor_keys(cast),
            element: dtype_element(dtype),
            location: device_location(*device),
        });
    }
    Ok(out)
}

/// Makes a sequence `[batch, horizon, action_dim]` of one number.
pub fn uniform_sequence(
    batch: usize,
    horizon: usize,
    action_dim: usize,
    dtype: DType,
    device: &Device,
    x: F32,
) -> (r: Result<Tensor>)
    ensures
        r matches Ok(t) ==> uniform(
            x,
            seq![batch, horizon, action_dim],
            dtype_element(dtype),
            device_location(*device),
            value(t),
        ),
        r matches Err(SwmError::Message(m)) ==> m@ == "plan shape overflowed"@ && count(
            seq![batch, horizon, action_dim],
        ) > usize::MAX,
        device_location(*device) is Cpu && plain(dtype_element(dtype)) && count(
            seq![batch, horizon, action_dim],
        ) <= usize::MAX ==> r is Ok,
{
    let shape: [usize; 3] = [batch, horizon, action_dim];
    let ghost dst = seq![batch, horizon, action_dim];
    proof {
        assert(shape@ =~= dst);
    }
    if element_count(&shape).is_none() {
        return Err(message("plan shape overflowed"));
    }
    if x.order_key() == 0 {
        return lift(zeros(&shape, dtype, device));
    }
    let ghost src = seq![1usize, 1, 1];
    proof {
        lemma_counts(1, 1, 1, 1);
    }
    let number: [F32; 1] = [x];
    let unit: [usize; 3] = [1, 1, 1];
    proof {
        assert(number@ =~= seq![x]);
        assert(unit@ =~= src);
    }
    let one = lift(from_f32(&number, &unit, device))?;
    let cast = lift(to_dtype(&one, dtype))?;
    proof {
        assert(value(one) == single(seq![x], src, device_location(*device)));
        assert(keys_of(seq![x]).len() == 1);
        assert(tensor_keys(one)[0] == x.key());
        assert(rounded_number(
            x,
            dtype_element(dtype),
            device_location(*device),
            tensor_keys(cast),
        ));
        assert(spreads(src, dst));
    }
    let wide = lift(broadcast_as(&cast, &shape))?;
    let out = lift(contiguous(&wide))?;
    proof {
        assert forall|k: int| 0 <= k < count(dst) implies #[trigger] tensor_keys(out)[k]
            == tensor_keys(cast)[0] by {
            lemma_spread_in_range(src, dst, k);
        }
        assert(tensor_keys(out) =~= filled(dst, tensor_keys(cast)[0]));
    }
    Ok(out)
}

} // verus!
