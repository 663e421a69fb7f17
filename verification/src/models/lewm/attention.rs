//! Causal attention over the frames of a history.

use candle_core::Tensor;
use candle_nn::LayerNorm;
use candle_nn::Linear;
use vstd::prelude::*;

use crate::error::{lift, message, Result, SwmError};
use crate::scalar::{f32_key, f64_key, F32, F64};
use crate::tensor::arithmetic::{
    affine, affine_of, is_last_softmax, is_matrix_product, is_power, like, lower_triangle, matmul,
    power, softmax_last_dim, where_cond,
};
use crate::tensor::facts::{lemma_counts, lemma_five, lemma_spread_in_range};
use crate::tensor::layers::{
    apply_linear, apply_norm, from_file, full, held_as, is_linear, is_normed, linear, linear_from,
    linear_home, linear_no_bias, linear_sizes, linear_stored, norm_from, norm_home, norm_size,
    norm_stored, ready, store_path, store_source, unbiased_from, unbiased_stored, ParameterStore,
};
use crate::tensor::layout::{
    broadcast_as, cast_of, contiguous, device_of, dims, dtype, dtype_of, laid_out, narrow, narrowed,
    permute, permuted, reshape, squeeze, to_dtype,
};
use crate::tensor::make::{double, from_f32, from_f64, from_u32, natural};
use crate::tensor::norms::{load_norm, EPSILON};
use crate::tensor::ranks::element_count;
use crate::tensor::value::{
    count, hosted, is_double, resident, spread_position, spreads, tensor_dims, tensor_element,
    tensor_keys, value, ElementType, Location, TensorValue,
};

verus! {

/// The bits of -0.5.
pub const MINUS_HALF: u64 = 0xbfe0_0000_0000_0000;

/// The bits of negative infinity in single precision.
pub const LOWEST: u32 = 0xff80_0000;

/// One divided by the square root of the width of a head.
pub open spec fn is_head_scale(dim_head: usize, r: TensorValue) -> bool {
    exists|number: TensorValue|
        #[trigger] cast_of(natural(dim_head as u32), number) && number.element is F64 && is_power(
            number,
            double(F64 { bits: MINUS_HALF }),
            r,
        )
}

fn head_scale(dim_head: u32) -> (r: Result<Tensor>)
    ensures
        r matches Ok(o) ==> is_head_scale(dim_head as usize, value(o)),
        r matches Err(e) ==> e is Backend,
        r is Ok,
        is_double(value(r->Ok_0)),
{
    let number = lift(from_u32(dim_head))?;
    let wide = lift(to_dtype(&number, dtype_of(ElementType::F64)))?;
    let exponent = lift(from_f64(F64::from_bits(MINUS_HALF)))?;
    let out = lift(power(&wide, &exponent))?;
    proof {
        assert(cast_of(natural(dim_head), value(wide)));
    }
    Ok(out)
}

/// Queries, keys and values first, then batch, heads, frames.
pub open spec fn parts_first() -> Seq<usize> {
    seq![2usize, 0, 3, 1, 4]
}

/// The last two of four axes change places.
pub open spec fn tail_swapped() -> Seq<usize> {
    seq![0usize, 1, 3, 2]
}

/// The middle two of four axes change places.
pub open spec fn middle_swapped() -> Seq<usize> {
    seq![0usize, 2, 1, 3]
}

/// One part along the first axis, which goes.
pub open spec fn is_part(v: TensorValue, i: int, r: TensorValue) -> bool {
    exists|one: TensorValue|
        #[trigger] narrowed(v, 0, i, 1, one) && r == one.shaped(v.dims.skip(1))
}

fn take_part(v: &Tensor, i: usize) -> (r: Result<Tensor>)
    requires
        tensor_dims(*v).len() > 0,
        i < tensor_dims(*v)[0],
    ensures
        r matches Ok(o) ==> is_part(value(*v), i as int, value(o)) && value(o) == value(
            *v,
        ).alongside(tensor_dims(*v).skip(1), tensor_keys(o)),
        r matches Err(e) ==> e is Backend,
        resident(value(*v)) ==> r is Ok,
        r matches Ok(o) ==> laid_out(o),
{
    let one = lift(narrow(v, 0, i, 1))?;
    proof {
        assert(tensor_dims(one).remove(0) =~= tensor_dims(*v).skip(1));
    }
    let part = lift(squeeze(&one, 0))?;
    let out = lift(contiguous(&part))?;
    proof {
        assert(narrowed(value(*v), 0, i as int, 1, value(one)));
    }
    Ok(out)
}

/// Negative infinity in single precision, as a tensor of four axes.
pub open spec fn lowest(location: Location) -> TensorValue {
    TensorValue {
        dims: seq![1usize, 1, 1, 1],
        keys: seq![f32_key(LOWEST)],
        element: ElementType::F32,
        location,
    }
}

/// Whether the frame of a column of a square matrix comes no later than that of
/// its row, at a row-major position.
pub open spec fn visible(t: int, position: int) -> bool {
    position % t <= position / t
}

/// Scores `[batch, heads, t, t]` in which no frame sees a later one: where the
/// column is beyond the row, negative infinity stands.
pub open spec fn is_causal(scores: TensorValue, r: TensorValue) -> bool {
    let t = scores.dims[3] as int;
    &&& like(scores, r)
    &&& exists|low: TensorValue|
        #[trigger] cast_of(lowest(scores.location), low) && low.element == scores.element
            && forall|k: int|
            0 <= k < r.keys.len() ==> #[trigger] r.keys[k] == if visible(t, k % (t * t)) {
                scores.keys[k]
            } else {
                low.keys[0]
            }
}

/// A matrix spread over batch and heads repeats whole.
proof fn lemma_spread_matrix(b: usize, h: usize, t: usize, k: int)
    requires
        0 <= k < count(seq![b, h, t, t]),
    ensures
        spread_position(seq![1usize, 1, t, t], seq![b, h, t, t], k) == k % (t * t),
        0 <= k % (t * t) < t * t,
{
    let (src, dst) = (seq![1usize, 1, t, t], seq![b, h, t, t]);
    let area = t * t;
    lemma_counts(b, h, t, t);
    lemma_counts(h, t, t, 0);
    lemma_counts(t, t, 0, 0);
    lemma_counts(1, t, t, 0);
    lemma_counts(t, 0, 0, 0);
    assert(dst.skip(1) =~= seq![h, t, t]);
    assert(dst.skip(1).skip(1) =~= seq![t, t]);
    assert(dst.skip(1).skip(1).skip(1) =~= seq![t]);
    assert(dst.skip(1).skip(1).skip(1).skip(1) =~= Seq::<usize>::empty());
    assert(src.skip(1) =~= seq![1usize, t, t]);
    assert(src.skip(1).skip(1) =~= seq![t, t]);
    assert(src.skip(1).skip(1).skip(1) =~= seq![t]);
    assert(src.skip(1).skip(1).skip(1).skip(1) =~= Seq::<usize>::empty());
    let hm = h * area;
    assert(area > 0 && hm > 0) by (nonlinear_arith)
        requires
            0 <= k < b * (h * (t * t)),
            area == t * t,
            hm == h * area,
            b >= 0,
            h >= 0,
            t >= 0,
    ;
    let k1 = k % hm;
    let k2 = k1 % area;
    vstd::arithmetic::div_mod::lemma_mod_mod(k, area, h as int);
    assert(area * h == hm) by (nonlinear_arith)
        requires
            hm == h * area,
    ;
    assert(k2 == k % area);
    vstd::arithmetic::div_mod::lemma_mod_bound(k, area);
    assert(t > 0) by (nonlinear_arith)
        requires
            area == t * t,
            area > 0,
    ;
    let k3 = k2 % (t as int);
    let place1 = if 1 == b { k / hm } else { 0 };
    let place2 = if 1 == h { k1 / area } else { 0 };
    // With one entry or one head the whole position lies in one matrix.
    if b == 1 {
        assert(k / hm == 0) by {
            vstd::arithmetic::mul::lemma_mul_basics(hm);
            vstd::arithmetic::div_mod::lemma_basic_div(k, hm);
        }
    }
    if h == 1 {
        vstd::arithmetic::mul::lemma_mul_basics(area);
        vstd::arithmetic::div_mod::lemma_mod_bound(k, hm);
        assert(k1 / area == 0) by {
            vstd::arithmetic::div_mod::lemma_basic_div(k1, area);
        }
    }
    reveal_with_fuel(spread_position, 5);
    vstd::arithmetic::div_mod::lemma_fundamental_div_mod(k2, t as int);
    vstd::arithmetic::mul::lemma_mul_basics(k3);
    vstd::arithmetic::mul::lemma_mul_is_commutative(k2 / (t as int), t as int);
    assert(spread_position(seq![t], seq![t], k3) == k3) by {
        assert(seq![t].skip(1) =~= Seq::<usize>::empty());
        assert(k3 / 1 == k3);
        assert(k3 % 1 == 0);
        assert(spread_position(Seq::<usize>::empty(), Seq::<usize>::empty(), 0) == 0);
    }
    assert(spread_position(seq![t, t], seq![t, t], k2) == k2) by {
        assert(seq![t, t].skip(1) =~= seq![t]);
    }
    assert(spread_position(seq![1usize, t, t], seq![h, t, t], k1) == k2) by {
        assert(seq![1usize, t, t].skip(1) =~= seq![t, t]);
        assert(seq![h, t, t].skip(1) =~= seq![t, t]);
        assert(place2 == 0);
        vstd::arithmetic::mul::lemma_mul_basics(area);
    }
    assert(place1 == 0);
    vstd::arithmetic::mul::lemma_mul_basics(count(seq![1usize, t, t]) as int);
}

/// A single element spread over any four axes stands everywhere.
proof fn lemma_spread_single(b: usize, h: usize, s: usize, t: usize, k: int)
    requires
        0 <= k < count(seq![b, h, s, t]),
    ensures
        spread_position(seq![1usize, 1, 1, 1], seq![b, h, s, t], k) == 0,
{
    let (src, dst) = (seq![1usize, 1, 1, 1], seq![b, h, s, t]);
    assert(spreads(src, dst));
    lemma_spread_in_range(src, dst, k);
    lemma_counts(1, 1, 1, 1);
}

/// Puts negative infinity where a frame would see a later one.
fn hide_later(scores: &Tensor, b: usize, h: usize, t: usize) -> (r: Result<Tensor>)
    requires
        tensor_dims(*scores) == seq![b, h, t, t],
        tensor_keys(*scores).len() == count(tensor_dims(*scores)),
        count(tensor_dims(*scores)) <= usize::MAX,
        t <= u32::MAX,
        t * t <= usize::MAX,
    ensures
        r matches Ok(o) ==> is_causal(value(*scores), value(o)),
        r matches Err(e) ==> e is Backend,
        t > 0 && hosted(value(*scores)) ==> r is Ok,
        r matches Ok(o) ==> laid_out(o),
{
    let ghost v = value(*scores);
    let device = device_of(scores);
    let shape: [usize; 4] = [b, h, t, t];
    let square: [usize; 4] = [1, 1, t, t];
    let single: [usize; 4] = [1, 1, 1, 1];
    proof {
        assert(shape@ =~= seq![b, h, t, t]);
        assert(square@ =~= seq![1usize, 1, t, t]);
        assert(single@ =~= seq![1usize, 1, 1, 1]);
        lemma_counts(1, 1, t, t);
        lemma_counts(t, t, 0, 0);
        lemma_counts(1, 1, 1, 1);
        vstd::arithmetic::mul::lemma_mul_basics((t * t) as int);
        assert(spreads(square@, shape@));
        assert(spreads(single@, shape@));
    }
    let triangle = lift(lower_triangle(t, device))?;
    let lifted = lift(reshape(&triangle, &square))?;
    let mask = lift(broadcast_as(&lifted, &shape))?;
    let values: [F32; 1] = [F32::from_bits(LOWEST)];
    let low = lift(from_f32(&values, &single, device))?;
    proof {
        assert(values@.map_values(|x: F32| x.key()) =~= seq![f32_key(LOWEST)]);
    }
    let low = lift(to_dtype(&low, dtype(scores)))?;
    let wide_low = lift(broadcast_as(&low, &shape))?;
    let out = lift(where_cond(&mask, scores, &wide_low))?;
    proof {
        assert(cast_of(lowest(v.location), value(low)));
        let r = value(out);
        assert forall|k: int| 0 <= k < r.keys.len() implies #[trigger] r.keys[k] == if visible(
            t as int,
            k % (t * t),
        ) {
            v.keys[k]
        } else {
            value(low).keys[0]
        } by {
            lemma_spread_matrix(b, h, t, k);
            lemma_spread_single(b, h, t, t, k);
            assert(value(mask).keys[k] == value(lifted).keys[k % (t * t)]);
            assert(value(wide_low).keys[k] == value(low).keys[0]);
        }
    }
    Ok(out)
}

/// Attention of each frame to itself and the frames before it.
#[derive(Debug, Clone)]
pub struct Attention {
    pub norm: LayerNorm,
    pub to_qkv: Linear,
    pub to_out: Linear,
    pub heads: usize,
    pub dim_head: usize,
}

impl Attention {
    pub open spec fn sized(self, dim: usize) -> bool {
        let inner = self.heads * self.dim_head;
        &&& dim > 0
        &&& inner * 3 <= usize::MAX
        &&& self.dim_head <= u32::MAX
        &&& norm_size(self.norm) == dim
        &&& linear_sizes(self.to_qkv) == seq![dim, (inner * 3) as usize]
        &&& linear_sizes(self.to_out) == seq![inner as usize, dim]
    }

    pub open spec fn loaded(self, source: int, path: Seq<Seq<char>>) -> bool {
        &&& norm_from(source, path.push("norm"@), f64_key(EPSILON), self.norm)
        &&& unbiased_from(source, path.push("to_qkv"@), self.to_qkv)
        &&& linear_from(source, path.push("to_out"@).push("0"@), self.to_out)
    }

    /// The parameters of the attention have an element type in the memory of the
    /// processor.
    pub open spec fn home(self, e: ElementType) -> bool {
        &&& norm_home(self.norm, e)
        &&& linear_home(self.to_qkv, e)
        &&& linear_home(self.to_out, e)
    }

    /// Queries, keys and values `[3, batch, heads, t, width]`.
    pub open spec fn projects(self, x: TensorValue, r: TensorValue) -> bool {
        exists|n: TensorValue, flat: TensorValue|
            #[trigger] is_normed(self.norm, x, n) && #[trigger] is_linear(self.to_qkv, n, flat)
                && permuted(
                flat.shaped(seq![x.dims[0], x.dims[1], 3usize, self.heads, self.dim_head]),
                parts_first(),
                r,
            )
    }

    /// How much each frame attends to each other one, before any is hidden.
    pub open spec fn weighs(self, parts: TensorValue, r: TensorValue) -> bool {
        exists|
            raw: TensorValue,
            scale: TensorValue,
            queries: TensorValue,
            keys: TensorValue,
            turned: TensorValue,
        |
            #[trigger] is_part(parts, 0, raw) && #[trigger] is_head_scale(self.dim_head, scale)
                && #[trigger] affine_of(raw, scale, double(F64 { bits: 0 }), queries)
                && #[trigger] is_part(parts, 1, keys) && #[trigger] permuted(
                keys,
                tail_swapped(),
                turned,
            ) && is_matrix_product(queries, turned, r)
    }

    /// What the attention makes of frames `[batch, t, width]`.
    #[verifier::opaque]
    pub open spec fn of(self, x: TensorValue, r: TensorValue) -> bool {
        exists|
            parts: TensorValue,
            scores: TensorValue,
            causal: TensorValue,
            shares: TensorValue,
            values: TensorValue,
            mixed: TensorValue,
            back: TensorValue,
        |
            #[trigger] self.projects(x, parts) && #[trigger] self.weighs(parts, scores)
                && #[trigger] is_causal(scores, causal)
                    && #[trigger] is_last_softmax(causal, shares)
                && #[trigger] is_part(parts, 2, values) && #[trigger] is_matrix_product(
                shares,
                values,
                mixed,
            ) && #[trigger] permuted(mixed, middle_swapped(), back) && is_linear(
                self.to_out,
                back.shaped(
                    seq![x.dims[0], x.dims[1], (self.heads * self.dim_head) as usize],
                ),
                r,
            )
    }

    /// What is wrong with the widths of an attention.
    pub open spec fn widths_complaint(
        dim: usize,
        heads: usize,
        dim_head: usize,
    ) -> Option<Seq<char>> {
        if heads * dim_head * 3 > usize::MAX || dim_head > u32::MAX {
            Some("LeWM attention width overflowed"@)
        } else if dim == 0 {
            Some("normalised width must be greater than zero"@)
        } else {
            None
        }
    }

    /// Whether a parameter file has every parameter of the attention.
    /// A width that is normalised is never zero.
    pub open spec fn stored(
        source: int,
        path: Seq<Seq<char>>,
        dim: usize,
        heads: usize,
        dim_head: usize,
    ) -> bool {
        let inner = heads * dim_head;
        &&& dim > 0 && norm_stored(source, path.push("norm"@), dim)
        &&& unbiased_stored(source, path.push("to_qkv"@), dim, (3 * inner) as usize)
        &&& linear_stored(source, path.push("to_out"@).push("0"@), inner as usize, dim)
    }

    pub(crate) fn new(dim: usize, heads: usize, dim_head: usize, store: &ParameterStore) -> (r: Result<
        Self,
    >)
        ensures
            r matches Ok(a) ==> a.sized(dim) && a.heads == heads && a.dim_head == dim_head
                && a.loaded(store_source(*store), store_path(*store)),
            Self::widths_complaint(dim, heads, dim_head) matches Some(text) ==> r is Err
                && r->Err_0.says(text),
            Self::widths_complaint(dim, heads, dim_head) is None ==> (r matches Err(e)
                ==> e is Backend),
            r matches Ok(a) ==> forall|e: ElementType| #[trigger]
                held_as(store_source(*store), e) ==> a.home(e),
            from_file(store_source(*store)) ==> (r is Ok <==> Self::widths_complaint(
                    dim,
                    heads,
                    dim_head,
                ) is None && Self::stored(
                    store_source(*store),
                    store_path(*store),
                    dim,
                    heads,
                    dim_head,
                )),
    {
        let inner: usize = match heads.checked_mul(dim_head) {
            Some(n) => n,
            None => {
                return Err(message("LeWM attention width overflowed"));
            },
        };
        let wide: usize = match inner.checked_mul(3) {
            Some(n) => n,
            None => {
                return Err(message("LeWM attention width overflowed"));
            },
        };
        if dim_head > u32::MAX as usize {
            return Err(message("LeWM attention width overflowed"));
        }
        let norm = load_norm(&store.pp("norm"), dim)?;
        let to_qkv = lift(linear_no_bias(&store.pp("to_qkv"), dim, wide))?;
        let to_out = lift(linear(&store.pp("to_out").pp("0"), inner, dim))?;
        Ok(Self { norm, to_qkv, to_out, heads, dim_head })
    }

    fn project(&self, xs: &Tensor, b: usize, t: usize) -> (r: Result<Tensor>)
        requires
            exists|dim: usize| self.sized(dim) && tensor_dims(*xs) == seq![b, t, dim],
        ensures
            r matches Ok(o) ==> self.projects(value(*xs), value(o)) && value(o) == value(
                *xs,
            ).alongside(seq![3usize, b, self.heads, t, self.dim_head], tensor_keys(o)),
            r matches Err(e) ==> e is Backend,
            ready(value(*xs)) && self.home(tensor_element(*xs)) ==> r is Ok,
    {
        let ghost dim = choose|dim: usize|
            self.sized(dim) && tensor_dims(*xs) == seq![b, t, dim];
        let n = lift(apply_norm(&self.norm, xs))?;
        let flat = lift(apply_linear(&self.to_qkv, &n))?;
        let split: [usize; 5] = [b, t, 3, self.heads, self.dim_head];
        let ghost wide = (self.heads * self.dim_head * 3) as usize;
        proof {
            assert(split@ =~= seq![b, t, 3usize, self.heads, self.dim_head]);
            assert(linear_sizes(self.to_qkv)[1] == wide);
            assert(tensor_dims(flat) =~= seq![b, t, wide]);
            lemma_counts(b, t, wide, 0);
            lemma_five(b, t, 3, self.heads, self.dim_head);
            let (x, y, h, d) = (b as int, t as int, self.heads as int, self.dim_head as int);
            assert(x * (y * (h * d * 3)) == x * (y * (3 * (h * d)))) by (nonlinear_arith);
        }
        let shaped = lift(reshape(&flat, &split))?;
        let order = vec![2, 0, 3, 1, 4];
        proof {
            assert(order@ =~= parts_first());
        }
        let out = lift(permute(&shaped, order))?;
        proof {
            assert(is_normed(self.norm, value(*xs), value(n)));
            assert(is_linear(self.to_qkv, value(n), value(flat)));
            assert(tensor_dims(out) =~= seq![3usize, b, self.heads, t, self.dim_head]);
        }
        Ok(out)
    }

    fn weigh(&self, parts: &Tensor, b: usize, t: usize) -> (r: Result<Tensor>)
        requires
            tensor_dims(*parts) == seq![3usize, b, self.heads, t, self.dim_head],
            self.dim_head <= u32::MAX,
        ensures
            r matches Ok(o) ==> self.weighs(value(*parts), value(o)) && value(o) == value(
                *parts,
            ).alongside(seq![b, self.heads, t, t], tensor_keys(o)) && tensor_keys(o).len() == count(
                tensor_dims(o),
            ),
            r matches Err(e) ==> e is Backend,
            hosted(value(*parts)) ==> r is Ok,
    {
        let raw = take_part(parts, 0)?;
        let scale = head_scale(self.dim_head as u32)?;
        let zero = lift(from_f64(F64::from_bits(0)))?;
        let queries = lift(affine(&raw, &scale, &zero))?;
        let keys = take_part(parts, 1)?;
        let ghost part = seq![b, self.heads, t, self.dim_head];
        let order = vec![0, 1, 3, 2];
        proof {
            assert(tensor_dims(*parts).skip(1) =~= part);
            assert(order@ =~= tail_swapped());
        }
        let turned = lift(permute(&keys, order))?;
        proof {
            assert(tensor_dims(turned) =~= seq![b, self.heads, self.dim_head, t]);
        }
        let out = lift(matmul(&queries, &turned))?;
        proof {
            assert(part.update(3, t) =~= seq![b, self.heads, t, t]);
            assert(is_part(value(*parts), 0, value(raw)));
            assert(is_head_scale(self.dim_head, value(scale)));
            assert(affine_of(value(raw), value(scale), double(F64 { bits: 0 }), value(queries)));
            assert(is_part(value(*parts), 1, value(keys)));
            assert(permuted(value(keys), tail_swapped(), value(turned)));
        }
        Ok(out)
    }

    /// Whether scores for this many frames are within reach.
    pub open spec fn scores_fit(self, b: usize, t: usize) -> bool {
        &&& count(seq![b, self.heads, t, t]) <= usize::MAX
        &&& t <= u32::MAX
        &&& t * t <= usize::MAX
    }

    /// Attends within frames `[batch, t, width]`, of which there must be one.
    pub(crate) fn forward(&self, xs: &Tensor, b: usize, t: usize) -> (r: Result<Tensor>)
        requires
            exists|dim: usize| self.sized(dim) && tensor_dims(*xs) == seq![b, t, dim],
            t > 0,
        ensures
            r matches Ok(o) ==> self.of(value(*xs), value(o)) && value(o) == value(*xs).alongside(
                tensor_dims(*xs),
                tensor_keys(o),
            ) && tensor_keys(o).len() == count(tensor_dims(*xs)),
            !self.scores_fit(b, t) ==> r is Err,
            r matches Err(SwmError::Message(m)) ==> !self.scores_fit(b, t) && m@
                == "LeWM attention shape overflowed"@,
            self.scores_fit(b, t) && ready(value(*xs)) && self.home(tensor_element(*xs)) && self.heads > 0
                && self.dim_head > 0 ==> r is Ok,
    {
        let ghost dim = choose|dim: usize|
            self.sized(dim) && tensor_dims(*xs) == seq![b, t, dim];
        let shape: [usize; 4] = [b, self.heads, t, t];
        proof {
            assert(shape@ =~= seq![b, self.heads, t, t]);
        }
        if element_count(&shape).is_none() || t > u32::MAX as usize || t.checked_mul(t).is_none() {
            return Err(message("LeWM attention shape overflowed"));
        }
        let parts = self.project(xs, b, t)?;
        let scores = self.weigh(&parts, b, t)?;
        let causal = hide_later(&scores, b, self.heads, t)?;
        let shares = lift(softmax_last_dim(&causal))?;
        let values = take_part(&parts, 2)?;
        let mixed = lift(matmul(&shares, &values))?;
        let ghost part = seq![b, self.heads, t, self.dim_head];
        let order = vec![0, 2, 1, 3];
        proof {
            assert(tensor_dims(parts).skip(1) =~= part);
            assert(tensor_dims(mixed) =~= part);
            assert(order@ =~= middle_swapped());
        }
        let back = lift(permute(&mixed, order))?;
        let back = lift(contiguous(&back))?;
        let inner: usize = self.heads * self.dim_head;
        let rows: [usize; 3] = [b, t, inner];
        proof {
            assert(tensor_dims(back) =~= seq![b, t, self.heads, self.dim_head]);
            assert(rows@ =~= seq![b, t, inner]);
            lemma_counts(b, self.heads, t, self.dim_head);
            lemma_counts(b, t, inner, 0);
            let (x, y, h, d) = (b as int, t as int, self.heads as int, self.dim_head as int);
            assert(x * (h * (y * d)) == x * (y * (h * d))) by (nonlinear_arith);
        }
        proof {
            if self.heads > 0 && self.dim_head > 0 {
                vstd::arithmetic::mul::lemma_mul_strictly_positive(
                    self.heads as int,
                    self.dim_head as int,
                );
            }
            assert(linear_sizes(self.to_out)[0] == inner);
            if full(tensor_dims(*xs)) {
                assert(tensor_dims(*xs)[0] == b);
            }
        }
        let flat = lift(reshape(&back, &rows))?;
        let out = lift(apply_linear(&self.to_out, &flat))?;
        proof {
            reveal(Attention::of);
            assert(linear_sizes(self.to_out)[1] == dim);
            assert(rows@.drop_last().push(dim) =~= seq![b, t, dim]);
            assert(self.projects(value(*xs), value(parts)));
            assert(self.weighs(value(parts), value(scores)));
            assert(is_causal(value(scores), value(causal)));
            assert(is_last_softmax(value(causal), value(shares)));
            assert(is_part(value(parts), 2, value(values)));
            assert(is_matrix_product(value(shares), value(values), value(mixed)));
            assert(permuted(value(mixed), middle_swapped(), value(back)));
        }
        Ok(out)
    }
}

} // verus!
