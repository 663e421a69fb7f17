//! Normalisation, modulation and the feed-forward part of a predictor block.

use candle_core::Tensor;
use candle_nn::LayerNorm;
use candle_nn::Linear;
use vstd::prelude::*;

use crate::error::{lift, Result, SwmError};
use crate::scalar::{f64_key, F64};
use crate::tensor::arithmetic::{
    affine, affine_of, difference_of, divide, gelu, is_gelu, like, multiply, plus, product_of,
    quotient_of, root_of, square, square_of, square_root, subtract, sum, sum_of, total_of,
};
use crate::tensor::layers::{
    apply_linear, apply_norm, from_file, held_as, is_linear, is_normed, linear, linear_from,
    linear_home, linear_sizes, linear_stored, norm_from, norm_home, norm_size, norm_stored, ready,
    store_path, store_source, ParameterStore,
};
use crate::tensor::layout::{broadcast_as, cast_of, dtype, dtype_of, element, to_dtype, unsqueeze};
use crate::tensor::make::{double, from_f64};
use crate::tensor::share::{is_share, share_of};
use crate::tensor::norms::{load_norm, EPSILON};
use crate::tensor::value::{
    count, hosted, matching, spread, spreads, tensor_dims, tensor_element, tensor_keys, value,
    ElementType, TensorValue,
};

verus! {

/// The bits of 1e-6.
pub const BLOCK_EPSILON: u64 = 0x3eb0_c6f7_a0b5_ed8d;

/// The bits of 1.0.
pub const ONE: u64 = 0x3ff0_0000_0000_0000;

/// The mean along the last of three axes, which keeps one place: the sum times
/// the share of one place.
pub open spec fn is_row_mean(x: TensorValue, r: TensorValue) -> bool {
    exists|share: TensorValue, total: TensorValue|
        #[trigger] is_share(x.dims[2] as u64, share) && #[trigger] total_of(x, 2, total)
            && affine_of(
            total.shaped(seq![x.dims[0], x.dims[1], 1usize]),
            share,
            double(F64 { bits: 0 }),
            r,
        )
}

fn row_mean(x: &Tensor, width: u32) -> (r: Result<Tensor>)
    requires
        tensor_dims(*x).len() == 3,
        tensor_dims(*x)[2] == width,
    ensures
        r matches Ok(o) ==> is_row_mean(value(*x), value(o)) && value(o) == value(*x).alongside(
            seq![tensor_dims(*x)[0], tensor_dims(*x)[1], 1usize],
            tensor_keys(o),
        ),
        r matches Err(e) ==> e is Backend,
        hosted(value(*x)) ==> r is Ok,
{
    let share = share_of(width as u64)?;
    let zero = lift(from_f64(F64::from_bits(0)))?;
    let total = lift(sum(x, 2))?;
    let kept = lift(unsqueeze(&total, 2))?;
    let out = lift(affine(&kept, &share, &zero))?;
    proof {
        let d = tensor_dims(*x);
        assert(d.remove(2).insert(2, 1) =~= seq![d[0], d[1], 1usize]);
        assert(value(kept) == value(total).shaped(seq![d[0], d[1], 1usize]));
        assert(d[2] as u64 == width);
        assert(is_share(width as u64, value(share)));
        assert(total_of(value(*x), 2, value(total)));
    }
    Ok(out)
}

/// The element type in which a tensor is normalised.
pub open spec fn working_type(e: ElementType) -> ElementType {
    if e is F16 || e is BF16 {
        ElementType::F32
    } else {
        e
    }
}

/// Each row less its mean, divided by its deviation.
pub open spec fn is_standardised(epsilon: u64, x: TensorValue, r: TensorValue) -> bool {
    exists|
        mean: TensorValue,
        centred: TensorValue,
        squares: TensorValue,
        var: TensorValue,
        raised: TensorValue,
        std: TensorValue,
    |
        #[trigger] is_row_mean(x, mean) && #[trigger] difference_of(
            x,
            spread(mean, x.dims),
            centred,
        ) && #[trigger] square_of(centred, squares) && #[trigger] is_row_mean(squares, var)
            && #[trigger] affine_of(
            var,
            double(F64 { bits: ONE }),
            double(F64 { bits: epsilon }),
            raised,
        ) && #[trigger] root_of(raised, std) && quotient_of(centred, spread(std, x.dims), r)
}

/// Layer normalisation without parameters.
pub open spec fn is_plain_norm(epsilon: u64, x: TensorValue, r: TensorValue) -> bool {
    exists|wide: TensorValue, out: TensorValue|
        #[trigger] cast_of(x, wide) && wide.element == working_type(x.element)
            && #[trigger] is_standardised(epsilon, wide, out) && cast_of(out, r) && like(x, r)
}

fn spread_column(column: &Tensor, shape: &[usize]) -> (r: Result<Tensor>)
    requires
        shape@.len() == 3,
        tensor_dims(*column) == seq![shape@[0], shape@[1], 1usize],
        count(shape@) <= usize::MAX,
    ensures
        r matches Ok(o) ==> value(o) == spread(value(*column), shape@),
        r matches Err(e) ==> e is Backend,
        r is Ok,
{
    proof {
        assert(spreads(tensor_dims(*column), shape@));
    }
    lift(broadcast_as(column, shape))
}

fn standardise(x: &Tensor, width: u32, shape: &[usize], epsilon: u64) -> (r: Result<Tensor>)
    requires
        tensor_dims(*x).len() == 3,
        tensor_dims(*x)[2] == width,
        shape@ == tensor_dims(*x),
        count(shape@) <= usize::MAX,
    ensures
        r matches Ok(o) ==> is_standardised(epsilon, value(*x), value(o))
            && like(value(*x), value(o)),
        r matches Err(e) ==> e is Backend,
        hosted(value(*x)) ==> r is Ok,
{
    let one = lift(from_f64(F64::from_bits(ONE)))?;
    let raise = lift(from_f64(F64::from_bits(epsilon)))?;
    let mean = row_mean(x, width)?;
    let wide_mean = spread_column(&mean, shape)?;
    let centred = lift(subtract(x, &wide_mean))?;
    let squares = lift(square(&centred))?;
    let var = row_mean(&squares, width)?;
    let raised = lift(affine(&var, &one, &raise))?;
    let std = lift(square_root(&raised))?;
    let wide_std = spread_column(&std, shape)?;
    let out = lift(divide(&centred, &wide_std))?;
    proof {
        let v = value(*x);
        assert(is_row_mean(v, value(mean)));
        assert(difference_of(v, spread(value(mean), v.dims), value(centred)));
        assert(square_of(value(centred), value(squares)));
        assert(is_row_mean(value(squares), value(var)));
        assert(affine_of(
            value(var),
            double(F64 { bits: ONE }),
            double(F64 { bits: epsilon }),
            value(raised),
        ));
        assert(root_of(value(raised), value(std)));
    }
    Ok(out)
}

/// Layer normalisation without parameters, of a tensor of three axes.
pub(crate) fn layer_norm_no_affine(x: &Tensor, width: u32, shape: &[usize], epsilon: u64) -> (r:
    Result<Tensor>)
    requires
        tensor_dims(*x).len() == 3,
        tensor_dims(*x)[2] == width,
        shape@ == tensor_dims(*x),
        count(shape@) <= usize::MAX,
    ensures
        r matches Ok(o) ==> is_plain_norm(epsilon, value(*x), value(o))
            && like(value(*x), value(o)),
        r matches Err(e) ==> e is Backend,
        hosted(value(*x)) ==> r is Ok,
{
    let own = element(dtype(x));
    let working = match own {
        ElementType::F16 => ElementType::F32,
        ElementType::BF16 => ElementType::F32,
        other => other,
    };
    let wide = lift(to_dtype(x, dtype_of(working)))?;
    let out = standardise(&wide, width, shape, epsilon)?;
    let narrow = lift(to_dtype(&out, dtype_of(own)))?;
    proof {
        assert(cast_of(value(*x), value(wide)));
        assert(is_standardised(epsilon, value(wide), value(out)));
    }
    Ok(narrow)
}

/// Each element times one more than a scale, plus a shift.
pub open spec fn is_modulated(
    x: TensorValue,
    shift: TensorValue,
    scale: TensorValue,
    r: TensorValue,
) -> bool {
    exists|factor: TensorValue, scaled: TensorValue|
        #[trigger] affine_of(
            scale,
            double(F64 { bits: ONE }),
            double(F64 { bits: ONE }),
            factor,
        ) && #[trigger] product_of(x, factor, scaled) && sum_of(scaled, shift, r)
}

pub(crate) fn modulate(x: &Tensor, shift: &Tensor, scale: &Tensor) -> (r: Result<Tensor>)
    ensures
        r matches Ok(o) ==> is_modulated(value(*x), value(*shift), value(*scale), value(o)) && like(
            value(*x),
            value(o),
        ),
        r matches Err(e) ==> e is Backend,
        hosted(value(*x)) && matching(value(*x), value(*shift)) && matching(value(*x), value(*scale))
            ==> r is Ok,
{
    let one = lift(from_f64(F64::from_bits(ONE)))?;
    let factor = lift(affine(scale, &one, &one))?;
    let scaled = lift(multiply(x, &factor))?;
    let out = lift(plus(&scaled, shift))?;
    proof {
        assert(affine_of(
            value(*scale),
            double(F64 { bits: ONE }),
            double(F64 { bits: ONE }),
            value(factor),
        ));
        assert(product_of(value(*x), value(factor), value(scaled)));
    }
    Ok(out)
}

/// The feed-forward part of a block.
#[derive(Debug, Clone)]
pub struct FeedForward {
    pub norm: LayerNorm,
    pub fc1: Linear,
    pub fc2: Linear,
}

impl FeedForward {
    pub open spec fn sized(self, dim: usize, hidden: usize) -> bool {
        &&& dim > 0
        &&& norm_size(self.norm) == dim
        &&& linear_sizes(self.fc1) == seq![dim, hidden]
        &&& linear_sizes(self.fc2) == seq![hidden, dim]
    }

    pub open spec fn loaded(self, source: int, path: Seq<Seq<char>>) -> bool {
        let net = path.push("net"@);
        &&& norm_from(source, net.push("0"@), f64_key(EPSILON), self.norm)
        &&& linear_from(source, net.push("1"@), self.fc1)
        &&& linear_from(source, net.push("4"@), self.fc2)
    }

    /// The parameters have an element type in the memory of the processor.
    pub open spec fn home(self, e: ElementType) -> bool {
        norm_home(self.norm, e) && linear_home(self.fc1, e) && linear_home(self.fc2, e)
    }

    pub open spec fn of(self, x: TensorValue, r: TensorValue) -> bool {
        exists|n: TensorValue, a: TensorValue, g: TensorValue|
            #[trigger] is_normed(self.norm, x, n) && #[trigger] is_linear(self.fc1, n, a)
                && #[trigger] is_gelu(a, g) && is_linear(self.fc2, g, r)
    }

    /// Whether a parameter file has every parameter of the block.
    /// A width that is normalised is never zero.
    pub open spec fn stored(
        source: int,
        path: Seq<Seq<char>>,
        dim: usize,
        hidden: usize,
    ) -> bool {
        let net = path.push("net"@);
        &&& dim > 0 && norm_stored(source, net.push("0"@), dim)
        &&& linear_stored(source, net.push("1"@), dim, hidden)
        &&& linear_stored(source, net.push("4"@), hidden, dim)
    }

    pub(crate) fn new(dim: usize, hidden: usize, store: &ParameterStore) -> (r: Result<Self>)
        ensures
            r matches Ok(f) ==> f.sized(dim, hidden) && f.loaded(
                store_source(*store),
                store_path(*store),
            ),
            dim == 0 ==> r is Err,
            r matches Err(SwmError::Message(m)) ==> dim == 0 && m@
                == "normalised width must be greater than zero"@,
            r matches Ok(f) ==> forall|e: ElementType| #[trigger]
                held_as(store_source(*store), e) ==> f.home(e),
            from_file(store_source(*store)) ==> (r is Ok <==> Self::stored(
                    store_source(*store),
                    store_path(*store),
                    dim,
                    hidden,
                )),
    {
        let net = store.pp("net");
        let norm = load_norm(&net.pp("0"), dim)?;
        let fc1 = lift(linear(&net.pp("1"), dim, hidden))?;
        let fc2 = lift(linear(&net.pp("4"), hidden, dim))?;
        Ok(Self { norm, fc1, fc2 })
    }

    pub(crate) fn forward(&self, xs: &Tensor) -> (r: Result<Tensor>)
        requires
            exists|d: usize, h: usize| self.sized(d, h) && tensor_dims(*xs).last() == d,
            tensor_dims(*xs).len() > 0,
        ensures
            r matches Ok(o) ==> self.of(value(*xs), value(o)) && value(o) == value(*xs).alongside(
                tensor_dims(*xs),
                tensor_keys(o),
            ) && tensor_keys(o).len() == count(tensor_dims(*xs)),
            r matches Err(e) ==> e is Backend,
            ready(value(*xs)) && self.home(tensor_element(*xs)) && 2 <= tensor_dims(*xs).len() <= 3
                && linear_sizes(self.fc1)[1] > 0 ==> r is Ok,
    {
        let ghost (d, h) = choose|d: usize, h: usize|
            self.sized(d, h) && tensor_dims(*xs).last() == d;
        proof {
            assert(linear_sizes(self.fc1)[0] == d && linear_sizes(self.fc1)[1] == h);
            assert(linear_sizes(self.fc2)[0] == h);
        }
        let n = lift(apply_norm(&self.norm, xs))?;
        let a = lift(apply_linear(&self.fc1, &n))?;
        let g = lift(gelu(&a))?;
        let out = lift(apply_linear(&self.fc2, &g))?;
        proof {
            assert(is_normed(self.norm, value(*xs), value(n)));
            assert(is_linear(self.fc1, value(n), value(a)));
            assert(is_gelu(value(a), value(g)));
            assert(linear_sizes(self.fc2)[1] == d);
            assert(tensor_dims(g).drop_last() =~= tensor_dims(*xs).drop_last());
            assert(tensor_dims(out) =~= tensor_dims(*xs));
        }
        Ok(out)
    }
}

} // verus!
