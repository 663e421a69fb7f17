//! Values held as weights over bins.

use candle_core::Tensor;
use vstd::prelude::*;

use crate::error::{lift, message, Result};
use crate::scalar::F64;
use crate::tensor::arithmetic::{
    absolute, affine, affine_of, difference_of, divide, exponential, is_exponential,
    is_last_softmax, is_magnitude, is_sign, like, multiply, plus, product_of, quotient_of, sign,
    softmax_last_dim, subtract, sum, sum_of, total_of,
};
use crate::tensor::facts::{lemma_count_push, lemma_counts};
use crate::tensor::layout::{
    broadcast_as, cast_of, device_of, dims, dtype, dtype_of, laid_out, placed, reshape, to_device,
    to_dtype, unsqueeze,
};
use crate::tensor::make::{cpu, double, from_f64, from_u32, indices, natural};
use crate::tensor::ranks::element_count;
use crate::tensor::value::{
    count, hosted, resident, spread, spreads, tensor_dims, tensor_element, tensor_keys,
    tensor_location, value, ElementType, Location, TensorValue,
};

verus! {

/// The bits of 1.0.
pub const ONE: u64 = 0x3ff0_0000_0000_0000;

/// The bits of -1.0.
pub const MINUS_ONE: u64 = 0xbff0_0000_0000_0000;

/// A number repeated `n` times.
pub open spec fn repeated(v: TensorValue, n: usize) -> TensorValue {
    spread(v.shaped(seq![1usize]), seq![n])
}

/// The numbers below `n` in single precision.
pub open spec fn is_counting(n: usize, places: TensorValue) -> bool {
    cast_of(
        TensorValue {
            dims: seq![n],
            keys: Seq::new(n as nat, |k: int| k),
            element: ElementType::U32,
            location: Location::Cpu,
        },
        places,
    ) && places.element is F32
}

/// The last of `n` places, or the first where there is none.
pub open spec fn last_place(n: usize) -> u32 {
    if n == 0 {
        0
    } else {
        (n - 1) as u32
    }
}

/// The distance between two bins, in single precision.
pub open spec fn is_bin_size(vmin: F64, vmax: F64, n: usize, r: TensorValue) -> bool {
    exists|range: TensorValue, steps: TensorValue, size: TensorValue|
        #[trigger] difference_of(double(vmax), double(vmin), range) && #[trigger] cast_of(
            natural(last_place(n)),
            steps,
        ) && steps.element is F64 && #[trigger] quotient_of(range, steps, size) && cast_of(size, r)
            && r.element is F32
}

/// The values of `n` bins evenly spaced from `vmin` to `vmax`, computed in
/// single precision from a distance computed in double precision.
pub open spec fn is_bins(vmin: F64, vmax: F64, n: usize, r: TensorValue) -> bool {
    exists|least: TensorValue, size: TensorValue, places: TensorValue, scaled: TensorValue|
        #[trigger] cast_of(double(vmin), least) && least.element is F32 && #[trigger] is_bin_size(
            vmin,
            vmax,
            n,
            size,
        ) && is_counting(n, places) && #[trigger] product_of(places, repeated(size, n), scaled)
            && sum_of(repeated(least, n), scaled, r)
}

fn repeat_number(x: &Tensor, n: usize) -> (r: Result<Tensor>)
    requires
        tensor_dims(*x) == Seq::<usize>::empty(),
        tensor_keys(*x).len() == 1,
    ensures
        r matches Ok(o) ==> value(o) == repeated(value(*x), n),
        r matches Err(e) ==> e is Backend,
        resident(value(*x)) ==> r is Ok,
{
    let one: [usize; 1] = [1];
    let shape: [usize; 1] = [n];
    proof {
        assert(one@ =~= seq![1usize]);
        assert(shape@ =~= seq![n]);
        lemma_counts(1, n, n, n);
        lemma_counts(n, n, n, n);
        assert(spreads(seq![1usize], seq![n]));
    }
    let flat = lift(reshape(x, &one))?;
    lift(broadcast_as(&flat, &shape))
}

/// The values of evenly spaced bins, on the CPU.
pub fn bin_values(vmin: F64, vmax: F64, num_bins: u32) -> (r: Result<Tensor>)
    ensures
        r matches Ok(o) ==> is_bins(vmin, vmax, num_bins as usize, value(o)) && tensor_dims(o)
            == seq![num_bins as usize] && tensor_keys(o).len() == num_bins && tensor_element(
            o,
        ) is F32 && tensor_location(o) is Cpu,
        r matches Err(e) ==> e is Backend,
        r is Ok,
{
    let single = dtype_of(ElementType::F32);
    let n: usize = num_bins as usize;
    let last: u32 = if num_bins == 0 {
        0
    } else {
        num_bins - 1
    };
    let low = lift(from_f64(vmin))?;
    let high = lift(from_f64(vmax))?;
    let range = lift(subtract(&high, &low))?;
    let natural_steps = lift(from_u32(last))?;
    let steps = lift(to_dtype(&natural_steps, dtype_of(ElementType::F64)))?;
    let wide = lift(divide(&range, &steps))?;
    let size = lift(to_dtype(&wide, single))?;
    let least = lift(to_dtype(&low, single))?;
    let counted = lift(indices(num_bins, &cpu()))?;
    let places = lift(to_dtype(&counted, single))?;
    proof {
        assert(difference_of(double(vmax), double(vmin), value(range)));
        assert(cast_of(natural(last), value(steps)));
        assert(quotient_of(value(range), value(steps), value(wide)));
        assert(is_bin_size(vmin, vmax, n, value(size)));
        assert(cast_of(double(vmin), value(least)));
        assert(is_counting(n, value(places)));
    }
    let sizes = repeat_number(&size, n)?;
    let scaled = lift(multiply(&places, &sizes))?;
    let starts = repeat_number(&least, n)?;
    let out = lift(plus(&starts, &scaled))?;
    proof {
        assert(product_of(value(places), repeated(value(size), n), value(scaled)));
        lemma_counts(n, n, n, n);
    }
    Ok(out)
}

/// The inverse of the symmetric logarithm: the sign times the exponential of the
/// magnitude less one.
pub open spec fn is_symexp(x: TensorValue, r: TensorValue) -> bool {
    exists|s: TensorValue, m: TensorValue, e: TensorValue, d: TensorValue|
        #[trigger] is_sign(x, s) && #[trigger] is_magnitude(x, m) && #[trigger] is_exponential(m, e)
            && #[trigger] affine_of(e, double(F64 { bits: ONE }), double(F64 { bits: MINUS_ONE }), d)
            && product_of(s, d, r)
}

/// Undoes the symmetric logarithm.
pub fn symexp(xs: &Tensor) -> (r: Result<Tensor>)
    ensures
        r matches Ok(o) ==> is_symexp(value(*xs), value(o)) && like(value(*xs), value(o)),
        r matches Err(e) ==> e is Backend,
        hosted(value(*xs)) ==> r is Ok,
{
    let s = lift(sign(xs))?;
    let m = lift(absolute(xs))?;
    let e = lift(exponential(&m))?;
    let one = lift(from_f64(F64::from_bits(ONE)))?;
    let minus_one = lift(from_f64(F64::from_bits(MINUS_ONE)))?;
    let d = lift(affine(&e, &one, &minus_one))?;
    let out = lift(multiply(&s, &d))?;
    proof {
        assert(is_sign(value(*xs), value(s)));
        assert(is_magnitude(value(*xs), value(m)));
        assert(is_exponential(value(m), value(e)));
        assert(affine_of(
            value(e),
            double(F64 { bits: ONE }),
            double(F64 { bits: MINUS_ONE }),
            value(d),
        ));
    }
    Ok(out)
}

/// A row of bin values in a shape that spreads over logits.
pub open spec fn as_last_axis(bins: TensorValue, rank: nat) -> TensorValue {
    bins.shaped(Seq::new((rank - 1) as nat, |k: int| 1usize).push(bins.dims[0]))
}

/// The probabilities with at least two axes.
pub open spec fn as_matrix(probs: TensorValue) -> TensorValue {
    if probs.dims.len() == 1 {
        probs.shaped(seq![1usize, probs.dims[0]])
    } else {
        probs
    }
}

/// The shape that probabilities and bins meet in: equal widths meet as they are,
/// and a width of one gives way.
pub open spec fn meeting_shape(dims: Seq<usize>, n: usize) -> Seq<usize> {
    dims.drop_last().push(
        if dims.last() == 1 {
            n
        } else {
            dims.last()
        },
    )
}

/// What logits over bins stand for: the mean of the bin values under the softmax
/// of the logits, with the symmetric logarithm undone. The last axis keeps one
/// place.
pub open spec fn two_hot_value(
    logits: TensorValue,
    vmin: F64,
    vmax: F64,
    n: usize,
    r: TensorValue,
) -> bool {
    exists|probs: TensorValue, bins: TensorValue, near: TensorValue, mean: TensorValue|
        #[trigger] is_last_softmax(logits, probs) && #[trigger] is_bins(vmin, vmax, n, bins)
            && #[trigger] placed(bins, logits.element, logits.location, near)
            && #[trigger] is_bin_mean(as_matrix(probs), near, n, mean) && is_symexp(mean, r)
}

/// The mean of bin values under probabilities of at least two axes. The last
/// axis keeps one place.
pub open spec fn is_bin_mean(
    probs: TensorValue,
    bins: TensorValue,
    n: usize,
    r: TensorValue,
) -> bool {
    let shape = meeting_shape(probs.dims, n);
    exists|weighted: TensorValue, mean: TensorValue|
        #[trigger] product_of(
            spread(probs, shape),
            spread(as_last_axis(bins, probs.dims.len()), shape),
            weighted,
        ) && #[trigger] total_of(weighted, probs.dims.len() - 1, mean) && r == mean.shaped(
            mean.dims.push(1),
        )
}

/// Puts bin values on a last axis behind axes of size one.
fn line_up(bins: &Tensor, rank: usize) -> (r: Result<Tensor>)
    requires
        tensor_dims(*bins).len() == 1,
        tensor_keys(*bins).len() == tensor_dims(*bins)[0],
        rank >= 1,
    ensures
        r matches Ok(o) ==> value(o) == as_last_axis(value(*bins), rank as nat),
        r matches Err(e) ==> e is Backend,
        resident(value(*bins)) ==> r is Ok,
{
    let n: usize = dims(bins)[0];
    let mut row: Vec<usize> = Vec::new();
    let mut k: usize = 1;
    proof {
        lemma_counts(0, 0, 0, 0);
        assert(row@ =~= Seq::new(0, |j: int| 1usize));
    }
    while k < rank
        invariant
            1 <= k <= rank,
            row@ == Seq::new((k - 1) as nat, |j: int| 1usize),
            count(row@) == 1,
        decreases rank - k,
    {
        proof {
            lemma_count_push(row@, 1);
        }
        row.push(1);
        proof {
            assert(row@ =~= Seq::new(k as nat, |j: int| 1usize));
        }
        k = k + 1;
    }
    proof {
        lemma_count_push(row@, n);
        vstd::arithmetic::mul::lemma_mul_basics(n as int);
    }
    row.push(n);
    proof {
        assert(row@ =~= as_last_axis(value(*bins), rank as nat).dims);
    }
    lift(reshape(bins, row.as_slice()))
}

/// Averages bin values under probabilities of at least two axes.
fn bin_mean(probs: &Tensor, bins: &Tensor, n: usize, target: &[usize]) -> (r: Result<Tensor>)
    requires
        tensor_dims(*probs).len() >= 2,
        tensor_dims(*bins) == seq![n],
        tensor_keys(*bins).len() == n,
        tensor_dims(*probs).last() == n || tensor_dims(*probs).last() == 1 || n == 1,
        target@ == meeting_shape(tensor_dims(*probs), n),
        count(target@) <= usize::MAX,
    ensures
        r matches Ok(o) ==> is_bin_mean(value(*probs), value(*bins), n, value(o)) && value(o)
            == value(*probs).alongside(
            tensor_dims(*probs).drop_last().push(1),
            tensor_keys(o),
        ) && tensor_keys(o).len() == count(tensor_dims(o)),
        r matches Err(e) ==> e is Backend,
        hosted(value(*probs)) && tensor_element(*bins) == tensor_element(*probs) && tensor_location(
            *bins,
        ) is Cpu ==> r is Ok,
{
    let rank: usize = target.len();
    let ghost p = value(*probs);
    let lined = line_up(bins, rank)?;
    proof {
        assert(spreads(tensor_dims(lined), target@));
        assert(spreads(p.dims, target@));
    }
    let wide_bins = lift(broadcast_as(&lined, target))?;
    let wide_probs = lift(broadcast_as(probs, target))?;
    let weighted = lift(multiply(&wide_probs, &wide_bins))?;
    let mean = lift(sum(&weighted, rank - 1))?;
    let kept = lift(unsqueeze(&mean, rank - 1))?;
    proof {
        assert(product_of(
            spread(p, target@),
            spread(as_last_axis(value(*bins), p.dims.len()), target@),
            value(weighted),
        ));
        assert(total_of(value(weighted), p.dims.len() - 1, value(mean)));
        assert(target@.remove(rank - 1) =~= p.dims.drop_last());
        assert(tensor_dims(mean).insert(rank - 1, 1) =~= tensor_dims(mean).push(1));
        lemma_count_push(p.dims.drop_last(), 1);
        vstd::arithmetic::mul::lemma_mul_basics(count(p.dims.drop_last()) as int);
    }
    Ok(kept)
}

/// What is wrong with logits for this number of bins.
pub open spec fn two_hot_complaint(dims: Seq<usize>, num_bins: usize) -> Option<Seq<char>> {
    if dims.len() == 0 || dims.last() == 0 || num_bins == 0 {
        Some("two-hot logits need at least one bin"@)
    } else if num_bins > u32::MAX {
        Some("two-hot values have too many bins"@)
    } else if dims.last() != num_bins && dims.last() != 1 && num_bins != 1 {
        Some("two-hot logits do not match the bins"@)
    } else if count(meeting_shape(dims, num_bins)) > usize::MAX {
        Some("two-hot shape overflowed"@)
    } else {
        None
    }
}

/// Reads logits `[.., bins]` as values `[.., 1]`; logits with a single axis are
/// read as one row.
pub fn two_hot_inv(logits: &Tensor, vmin: F64, vmax: F64, num_bins: usize) -> (r: Result<Tensor>)
    ensures
        two_hot_complaint(tensor_dims(*logits), num_bins) matches Some(text) ==> r is Err
            && r->Err_0.says(text),
        two_hot_complaint(tensor_dims(*logits), num_bins) is None ==> (r matches Err(e)
            ==> e is Backend),
        r matches Ok(o) ==> two_hot_value(value(*logits), vmin, vmax, num_bins, value(o))
            && value(o) == value(*logits).alongside(
            if tensor_dims(*logits).len() == 1 {
                seq![1usize, 1]
            } else {
                tensor_dims(*logits).drop_last().push(1)
            },
            tensor_keys(o),
        ) && tensor_keys(o).len() == count(tensor_dims(o)),
        two_hot_complaint(tensor_dims(*logits), num_bins) is None && hosted(value(*logits)) && laid_out(
            *logits,
        ) ==> r is Ok,
{
    let shape = dims(logits);
    if shape.len() == 0 || shape[shape.len() - 1] == 0 || num_bins == 0 {
        return Err(message("two-hot logits need at least one bin"));
    }
    if num_bins > u32::MAX as usize {
        return Err(message("two-hot values have too many bins"));
    }
    let width: usize = shape[shape.len() - 1];
    if width != num_bins && width != 1 && num_bins != 1 {
        return Err(message("two-hot logits do not match the bins"));
    }
    let ghost l = value(*logits);
    let mut target = shape.clone();
    let _ = target.pop();
    target.push(
        if width == 1 {
            num_bins
        } else {
            width
        },
    );
    proof {
        assert(target@ =~= meeting_shape(shape@, num_bins));
    }
    if element_count(target.as_slice()).is_none() {
        return Err(message("two-hot shape overflowed"));
    }
    let bins = bin_values(vmin, vmax, num_bins as u32)?;
    let there = lift(to_device(&bins, device_of(logits)))?;
    let near = lift(to_dtype(&there, dtype(logits)))?;
    proof {
        assert(value(there) == (TensorValue { location: l.location, ..value(bins) }));
        assert(placed(value(bins), l.element, l.location, value(near)));
    }
    let probs = lift(softmax_last_dim(logits))?;
    let ghost soft = value(probs);
    let probs = if shape.len() == 1 {
        target = vec![1, target[0]];
        proof {
            assert(soft.dims.insert(0, 1) =~= seq![1usize, soft.dims[0]]);
            assert(target@ =~= meeting_shape(as_matrix(soft).dims, num_bins));
            lemma_counts(1, target@[1], 0, 0);
            lemma_counts(target@[1], 0, 0, 0);
            assert(meeting_shape(shape@, num_bins) =~= seq![target@[1]]);
            vstd::arithmetic::mul::lemma_mul_basics(target@[1] as int);
        }
        lift(unsqueeze(&probs, 0))?
    } else {
        probs
    };
    proof {
        assert(value(probs) == as_matrix(soft));
        assert(target@ == meeting_shape(tensor_dims(probs), num_bins));
        assert(count(target@) <= usize::MAX);
    }
    let mean = bin_mean(&probs, &near, num_bins, target.as_slice())?;
    let out = symexp(&mean)?;
    proof {
        assert(is_last_softmax(l, soft));
        assert(is_bins(vmin, vmax, num_bins, value(bins)));
        assert(is_bin_mean(as_matrix(soft), value(near), num_bins, value(mean)));
        if shape@.len() == 1 {
            assert(tensor_dims(probs).drop_last().push(1) =~= seq![1usize, 1]);
        }
    }
    Ok(out)
}

} // verus!
