//! Drawing candidates around a mean, and folding candidates back into one.

use candle_core::DType;
use candle_core::Device;
use candle_core::Tensor;
use vstd::prelude::*;

use crate::error::{lift, Result, SwmError};
use crate::planner::noise::NoiseSource;
use crate::planner::workspace::{single, uniform, uniform_sequence};
use crate::scalar::{F32, F64};
use crate::tensor::arithmetic::{
    affine, affine_of, difference_of, is_negation, is_softmax, least_along, like, maximum,
    maximum_of, min_keepdim, minimum, minimum_of, multiply, negate, plus, product_of, reciprocal,
    reciprocal_of, softmax, subtract, sum, sum_of, total_of,
};
use crate::tensor::facts::{lemma_counts, lemma_second_axis, lemma_spread_last};
use crate::tensor::join::{lemma_join_two, lemma_two_line_up, lemma_two_places};
use crate::tensor::layout::{
    broadcast_as, cast_of, cat, device_of, dims, dtype, dtype_of, narrow, reshape, share, to_dtype,
    unsqueeze,
};
use crate::tensor::make::{cpu, double, from_f32, from_f64};
use crate::tensor::ranks::{dims3, dims4, rank_complaint};
use crate::tensor::value::{
    count, device_location, dtype_element, hosted, in_range, is_double, is_nan, matching, plain,
    resident, spread, spreads, tensor_dims, tensor_element, tensor_keys, tensor_location, value,
    ElementType, Location, TensorValue,
};

verus! {

/// A sequence `[batch, horizon, action]` repeated for every sample.
pub open spec fn for_samples(v: TensorValue, dims: Seq<usize>) -> TensorValue {
    spread(v.shaped(v.dims.insert(1, 1)), dims)
}

/// Candidates moved into their bounds.
pub open spec fn clamped(
    moved: TensorValue,
    low: TensorValue,
    high: TensorValue,
    r: TensorValue,
) -> bool {
    exists|raised: TensorValue|
        #[trigger] maximum_of(moved, spread(low, moved.dims), raised) && like(moved, raised)
            && minimum_of(raised, spread(high, moved.dims), r) && like(moved, r)
}

/// Every element is a NaN, or not above its upper bound and not below the lower
/// of its two bounds. Bounds repeat along the last axis.
pub open spec fn bounded(r: TensorValue, low: TensorValue, high: TensorValue) -> bool {
    let a = low.keys.len() as int;
    forall|k: int|
        0 <= k < r.keys.len() ==> is_nan(r.element, #[trigger] r.keys[k]) || (r.keys[k]
            <= high.keys[k % a] && (r.keys[k] >= low.keys[k % a] || r.keys[k]
            >= high.keys[k % a]))
}

/// Bound tensors of one element type without NaNs.
pub open spec fn usable_bounds(
    low: TensorValue,
    high: TensorValue,
    e: ElementType,
    action_dim: usize,
) -> bool {
    &&& low.dims == seq![1usize, 1, 1, action_dim]
    &&& high.dims == seq![1usize, 1, 1, action_dim]
    &&& low.keys.len() == action_dim
    &&& high.keys.len() == action_dim
    &&& low.element == e
    &&& high.element == e
    &&& forall|k: int|
        0 <= k < action_dim ==> !is_nan(e, #[trigger] low.keys[k])
    &&& forall|k: int|
        0 <= k < action_dim ==> !is_nan(e, #[trigger] high.keys[k])
}

/// Moves candidates `[batch, samples, horizon, action]` into their bounds.
pub fn clamp_actions(candidates: &Tensor, low: &Tensor, high: &Tensor) -> (r: Result<Tensor>)
    requires
        tensor_dims(*candidates).len() == 4,
        count(tensor_dims(*candidates)) <= usize::MAX,
        tensor_keys(*candidates).len() == count(tensor_dims(*candidates)),
        usable_bounds(
            value(*low),
            value(*high),
            tensor_element(*candidates),
            tensor_dims(*candidates)[3],
        ),
    ensures
        r matches Ok(o) ==> clamped(value(*candidates), value(*low), value(*high), value(o))
            && like(value(*candidates), value(o)),
        r matches Ok(o) ==> plain(tensor_element(*candidates)) ==> bounded(
            value(o),
            value(*low),
            value(*high),
        ),
        r matches Err(e) ==> e is Backend,
        hosted(value(*candidates)) && tensor_location(*low) is Cpu && tensor_location(*high) is Cpu
            ==> r is Ok,
{
    let shape = dims(candidates);
    let ghost c = value(*candidates);
    let ghost (b, n, h, a) = (c.dims[0], c.dims[1], c.dims[2], c.dims[3]);
    let ghost src = seq![1usize, 1, 1, a];
    proof {
        assert(c.dims =~= seq![b, n, h, a]);
        assert(spreads(src, c.dims));
    }
    let floor = lift(broadcast_as(low, shape.as_slice()))?;
    let raised = lift(maximum(candidates, &floor))?;
    let ceiling = lift(broadcast_as(high, shape.as_slice()))?;
    let out = lift(minimum(&raised, &ceiling))?;
    proof {
        let (l, u, up, o) = (value(*low), value(*high), value(raised), value(out));
        assert(maximum_of(c, spread(l, c.dims), up));
        if plain(c.element) {
            assert forall|k: int| 0 <= k < o.keys.len() implies is_nan(
                o.element,
                #[trigger] o.keys[k],
            ) || (o.keys[k] <= u.keys[k % a as int] && (o.keys[k] >= l.keys[k % a as int]
                || o.keys[k] >= u.keys[k % a as int])) by {
                lemma_spread_last(b, n, h, a, k);
                vstd::arithmetic::div_mod::lemma_mod_bound(k, a as int);
                assert(spread(l, c.dims).keys[k] == l.keys[k % a as int]);
                assert(spread(u, c.dims).keys[k] == u.keys[k % a as int]);
                assert(up.keys[k] == up.keys[k]);
            }
        }
    }
    Ok(out)
}

/// Candidates made from draws: mean plus draws times deviation, moved into the
/// bounds.
pub open spec fn made_from(
    draws: TensorValue,
    mean: TensorValue,
    std: TensorValue,
    low: TensorValue,
    high: TensorValue,
    r: TensorValue,
) -> bool {
    exists|scaled: TensorValue, moved: TensorValue|
        #[trigger] product_of(draws, for_samples(std, draws.dims), scaled) && #[trigger] sum_of(
            for_samples(mean, draws.dims),
            scaled,
            moved,
        ) && clamped(moved, low, high, r)
}

/// Whether a source can have answered a request for draws like this.
pub open spec fn answers_with<N: NoiseSource>(
    dims: Seq<usize>,
    dtype: DType,
    device: &Device,
    r: Result<Tensor>,
) -> bool {
    exists|source: &mut N, shape: &[usize]|
        shape@ == dims && #[trigger] call_ensures(
            N::standard_normal,
            (source, shape, dtype, device),
            r,
        )
}

/// Whether a source can have given draws of another shape, element type or place
/// than it was asked for.
pub open spec fn draws_unfit<N: NoiseSource>(
    dims: Seq<usize>,
    dtype: DType,
    device: &Device,
) -> bool {
    exists|draws: Tensor|
        #[trigger] answers_with::<N>(dims, dtype, device, Ok(draws)) && !(tensor_dims(draws) == dims
            && tensor_element(draws) == dtype_element(dtype) && tensor_location(draws)
            == device_location(*device))
}

/// Candidates drawn around a mean with what a source gave for them.
pub open spec fn drawn<N: NoiseSource>(
    mean: TensorValue,
    std: TensorValue,
    low: TensorValue,
    high: TensorValue,
    samples: usize,
    e: ElementType,
    location: Location,
    r: TensorValue,
) -> bool {
    let dims = seq![mean.dims[0], samples, mean.dims[1], mean.dims[2]];
    &&& r.dims == dims
    &&& exists|draws: Tensor, dtype: DType, device: &Device|
        {
            &&& tensor_dims(draws) == dims
            &&& dtype_element(dtype) == e
            &&& device_location(*device) == location
            &&& #[trigger] answers_with::<N>(dims, dtype, device, Ok(draws))
            &&& made_from(value(draws), mean, std, low, high, r)
        }
}

/// Whether everything that candidates are drawn from is in the memory of the
/// processor and of one floating-point type.
pub open spec fn sampled_here(
    mean: TensorValue,
    std: TensorValue,
    low: TensorValue,
    high: TensorValue,
    e: ElementType,
    location: Location,
) -> bool {
    &&& hosted(mean)
    &&& matching(mean, std)
    &&& mean.element == e
    &&& mean.location == location
    &&& low.location is Cpu
    &&& high.location is Cpu
}

/// Draws candidates `[batch, samples, horizon, action]` around a mean.
pub fn sample_candidates<N: NoiseSource>(
    mean: &Tensor,
    std: &Tensor,
    samples: usize,
    low: &Tensor,
    high: &Tensor,
    dtype: DType,
    device: &Device,
    noise: &mut N,
) -> (r: Result<Tensor>)
    requires
        tensor_dims(*mean).len() == 3,
        tensor_dims(*std) == tensor_dims(*mean),
        count(seq![tensor_dims(*mean)[0], samples, tensor_dims(*mean)[1], tensor_dims(*mean)[2]])
            <= usize::MAX,
        usable_bounds(
            value(*low),
            value(*high),
            tensor_element(*mean),
            tensor_dims(*mean)[2],
        ),
    ensures
        r matches Err(e) ==> e is Backend || answers_with::<N>(
            seq![tensor_dims(*mean)[0], samples, tensor_dims(*mean)[1], tensor_dims(*mean)[2]],
            dtype,
            device,
            Err(e),
        ),
        r matches Err(e) ==> answers_with::<N>(
            seq![tensor_dims(*mean)[0], samples, tensor_dims(*mean)[1], tensor_dims(*mean)[2]],
            dtype,
            device,
            Err(e),
        ) || draws_unfit::<N>(
            seq![tensor_dims(*mean)[0], samples, tensor_dims(*mean)[1], tensor_dims(*mean)[2]],
            dtype,
            device,
        ) || !sampled_here(
            value(*mean),
            value(*std),
            value(*low),
            value(*high),
            dtype_element(dtype),
            device_location(*device),
        ),
        r matches Ok(o) ==> drawn::<N>(
            value(*mean),
            value(*std),
            value(*low),
            value(*high),
            samples,
            dtype_element(dtype),
            device_location(*device),
            value(o),
        ) && tensor_dims(o) == seq![
            tensor_dims(*mean)[0],
            samples,
            tensor_dims(*mean)[1],
            tensor_dims(*mean)[2],
        ] && tensor_element(o) == tensor_element(*mean) && tensor_location(o) == tensor_location(
            *mean,
        ) && tensor_keys(o).len() == count(tensor_dims(o)),
        r matches Ok(o) ==> plain(tensor_element(*mean)) ==> bounded(
            value(o),
            value(*low),
            value(*high),
        ),
{
    let (batch, horizon, action_dim) = dims3(mean)?;
    let shape: [usize; 4] = [batch, samples, horizon, action_dim];
    let ghost dst = seq![batch, samples, horizon, action_dim];
    let ghost m = value(*mean);
    let ghost s = value(*std);
    proof {
        assert(shape@ =~= dst);
    }
    let draws = match noise.standard_normal(&shape, dtype, device) {
        Ok(draws) => draws,
        Err(e) => {
            return Err(e);
        },
    };
    proof {
        assert(answers_with::<N>(dst, dtype, device, Ok(draws)));
    }
    let mean4 = lift(unsqueeze(mean, 1))?;
    let std4 = lift(unsqueeze(std, 1))?;
    proof {
        assert(m.dims.insert(1, 1) =~= seq![batch, 1usize, horizon, action_dim]);
        assert(spreads(m.dims.insert(1, 1), dst));
    }
    let mean_wide = lift(broadcast_as(&mean4, &shape))?;
    let std_wide = lift(broadcast_as(&std4, &shape))?;
    let scaled = lift(multiply(&draws, &std_wide))?;
    let moved = lift(plus(&mean_wide, &scaled))?;
    let out = clamp_actions(&moved, low, high)?;
    proof {
        assert(value(mean_wide) == for_samples(m, dst));
        assert(value(std_wide) == for_samples(s, dst));
        assert(product_of(value(draws), for_samples(s, dst), value(scaled)));
        assert(sum_of(for_samples(m, dst), value(scaled), value(moved)));
        assert(made_from(value(draws), m, s, value(*low), value(*high), value(out)));
    }
    Ok(out)
}

/// A deviation with a least value: each element of `std`, or the least value
/// where that is larger.
pub open spec fn raised_to(std: TensorValue, least: F32, r: TensorValue) -> bool {
    if least.key() == 0 {
        r == std
    } else {
        like(std, r) && exists|floor: TensorValue|
            #[trigger] uniform(least, std.dims, std.element, std.location, floor) && maximum_of(
                std,
                floor,
                r,
            )
    }
}

/// Keeps a deviation `[batch, horizon, action]` at or above its least value.
pub fn enforce_min_std(std: &Tensor, min_std: F32) -> (r: Result<Tensor>)
    requires
        tensor_dims(*std).len() == 3,
    ensures
        r matches Ok(o) ==> raised_to(value(*std), min_std, value(o)),
        min_std.key() == 0 ==> r is Ok,
        hosted(value(*std)) && count(tensor_dims(*std)) <= usize::MAX ==> r is Ok,
        r matches Err(SwmError::Message(m)) ==> m@ == "plan shape overflowed"@ && count(
            tensor_dims(*std),
        ) > usize::MAX,
{
    if min_std.order_key() == 0 {
        return Ok(share(std));
    }
    let (batch, horizon, action_dim) = dims3(std)?;
    let floor = uniform_sequence(
        batch,
        horizon,
        action_dim,
        dtype(std),
        device_of(std),
        min_std,
    )?;
    lift(maximum(std, &floor))
}

/// A sequence moved one step ahead: step `m` takes the place of step `m - 1`,
/// and the last step stays.
pub open spec fn shifted(v: TensorValue, r: TensorValue) -> bool {
    &&& like(v, r)
    &&& forall|o: int, m: int, i: int|
        in_range(v.dims, 1, o, m, i) ==> #[trigger] r.at(1, o, m, i) == v.at(
            1,
            o,
            if m + 1 < v.dims[1] {
                m + 1
            } else {
                m
            },
            i,
        )
}

/// Moves a sequence `[batch, horizon, action]` one step ahead.
pub fn shift_sequence_for_warm_start(sequence: &Tensor) -> (r: Result<Tensor>)
    ensures
        tensor_dims(*sequence).len() == 3 ==> (r matches Ok(o) ==> shifted(
            value(*sequence),
            value(o),
        )),
        tensor_dims(*sequence).len() == 3 ==> (r matches Err(e) ==> e is Backend),
        tensor_dims(*sequence).len() == 3 && (tensor_dims(*sequence)[1] <= 1 || resident(
            value(*sequence),
        )) ==> r is Ok,
        tensor_dims(*sequence).len() != 3 ==> r is Err && r->Err_0.says(
            rank_complaint(3, tensor_dims(*sequence)),
        ),
{
    let (batch, horizon, action_dim) = dims3(sequence)?;
    let ghost v = value(*sequence);
    if horizon <= 1 {
        return Ok(share(sequence));
    }
    let tail = lift(narrow(sequence, 1, 1, horizon - 1))?;
    let last = lift(narrow(sequence, 1, horizon - 1, 1))?;
    let parts = vec![tail, last];
    proof {
        lemma_two_places(parts@, 1);
        if resident(v) {
            lemma_two_line_up(parts@, 1);
        }
    }
    let out = lift(cat(parts.as_slice(), 1))?;
    proof {
        let (t, l, r) = (value(parts@[0]), value(parts@[1]), value(out));
        lemma_join_two(parts@, 1, r);
        assert(r.dims =~= v.dims);
        lemma_second_axis(batch, horizon, action_dim, action_dim);
        lemma_second_axis(batch, (horizon - 1) as usize, action_dim, action_dim);
        lemma_second_axis(batch, 1, action_dim, action_dim);
        assert(t.dims =~= seq![batch, (horizon - 1) as usize, action_dim]);
        assert(l.dims =~= seq![batch, 1usize, action_dim]);
        assert forall|o: int, m: int, i: int| in_range(v.dims, 1, o, m, i) implies #[trigger] r.at(
            1,
            o,
            m,
            i,
        ) == v.at(
            1,
            o,
            if m + 1 < v.dims[1] {
                m + 1
            } else {
                m
            },
            i,
        ) by {
            if m < horizon - 1 {
                assert(t.at(1, o, m, i) == v.at(1, o, 1 + m, i));
            } else {
                assert(l.at(1, o, 0, i) == v.at(1, o, (horizon - 1) + 0, i));
            }
        }
    }
    Ok(out)
}

/// A number without axes in single precision.
pub open spec fn number_value(x: F32, location: Location) -> TensorValue {
    single(seq![x], Seq::empty(), location)
}

/// The factor that turns score differences into softmax inputs: minus one over
/// the temperature, in double precision.
pub open spec fn is_sharpness(temperature: F32, factor: TensorValue) -> bool {
    exists|wide: TensorValue, inverse: TensorValue|
        #[trigger] cast_of(number_value(temperature, Location::Cpu), wide) && wide.element is F64
            && #[trigger] reciprocal_of(wide, inverse) && is_negation(inverse, factor)
}

/// The weight of each candidate: the softmax, over the candidates of a batch
/// row, of how far its score lies above the best one.
pub open spec fn is_weighting(scores: TensorValue, temperature: F32, weights: TensorValue) -> bool {
    exists|best: TensorValue, above: TensorValue, factor: TensorValue, zero: TensorValue, logits: TensorValue|
        #[trigger] least_along(scores, 1, best) && #[trigger] difference_of(
            scores,
            spread(best, scores.dims),
            above,
        ) && is_sharpness(temperature, factor) && zero == double(F64 { bits: 0 })
            && #[trigger] affine_of(above, factor, zero, logits) && is_softmax(logits, 1, weights)
            && like(logits, weights)
}

/// One number for each candidate, repeated for every step and component.
pub open spec fn for_steps(v: TensorValue, dims: Seq<usize>) -> TensorValue {
    spread(v.shaped(v.dims + seq![1usize, 1]), dims)
}

/// The weighted mean of the candidates of each batch row.
pub open spec fn weighted(
    candidates: TensorValue,
    scores: TensorValue,
    temperature: F32,
    r: TensorValue,
) -> bool {
    exists|weights: TensorValue, scaled: TensorValue|
        #[trigger] is_weighting(scores, temperature, weights) && #[trigger] product_of(
            candidates,
            for_steps(weights, candidates.dims),
            scaled,
        ) && total_of(scaled, 1, r)
}

fn sharpness(temperature: F32) -> (r: Result<Tensor>)
    ensures
        r is Ok,
        is_sharpness(temperature, value(r->Ok_0)),
        is_double(value(r->Ok_0)),
{
    let number: [F32; 1] = [temperature];
    let shape: [usize; 0] = [];
    proof {
        lemma_counts(0, 0, 0, 0);
        assert(shape@ =~= Seq::<usize>::empty());
        assert(number@ =~= seq![temperature]);
    }
    let x = lift(from_f32(&number, &shape, &cpu()))?;
    let wide = lift(to_dtype(&x, dtype_of(ElementType::F64)))?;
    let inverse = lift(reciprocal(&wide))?;
    let out = lift(negate(&inverse))?;
    proof {
        assert(value(x) == number_value(temperature, Location::Cpu));
        assert(cast_of(number_value(temperature, Location::Cpu), value(wide)));
        assert(reciprocal_of(value(wide), value(inverse)));
    }
    Ok(out)
}

/// Averages candidates `[batch, samples, horizon, action]` by weights that fall
/// with their scores `[batch, samples]`. There is at least one candidate.
pub fn mppi_weighted_sequence(candidates: &Tensor, scores: &Tensor, temperature: F32) -> (r: Result<
    Tensor,
>)
    requires
        tensor_dims(*candidates).len() == 4,
        tensor_dims(*candidates)[1] > 0,
        count(tensor_dims(*candidates)) <= usize::MAX,
        tensor_dims(*scores) == seq![tensor_dims(*candidates)[0], tensor_dims(*candidates)[1]],
        count(tensor_dims(*scores)) <= usize::MAX,
    ensures
        r matches Ok(o) ==> weighted(value(*candidates), value(*scores), temperature, value(o))
            && tensor_dims(o) == seq![
            tensor_dims(*candidates)[0],
            tensor_dims(*candidates)[2],
            tensor_dims(*candidates)[3],
        ] && tensor_element(o) == tensor_element(*candidates) && tensor_location(o)
            == tensor_location(*candidates) && tensor_keys(o).len() == count(tensor_dims(o)),
        r matches Err(e) ==> e is Backend,
        hosted(value(*candidates)) && hosted(value(*scores)) && tensor_element(*scores)
            == tensor_element(*candidates) && tensor_keys(*scores).len() > 0 ==> r is Ok,
{
    let (batch, samples, horizon, action_dim) = dims4(candidates)?;
    let ghost c = value(*candidates);
    let ghost s = value(*scores);
    let row: [usize; 2] = [batch, samples];
    let rows: [usize; 4] = [batch, samples, 1, 1];
    let shape: [usize; 4] = [batch, samples, horizon, action_dim];
    proof {
        assert(row@ =~= s.dims);
        assert(rows@ =~= s.dims + seq![1usize, 1]);
        assert(shape@ =~= c.dims);
        lemma_counts(batch, samples, 1, 1);
        vstd::arithmetic::mul::lemma_mul_basics(samples as int);
    }
    let best = lift(min_keepdim(scores, 1))?;
    proof {
        assert(value(best).dims =~= seq![batch, 1usize]);
        assert(spreads(value(best).dims, s.dims));
    }
    let best_wide = lift(broadcast_as(&best, &row))?;
    let above = lift(subtract(scores, &best_wide))?;
    let factor = sharpness(temperature)?;
    let zero = lift(from_f64(F64::from_bits(0)))?;
    let logits = lift(affine(&above, &factor, &zero))?;
    let weights = lift(softmax(&logits, 1))?;
    proof {
        assert(value(weights).dims =~= s.dims);
        assert(least_along(s, 1, value(best)));
        assert(difference_of(s, spread(value(best), s.dims), value(above)));
        assert(affine_of(value(above), value(factor), value(zero), value(logits)));
        assert(is_weighting(s, temperature, value(weights)));
    }
    let weights4 = lift(reshape(&weights, &rows))?;
    proof {
        assert(spreads(rows@, c.dims));
    }
    let wide = lift(broadcast_as(&weights4, &shape))?;
    let scaled = lift(multiply(candidates, &wide))?;
    let out = lift(sum(&scaled, 1))?;
    proof {
        assert(product_of(c, for_steps(value(weights), c.dims), value(scaled)));
        assert(c.dims.remove(1) =~= seq![batch, horizon, action_dim]);
    }
    Ok(out)
}

} // verus!
