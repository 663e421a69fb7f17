//! Fitting the search distribution to the best candidates.

use candle_core::Tensor;
use vstd::prelude::*;

use crate::error::{lift, Result, SwmError};
use crate::planner::config::ActionBounds;
use crate::planner::rng::draws_fit;
use crate::planner::sampling::{enforce_min_std, raised_to, usable_bounds};
use crate::planner::workspace::bound_tensor;
use crate::scalar::F32;
use crate::tensor::arithmetic::{average_of, mean, root_of, square_root, variance, variance_of};
use crate::tensor::facts::lemma_counts;
use crate::tensor::value::{
    count, hosted, is_float, is_nan, matching, tensor_dims, tensor_element, tensor_location, value,
    ElementType, Location, TensorValue,
};

verus! {

/// A search distribution: a mean and a deviation for each step and component.
pub struct Distribution {
    pub mean: TensorValue,
    pub std: TensorValue,
}

/// The mean and the deviation of the elites, the latter at or above its least
/// value.
pub open spec fn fits_elites(elites: TensorValue, min_std: F32, d: Distribution) -> bool {
    &&& average_of(elites, 1, d.mean)
    &&& exists|spread: TensorValue, root: TensorValue|
        #[trigger] variance_of(elites, 1, spread) && #[trigger] root_of(spread, root) && raised_to(
            root,
            min_std,
            d.std,
        )
}

/// Fits a distribution to elites `[batch, elites, horizon, action]`.
pub fn fit_elites(elites: &Tensor, min_std: F32) -> (r: Result<(Tensor, Tensor)>)
    requires
        tensor_dims(*elites).len() == 4,
        tensor_dims(*elites)[1] >= 1,
    ensures
        r matches Ok(p) ==> {
            let dims = seq![
                tensor_dims(*elites)[0],
                tensor_dims(*elites)[2],
                tensor_dims(*elites)[3],
            ];
            &&& fits_elites(
                value(*elites),
                min_std,
                Distribution { mean: value(p.0), std: value(p.1) },
            )
            &&& tensor_dims(p.0) == dims
            &&& tensor_dims(p.1) == dims
            &&& tensor_element(p.0) == tensor_element(*elites)
            &&& tensor_location(p.0) == tensor_location(*elites)
            &&& matching(value(p.0), value(p.1))
        },
        r matches Err(SwmError::Message(m)) ==> m@ == "plan shape overflowed"@ && count(
            seq![tensor_dims(*elites)[0], tensor_dims(*elites)[2], tensor_dims(*elites)[3]],
        ) > usize::MAX,
        hosted(value(*elites)) && count(
            seq![tensor_dims(*elites)[0], tensor_dims(*elites)[2], tensor_dims(*elites)[3]],
        ) <= usize::MAX ==> r is Ok,
{
    let ghost e = value(*elites);
    let center = lift(mean(elites, 1))?;
    let spread = lift(variance(elites, 1))?;
    proof {
        assert(e.dims.remove(1) =~= seq![e.dims[0], e.dims[2], e.dims[3]]);
    }
    let root = lift(square_root(&spread))?;
    let std = enforce_min_std(&root, min_std)?;
    proof {
        assert(variance_of(e, 1, value(spread)));
        assert(root_of(value(spread), value(root)));
    }
    Ok((center, std))
}

/// Bound tensors made from valid bounds can bound candidates.
pub proof fn lemma_usable_bounds(
    bounds: ActionBounds,
    action_dim: usize,
    e: ElementType,
    location: Location,
    low: TensorValue,
    high: TensorValue,
)
    requires
        bounds.valid(action_dim),
        bound_tensor(bounds.low@, e, location, low),
        bound_tensor(bounds.high@, e, location, high),
    ensures
        usable_bounds(low, high, e, action_dim),
{
    assert forall|k: int| 0 <= k < action_dim implies !is_nan(e, #[trigger] low.keys[k]) by {
        if is_float(e) {
            assert(bounds.low@[k].finite());
        }
    }
    assert forall|k: int| 0 <= k < action_dim implies !is_nan(e, #[trigger] high.keys[k]) by {
        if is_float(e) {
            assert(bounds.high@[k].finite());
        }
    }
}

/// Draws that fit a machine integer make shapes that do.
pub proof fn lemma_shapes_fit(batch: usize, samples: usize, horizon: usize, action_dim: usize)
    requires
        draws_fit(batch, samples, horizon, action_dim),
    ensures
        count(seq![batch, samples, horizon, action_dim]) <= usize::MAX,
        count(seq![batch, samples]) <= usize::MAX,
{
    lemma_counts(batch, samples, horizon, action_dim);
    let (b, s, h, a) = (batch as int, samples as int, horizon as int, action_dim as int);
    assert(b * (s * (h * a)) == b * s * h * a) by (nonlinear_arith);
}

/// Fewer candidates fit where more do, and one sequence fits where some do.
pub proof fn lemma_fewer_fit(
    batch: usize,
    fewer: usize,
    samples: usize,
    horizon: usize,
    action_dim: usize,
)
    requires
        0 < fewer <= samples,
        count(seq![batch, samples, horizon, action_dim]) <= usize::MAX,
    ensures
        count(seq![batch, fewer, horizon, action_dim]) <= usize::MAX,
        count(seq![batch, horizon, action_dim]) <= usize::MAX,
{
    lemma_counts(batch, samples, horizon, action_dim);
    lemma_counts(batch, fewer, horizon, action_dim);
    lemma_counts(batch, horizon, action_dim, 1);
    let (b, f, s, h, a) = (
        batch as int,
        fewer as int,
        samples as int,
        horizon as int,
        action_dim as int,
    );
    assert(b * (f * (h * a)) <= b * (s * (h * a))) by (nonlinear_arith)
        requires
            0 < f <= s,
            b >= 0,
            h >= 0,
            a >= 0,
    ;
    assert(b * (h * a) <= b * (f * (h * a))) by (nonlinear_arith)
        requires
            0 < f,
            b >= 0,
            h >= 0,
            a >= 0,
    ;
}

} // verus!
