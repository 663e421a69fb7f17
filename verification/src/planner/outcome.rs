//! How a plan starts its noise, and how it can fail.

use candle_core::DType;
use candle_core::Device;
use candle_core::Tensor;
use std::time::Duration;
use vstd::prelude::*;

use crate::error::{Result, SwmError};
use crate::planner::clock::duration_nanos;
use crate::planner::noise::NoiseSource;
use crate::planner::rng::PlannerRng;
use crate::planner::sampling::{answers_with, draws_unfit};
use crate::planner::scorer::{scored, CandidateScorer, Request};
use crate::planner::selection::{ranking_complaint, scores_shape_complaint, sortable};
use crate::tensor::value::{
    device_location, dtype_element, is_float, tensor_dims, value, Location,
};

verus! {

/// Whether a source can have answered the start of a stream like this.
pub open spec fn starts_with<N: NoiseSource>(
    seed: u64,
    offset: u64,
    location: Location,
    r: Result<()>,
) -> bool {
    exists|source: &mut N, device: &Device|
        device_location(*device) == location && #[trigger] call_ensures(
            N::begin,
            (source, seed, offset, device),
            r,
        )
}

/// A seeded plan started its stream with its own seed, at the position that the
/// planner's stream stood at before.
pub open spec fn stream_started<N: NoiseSource>(
    seed: Option<u64>,
    before: PlannerRng,
    location: Location,
) -> bool {
    seed matches Some(s) ==> starts_with::<N>(s, before.next_offset, location, Ok(()))
}

/// The sizes of a search: the candidates that a round draws, the most that it
/// scores, and the shape of each.
pub struct Sizes {
    pub samples: usize,
    pub most: int,
    pub horizon: usize,
    pub action_dim: usize,
}

/// Candidates of a round.
pub open spec fn candidates_of(q: Request, sizes: Sizes, candidates: Tensor) -> bool {
    let d = tensor_dims(candidates);
    &&& d.len() == 4
    &&& d[0] == q.batch
    &&& sizes.samples <= d[1] <= sizes.most
    &&& d[2] == sizes.horizon
    &&& d[3] == sizes.action_dim
}

/// Whether the noise source can have refused the draws of a round like this.
pub open spec fn draws_refused<N: NoiseSource>(q: Request, sizes: Sizes, e: SwmError) -> bool {
    let dims = seq![q.batch, sizes.samples, sizes.horizon, sizes.action_dim];
    exists|dtype: DType, device: &Device|
        dtype_element(dtype) == q.element && device_location(*device) == q.location
            && #[trigger] answers_with::<N>(dims, dtype, device, Err(e))
}

/// Whether an error speaks of scores of `samples` candidates: of their shape, or
/// else of their values.
pub open spec fn scores_refused(q: Request, samples: usize, scores: Tensor, e: SwmError) -> bool {
    e matches SwmError::Message(m) && if tensor_dims(scores) != seq![q.batch, samples] {
        m@ == scores_shape_complaint(q.batch, samples, tensor_dims(scores))
    } else {
        ranking_complaint(value(scores), m@)
    }
}

/// Whether a scorer can have failed on the candidates of a round with this
/// error, or have given them scores that cannot be ranked.
pub open spec fn scoring_failed<S: CandidateScorer>(
    scorer: &S,
    q: Request,
    sizes: Sizes,
    e: SwmError,
) -> bool {
    exists|c: Tensor|
        {
            &&& #[trigger] candidates_of(q, sizes, c)
            &&& {
                ||| call_ensures(S::score_candidates, (scorer, &c), Err(e))
                ||| exists|s: Tensor|
                    #[trigger] scored(scorer, c, s) && scores_refused(q, tensor_dims(c)[1], s, e)
            }
        }
}

/// Whether the source can have given a round draws that do not fit.
pub open spec fn odd_draws<N: NoiseSource>(q: Request, sizes: Sizes) -> bool {
    let dims = seq![q.batch, sizes.samples, sizes.horizon, sizes.action_dim];
    exists|dtype: DType, device: &Device|
        dtype_element(dtype) == q.element && device_location(*device) == q.location
            && #[trigger] draws_unfit::<N>(dims, dtype, device)
}

/// Whether a scorer can have given the candidates of a round scores that cannot
/// be ranked where they are.
pub open spec fn odd_scores<S: CandidateScorer>(scorer: &S, q: Request, sizes: Sizes) -> bool {
    exists|c: Tensor, s: Tensor|
        #[trigger] candidates_of(q, sizes, c) && #[trigger] scored(scorer, c, s) && !sortable(s)
}

/// Whether a search is computed in the memory of the processor.
pub open spec fn on_processor(q: Request) -> bool {
    q.location is Cpu && is_float(q.element)
}

/// Whether the backend can have failed in a search: not in the memory of the
/// processor, unless a source or a scorer handed it something odd.
pub open spec fn backend_failed_in<S: CandidateScorer, N: NoiseSource>(
    scorer: &S,
    q: Request,
    sizes: Sizes,
    deadline: Option<Duration>,
) -> bool {
    ||| !on_processor(q)
    ||| !no_time(deadline) && odd_draws::<N>(q, sizes)
    ||| !no_time(deadline) && odd_scores(scorer, q, sizes)
}

/// Whether a deadline leaves no time for any round.
pub open spec fn no_time(deadline: Option<Duration>) -> bool {
    deadline matches Some(d) && duration_nanos(d) == 0
}

/// Whether a search with valid settings and a reserved stream can end with this
/// error: the backend failed on what it was handed, the source did not start the
/// seeded stream, or, where there was time for a round, the draws, the scorer or
/// its scores were refused.
pub open spec fn search_failed<S: CandidateScorer, N: NoiseSource>(
    scorer: &S,
    q: Request,
    sizes: Sizes,
    seed: Option<u64>,
    before: PlannerRng,
    deadline: Option<Duration>,
    e: SwmError,
) -> bool {
    ||| e is Backend && backend_failed_in::<S, N>(scorer, q, sizes, deadline)
    ||| seed matches Some(s) && starts_with::<N>(s, before.next_offset, q.location, Err(e))
    ||| !no_time(deadline) && draws_refused::<N>(q, sizes, e)
    ||| !no_time(deadline) && scoring_failed(scorer, q, sizes, e)
}

} // verus!
