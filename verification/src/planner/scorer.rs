//! What planners search against.

use candle_core::DType;
use candle_core::Device;
use candle_core::Tensor;
use vstd::prelude::*;

use crate::error::Result;
use crate::tensor::value::{device_location, dtype_element, ElementType, Location};

verus! {

/// Scores action candidates; lower is better.
pub trait CandidateScorer {
    /// The device on which candidates are drawn.
    fn device(&self) -> (r: &Device);

    /// The element type in which candidates are drawn.
    fn dtype(&self) -> (r: DType);

    /// The number of batch rows, where the scorer has one.
    fn batch_size(&self) -> (r: Option<usize>) {
        None
    }

    /// One score for each candidate of `[batch, samples, horizon, action]`.
    fn score_candidates(&self, action_candidates: &Tensor) -> (r: Result<Tensor>);
}

/// What a scorer said of the candidates that it wants.
pub struct Request {
    pub batch: usize,
    pub element: ElementType,
    pub location: Location,
}

/// Whether a scorer can have said this when it was asked.
pub open spec fn asked_for<S: CandidateScorer>(scorer: &S, q: Request) -> bool {
    exists|device: &Device, dtype: DType, batch: Option<usize>|
        #[trigger] call_ensures(S::device, (scorer,), device) && #[trigger] call_ensures(
            S::dtype,
            (scorer,),
            dtype,
        ) && #[trigger] call_ensures(S::batch_size, (scorer,), batch) && q.location
            == device_location(*device) && q.element == dtype_element(dtype) && q.batch == (
        match batch {
            Some(b) => b,
            None => 1,
        })
}

/// Whether a scorer can have given these scores to these candidates.
pub open spec fn scored<S: CandidateScorer>(
    scorer: &S,
    candidates: Tensor,
    scores: Tensor,
) -> bool {
    call_ensures(S::score_candidates, (scorer, &candidates), Ok(scores))
}

} // verus!
