//! What a planner returns.

use candle_core::DType;
use candle_core::Device;
use candle_core::Tensor;
use core::time::Duration;
use std::time::Instant;
use vstd::prelude::*;

use crate::error::{lift, message, Result, SwmError};
use crate::planner::clock::since;
use crate::planner::selection::{
    best_indices_from_tensor, best_places, gather_candidate_sequences, picked, ranking_complaint,
    scores_finite, sortable, sorted_score_indices,
};
use crate::planner::workspace::{rounded, single};
use crate::scalar::F32;
use crate::tensor::facts::{
    lemma_counts, lemma_place, lemma_position, lemma_second_axis, lemma_spread_last_of_three,
};
use crate::tensor::layout::{
    broadcast_as, dims, location, narrow, narrowed, sorts_rows, squeeze, to_dtype,
};
use crate::tensor::make::{filled, from_f32, zeros};
use crate::tensor::ranks::element_count;
use crate::tensor::select::{pick_step, step_of};
use crate::tensor::value::{
    count, device_location, dtype_element, plain, resident, spreads, tensor_dims, tensor_element, tensor_keys,
    tensor_location, value, ElementType, Location, TensorValue,
};
use crate::text::join;

verus! {

/// What stood in for the search, if anything did.
#[derive(Debug, Clone, Copy, PartialEq, Eq, Structural)]
pub enum PlanFallback {
    NotUsed,
    WarmStart,
    ConfiguredAction,
}

/// A plan.
#[derive(Debug)]
pub struct PlanResult {
    pub first_action: Tensor,
    pub sequence: Tensor,
    pub scores: Tensor,
    pub best_indices: Vec<usize>,
    pub iterations_completed: usize,
    pub elapsed: Duration,
    pub deadline_reached: bool,
    pub fallback: PlanFallback,
    /// Whether elites were selected on the host: never on another device, and
    /// never where nothing was selected.
    pub used_host_elite_selection: bool,
}

/// Candidates and the scores that they were given.
#[derive(Debug)]
pub struct Scored {
    pub candidates: Tensor,
    pub scores: Tensor,
}

/// Whether the elites of a search on a device are selected on the host.
pub(crate) fn on_host(device: &Device) -> (r: bool)
    ensures
        r == device_location(*device) is Cpu,
{
    match location(device) {
        Location::Cpu => true,
        _ => false,
    }
}

/// A plan made from a fallback sequence: its first action leads, there is one
/// zero score for each batch row, and no iteration was completed.
pub open spec fn is_fallback(
    p: PlanResult,
    e: ElementType,
    location: Location,
    fallback: PlanFallback,
) -> bool {
    &&& tensor_dims(p.sequence).len() == 3
    &&& step_of(value(p.sequence), 0, value(p.first_action))
    &&& tensor_dims(p.scores) == seq![tensor_dims(p.sequence)[0], 1]
    &&& tensor_element(p.scores) == e
    &&& tensor_location(p.scores) == location
    &&& plain(e) ==> tensor_keys(p.scores) == filled(tensor_dims(p.scores), 0)
    &&& p.best_indices@ == Seq::new(tensor_dims(p.sequence)[0] as nat, |k: int| 0usize)
    &&& p.iterations_completed == 0
    &&& p.deadline_reached
    &&& p.fallback == fallback
    &&& !p.used_host_elite_selection
}

/// One action repeated for every batch row and step.
pub open spec fn repeats_action(
    action: Seq<F32>,
    batch: usize,
    horizon: usize,
    e: ElementType,
    location: Location,
    v: TensorValue,
) -> bool {
    let a = action.len() as usize;
    &&& v.dims == seq![batch, horizon, a]
    &&& v.element == e
    &&& v.location == location
    &&& exists|c: Seq<int>|
        #[trigger] rounded_action(action, e, location, c) && v.keys == Seq::new(
            count(v.dims),
            |k: int| c[k % a as int],
        )
}

/// The components of an action rounded to an element type.
pub open spec fn rounded_action(
    action: Seq<F32>,
    e: ElementType,
    location: Location,
    c: Seq<int>,
) -> bool {
    rounded(action, seq![1usize, 1, action.len() as usize], e, location, c)
}

/// What is said when the time ran out and there is nothing to fall back on.
pub open spec fn no_fallback_complaint(planner: Seq<char>) -> Seq<char> {
    planner
        + " deadline reached before any iteration completed and no fallback_action is configured"@
}

fn zero_indices(n: usize) -> (r: Vec<usize>)
    ensures
        r@ == Seq::new(n as nat, |k: int| 0usize),
{
    let mut out: Vec<usize> = Vec::new();
    let mut i: usize = 0;
    while i < n
        invariant
            i <= n,
            out@ == Seq::new(i as nat, |k: int| 0usize),
        decreases n - i,
    {
        out.push(0);
        proof {
            assert(out@ =~= Seq::new((i + 1) as nat, |k: int| 0usize));
        }
        i = i + 1;
    }
    out
}

/// A plan made from a sequence `[batch, horizon, action]`.
pub fn fallback_plan_result(
    sequence: Tensor,
    dtype: DType,
    device: &Device,
    start: &Instant,
    fallback: PlanFallback,
) -> (r: Result<PlanResult>)
    requires
        tensor_dims(sequence).len() == 3,
        tensor_dims(sequence)[1] > 0,
    ensures
        r matches Ok(p) ==> is_fallback(
            p,
            dtype_element(dtype),
            device_location(*device),
            fallback,
        ) && p.sequence == sequence,
        r matches Err(e) ==> e is Backend,
        device_location(*device) is Cpu && plain(dtype_element(dtype)) ==> r is Ok,
{
    let d = dims(&sequence);
    let batch: usize = d[0];
    let first_action = pick_step(&sequence, 0)?;
    let shape: [usize; 2] = [batch, 1];
    proof {
        assert(shape@ =~= seq![batch, 1usize]);
        lemma_counts(batch, 1, 1, 1);
        vstd::arithmetic::mul::lemma_mul_basics(batch as int);
    }
    let scores = lift(zeros(&shape, dtype, device))?;
    Ok(
        PlanResult {
            first_action,
            sequence,
            scores,
            best_indices: zero_indices(batch),
            iterations_completed: 0,
            elapsed: since(start),
            deadline_reached: true,
            fallback,
            used_host_elite_selection: false,
        },
    )
}

/// Repeats an action for every batch row and step.
pub fn fallback_sequence_from_action(
    action: &[F32],
    batch: usize,
    horizon: usize,
    dtype: DType,
    device: &Device,
) -> (r: Result<Tensor>)
    ensures
        r matches Ok(t) ==> repeats_action(
            action@,
            batch,
            horizon,
            dtype_element(dtype),
            device_location(*device),
            value(t),
        ),
        r matches Err(SwmError::Message(m)) ==> m@ == "plan shape overflowed"@ && count(
            seq![batch, horizon, action@.len() as usize],
        ) > usize::MAX,
        device_location(*device) is Cpu && plain(dtype_element(dtype)) && count(
            seq![batch, horizon, action@.len() as usize],
        ) <= usize::MAX ==> r is Ok,
{
    let a: usize = action.len();
    let row: [usize; 3] = [1, 1, a];
    let shape: [usize; 3] = [batch, horizon, a];
    let ghost src = seq![1usize, 1, a];
    let ghost dst = seq![batch, horizon, a];
    proof {
        assert(row@ =~= src);
        assert(shape@ =~= dst);
        lemma_counts(1, 1, a, a);
        vstd::arithmetic::mul::lemma_mul_basics(a as int);
    }
    if element_count(&shape).is_none() {
        return Err(message("plan shape overflowed"));
    }
    let one = lift(from_f32(action, &row, device))?;
    let cast = lift(to_dtype(&one, dtype))?;
    proof {
        assert(value(one) == single(action@, src, device_location(*device)));
        assert forall|k: int| 0 <= k < action@.len() implies #[trigger] tensor_keys(one)[k]
            == action@[k].key() by {}
        assert(value(cast) == TensorValue {
            dims: src,
            keys: tensor_keys(cast),
            element: dtype_element(dtype),
            location: device_location(*device),
        });
        assert(rounded_action(
            action@,
            dtype_element(dtype),
            device_location(*device),
            tensor_keys(cast),
        ));
        assert(spreads(src, dst));
    }
    let wide = lift(broadcast_as(&cast, &shape))?;
    proof {
        assert forall|k: int| 0 <= k < count(dst) implies #[trigger] tensor_keys(wide)[k]
            == tensor_keys(cast)[k % a as int] by {
            lemma_spread_last_of_three(batch, horizon, a, k);
        }
        assert(tensor_keys(wide) =~= Seq::new(
            count(dst),
            |k: int| tensor_keys(cast)[k % a as int],
        ));
    }
    Ok(wide)
}

/// A plan made from the configured fallback action.
pub fn configured_fallback_result(
    fallback_action: &Option<Vec<F32>>,
    batch: usize,
    horizon: usize,
    dtype: DType,
    device: &Device,
    start: &Instant,
    planner: &str,
) -> (r: Result<PlanResult>)
    requires
        horizon > 0,
    ensures
        fallback_action is None ==> r is Err && r->Err_0.says(no_fallback_complaint(planner@)),
        r matches Ok(p) ==> fallback_action matches Some(action) && is_fallback(
            p,
            dtype_element(dtype),
            device_location(*device),
            PlanFallback::ConfiguredAction,
        ) && repeats_action(
            action@,
            batch,
            horizon,
            dtype_element(dtype),
            device_location(*device),
            value(p.sequence),
        ),
        r matches Err(SwmError::Message(m)) ==> match fallback_action {
            None => m@ == no_fallback_complaint(planner@),
            Some(action) => m@ == "plan shape overflowed"@ && count(
                seq![batch, horizon, action@.len() as usize],
            ) > usize::MAX,
        },
        fallback_action is Some && device_location(*device) is Cpu && plain(dtype_element(dtype))
            && count(seq![batch, horizon, fallback_action->0@.len() as usize]) <= usize::MAX
            ==> r is Ok,
{
    match fallback_action {
        None => Err(
            SwmError::Message(
                join(
                    planner,
                    " deadline reached before any iteration completed and no fallback_action is configured",
                ),
            ),
        ),
        Some(action) => {
            let sequence = fallback_sequence_from_action(
                action.as_slice(),
                batch,
                horizon,
                dtype,
                device,
            )?;
            fallback_plan_result(sequence, dtype, device, start, PlanFallback::ConfiguredAction)
        },
    }
}

/// Where the best candidate of each batch row stands. All scores are finite.
pub open spec fn ranks_best(scores: TensorValue, best_indices: Seq<usize>) -> bool {
    &&& scores_finite(scores)
    &&& exists|order: TensorValue|
        #[trigger] sorts_rows(scores, order) && best_places(order, best_indices)
}

/// Reads where the best candidate of each batch row stands.
pub fn best_rows(scores: &Tensor) -> (r: Result<Vec<usize>>)
    requires
        tensor_dims(*scores).len() == 2,
    ensures
        r matches Ok(v) ==> ranks_best(value(*scores), v@) && v@.len() == tensor_dims(*scores)[0],
        r matches Err(SwmError::Message(m)) ==> ranking_complaint(value(*scores), m@),
        r matches Err(e) ==> e is Backend ==> !sortable(*scores),
{
    let d = dims(scores);
    let ghost (b, n) = (d@[0], d@[1]);
    let order = sorted_score_indices(scores)?;
    let best = lift(narrow(&order, 1, 0, 1))?;
    let ghost o2 = value(order);
    let ghost b2 = value(best);
    proof {
        assert(d@ =~= seq![b, n]);
        assert(b2.dims =~= seq![b, 1usize]);
        lemma_second_axis(b, n, 0, 0);
        lemma_second_axis(b, 1, 0, 0);
    }
    let indices = best_indices_from_tensor(&best)?;
    proof {
        assert forall|o: int| 0 <= o < indices@.len() implies #[trigger] indices@[o] == o2.at(
            1,
            o,
            0,
            0,
        ) by {
            assert(b2.at(1, o, 0, 0) == o2.at(1, o, 0, 0));
        }
        assert(best_places(o2, indices@));
    }
    Ok(indices)
}

/// The sequence of the best candidate of each batch row, with where it stood.
/// All scores are finite.
pub open spec fn best_of(
    candidates: TensorValue,
    scores: TensorValue,
    best_indices: Seq<usize>,
    sequence: TensorValue,
) -> bool {
    &&& scores_finite(scores)
    &&& exists|order: TensorValue, best: TensorValue, rows: TensorValue|
        #[trigger] sorts_rows(scores, order) && best_places(order, best_indices)
            && #[trigger] narrowed(order, 1, 0, 1, best) && #[trigger] picked(
            candidates,
            best,
            rows,
        ) && sequence == rows.shaped(
            seq![candidates.dims[0], candidates.dims[2], candidates.dims[3]],
        )
}

/// Reads the best candidate of each batch row.
pub fn best_candidates(last: &Scored) -> (r: Result<(Tensor, Vec<usize>)>)
    requires
        tensor_dims(last.candidates).len() == 4,
        tensor_dims(last.scores) == seq![
            tensor_dims(last.candidates)[0],
            tensor_dims(last.candidates)[1],
        ],
        tensor_dims(last.candidates)[1] > 0,
    ensures
        r matches Ok(p) ==> best_of(
            value(last.candidates),
            value(last.scores),
            p.1@,
            value(p.0),
        ) && tensor_dims(last.candidates)[1] < u32::MAX && p.1@.len() == tensor_dims(
            last.candidates,
        )[0],
        r matches Err(SwmError::Message(m)) ==> ranking_complaint(value(last.scores), m@) || (m@
            == "candidate selection is too large"@ && count(
            seq![
                tensor_dims(last.candidates)[0],
                1,
                tensor_dims(last.candidates)[2],
                tensor_dims(last.candidates)[3],
            ],
        ) > usize::MAX),
        r matches Err(e) ==> e is Backend ==> !(resident(value(last.candidates)) && sortable(
            last.scores,
        )),
{
    let d = dims(&last.candidates);
    let ghost c = value(last.candidates);
    let ghost (b, n, h, a) = (c.dims[0], c.dims[1], c.dims[2], c.dims[3]);
    let order = sorted_score_indices(&last.scores)?;
    let best = lift(narrow(&order, 1, 0, 1))?;
    let ghost o2 = value(order);
    let ghost b2 = value(best);
    proof {
        assert(c.dims =~= seq![b, n, h, a]);
        assert(b2.dims =~= seq![b, 1usize]);
        lemma_second_axis(b, n, h, a);
        lemma_second_axis(b, 1, h, a);
        assert forall|k: int| 0 <= k < b2.keys.len() implies 0 <= #[trigger] b2.keys[k] < n
            && b2.keys[k] < u32::MAX by {
            let p = lemma_place(b2.dims, 1, k);
            assert(b2.at(1, p.0, p.1, p.2) == o2.at(1, p.0, p.1, p.2));
            lemma_position(o2.dims, 1, p.0, p.1, p.2);
        }
    }
    let indices = best_indices_from_tensor(&best)?;
    proof {
        assert forall|o: int| 0 <= o < indices@.len() implies #[trigger] indices@[o] == o2.at(
            1,
            o,
            0,
            0,
        ) by {
            assert(b2.at(1, o, 0, 0) == o2.at(1, o, 0, 0));
        }
        assert(best_places(o2, indices@));
    }
    let rows = gather_candidate_sequences(&last.candidates, &best)?;
    proof {
        assert(tensor_dims(rows) =~= seq![b, 1usize, h, a]);
        assert(tensor_dims(rows).remove(1) =~= seq![b, h, a]);
    }
    let sequence = lift(squeeze(&rows, 1))?;
    proof {
        assert(picked(c, b2, value(rows)));
    }
    Ok((sequence, indices))
}

} // verus!
