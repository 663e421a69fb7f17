//! What goes out over the C interface: numbers, row after row.

use candle_core::Tensor;
use vstd::prelude::*;

use crate::error::{lift, Result, SwmError};
use crate::ffi::status::{
    backend_failed, carry, failed_saying, FfiError, FfiResult, SwmStatus,
};
use crate::media::tensors::{element_name, name_of};
use crate::planner::result::PlanResult;
use crate::scalar::F32;
use crate::tensor::facts::lemma_counts;
use crate::tensor::layout::{dtype, element, f32_values};
use crate::tensor::ranks::{dims2, dims3, rank_complaint};
use crate::tensor::value::{tensor_element, tensor_location, value, ElementType, TensorValue};
use crate::text::{decimal, with_numbers};

verus! {

/// The numbers of a tensor, row after row.
pub open spec fn are_numbers(v: TensorValue, r: Seq<F32>) -> bool {
    &&& r.len() == v.keys.len()
    &&& forall|k: int| 0 <= k < r.len() ==> (#[trigger] r[k]).key() == v.keys[k]
}

/// The first thing that keeps a tensor of a rank from being read as numbers.
pub open spec fn read_complaint(v: TensorValue, rank: nat) -> Option<Seq<char>> {
    if v.dims.len() != rank {
        Some(rank_complaint(rank, v.dims))
    } else if !(v.element is F32) {
        Some("unexpected dtype, expected: F32, got: "@ + element_name(v.element))
    } else {
        None
    }
}

fn read_numbers(t: &Tensor) -> (r: Result<Vec<F32>>)
    ensures
        !(tensor_element(*t) is F32) ==> r is Err && r->Err_0.says(
            "unexpected dtype, expected: F32, got: "@ + element_name(tensor_element(*t)),
        ),
        tensor_element(*t) is F32 ==> (r matches Err(e) ==> e is Backend),
        r matches Ok(o) ==> are_numbers(value(*t), o@),
        tensor_element(*t) is F32 && tensor_location(*t) is Cpu ==> r is Ok,
{
    let e = element(dtype(t));
    if e != ElementType::F32 {
        let mut text = String::from_str("unexpected dtype, expected: F32, got: ");
        text.append(name_of(e));
        return Err(SwmError::Message(text));
    }
    lift(f32_values(t))
}

/// What reading numbers gives.
pub open spec fn reads(v: TensorValue, rank: nat, r: FfiResult<Vec<F32>>) -> bool {
    &&& read_complaint(v, rank) matches Some(text) ==> r is Err && r->Err_0.is(
        SwmStatus::RuntimeError,
        text,
    )
    &&& r matches Err(e) ==> backend_failed(e) || failed_saying(e, read_complaint(v, rank))
    &&& read_complaint(v, rank) is None && v.location is Cpu ==> r is Ok
    &&& r matches Ok(o) ==> are_numbers(v, o@)
}

/// The numbers of a matrix, row after row.
pub fn flatten2(t: &Tensor) -> (r: FfiResult<Vec<F32>>)
    ensures
        reads(value(*t), 2, r),
{
    let d = carry(dims2(t))?;
    carry(read_numbers(t))
}

/// The numbers of three axes, row after row.
pub fn flatten3(t: &Tensor) -> (r: FfiResult<Vec<F32>>)
    ensures
        reads(value(*t), 3, r),
{
    let d = carry(dims3(t))?;
    carry(read_numbers(t))
}

/// How many rows have a best place.
pub open spec fn ranked_rows(scores: TensorValue, best: Seq<usize>) -> int {
    if scores.dims[0] <= best.len() {
        scores.dims[0] as int
    } else {
        best.len() as int
    }
}

/// Whether a number is the score at the best place of row `k`.
pub open spec fn at_best(scores: TensorValue, best: Seq<usize>, x: F32, k: int) -> bool {
    best[k] < scores.dims[1] && x.key() == scores.keys[k * scores.dims[1] + best[k]]
}

/// The score at the best place of each row.
pub open spec fn are_best(scores: TensorValue, best: Seq<usize>, r: Seq<F32>) -> bool {
    &&& r.len() == ranked_rows(scores, best)
    &&& forall|k: int| 0 <= k < r.len() ==> at_best(scores, best, #[trigger] r[k], k)
}

/// Whether `k` is the first row whose best place lies outside of it.
pub open spec fn first_outside(scores: TensorValue, best: Seq<usize>, k: int) -> bool {
    &&& 0 <= k < ranked_rows(scores, best)
    &&& best[k] >= scores.dims[1]
    &&& forall|j: int| 0 <= j < k ==> #[trigger] best[j] < scores.dims[1]
}

/// What is said of a best place outside of its row.
pub open spec fn outside_text(place: usize, width: usize) -> Seq<char> {
    "best index "@ + decimal(place as nat) + " out of range for score row length "@ + decimal(
        width as nat,
    )
}

/// Whether an error speaks of the first best place that lies outside of its row.
pub open spec fn says_outside(scores: TensorValue, best: Seq<usize>, e: FfiError) -> bool {
    exists|k: int| #[trigger]
        first_outside(scores, best, k) && e.is(
            SwmStatus::RuntimeError,
            outside_text(best[k], scores.dims[1]),
        )
}

/// The score at the best place of each row.
pub fn best_costs(scores: &Tensor, best: &[usize]) -> (r: FfiResult<Vec<F32>>)
    ensures
        read_complaint(value(*scores), 2) matches Some(text) ==> r is Err && r->Err_0.is(
            SwmStatus::RuntimeError,
            text,
        ),
        r matches Err(e) ==> backend_failed(e) && !(tensor_location(*scores) is Cpu) || match
            read_complaint(value(*scores), 2) {
            Some(text) => e.is(SwmStatus::RuntimeError, text),
            None => says_outside(value(*scores), best@, e),
        },
        forall|k: int|
            read_complaint(value(*scores), 2) is None && #[trigger] first_outside(
                value(*scores),
                best@,
                k,
            ) ==> r is Err,
        r matches Ok(o) ==> are_best(value(*scores), best@, o@),
{
    let (rows, width) = carry(dims2(scores))?;
    let all = carry(read_numbers(scores))?;
    let ghost v = value(*scores);
    proof {
        lemma_counts(rows, width, 0, 0);
    }
    let total: usize = all.len();
    let mut out: Vec<F32> = Vec::new();
    let mut k: usize = 0;
    let mut start: usize = 0;
    while k < rows && k < best.len()
        invariant
            k <= rows,
            k <= best@.len(),
            v == value(*scores),
            v.dims == seq![rows, width],
            v.element is F32,
            all@.len() == total,
            total == rows * width,
            are_numbers(v, all@),
            start == k * width,
            out@.len() == k,
            forall|j: int| 0 <= j < k ==> at_best(v, best@, #[trigger] out@[j], j),
        decreases rows - k,
    {
        let place: usize = best[k];
        proof {
            let (x, n, w) = (k as int, rows as int, width as int);
            assert(x * w + w <= n * w && (x + 1) * w == x * w + w) by (nonlinear_arith)
                requires
                    0 <= x < n,
                    w >= 0,
            ;
        }
        if place >= width {
            let text = with_numbers(
                "best index ",
                place,
                " out of range for score row length ",
                width,
                "",
            );
            proof {
                reveal_strlit("");
                assert(text@ =~= outside_text(place, width));
                assert forall|j: int| 0 <= j < k implies #[trigger] best@[j] < width by {
                    assert(at_best(v, best@, out@[j], j));
                }
                assert(first_outside(v, best@, k as int));
            }
            return Err(FfiError::runtime_text(text));
        }
        let x = all[start + place];
        proof {
            assert(at_best(v, best@, x, k as int));
        }
        out.push(x);
        start = start + width;
        k = k + 1;
    }
    proof {
        assert(out@.len() == ranked_rows(v, best@));
        assert forall|i: int| first_outside(v, best@, i) implies false by {
            assert(at_best(v, best@, out@[i], i));
        }
    }
    Ok(out)
}

/// What a caller wants to know of a plan.
#[derive(Debug, Clone, Copy, PartialEq, Eq, Structural)]
pub struct OutputsWanted {
    pub action: bool,
    pub sequence: bool,
    pub best_costs: bool,
}

/// What a caller is told of a plan.
#[derive(Debug)]
pub struct PlanOutputs {
    pub action: Vec<F32>,
    pub sequence: Option<Vec<F32>>,
    pub best_costs: Option<Vec<F32>>,
}

/// What a caller is told of a plan.
pub open spec fn tells(p: PlanResult, wanted: OutputsWanted, o: PlanOutputs) -> bool {
    &&& wanted.action
    &&& are_numbers(value(p.first_action), o.action@)
    &&& o.sequence is Some <==> wanted.sequence
    &&& o.sequence matches Some(s) ==> are_numbers(value(p.sequence), s@)
    &&& o.best_costs is Some <==> wanted.best_costs
    &&& o.best_costs matches Some(c) ==> are_best(value(p.scores), p.best_indices@, c@)
}

/// The first thing that keeps a caller from being told of a plan.
pub open spec fn tell_complaint(p: PlanResult, wanted: OutputsWanted) -> Option<
    (SwmStatus, Seq<char>),
> {
    if read_complaint(value(p.first_action), 2) is Some {
        Some((SwmStatus::RuntimeError, read_complaint(value(p.first_action), 2)->0))
    } else if !wanted.action {
        Some((SwmStatus::NullPointer, "action_out pointer is null"@))
    } else if wanted.sequence && read_complaint(value(p.sequence), 3) is Some {
        Some((SwmStatus::RuntimeError, read_complaint(value(p.sequence), 3)->0))
    } else if wanted.best_costs && read_complaint(value(p.scores), 2) is Some {
        Some((SwmStatus::RuntimeError, read_complaint(value(p.scores), 2)->0))
    } else {
        None
    }
}

/// How telling of a plan fails.
pub open spec fn untold(p: PlanResult, wanted: OutputsWanted, e: FfiError) -> bool {
    ||| backend_failed(e) && !(tensor_location(p.first_action) is Cpu && tensor_location(
        p.sequence,
    ) is Cpu && tensor_location(p.scores) is Cpu)
    ||| match tell_complaint(p, wanted) {
        Some((status, text)) => e.is(status, text),
        None => wanted.best_costs && says_outside(value(p.scores), p.best_indices@, e),
    }
}

/// What a caller is told of a plan. The action is always told.
pub fn copy_plan_outputs(p: &PlanResult, wanted: OutputsWanted) -> (r: FfiResult<PlanOutputs>)
    ensures
        tell_complaint(*p, wanted) is Some ==> r is Err,
        r matches Err(e) ==> untold(*p, wanted, e),
        r matches Ok(o) ==> tells(*p, wanted, o),
{
    let action = flatten2(&p.first_action)?;
    if !wanted.action {
        let e = FfiError::null("action_out");
        proof {
            reveal_strlit("action_out");
            reveal_strlit(" pointer is null");
            reveal_strlit("action_out pointer is null");
            assert(e.message@ =~= "action_out pointer is null"@);
        }
        return Err(e);
    }
    let sequence = if wanted.sequence {
        Some(flatten3(&p.sequence)?)
    } else {
        None
    };
    let best = if wanted.best_costs {
        Some(best_costs(&p.scores, p.best_indices.as_slice())?)
    } else {
        None
    };
    Ok(PlanOutputs { action, sequence, best_costs: best })
}

} // verus!
