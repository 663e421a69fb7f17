//! Ranking candidates by their scores and picking the best of them.

use candle_core::Tensor;
use vstd::prelude::*;

use crate::planner::config::answers;
use crate::error::{lift, message, Result, SwmError};
use crate::scalar::{finite_key, F32};
use crate::tensor::facts::{
    lemma_counts, lemma_place, lemma_position, lemma_second_axis, lemma_spread_rows,
};
use crate::tensor::layout::{
    arg_sort_last_dim, broadcast_as, cast_of, contiguous, dims, dtype, dtype_of, element,
    f32_values, gather, laid_out, narrow, narrowed, reshape, sorts_rows, to_dtype, u32_values,
};
use crate::tensor::ranks::{dims4, element_count, rank_complaint};
use crate::tensor::value::{
    count, in_range, is_float, is_nan, plain, resident, spread_position, spreads, tensor_dims,
    tensor_element, tensor_keys, tensor_location, value, ElementType, TensorValue,
};
use crate::text::{decimal, sizes_text, with_dims, with_numbers};

verus! {

/// What is said of scores in the wrong shape.
pub open spec fn scores_shape_complaint(
    batch: usize,
    samples: usize,
    got: Seq<usize>,
) -> Seq<char> {
    "candidate scorer must return ["@ + decimal(batch as nat) + ", "@ + decimal(samples as nat)
        + "] scores, got "@ + sizes_text(got)
}

/// Checks that there is one score for each candidate of each batch row.
pub fn validate_scores_shape(scores: &Tensor, batch: usize, samples: usize) -> (r: Result<()>)
    ensures
        r is Ok <==> tensor_dims(*scores) == seq![batch, samples],
        r matches Err(e) ==> e.says(
            scores_shape_complaint(batch, samples, tensor_dims(*scores)),
        ),
{
    let d = dims(scores);
    if d.len() == 2 && d[0] == batch && d[1] == samples {
        proof {
            assert(d@ =~= seq![batch, samples]);
        }
        Ok(())
    } else {
        let head = with_numbers(
            "candidate scorer must return [",
            batch,
            ", ",
            samples,
            "] scores, got ",
        );
        Err(SwmError::Message(with_dims(head.as_str(), d.as_slice())))
    }
}

/// Every score is a finite number in single precision.
pub open spec fn finite_scores(single: TensorValue) -> bool {
    forall|k: int| 0 <= k < single.keys.len() ==> finite_key(#[trigger] single.keys[k])
}

/// Whether the scores, in single precision, are `single`.
pub open spec fn in_single(scores: TensorValue, single: TensorValue) -> bool {
    &&& cast_of(scores, single)
    &&& single.element is F32
    &&& single.keys.len() == scores.keys.len()
    &&& scores.element is F32 ==> single == scores
    &&& is_float(scores.element) ==> forall|k: int|
        0 <= k < single.keys.len() ==> is_nan(single.element, #[trigger] single.keys[k]) == is_nan(
            scores.element,
            scores.keys[k],
        )
}

/// Every score is a finite number once it stands in single precision.
pub open spec fn scores_finite(scores: TensorValue) -> bool {
    exists|single: TensorValue| #[trigger] in_single(scores, single) && finite_scores(single)
}

/// What is wrong with the values of scores, if anything is.
pub open spec fn values_complaint(values: Seq<F32>) -> Option<Seq<char>> {
    if values.len() == 0 {
        Some("scores are empty"@)
    } else if exists|k: int| 0 <= k < values.len() && !(#[trigger] values[k]).finite() {
        Some("scores contain non-finite values"@)
    } else {
        None
    }
}

/// Checks that there are scores and that all of them are finite.
pub fn check_score_values(values: &[F32]) -> (r: Result<()>)
    ensures
        answers(values_complaint(values@), r),
{
    if values.len() == 0 {
        return Err(message("scores are empty"));
    }
    let mut k: usize = 0;
    while k < values.len()
        invariant
            k <= values@.len(),
            values@.len() > 0,
            forall|j: int| 0 <= j < k ==> (#[trigger] values@[j]).finite(),
        decreases values@.len() - k,
    {
        if !values[k].is_finite() {
            proof {
                assert(!values@[k as int].finite());
            }
            return Err(message("scores contain non-finite values"));
        }
        k = k + 1;
    }
    Ok(())
}

/// Reads scores in single precision and checks that there are some and that all
/// of them are finite.
pub fn validate_scores_values(scores: &Tensor) -> (r: Result<()>)
    ensures
        r is Ok ==> tensor_keys(*scores).len() > 0 && scores_finite(value(*scores)),
        r matches Err(SwmError::Message(m)) ==> if tensor_keys(*scores).len() == 0 {
            m@ == "scores are empty"@
        } else {
            m@ == "scores contain non-finite values"@ && exists|single: TensorValue|
                #[trigger] in_single(value(*scores), single) && !finite_scores(single)
        },
        r matches Err(e) ==> e is Backend ==> !resident(value(*scores)),
{
    let single = lift(to_dtype(scores, dtype_of(ElementType::F32)))?;
    let v = lift(f32_values(&single))?;
    let ghost s = value(single);
    proof {
        assert(in_single(value(*scores), s));
        assert(forall|k: int| 0 <= k < v@.len() ==> (#[trigger] v@[k]).key() == s.keys[k]);
        if exists|k: int| 0 <= k < v@.len() && !(#[trigger] v@[k]).finite() {
            let k = choose|k: int| 0 <= k < v@.len() && !(#[trigger] v@[k]).finite();
            assert(!finite_key(s.keys[k]));
        } else {
            assert forall|k: int| 0 <= k < s.keys.len() implies finite_key(
                #[trigger] s.keys[k],
            ) by {
                assert(v@[k].finite());
            }
        }
    }
    check_score_values(v.as_slice())
}

/// Places of candidates in each batch row, all of them existing.
pub open spec fn names_candidates(indices: TensorValue, batch: usize, samples: usize) -> bool {
    &&& indices.element is U32
    &&& indices.dims.len() == 2
    &&& indices.dims[0] == batch
    &&& indices.keys.len() == count(indices.dims)
    &&& forall|k: int|
        0 <= k < indices.keys.len() ==> 0 <= #[trigger] indices.keys[k] < samples
            && indices.keys[k] < u32::MAX
}

/// The candidates of each batch row that `indices` names, in its order.
pub open spec fn picked(
    candidates: TensorValue,
    indices: TensorValue,
    r: TensorValue,
) -> bool {
    &&& r.dims == seq![
        candidates.dims[0],
        indices.dims[1],
        candidates.dims[2],
        candidates.dims[3],
    ]
    &&& r.element == candidates.element
    &&& r.location == candidates.location
    &&& r.keys.len() == count(r.dims)
    &&& forall|o: int, m: int, i: int|
        in_range(r.dims, 1, o, m, i) ==> #[trigger] r.at(1, o, m, i) == candidates.at(
            1,
            o,
            indices.at(1, o, m, 0),
            i,
        )
}

/// Whether scores can be ranked where they are: they are plain elements in the
/// memory of the processor, in row-major storage.
pub open spec fn sortable(scores: Tensor) -> bool {
    resident(value(scores)) && laid_out(scores)
}

/// Ranks the candidates of each batch row by score, best first.
pub fn sorted_score_indices(scores: &Tensor) -> (r: Result<Tensor>)
    requires
        tensor_dims(*scores).len() == 2,
    ensures
        r matches Ok(o) ==> sorts_rows(value(*scores), value(o)) && names_candidates(
            value(o),
            tensor_dims(*scores)[0],
            tensor_dims(*scores)[1],
        ) && 0 < tensor_dims(*scores)[1] < u32::MAX,
        r is Ok ==> scores_finite(value(*scores)),
        r matches Err(SwmError::Message(m)) ==> ranking_complaint(value(*scores), m@),
        r matches Err(e) ==> e is Backend ==> !sortable(*scores),
{
    validate_scores_values(scores)?;
    let d = dims(scores);
    let e = element(dtype(scores));
    if !is_plain(e) {
        return Err(message("scores have an unsupported element type"));
    }
    if d[1] >= u32::MAX as usize {
        return Err(message("too many candidates to rank"));
    }
    let ghost v = value(*scores);
    let ghost single = choose|single: TensorValue|
        #[trigger] in_single(v, single) && finite_scores(single);
    proof {
        lemma_counts(d@[0], d@[1], 0, 0);
        assert(d@ =~= seq![d@[0], d@[1]]);
        assert(d@[1] > 0) by (nonlinear_arith)
            requires
                d@[0] as int * d@[1] as int > 0,
        ;
        assert forall|k: int| 0 <= k < v.keys.len() implies !is_nan(
            v.element,
            #[trigger] v.keys[k],
        ) by {
            if is_float(v.element) {
                assert(finite_key(single.keys[k]));
            }
        }
    }
    let order = lift(arg_sort_last_dim(scores))?;
    proof {
        let o = value(order);
        lemma_second_axis(d@[0], d@[1], 0, 0);
        assert forall|k: int| 0 <= k < o.keys.len() implies 0 <= #[trigger] o.keys[k] < d@[1]
            && o.keys[k] < u32::MAX by {
            let p = lemma_place(d@, 1, k);
            assert(o.at(1, p.0, p.1, 0) == o.keys[k]);
        }
    }
    Ok(order)
}

fn is_plain(e: ElementType) -> (r: bool)
    ensures
        r == plain(e),
{
    match e {
        ElementType::BF16 | ElementType::F16 | ElementType::F32 | ElementType::F64 => true,
        ElementType::U8 | ElementType::U32 | ElementType::I16 | ElementType::I32
        | ElementType::I64 => true,
        _ => false,
    }
}

/// What can be said of scores that are not ranked.
pub open spec fn ranking_complaint(scores: TensorValue, text: Seq<char>) -> bool {
    if scores.keys.len() == 0 {
        text == "scores are empty"@
    } else {
        ||| text == "scores contain non-finite values"@ && exists|single: TensorValue|
            #[trigger] in_single(scores, single) && !finite_scores(single)
        ||| text == "scores have an unsupported element type"@ && !plain(scores.element)
        ||| text == "too many candidates to rank"@ && scores.dims[1] >= u32::MAX
    }
}

/// Takes the named candidates of each batch row out of `[batch, samples,
/// horizon, action]`.
pub fn gather_candidate_sequences(candidates: &Tensor, indices: &Tensor) -> (r: Result<Tensor>)
    requires
        tensor_dims(*candidates).len() == 4 && tensor_dims(*indices).len() == 2
            && tensor_dims(*indices)[0] == tensor_dims(*candidates)[0] ==> names_candidates(
            value(*indices),
            tensor_dims(*candidates)[0],
            tensor_dims(*candidates)[1],
        ),
    ensures
        r matches Ok(o) ==> picked(value(*candidates), value(*indices), value(o)),
        r matches Err(SwmError::Message(m)) ==> gather_complaint(
            tensor_dims(*candidates),
            tensor_dims(*indices),
        ) == Some(m@),
        gather_complaint(tensor_dims(*candidates), tensor_dims(*indices)) matches Some(text)
            ==> r is Err && r->Err_0.says(text),
        gather_complaint(tensor_dims(*candidates), tensor_dims(*indices)) is None && resident(
            value(*candidates),
        ) && tensor_location(*indices) is Cpu ==> r is Ok,
{
    let (batch, samples, horizon, action_dim) = dims4(candidates)?;
    let d = dims(indices);
    if d.len() != 2 || d[0] != batch {
        let head = crate::text::with_number(
            "candidate indices must have shape [",
            batch,
            ", selected], got ",
        );
        return Err(SwmError::Message(with_dims(head.as_str(), d.as_slice())));
    }
    let selected: usize = d[1];
    let shape: [usize; 4] = [batch, selected, horizon, action_dim];
    if element_count(&shape).is_none() {
        return Err(message("candidate selection is too large"));
    }
    let ghost c = value(*candidates);
    let ghost ix = value(*indices);
    let ghost dst = seq![batch, selected, horizon, action_dim];
    let ghost src = seq![batch, selected, 1usize, 1usize];
    proof {
        lemma_counts(batch, selected, horizon, action_dim);
        lemma_counts(batch, selected, 1, 1);
        assert(ix.dims =~= seq![batch, selected]);
        assert(count(src) == batch * selected) by {
            vstd::arithmetic::mul::lemma_mul_basics(selected as int);
        }
    }
    let flat = lift(reshape(indices, &[batch, selected, 1, 1]))?;
    proof {
        assert(value(flat).dims =~= src);
        assert(spreads(src, dst));
    }
    let wide = lift(broadcast_as(&flat, &shape))?;
    let wide = lift(contiguous(&wide))?;
    let source = lift(contiguous(candidates))?;
    let ghost w = value(wide);
    proof {
        assert(w.dims =~= dst);
        assert(c.dims.update(1, selected) =~= dst);
        assert forall|k: int| 0 <= k < w.keys.len() implies 0 <= #[trigger] w.keys[k] < samples
            && w.keys[k] < u32::MAX by {
            crate::tensor::facts::lemma_spread_in_range(src, dst, k);
            assert(w.keys[k] == ix.keys[spread_position(src, dst, k)]);
        }
    }
    let out = lift(gather(&source, &wide, 1))?;
    proof {
        let o4 = value(out);
        lemma_second_axis(batch, selected, horizon, action_dim);
        assert forall|o: int, m: int, i: int| in_range(o4.dims, 1, o, m, i) implies #[trigger] o4.at(
            1,
            o,
            m,
            i,
        ) == c.at(1, o, ix.at(1, o, m, 0), i) by {
            lemma_position(dst, 1, o, m, i);
            lemma_spread_rows(batch, selected, horizon, action_dim, o, m, i);
            assert(w.at(1, o, m, i) == ix.keys[o * selected + m]);
            assert(ix.at(1, o, m, 0) == ix.keys[(o * selected + m) * 1 + 0]);
        }
    }
    Ok(out)
}

/// What is said of candidates or indices in the wrong shape.
pub open spec fn gather_complaint(
    candidates: Seq<usize>,
    indices: Seq<usize>,
) -> Option<Seq<char>> {
    if candidates.len() != 4 {
        Some(rank_complaint(4, candidates))
    } else if indices.len() != 2 || indices[0] != candidates[0] {
        Some(
            "candidate indices must have shape ["@ + decimal(candidates[0] as nat)
                + ", selected], got "@ + sizes_text(indices),
        )
    } else if count(seq![candidates[0], indices[1], candidates[2], candidates[3]]) > usize::MAX {
        Some("candidate selection is too large"@)
    } else {
        None
    }
}

/// The best candidates of each batch row, best first. Their scores are finite.
pub open spec fn elite(
    candidates: TensorValue,
    scores: TensorValue,
    elite_count: usize,
    r: TensorValue,
) -> bool {
    &&& scores_finite(scores)
    &&& exists|order: TensorValue, best: TensorValue|
        #[trigger] sorts_rows(scores, order) && #[trigger] narrowed(
            order,
            1,
            0,
            elite_count as int,
            best,
        ) && picked(candidates, best, r)
}

/// What is said of candidates from which no elites are taken.
pub open spec fn elite_complaint(
    candidates: Seq<usize>,
    scores: TensorValue,
    elite_count: usize,
    text: Seq<char>,
) -> bool {
    if candidates.len() != 4 {
        text == rank_complaint(4, candidates)
    } else if elite_count > candidates[1] {
        text == "elite_count "@ + decimal(elite_count as nat) + " cannot exceed samples "@
            + decimal(candidates[1] as nat)
    } else {
        ||| ranking_complaint(scores, text)
        ||| text == "candidate selection is too large"@ && count(
            seq![candidates[0], elite_count, candidates[2], candidates[3]],
        ) > usize::MAX
    }
}

/// Picks the `elite_count` candidates with the lowest scores in each batch row.
pub fn select_elites(candidates: &Tensor, scores: &Tensor, elite_count: usize) -> (r: Result<
    Tensor,
>)
    requires
        tensor_dims(*candidates).len() == 4 ==> tensor_dims(*scores) == seq![
            tensor_dims(*candidates)[0],
            tensor_dims(*candidates)[1],
        ],
    ensures
        r matches Ok(o) ==> elite(value(*candidates), value(*scores), elite_count, value(o)),
        r matches Ok(o) ==> tensor_dims(o) == seq![
            tensor_dims(*candidates)[0],
            elite_count,
            tensor_dims(*candidates)[2],
            tensor_dims(*candidates)[3],
        ] && elite_count <= tensor_dims(*candidates)[1] && tensor_dims(*candidates)[1] < u32::MAX,
        r matches Err(SwmError::Message(m)) ==> elite_complaint(
            tensor_dims(*candidates),
            value(*scores),
            elite_count,
            m@,
        ),
        tensor_dims(*candidates).len() != 4 || elite_count > tensor_dims(*candidates)[1]
            ==> r is Err && r->Err_0 is Message,
        r matches Err(e) ==> e is Backend ==> !(resident(value(*candidates)) && sortable(*scores)),
{
    let (batch, samples, horizon, action_dim) = dims4(candidates)?;
    if elite_count > samples {
        let text = with_numbers(
            "elite_count ",
            elite_count,
            " cannot exceed samples ",
            samples,
            "",
        );
        proof {
            reveal_strlit("");
            assert(text@ =~= "elite_count "@ + decimal(elite_count as nat)
                + " cannot exceed samples "@ + decimal(samples as nat));
        }
        return Err(SwmError::Message(text));
    }
    let order = sorted_score_indices(scores)?;
    let best = lift(narrow(&order, 1, 0, elite_count))?;
    proof {
        lemma_best(value(order), value(best), batch, samples, elite_count);
    }
    gather_candidate_sequences(candidates, &best)
}

/// The first entries of a ranking name candidates.
proof fn lemma_best(
    order: TensorValue,
    best: TensorValue,
    batch: usize,
    samples: usize,
    selected: usize,
)
    requires
        order.dims == seq![batch, samples],
        names_candidates(order, batch, samples),
        narrowed(order, 1, 0, selected as int, best),
        selected <= samples,
    ensures
        best.dims == seq![batch, selected],
        names_candidates(best, batch, samples),
{
    assert(best.dims =~= seq![batch, selected]);
    lemma_second_axis(batch, samples, 0, 0);
    lemma_second_axis(batch, selected, 0, 0);
    assert forall|k: int| 0 <= k < best.keys.len() implies 0 <= #[trigger] best.keys[k] < samples
        && best.keys[k] < u32::MAX by {
        let p = lemma_place(best.dims, 1, k);
        assert(best.at(1, p.0, p.1, p.2) == order.at(1, p.0, p.1, p.2));
        lemma_position(order.dims, 1, p.0, p.1, p.2);
    }
}

/// The places of the best candidates, one for each batch row.
pub open spec fn best_places(order: TensorValue, r: Seq<usize>) -> bool {
    &&& r.len() == order.dims[0]
    &&& forall|o: int| 0 <= o < r.len() ==> #[trigger] r[o] == order.at(1, o, 0, 0)
}

/// Reads the first entry of each row of `[batch, selected]` indices.
pub fn best_indices_from_tensor(indices: &Tensor) -> (r: Result<Vec<usize>>)
    requires
        tensor_element(*indices) is U32,
        tensor_dims(*indices).len() == 2,
    ensures
        r matches Ok(v) ==> best_places(value(*indices), v@) && (tensor_dims(*indices)[1] > 0
            || tensor_dims(*indices)[0] == 0),
        r matches Err(SwmError::Message(m)) ==> tensor_dims(*indices)[1] == 0 && tensor_dims(
            *indices,
        )[0] > 0 && m@ == "best index row 0 is empty"@,
        r matches Err(e) ==> e is Backend ==> !(tensor_location(*indices) is Cpu),
{
    let d = dims(indices);
    let rows: usize = d[0];
    let cols: usize = d[1];
    let flat = lift(u32_values(indices))?;
    let ghost v = value(*indices);
    proof {
        lemma_counts(rows, cols, 0, 0);
        lemma_second_axis(rows, cols, 0, 0);
        assert(d@ =~= seq![rows, cols]);
    }
    if rows > 0 && cols == 0 {
        return Err(message("best index row 0 is empty"));
    }
    let total: usize = flat.len();
    let mut out: Vec<usize> = Vec::new();
    let mut row: usize = 0;
    let mut start: usize = 0;
    while row < rows
        invariant
            row <= rows,
            flat@.len() == total,
            rows > 0 ==> cols > 0,
            start == row * cols,
            flat@.len() == rows * cols,
            flat@.len() == v.keys.len(),
            v.dims == seq![rows, cols],
            crate::tensor::value::inner(seq![rows, cols], 1) == 1,
            forall|k: int| 0 <= k < flat@.len() ==> #[trigger] flat@[k] == v.keys[k],
            out@.len() == row,
            forall|o: int| 0 <= o < row ==> #[trigger] out@[o] == v.at(1, o, 0, 0),
        decreases rows - row,
    {
        proof {
            assert(row * cols + cols <= rows * cols) by (nonlinear_arith)
                requires
                    row < rows,
                    cols >= 0,
            ;
            assert((row + 1) * cols == row * cols + cols) by (nonlinear_arith);
            assert(v.at(1, row as int, 0, 0) == v.keys[(row * cols + 0) * 1 + 0]);
        }
        out.push(flat[start] as usize);
        row = row + 1;
        start = start + cols;
    }
    Ok(out)
}

} // verus!
