//! Scores that the tools read, rank and compare.

use candle_core::Tensor;
use vstd::prelude::*;

use crate::error::{lift, message, Result, SwmError};
use crate::scalar::{F32, F32_INFINITY, F32_SIGN};
use crate::tensor::facts::lemma_counts;
use crate::tensor::layout::{dtype_of, f32_values, placed, to_dtype};
use crate::tensor::ranks::{dims2, rank_complaint};
use crate::tensor::value::{resident, tensor_dims, value, ElementType, TensorValue};
use crate::text::{decimal, decimal_text};

verus! {

/// An order of all numbers, in which the negative zero comes before the positive
/// one and every NaN has a place of its own.
pub open spec fn total_key(x: F32) -> int {
    if x.bits < F32_SIGN {
        x.bits as int
    } else {
        F32_SIGN - x.bits - 1
    }
}

fn total_order(x: F32) -> (r: i64)
    ensures
        r == total_key(x),
{
    if x.bits < F32_SIGN {
        x.bits as i64
    } else {
        F32_SIGN as i64 - x.bits as i64 - 1
    }
}

/// The total order refines the order of the values and tells all numbers apart.
pub proof fn total_order_refines_values(a: F32, b: F32)
    ensures
        a.key() < b.key() ==> total_key(a) < total_key(b),
        total_key(a) == total_key(b) ==> a == b,
{
}

/// How a number that is not finite is written.
pub open spec fn not_finite_said(x: F32) -> Seq<char> {
    if x.key() == F32_INFINITY {
        "inf"@
    } else if x.key() == -(F32_INFINITY as int) {
        "-inf"@
    } else {
        "NaN"@
    }
}

/// How a number that is not finite is written.
pub fn not_finite_text(x: F32) -> (r: &'static str)
    ensures
        r@ == not_finite_said(x),
{
    let k: i64 = x.order_key();
    if k == F32_INFINITY as i64 {
        "inf"
    } else if k == -(F32_INFINITY as i64) {
        "-inf"
    } else {
        "NaN"
    }
}

/// Whether `k` is the first place that does not hold a finite number.
pub open spec fn first_not_finite(values: Seq<F32>, k: int) -> bool {
    &&& 0 <= k < values.len()
    &&& !values[k].finite()
    &&& forall|j: int| 0 <= j < k ==> (#[trigger] values[j]).finite()
}

/// All numbers are finite.
pub open spec fn all_finite(values: Seq<F32>) -> bool {
    forall|k: int| 0 <= k < values.len() ==> (#[trigger] values[k]).finite()
}

/// The first place that does not hold a finite number.
pub fn find_not_finite(values: &[F32]) -> (r: Option<usize>)
    ensures
        r is None <==> all_finite(values@),
        r matches Some(k) ==> first_not_finite(values@, k as int),
{
    let mut k: usize = 0;
    while k < values.len()
        invariant
            k <= values@.len(),
            forall|j: int| 0 <= j < k ==> (#[trigger] values@[j]).finite(),
        decreases values@.len() - k,
    {
        if !values[k].is_finite() {
            return Some(k);
        }
        k = k + 1;
    }
    None
}

/// What is said of numbers that should all be finite.
pub open spec fn finite_complaint(name: Seq<char>, values: Seq<F32>, k: int) -> Seq<char> {
    name + " contains non-finite value "@ + not_finite_said(values[k]) + " at flat index "@
        + decimal(k as nat)
}

/// Whether all numbers are finite.
pub fn ensure_finite(name: &str, values: &[F32]) -> (r: Result<()>)
    ensures
        r is Ok <==> all_finite(values@),
        forall|k: int| #[trigger]
            first_not_finite(values@, k) ==> r is Err && r->Err_0.says(
                finite_complaint(name@, values@, k),
            ),
{
    match find_not_finite(values) {
        None => Ok(()),
        Some(k) => {
            let mut text = String::from_str(name);
            text.append(" contains non-finite value ");
            text.append(not_finite_text(values[k]));
            text.append(" at flat index ");
            text.append(decimal_text(k as u64).as_str());
            proof {
                assert forall|i: int| #[trigger] first_not_finite(values@, i) implies i == k by {
                    if i < k {
                        assert(values@[i].finite());
                    } else if i > k {
                        assert(values@[k as int].finite());
                    }
                }
            }
            Err(SwmError::Message(text))
        },
    }
}

/// Checks the loss of a training step.
pub fn ensure_finite_loss(step: usize, loss: F32) -> (r: Result<()>)
    ensures
        loss.finite() ==> r is Ok,
        !loss.finite() ==> r is Err && r->Err_0.says(
            "loss at step "@ + decimal(step as nat) + " is not finite: "@ + not_finite_said(loss),
        ),
{
    if loss.is_finite() {
        return Ok(());
    }
    let mut text = String::from_str("loss at step ");
    text.append(decimal_text(step as u64).as_str());
    text.append(" is not finite: ");
    text.append(not_finite_text(loss));
    Err(SwmError::Message(text))
}

/// The first place of the smallest number in the total order.
pub open spec fn is_argmin(values: Seq<F32>, r: int) -> bool {
    if values.len() == 0 {
        r == 0
    } else {
        &&& 0 <= r < values.len()
        &&& forall|k: int|
            0 <= k < values.len() ==> total_key(values[r]) <= total_key(#[trigger] values[k])
        &&& forall|k: int| 0 <= k < r ==> total_key(values[r]) < total_key(#[trigger] values[k])
    }
}

/// The first place of the smallest number in the total order, or zero.
pub fn argmin(values: &[F32]) -> (r: usize)
    ensures
        is_argmin(values@, r as int),
{
    let mut best: usize = 0;
    let mut k: usize = 0;
    while k < values.len()
        invariant
            k <= values@.len(),
            k == 0 ==> best == 0,
            k > 0 ==> best < k,
            forall|j: int|
                0 <= j < k ==> total_key(values@[best as int]) <= total_key(#[trigger] values@[j]),
            forall|j: int|
                0 <= j < best
                    ==> total_key(values@[best as int]) < total_key(#[trigger] values@[j]),
        decreases values@.len() - k,
    {
        if k > 0 && total_order(values[k]) < total_order(values[best]) {
            best = k;
        }
        k = k + 1;
    }
    best
}

/// Whether numbers never fall in the total order.
pub open spec fn ascending(values: Seq<F32>) -> bool {
    forall|j: int, k: int|
        #![trigger values[j], values[k]]
        0 <= j <= k < values.len() ==> total_key(values[j]) <= total_key(values[k])
}

/// Numbers in ascending order.
pub fn sort_numbers(values: &[F32]) -> (r: Vec<F32>)
    ensures
        ascending(r@),
        r@.to_multiset() == values@.to_multiset(),
{
    let mut out: Vec<F32> = Vec::new();
    let mut k: usize = 0;
    proof {
        assert(values@.take(0) =~= Seq::<F32>::empty());
        assert(out@ =~= Seq::<F32>::empty());
    }
    while k < values.len()
        invariant
            k <= values@.len(),
            ascending(out@),
            out@.len() == k,
            out@.to_multiset() == values@.take(k as int).to_multiset(),
        decreases values@.len() - k,
    {
        let x = values[k];
        let mut at: usize = 0;
        while at < out.len() && total_order(out[at]) <= total_order(x)
            invariant
                at <= out@.len(),
                forall|j: int| 0 <= j < at ==> total_key(#[trigger] out@[j]) <= total_key(x),
            decreases out@.len() - at,
        {
            at = at + 1;
        }
        let ghost before = out@;
        out.insert(at, x);
        proof {
            broadcast use vstd::seq_lib::group_to_multiset_ensures;

            assert forall|i: int, j: int|
                #![trigger out@[i], out@[j]]
                0 <= i <= j < out@.len() implies total_key(out@[i]) <= total_key(out@[j]) by {
                if at < before.len() {
                    assert(total_key(x) < total_key(before[at as int]));
                }
                if i < at {
                    assert(out@[i] == before[i]);
                } else if i > at {
                    assert(out@[i] == before[i - 1]);
                }
                if j < at {
                    assert(out@[j] == before[j]);
                } else if j > at {
                    assert(out@[j] == before[j - 1]);
                }
            }
            assert(values@.take(k + 1) =~= values@.take(k as int).push(x));
            assert(before.insert(at as int, x).to_multiset() =~= before.to_multiset().insert(x));
            assert(values@.take(k as int).push(x).to_multiset() =~= values@.take(
                k as int,
            ).to_multiset().insert(x));
        }
        k = k + 1;
    }
    proof {
        assert(values@.take(k as int) =~= values@);
    }
    out
}

/// The first thing wrong with the scores of a search.
pub open spec fn scores_complaint(values: Seq<F32>) -> Option<Seq<char>> {
    if values.len() == 0 {
        Some("planner produced empty score tensor"@)
    } else if !all_finite(values) {
        let k = choose|k: int| #[trigger] first_not_finite(values, k);
        Some("planner score contains non-finite value "@ + not_finite_said(values[k]))
    } else {
        None
    }
}

proof fn lemma_first_is_one(values: Seq<F32>, k: int)
    requires
        first_not_finite(values, k),
    ensures
        (choose|i: int| #[trigger] first_not_finite(values, i)) == k,
{
    let i = choose|i: int| #[trigger] first_not_finite(values, i);
    if i < k {
        assert(values[i].finite());
    } else if i > k {
        assert(values[k].finite());
    }
}

/// The scores of a search in ascending order. There must be some, and all of
/// them must be finite.
pub fn rank_scores(values: &[F32]) -> (r: Result<Vec<F32>>)
    ensures
        scores_complaint(values@) matches Some(text) ==> r is Err && r->Err_0.says(text),
        scores_complaint(values@) is None ==> r is Ok,
        r matches Ok(o) ==> ascending(o@) && o@.to_multiset() == values@.to_multiset(),
{
    if values.len() == 0 {
        return Err(message("planner produced empty score tensor"));
    }
    if let Some(k) = find_not_finite(values) {
        let mut text = String::from_str("planner score contains non-finite value ");
        text.append(not_finite_text(values[k]));
        proof {
            lemma_first_is_one(values@, k as int);
            assert(!values@[k as int].finite());
            assert(!all_finite(values@));
        }
        return Err(SwmError::Message(text));
    }
    Ok(sort_numbers(values))
}

/// The place of a percentile among so many numbers in ascending order.
pub open spec fn percentile_place(len: usize, hundredths: usize) -> int {
    if len == 0 {
        0
    } else {
        ((len - 1) * hundredths + 99) / 100
    }
}

/// The place of a percentile, given in hundredths, rounded up.
pub fn percentile_index(len: usize, hundredths: usize) -> (r: usize)
    requires
        hundredths <= 100,
    ensures
        r == percentile_place(len, hundredths),
        len > 0 ==> r < len,
{
    if len == 0 {
        return 0;
    }
    let n: usize = len - 1;
    let (q, rest) = (n / 100, n % 100);
    proof {
        let (a, b, h) = (q as int, rest as int, hundredths as int);
        assert(n * h == 100 * (a * h) + b * h) by (nonlinear_arith)
            requires
                n as int == 100 * a + b,
        ;
        assert(0 <= a * h <= a * 100 && 0 <= b * h <= b * 100) by (nonlinear_arith)
            requires
                a >= 0,
                b >= 0,
                0 <= h <= 100,
        ;
    }
    q * hundredths + (rest * hundredths + 99) / 100
}

/// A higher percentile never stands before a lower one: the lowest is the first
/// number and the highest the last.
pub proof fn percentiles_never_fall(len: usize, p: usize, q: usize)
    requires
        len > 0,
        p <= q <= 100,
    ensures
        percentile_place(len, p) <= percentile_place(len, q),
        percentile_place(len, 0) == 0,
        percentile_place(len, 100) == len - 1,
{
    assert((len - 1) * p <= (len - 1) * q) by (nonlinear_arith)
        requires
            len > 0,
            p <= q,
    ;
}

/// The costs of candidates: where each row has its smallest, and the smallest of
/// all.
#[derive(Debug, Clone)]
pub struct CostSummary {
    pub best: F32,
    pub argmin: Vec<usize>,
    /// All costs, row after row.
    pub values: Vec<F32>,
}

/// The first place of the smallest number of a row, or zero.
pub open spec fn least_place(row: Seq<F32>, r: int) -> bool {
    if row.len() == 0 {
        r == 0
    } else {
        &&& 0 <= r < row.len()
        &&& forall|k: int| 0 <= k < row.len() ==> row[r].key() <= (#[trigger] row[k]).key()
        &&& forall|k: int| 0 <= k < r ==> row[r].key() < (#[trigger] row[k]).key()
    }
}

/// Row `k` of numbers that stand row after row.
pub open spec fn row_of(values: Seq<F32>, width: int, k: int) -> Seq<F32> {
    values.subrange(k * width, (k + 1) * width)
}

/// The smallest of all numbers, or infinity.
pub open spec fn least_of(values: Seq<F32>, best: F32) -> bool {
    &&& forall|k: int| 0 <= k < values.len() ==> best.key() <= (#[trigger] values[k]).key()
    &&& values.len() == 0 ==> best.key() == F32_INFINITY
    &&& values.len() > 0 ==> exists|k: int|
        0 <= k < values.len() && (#[trigger] values[k]).key() == best.key()
}

/// What costs in rows are summed up as.
pub open spec fn sums_up(values: Seq<F32>, rows: int, width: int, s: CostSummary) -> bool {
    &&& s.values@ == values
    &&& s.argmin@.len() == rows
    &&& forall|k: int|
        0 <= k < rows ==> least_place(row_of(values, width, k), (#[trigger] s.argmin@[k]) as int)
    &&& least_of(values, s.best)
}

/// Where a row has its smallest number: the first place, or zero.
fn row_least(values: &[F32], start: usize, width: usize) -> (r: usize)
    requires
        start + width <= values@.len(),
        all_finite(values@),
    ensures
        least_place(values@.subrange(start as int, start + width), r as int),
{
    let ghost row = values@.subrange(start as int, start + width);
    let total: usize = values.len();
    let mut best: usize = 0;
    let mut k: usize = 0;
    while k < width
        invariant
            k <= width,
            start + width <= total,
            total == values@.len(),
            row == values@.subrange(start as int, start + width),
            k == 0 ==> best == 0,
            k > 0 ==> best < k,
            forall|j: int| 0 <= j < k ==> row[best as int].key() <= (#[trigger] row[j]).key(),
            forall|j: int| 0 <= j < best ==> row[best as int].key() < (#[trigger] row[j]).key(),
        decreases width - k,
    {
        let x = values[start + k];
        let y = values[start + best];
        proof {
            assert(x == row[k as int]);
            assert(y == row[best as int]);
        }
        if k > 0 && x.order_key() < y.order_key() {
            best = k;
        }
        k = k + 1;
    }
    best
}

fn smallest(values: &[F32]) -> (r: F32)
    requires
        all_finite(values@),
    ensures
        least_of(values@, r),
{
    let mut best = F32::from_bits(F32_INFINITY);
    let mut k: usize = 0;
    while k < values.len()
        invariant
            k <= values@.len(),
            all_finite(values@),
            forall|j: int| 0 <= j < k ==> best.key() <= (#[trigger] values@[j]).key(),
            k == 0 ==> best.key() == F32_INFINITY,
            k > 0 ==> exists|j: int| 0 <= j < k && (#[trigger] values@[j]).key() == best.key(),
        decreases values@.len() - k,
    {
        let x = values[k];
        proof {
            assert(values@[k as int].finite());
        }
        if x.order_key() < best.order_key() {
            best = x;
            proof {
                assert(values@[k as int].key() == best.key());
            }
        }
        k = k + 1;
    }
    best
}

/// Sums up costs in rows. All of them must be finite.
pub fn summarize_costs(values: Vec<F32>, rows: usize, width: usize) -> (r: Result<CostSummary>)
    requires
        values@.len() == rows * width,
    ensures
        r is Ok <==> all_finite(values@),
        forall|k: int| #[trigger]
            first_not_finite(values@, k) ==> r is Err && r->Err_0.says(
                "cost contains non-finite value "@ + not_finite_said(values@[k]),
            ),
        r matches Ok(s) ==> sums_up(values@, rows as int, width as int, s),
{
    if let Some(k) = find_not_finite(values.as_slice()) {
        let mut text = String::from_str("cost contains non-finite value ");
        text.append(not_finite_text(values[k]));
        proof {
            assert forall|i: int| #[trigger] first_not_finite(values@, i) implies i == k by {
                lemma_first_is_one(values@, i);
                lemma_first_is_one(values@, k as int);
            }
        }
        return Err(SwmError::Message(text));
    }
    let total: usize = values.len();
    let mut places: Vec<usize> = Vec::new();
    let mut k: usize = 0;
    let mut start: usize = 0;
    while k < rows
        invariant
            k <= rows,
            total == values@.len(),
            total == rows * width,
            start == k * width,
            all_finite(values@),
            places@.len() == k,
            forall|j: int|
                0 <= j < k ==> least_place(
                    row_of(values@, width as int, j),
                    (#[trigger] places@[j]) as int,
                ),
        decreases rows - k,
    {
        proof {
            let (x, n, w) = (k as int, rows as int, width as int);
            assert(x * w + w <= n * w && (x + 1) * w == x * w + w) by (nonlinear_arith)
                requires
                    0 <= x < n,
                    w >= 0,
            ;
        }
        let place: usize = row_least(values.as_slice(), start, width);
        proof {
            assert(row_of(values@, width as int, k as int) == values@.subrange(
                start as int,
                start + width,
            ));
        }
        places.push(place);
        start = start + width;
        k = k + 1;
    }
    let best = smallest(values.as_slice());
    proof {
        assert forall|i: int| #[trigger] first_not_finite(values@, i) implies false by {
            assert(values@[i].finite());
        }
    }
    Ok(CostSummary { best, argmin: places, values })
}

/// The numbers of a tensor in single precision.
pub open spec fn single_numbers(v: TensorValue, r: Seq<F32>) -> bool {
    exists|single: TensorValue| #[trigger]
        placed(v, ElementType::F32, v.location, single) && single.keys.len() == r.len()
            && forall|k: int| 0 <= k < r.len() ==> (#[trigger] r[k]).key() == single.keys[k]
}

/// The numbers of a matrix in single precision, with its sizes.
pub fn read_matrix(t: &Tensor) -> (r: Result<(Vec<F32>, usize, usize)>)
    ensures
        tensor_dims(*t).len() != 2 ==> r is Err,
        r matches Err(SwmError::Message(m)) ==> tensor_dims(*t).len() != 2 && m@
            == rank_complaint(2, tensor_dims(*t)),
        r matches Ok(o) ==> tensor_dims(*t) == seq![o.1, o.2] && o.0@.len() == o.1 * o.2
            && single_numbers(value(*t), o.0@),
        r matches Err(e) ==> e is Backend ==> !resident(value(*t)),
{
    let single = lift(to_dtype(t, dtype_of(ElementType::F32)))?;
    let (rows, width) = dims2(&single)?;
    let values = lift(f32_values(&single))?;
    proof {
        lemma_counts(rows, width, 0, 0);
        assert(placed(
            value(*t),
            ElementType::F32,
            value(*t).location,
            value(single),
        ));
    }
    Ok((values, rows, width))
}

/// Numbers that are not all finite have a first that is not.
proof fn lemma_first_not_finite(values: Seq<F32>)
    requires
        !all_finite(values),
    ensures
        exists|k: int| #[trigger] first_not_finite(values, k),
{
    let some = choose|k: int| 0 <= k < values.len() && !(#[trigger] values[k]).finite();
    lemma_first_up_to(values, some);
}

proof fn lemma_first_up_to(values: Seq<F32>, k: int)
    requires
        0 <= k < values.len(),
        !values[k].finite(),
    ensures
        exists|i: int| #[trigger] first_not_finite(values, i),
    decreases k,
{
    if exists|i: int| 0 <= i < k && !(#[trigger] values[i]).finite() {
        let i = choose|i: int| 0 <= i < k && !(#[trigger] values[i]).finite();
        lemma_first_up_to(values, i);
    } else {
        assert(first_not_finite(values, k));
    }
}

/// What is said of costs of which one is not finite.
pub open spec fn cost_complaint(values: Seq<F32>, k: int) -> Seq<char> {
    "cost contains non-finite value "@ + not_finite_said(values[k])
}

/// What can be said of costs that are not summed up: that they are no matrix, or
/// which of them is the first that is not finite.
pub open spec fn cost_says(cost: TensorValue, text: Seq<char>) -> bool {
    if cost.dims.len() != 2 {
        text == rank_complaint(2, cost.dims)
    } else {
        exists|values: Seq<F32>, k: int| #[trigger]
            single_numbers(cost, values) && #[trigger] first_not_finite(values, k) && text
                == cost_complaint(values, k)
    }
}

/// Sums up the costs of candidates.
pub fn cost_summary(cost: &Tensor) -> (r: Result<CostSummary>)
    ensures
        tensor_dims(*cost).len() != 2 ==> r is Err,
        r matches Err(SwmError::Message(m)) ==> cost_says(value(*cost), m@),
        r matches Ok(s) ==> exists|values: Seq<F32>| #[trigger]
            single_numbers(value(*cost), values) && all_finite(values) && sums_up(
                values,
                tensor_dims(*cost)[0] as int,
                tensor_dims(*cost)[1] as int,
                s,
            ),
        r matches Err(e) ==> e is Backend ==> !resident(value(*cost)),
{
    let (values, rows, width) = read_matrix(cost)?;
    let ghost all = values@;
    proof {
        assert(single_numbers(value(*cost), all));
        if !all_finite(all) {
            lemma_first_not_finite(all);
        }
    }
    summarize_costs(values, rows, width)
}

} // verus!
