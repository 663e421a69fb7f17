//! Comparisons of computed tensors with recorded ones.

use candle_core::Tensor;
use vstd::prelude::*;

use crate::error::{lift, message, Result, SwmError};
use crate::ffi::outputs::are_numbers;
use crate::models::tdmpc2::config::{EncodingConfig, TdMpc2Config};
use crate::scalar::{nan_key, F32, F32_INFINITY};
use crate::session::tdmpc2::place;
use crate::tensor::arithmetic::{
    absolute, difference_of, is_magnitude, mean_all, overall_mean_of, subtract,
};
use crate::tensor::layout::{
    device_of, dims, dtype_of, f32_values, narrow, narrowed, placed, to_dtype,
};
use crate::tensor::ranks::{rank_complaint, same_sizes};
use crate::tensor::value::{count, resident, tensor_dims, value, ElementType, TensorValue};
use crate::text::{decimal, decimal_text, join, sizes_text, with_dims};
use crate::tools::scores::{
    all_finite, argmin, ensure_finite, find_not_finite, finite_complaint, first_not_finite,
    is_argmin, read_matrix, row_of, single_numbers,
};

verus! {

/// What is said of two tensors of different shapes.
pub open spec fn shapes_differ(name: Seq<char>, actual: Seq<usize>, expected: Seq<usize>) -> Seq<
    char,
> {
    name + " shape mismatch: Candle "@ + sizes_text(actual) + ", Python "@ + sizes_text(expected)
}

fn shape_error(name: &str, actual: &[usize], expected: &[usize]) -> (r: SwmError)
    ensures
        r.says(shapes_differ(name@, actual@, expected@)),
{
    let mut text = String::from_str(name);
    let middle = with_dims(" shape mismatch: Candle ", actual);
    let tail = with_dims(", Python ", expected);
    text.append(middle.as_str());
    text.append(tail.as_str());
    proof {
        assert(text@ =~= shapes_differ(name@, actual@, expected@));
    }
    SwmError::Message(text)
}

fn single_values(t: &Tensor) -> (r: Result<Vec<F32>>)
    ensures
        r matches Err(e) ==> e is Backend,
        r matches Ok(v) ==> single_numbers(value(*t), v@),
        resident(value(*t)) ==> r is Ok,
{
    let single = lift(to_dtype(t, dtype_of(ElementType::F32)))?;
    let v = lift(f32_values(&single))?;
    proof {
        assert(placed(value(*t), ElementType::F32, value(*t).location, value(single)));
    }
    Ok(v)
}

/// How far two tensors are apart.
#[derive(Debug, Clone)]
pub struct Deviation {
    pub dims: Vec<usize>,
    /// The distance at each place.
    pub distances: Vec<F32>,
    pub max_abs: F32,
    pub mean_abs: F32,
    pub within: bool,
}

/// A number that no distance exceeds and that one of them reaches.
pub open spec fn is_largest(values: Seq<F32>, r: F32) -> bool {
    &&& forall|k: int| 0 <= k < values.len() ==> (#[trigger] values[k]).key() <= r.key()
    &&& values.len() > 0 ==> exists|k: int| 0 <= k < values.len() && #[trigger] values[k] == r
}

/// Whether a number is larger than another. Nothing is larger than a NaN.
pub open spec fn exceeds(a: F32, b: F32) -> bool {
    a.key() > b.key() && !nan_key(a.key()) && !nan_key(b.key())
}

fn is_larger(a: F32, b: F32) -> (r: bool)
    ensures
        r == exceeds(a, b),
{
    let (x, y) = (a.order_key(), b.order_key());
    let top: i64 = F32_INFINITY as i64;
    x > y && x <= top && y >= -top
}

/// How far two tensors are apart in single precision.
pub open spec fn deviates(
    actual: TensorValue,
    expected: TensorValue,
    tolerance: F32,
    d: Deviation,
) -> bool {
    &&& d.dims@ == actual.dims
    &&& d.distances@.len() > 0
    &&& is_largest(d.distances@, d.max_abs)
    &&& d.within == !exceeds(d.max_abs, tolerance)
    &&& exists|a: TensorValue, e: TensorValue, gap: TensorValue, size: TensorValue, mean: TensorValue|
        {
            &&& placed(actual, ElementType::F32, actual.location, a)
            &&& placed(expected, ElementType::F32, actual.location, e)
            &&& #[trigger] difference_of(a, e, gap)
            &&& #[trigger] is_magnitude(gap, size)
            &&& are_numbers(size, d.distances@)
            &&& #[trigger] overall_mean_of(size, mean)
            &&& are_numbers(mean, seq![d.mean_abs])
        }
}

fn largest(values: &[F32]) -> (r: F32)
    requires
        values@.len() > 0,
    ensures
        is_largest(values@, r),
{
    let mut best = values[0];
    let mut k: usize = 1;
    proof {
        assert(values@[0] == best);
    }
    while k < values.len()
        invariant
            1 <= k <= values@.len(),
            forall|j: int| 0 <= j < k ==> (#[trigger] values@[j]).key() <= best.key(),
            exists|j: int| 0 <= j < k && #[trigger] values@[j] == best,
        decreases values@.len() - k,
    {
        let x = values[k];
        if best.order_key() < x.order_key() {
            best = x;
            proof {
                assert(values@[k as int] == best);
            }
        }
        k = k + 1;
    }
    best
}

/// How far two tensors of one shape are apart, without a look at what they hold.
fn deviation(actual: &Tensor, expected: &Tensor, tolerance: F32) -> (r: Result<Deviation>)
    ensures
        r matches Err(SwmError::Message(m)) ==> m@ == "nothing to compare"@ && count(
            tensor_dims(*actual),
        ) == 0,
        r matches Ok(d) ==> deviates(value(*actual), value(*expected), tolerance, d),
        r matches Err(e) ==> e is Backend ==> !(resident(value(*actual)) && resident(
            value(*expected),
        ) && tensor_dims(*actual) == tensor_dims(*expected)),
{
    let sizes = dims(actual);
    let e = place(expected, device_of(actual), dtype_of(ElementType::F32))?;
    let a = lift(to_dtype(actual, dtype_of(ElementType::F32)))?;
    let gap = lift(subtract(&a, &e))?;
    let size = lift(absolute(&gap))?;
    let distances = lift(f32_values(&size))?;
    if distances.len() == 0 {
        return Err(message("nothing to compare"));
    }
    let mean = lift(mean_all(&size))?;
    let means = lift(f32_values(&mean))?;
    let mean_abs = means[0];
    let max_abs = largest(distances.as_slice());
    proof {
        assert(placed(value(*actual), ElementType::F32, value(*actual).location, value(a)));
        assert(placed(value(*expected), ElementType::F32, value(*actual).location, value(e)));
        assert(are_numbers(value(size), distances@));
        assert(are_numbers(value(mean), seq![mean_abs]));
        assert(difference_of(value(a), value(e), value(gap)));
        assert(is_magnitude(value(gap), value(size)));
        assert(overall_mean_of(value(size), value(mean)));
    }
    Ok(Deviation { dims: sizes, distances, max_abs, mean_abs, within: !is_larger(max_abs, tolerance) })
}

/// What is said of a tensor that holds a number that is not finite.
pub open spec fn not_finite_in(name: Seq<char>, v: TensorValue, text: Seq<char>) -> bool {
    exists|values: Seq<F32>, k: int|
        #[trigger] single_numbers(v, values) && #[trigger] first_not_finite(values, k) && text
            == finite_complaint(name, values, k)
}

fn require_finite(name: &str, t: &Tensor) -> (r: Result<()>)
    ensures
        r matches Err(SwmError::Message(m)) ==> not_finite_in(name@, value(*t), m@),
        r is Ok ==> exists|v: Seq<F32>| #[trigger] single_numbers(value(*t), v) && all_finite(v),
        r matches Err(e) ==> e is Backend ==> !resident(value(*t)),
{
    let values = single_values(t)?;
    proof {
        assert(single_numbers(value(*t), values@));
    }
    let found = find_not_finite(values.as_slice());
    let r = ensure_finite(name, values.as_slice());
    proof {
        if let Some(k) = found {
            assert(first_not_finite(values@, k as int));
        }
    }
    r
}

/// Compares a computed tensor with a recorded one. They must have one shape and
/// hold finite numbers.
pub fn compare(name: &str, actual: &Tensor, expected: &Tensor, tolerance: F32) -> (r: Result<
    Deviation,
>)
    ensures
        tensor_dims(*actual) != tensor_dims(*expected) ==> r is Err && r->Err_0.says(
            shapes_differ(name@, tensor_dims(*actual), tensor_dims(*expected)),
        ),
        r matches Ok(d) ==> deviates(value(*actual), value(*expected), tolerance, d),
        r is Ok ==> exists|v: Seq<F32>| #[trigger]
            single_numbers(value(*actual), v) && all_finite(v),
        r is Ok ==> exists|v: Seq<F32>| #[trigger]
            single_numbers(value(*expected), v) && all_finite(v),
        tensor_dims(*actual) == tensor_dims(*expected) ==> (r matches Err(SwmError::Message(m))
            ==> (m@ == "nothing to compare"@ && count(tensor_dims(*actual)) == 0) || not_finite_in(
            name@ + " Candle"@,
            value(*actual),
            m@,
        ) || not_finite_in(name@ + " Python"@, value(*expected), m@)),
        r matches Err(e) ==> e is Backend ==> !(resident(value(*actual)) && resident(
            value(*expected),
        )),
{
    let got = dims(actual);
    let wanted = dims(expected);
    if !same_sizes(got.as_slice(), wanted.as_slice()) {
        return Err(shape_error(name, got.as_slice(), wanted.as_slice()));
    }
    require_finite(join(name, " Candle").as_str(), actual)?;
    require_finite(join(name, " Python").as_str(), expected)?;
    deviation(actual, expected, tolerance)
}

/// How far two tensors are apart at a step of their third axis.
pub open spec fn deviates_at(
    actual: TensorValue,
    expected: TensorValue,
    k: int,
    d: Deviation,
) -> bool {
    exists|a: TensorValue, e: TensorValue|
        narrowed(actual, 2, k, 1, a) && narrowed(expected, 2, k, 1, e) && #[trigger] deviates(
            a,
            e,
            F32 { bits: 0 },
            d,
        )
}

/// The steps of a tensor: the size of the last axis but one.
pub open spec fn steps_of(dims: Seq<usize>) -> usize {
    dims[dims.len() - 2]
}

/// What can be said of tensors of one shape that are not compared step by step.
pub open spec fn steps_say(dims: Seq<usize>, text: Seq<char>) -> bool {
    if dims.len() == 3 {
        steps_of(dims) > 0 && text == "time slices need four axes"@
    } else {
        ||| steps_of(dims) > dims[2] && text == "time slice is out of range"@
        ||| count(dims.update(2, 1)) == 0 && text == "nothing to compare"@
    }
}

/// How far two tensors are apart at each step of their third axis. Tensors of
/// different shapes or of few axes have no steps.
pub fn time_deviations(actual: &Tensor, expected: &Tensor) -> (r: Result<Vec<Deviation>>)
    ensures
        tensor_dims(*actual) != tensor_dims(*expected) || tensor_dims(*actual).len() < 3 ==> r is Ok
            && r->Ok_0@.len() == 0,
        tensor_dims(*actual) == tensor_dims(*expected) && tensor_dims(*actual).len() >= 3 ==> {
            let dims = tensor_dims(*actual);
            &&& steps_of(dims) == 0 ==> r is Ok
            &&& dims.len() == 3 && steps_of(dims) > 0 ==> r is Err
            &&& steps_of(dims) > dims[2] ==> r is Err
            &&& r matches Err(SwmError::Message(m)) ==> steps_say(dims, m@)
            &&& r matches Ok(v) ==> v@.len() == steps_of(dims) && forall|k: int|
                0 <= k < v@.len() ==> deviates_at(
                    value(*actual),
                    value(*expected),
                    k,
                    #[trigger] v@[k],
                )
        },
        r matches Err(e) ==> e is Backend ==> !(resident(value(*actual)) && resident(
            value(*expected),
        )),
{
    let got = dims(actual);
    let wanted = dims(expected);
    let mut out: Vec<Deviation> = Vec::new();
    if !same_sizes(got.as_slice(), wanted.as_slice()) || got.len() < 3 {
        return Ok(out);
    }
    let steps: usize = got[got.len() - 2];
    let mut k: usize = 0;
    while k < steps
        invariant
            got@ == tensor_dims(*actual),
            got@ == tensor_dims(*expected),
            got@.len() >= 3,
            steps == steps_of(got@),
            k <= steps,
            k > 0 ==> got@.len() >= 4,
            k <= got@[2],
            out@.len() == k,
            forall|j: int|
                0 <= j < k ==> deviates_at(
                    value(*actual),
                    value(*expected),
                    j,
                    #[trigger] out@[j],
                ),
        decreases steps - k,
    {
        if got.len() == 3 {
            return Err(message("time slices need four axes"));
        }
        if k >= got[2] {
            return Err(message("time slice is out of range"));
        }
        let a = lift(narrow(actual, 2, k, 1))?;
        let e = lift(narrow(expected, 2, k, 1))?;
        proof {
            assert(tensor_dims(a) == got@.update(2, 1));
        }
        let d = deviation(&a, &e, F32::from_bits(0))?;
        proof {
            assert(deviates(value(a), value(e), F32 { bits: 0 }, d));
        }
        out.push(d);
        k = k + 1;
    }
    Ok(out)
}

/// Where the best of a row differs: the row and the two places.
pub type Mismatch = (usize, usize, usize);

/// The rows in which two lists of places differ.
pub open spec fn differing(a: Seq<usize>, b: Seq<usize>, n: int) -> Seq<Mismatch>
    decreases n,
{
    if n <= 0 {
        Seq::empty()
    } else if a[n - 1] != b[n - 1] {
        differing(a, b, n - 1).push(((n - 1) as usize, a[n - 1], b[n - 1]))
    } else {
        differing(a, b, n - 1)
    }
}

/// A mismatch in round brackets.
pub open spec fn mismatch_text(m: Mismatch) -> Seq<char> {
    "("@ + decimal(m.0 as nat) + ", "@ + decimal(m.1 as nat) + ", "@ + decimal(m.2 as nat) + ")"@
}

/// The first `n` mismatches, separated by a comma and a blank.
pub open spec fn mismatches_text(m: Seq<Mismatch>, n: int) -> Seq<char>
    decreases n,
{
    if n <= 0 {
        Seq::empty()
    } else if n == 1 {
        mismatch_text(m[0])
    } else {
        mismatches_text(m, n - 1) + ", "@ + mismatch_text(m[n - 1])
    }
}

fn write_mismatch(m: Mismatch) -> (r: String)
    ensures
        r@ == mismatch_text(m),
{
    let mut out = String::from_str("(");
    out.append(decimal_text(m.0 as u64).as_str());
    out.append(", ");
    out.append(decimal_text(m.1 as u64).as_str());
    out.append(", ");
    out.append(decimal_text(m.2 as u64).as_str());
    out.append(")");
    out
}

fn write_mismatches(m: &Vec<Mismatch>) -> (r: String)
    ensures
        r@ == mismatches_text(m@, m@.len() as int),
{
    let mut out = String::from_str("");
    let mut k: usize = 0;
    proof {
        reveal_strlit("");
        assert(out@ =~= mismatches_text(m@, 0));
    }
    while k < m.len()
        invariant
            k <= m@.len(),
            out@ == mismatches_text(m@, k as int),
        decreases m@.len() - k,
    {
        if k > 0 {
            out.append(", ");
        }
        let next = write_mismatch(m[k]);
        out.append(next.as_str());
        proof {
            assert(out@ =~= mismatches_text(m@, k + 1));
        }
        k = k + 1;
    }
    out
}

/// What is said of rows whose best differs.
pub open spec fn ordering_text(m: Seq<Mismatch>) -> Seq<char> {
    "cost argmin mismatch by batch: ["@ + mismatches_text(m, m.len() as int) + "]"@
}

/// Whether the best candidates of each row stayed the best.
pub fn check_ordering(actual: &[usize], expected: &[usize]) -> (r: Result<()>)
    requires
        actual@.len() == expected@.len(),
    ensures
        ({
            let m = differing(actual@, expected@, actual@.len() as int);
            &&& r is Ok <==> m.len() == 0
            &&& r matches Err(e) ==> e.says(ordering_text(m))
        }),
{
    let mut found: Vec<Mismatch> = Vec::new();
    let mut k: usize = 0;
    while k < actual.len()
        invariant
            k <= actual@.len(),
            actual@.len() == expected@.len(),
            found@ == differing(actual@, expected@, k as int),
        decreases actual@.len() - k,
    {
        if actual[k] != expected[k] {
            found.push((k, actual[k], expected[k]));
        }
        k = k + 1;
    }
    if found.len() > 0 {
        let mut text = String::from_str("cost argmin mismatch by batch: [");
        text.append(write_mismatches(&found).as_str());
        text.append("]");
        return Err(SwmError::Message(text));
    }
    Ok(())
}

/// No row differs exactly where the two lists are the same.
pub proof fn same_places_have_no_mismatch(a: Seq<usize>, b: Seq<usize>, n: int)
    requires
        0 <= n <= a.len(),
        n <= b.len(),
    ensures
        differing(a, b, n).len() == 0 <==> a.take(n) == b.take(n),
    decreases n,
{
    if n > 0 {
        same_places_have_no_mismatch(a, b, n - 1);
        assert(a.take(n) =~= a.take(n - 1).push(a[n - 1]));
        assert(b.take(n) =~= b.take(n - 1).push(b[n - 1]));
        if a.take(n) == b.take(n) {
            assert(a.take(n)[n - 1] == b.take(n)[n - 1]);
            assert(a.take(n - 1) =~= a.take(n).take(n - 1));
            assert(b.take(n - 1) =~= b.take(n).take(n - 1));
        }
    } else {
        assert(a.take(0) =~= b.take(0));
    }
}

/// The best place of each row.
pub fn row_argmins(values: &[F32], rows: usize, width: usize) -> (r: Vec<usize>)
    requires
        values@.len() == rows * width,
    ensures
        r@.len() == rows,
        forall|k: int|
            0 <= k < rows
                ==> is_argmin(row_of(values@, width as int, k), (#[trigger] r@[k]) as int),
{
    let total: usize = values.len();
    let mut out: Vec<usize> = Vec::new();
    let mut k: usize = 0;
    let mut start: usize = 0;
    while k < rows
        invariant
            k <= rows,
            total == values@.len(),
            total == rows * width,
            start == k * width,
            out@.len() == k,
            forall|j: int|
                0 <= j < k ==> is_argmin(
                    row_of(values@, width as int, j),
                    (#[trigger] out@[j]) as int,
                ),
        decreases rows - k,
    {
        proof {
            let (x, n, w) = (k as int, rows as int, width as int);
            assert(x * w + w <= n * w && (x + 1) * w == x * w + w) by (nonlinear_arith)
                requires
                    0 <= x < n,
                    w >= 0,
            ;
        }
        let row = vstd::slice::slice_subrange(values, start, start + width);
        proof {
            assert(row@ == row_of(values@, width as int, k as int));
        }
        out.push(argmin(row));
        start = start + width;
        k = k + 1;
    }
    out
}

/// Places that are the best of their rows.
pub open spec fn best_in(values: Seq<F32>, dims: Seq<usize>, places: Seq<usize>) -> bool {
    &&& places.len() == dims[0]
    &&& forall|k: int|
        0 <= k < places.len() ==> is_argmin(
            row_of(values, dims[1] as int, k),
            (#[trigger] places[k]) as int,
        )
}

/// What can be said of costs of one shape whose order is not the same.
pub open spec fn ordering_says(
    actual: TensorValue,
    expected: TensorValue,
    text: Seq<char>,
) -> bool {
    if actual.dims.len() != 2 {
        text == rank_complaint(2, actual.dims)
    } else {
        exists|a: Seq<F32>, e: Seq<F32>, here: Seq<usize>, there: Seq<usize>|
            {
                let m = differing(here, there, here.len() as int);
                &&& #[trigger] single_numbers(actual, a)
                &&& #[trigger] single_numbers(expected, e)
                &&& #[trigger] best_in(a, actual.dims, here)
                &&& #[trigger] best_in(e, actual.dims, there)
                &&& m.len() > 0
                &&& text == ordering_text(m)
            }
    }
}

/// Whether the best candidates of computed costs are those of recorded ones, and
/// for how many rows. Costs of different shapes are not compared.
pub fn compare_cost_ordering(actual: &Tensor, expected: &Tensor) -> (r: Result<Option<usize>>)
    ensures
        tensor_dims(*actual) != tensor_dims(*expected) ==> r is Ok && r->Ok_0 is None,
        tensor_dims(*actual) == tensor_dims(*expected) && tensor_dims(*actual).len() != 2
            ==> r is Err,
        tensor_dims(*actual) == tensor_dims(*expected) ==> (r matches Ok(n) ==> n
            == Some(tensor_dims(*actual)[0]) && exists|a: Seq<F32>, e: Seq<F32>, places: Seq<usize>|
            #[trigger] single_numbers(value(*actual), a) && #[trigger] single_numbers(
                value(*expected),
                e,
            ) && #[trigger] best_in_both(a, e, tensor_dims(*actual), places)),
        tensor_dims(*actual) == tensor_dims(*expected) ==> (r matches Err(SwmError::Message(m))
            ==> ordering_says(value(*actual), value(*expected), m@)),
{
    let got = dims(actual);
    let wanted = dims(expected);
    if !same_sizes(got.as_slice(), wanted.as_slice()) {
        return Ok(None);
    }
    let (a, rows, width) = read_matrix(actual)?;
    let (e, more_rows, more_width) = read_matrix(expected)?;
    let here = row_argmins(a.as_slice(), rows, width);
    let there = row_argmins(e.as_slice(), more_rows, more_width);
    proof {
        assert(single_numbers(value(*actual), a@));
        assert(single_numbers(value(*expected), e@));
        assert(best_in(a@, tensor_dims(*actual), here@));
        assert(best_in(e@, tensor_dims(*actual), there@));
    }
    check_ordering(here.as_slice(), there.as_slice())?;
    proof {
        same_places_have_no_mismatch(here@, there@, here@.len() as int);
        assert(here@.take(here@.len() as int) =~= here@);
        assert(there@.take(here@.len() as int) =~= there@);
        assert(best_in_both(a@, e@, tensor_dims(*actual), here@));
    }
    Ok(Some(rows))
}

/// Places that are the best of their rows in two lists of numbers.
pub open spec fn best_in_both(
    a: Seq<F32>,
    e: Seq<F32>,
    dims: Seq<usize>,
    places: Seq<usize>,
) -> bool {
    best_in(a, dims, places) && best_in(e, dims, places)
}

/// What a TD-MPC2 fixture observes.
#[derive(Debug, Clone, Copy, PartialEq, Eq, Structural)]
pub enum FixtureKind {
    State,
    Pixel,
    Both,
}

/// The settings of the model of a TD-MPC2 fixture.
pub fn fixture_model(
    kind: FixtureKind,
    state_dim: usize,
    image_size: usize,
    pixel_dim: usize,
    action_dim: usize,
) -> (r: TdMpc2Config)
    ensures
        kind is State ==> r.sees_state(state_dim, action_dim),
        !(kind is State) ==> r.sees_pixels(image_size, action_dim, pixel_dim),
        kind is Pixel ==> r.encodings@.len() == 1,
        kind is Both ==> r.encodings@.len() == 2 && r.encodings@[1].name@ == "state"@
            && r.encodings@[1].input_dim == state_dim && r.encodings@[1].output_dim == 128,
{
    match kind {
        FixtureKind::State => TdMpc2Config::state_only(state_dim, action_dim),
        FixtureKind::Pixel => TdMpc2Config::pixel_only(image_size, action_dim, pixel_dim),
        FixtureKind::Both => {
            let mut cfg = TdMpc2Config::pixel_only(image_size, action_dim, pixel_dim);
            cfg.encodings.push(EncodingConfig::new("state", state_dim, 128));
            cfg
        },
    }
}

/// The names of the arrays of a TD-MPC2 fixture, in the order in which they are
/// read.
pub fn fixture_names(kind: FixtureKind) -> (r: Vec<&'static str>)
    ensures
        r@.len() == if kind is Both {
            13
        } else {
            12int
        },
        kind is State || kind is Both ==> r@[0]@ == "state"@,
        kind is Pixel ==> r@[0]@ == "pixels"@,
        kind is Both ==> r@[1]@ == "pixels"@,
        ({
            let n = r@.len() - 11;
            &&& r@[n]@ == "action"@
            &&& r@[n + 1]@ == "action_candidates"@
            &&& r@[n + 2]@ == "z"@
            &&& r@[n + 3]@ == "next_z"@
            &&& r@[n + 4]@ == "reward_logits"@
            &&& r@[n + 5]@ == "actor_noise"@
            &&& r@[n + 6]@ == "actor_log_std"@
            &&& r@[n + 7]@ == "actor_mean"@
            &&& r@[n + 8]@ == "actor_sample"@
            &&& r@[n + 9]@ == "actor_sample_rollout"@
            &&& r@[n + 10]@ == "cost"@
        }),
{
    let mut names: Vec<&'static str> = Vec::new();
    match kind {
        FixtureKind::State => {
            names.push("state");
        },
        FixtureKind::Pixel => {
            names.push("pixels");
        },
        FixtureKind::Both => {
            names.push("state");
            names.push("pixels");
        },
    }
    names.push("action");
    names.push("action_candidates");
    names.push("z");
    names.push("next_z");
    names.push("reward_logits");
    names.push("actor_noise");
    names.push("actor_log_std");
    names.push("actor_mean");
    names.push("actor_sample");
    names.push("actor_sample_rollout");
    names.push("cost");
    names
}

} // verus!
