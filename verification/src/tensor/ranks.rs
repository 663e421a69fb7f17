//! Shapes with a fixed number of axes.

use candle_core::Tensor;
use vstd::prelude::*;

use crate::error::{Result, SwmError};
use crate::tensor::facts::lemma_split;
use crate::tensor::layout::dims;
use crate::tensor::value::{count, inner, outer, tensor_dims, tensor_keys};
use crate::text::{decimal, dims_text, sizes_text, with_numbers};

verus! {

/// What is said of a tensor with the wrong number of axes.
pub open spec fn rank_complaint(expected: nat, dims: Seq<usize>) -> Seq<char> {
    "unexpected rank, expected: "@ + decimal(expected) + ", got: "@ + decimal(dims.len()) + " ("@
        + sizes_text(dims) + ")"@
}

fn wrong_rank(expected: usize, got: &[usize]) -> (r: SwmError)
    ensures
        r.says(rank_complaint(expected as nat, got@)),
{
    let mut text = with_numbers(
        "unexpected rank, expected: ",
        expected,
        ", got: ",
        got.len(),
        " (",
    );
    text.append(dims_text(got).as_str());
    text.append(")");
    SwmError::Message(text)
}

/// The sizes of a tensor of two axes.
pub fn dims2(t: &Tensor) -> (r: Result<(usize, usize)>)
    ensures
        r is Ok <==> tensor_dims(*t).len() == 2,
        r matches Ok(d) ==> tensor_dims(*t) == seq![d.0, d.1] && count(tensor_dims(*t))
            == tensor_keys(*t).len(),
        r matches Err(e) ==> e.says(rank_complaint(2, tensor_dims(*t))),
{
    let d = dims(t);
    if d.len() == 2 {
        proof {
            assert(d@ =~= seq![d@[0], d@[1]]);
        }
        Ok((d[0], d[1]))
    } else {
        Err(wrong_rank(2, d.as_slice()))
    }
}

/// The sizes of a tensor of three axes.
pub fn dims3(t: &Tensor) -> (r: Result<(usize, usize, usize)>)
    ensures
        r is Ok <==> tensor_dims(*t).len() == 3,
        r matches Ok(d) ==> tensor_dims(*t) == seq![d.0, d.1, d.2] && count(tensor_dims(*t))
            == tensor_keys(*t).len(),
        r matches Err(e) ==> e.says(rank_complaint(3, tensor_dims(*t))),
{
    let d = dims(t);
    if d.len() == 3 {
        proof {
            assert(d@ =~= seq![d@[0], d@[1], d@[2]]);
        }
        Ok((d[0], d[1], d[2]))
    } else {
        Err(wrong_rank(3, d.as_slice()))
    }
}

/// The sizes of a tensor of four axes.
pub fn dims4(t: &Tensor) -> (r: Result<(usize, usize, usize, usize)>)
    ensures
        r is Ok <==> tensor_dims(*t).len() == 4,
        r matches Ok(d) ==> tensor_dims(*t) == seq![d.0, d.1, d.2, d.3] && count(tensor_dims(*t))
            == tensor_keys(*t).len(),
        r matches Err(e) ==> e.says(rank_complaint(4, tensor_dims(*t))),
{
    let d = dims(t);
    if d.len() == 4 {
        proof {
            assert(d@ =~= seq![d@[0], d@[1], d@[2], d@[3]]);
        }
        Ok((d[0], d[1], d[2], d[3]))
    } else {
        Err(wrong_rank(4, d.as_slice()))
    }
}

/// The sizes of a tensor of five axes.
pub fn dims5(t: &Tensor) -> (r: Result<(usize, usize, usize, usize, usize)>)
    ensures
        r is Ok <==> tensor_dims(*t).len() == 5,
        r matches Ok(d) ==> tensor_dims(*t) == seq![d.0, d.1, d.2, d.3, d.4]
            && count(tensor_dims(*t))
            == tensor_keys(*t).len(),
        r matches Err(e) ==> e.says(rank_complaint(5, tensor_dims(*t))),
{
    let d = dims(t);
    if d.len() == 5 {
        proof {
            assert(d@ =~= seq![d@[0], d@[1], d@[2], d@[3], d@[4]]);
        }
        Ok((d[0], d[1], d[2], d[3], d[4]))
    } else {
        Err(wrong_rank(5, d.as_slice()))
    }
}

/// The number of elements of a shape, if a machine integer can hold it.
pub fn element_count(shape: &[usize]) -> (r: Option<usize>)
    ensures
        r matches Some(n) ==> n == count(shape@),
        r is None ==> count(shape@) > usize::MAX,
{
    let mut k: usize = 0;
    while k < shape.len()
        invariant
            k <= shape@.len(),
            forall|j: int| 0 <= j < k ==> #[trigger] shape@[j] > 0,
        decreases shape@.len() - k,
    {
        if shape[k] == 0 {
            proof {
                lemma_split(shape@, k as int);
                let (o, i) = (outer(shape@, k as int) as int, inner(shape@, k as int) as int);
                assert(o * 0 * i == 0) by (nonlinear_arith);
            }
            return Some(0);
        }
        k = k + 1;
    }
    let mut n: usize = 1;
    let mut i: usize = shape.len();
    proof {
        assert(shape@.skip(i as int) =~= Seq::<usize>::empty());
    }
    while i > 0
        invariant
            i <= shape@.len(),
            forall|j: int| 0 <= j < shape@.len() ==> #[trigger] shape@[j] > 0,
            n == count(shape@.skip(i as int)),
        decreases i,
    {
        i = i - 1;
        proof {
            assert(shape@.skip(i as int).skip(1) =~= shape@.skip(i + 1));
            assert(shape@.skip(i as int)[0] == shape@[i as int]);
        }
        match n.checked_mul(shape[i]) {
            Some(m) => {
                proof {
                    vstd::arithmetic::mul::lemma_mul_is_commutative(n as int, shape@[i as int] as int);
                }
                n = m;
            },
            None => {
                proof {
                    vstd::arithmetic::mul::lemma_mul_is_commutative(n as int, shape@[i as int] as int);
                    lemma_suffix(shape@, i as int);
                }
                return None;
            },
        }
    }
    proof {
        assert(shape@.skip(0) =~= shape@);
    }
    Some(n)
}

/// A part of a shape at its end has no more elements than the whole.
proof fn lemma_suffix(shape: Seq<usize>, i: int)
    requires
        0 <= i <= shape.len(),
        forall|j: int| 0 <= j < shape.len() ==> #[trigger] shape[j] > 0,
    ensures
        count(shape.skip(i)) <= count(shape),
    decreases i,
{
    if i == 0 {
        assert(shape.skip(0) =~= shape);
    } else {
        lemma_suffix(shape.skip(1), i - 1);
        assert(shape.skip(1).skip(i - 1) =~= shape.skip(i));
        let (a, b) = (shape[0] as int, count(shape.skip(1)) as int);
        assert(b <= a * b) by (nonlinear_arith)
            requires
                a >= 1,
                b >= 0,
        ;
    }
}

/// Whether two shapes are the same.
pub fn same_sizes(a: &[usize], b: &[usize]) -> (r: bool)
    ensures
        r == (a@ == b@),
{
    if a.len() != b.len() {
        return false;
    }
    let mut k: usize = 0;
    while k < a.len()
        invariant
            k <= a@.len(),
            a@.len() == b@.len(),
            forall|j: int| 0 <= j < k ==> a@[j] == b@[j],
        decreases a@.len() - k,
    {
        if a[k] != b[k] {
            return false;
        }
        k = k + 1;
    }
    proof {
        assert(a@ =~= b@);
    }
    true
}

} // verus!
