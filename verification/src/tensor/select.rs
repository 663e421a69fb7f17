//! Picking one step or one range of steps out of a tensor.

use candle_core::Tensor;
use vstd::prelude::*;

use crate::error::{lift, Result};
use crate::tensor::facts::{lemma_counts, lemma_second_axis};
use crate::tensor::layout::{narrow, squeeze};
use crate::tensor::value::{count, tensor_dims, value, TensorValue};

verus! {

/// Step `m` of a tensor `[batch, time, width]`.
pub open spec fn step_of(v: TensorValue, m: int, r: TensorValue) -> bool {
    &&& r.dims == seq![v.dims[0], v.dims[2]]
    &&& r.element == v.element
    &&& r.location == v.location
    &&& r.keys.len() == count(r.dims)
    &&& forall|o: int, i: int|
        0 <= o < v.dims[0] && 0 <= i < v.dims[2] ==> #[trigger] r.at(1, o, i, 0) == v.at(
            1,
            o,
            m,
            i,
        )
}

/// Takes step `m` out of a tensor `[batch, time, width]`.
pub fn pick_step(t: &Tensor, m: usize) -> (r: Result<Tensor>)
    requires
        tensor_dims(*t).len() == 3,
        m < tensor_dims(*t)[1],
    ensures
        r is Ok,
        step_of(value(*t), m as int, value(r->Ok_0)),
{
    let one = lift(narrow(t, 1, m, 1))?;
    let ghost v = value(*t);
    let ghost n = value(one);
    let ghost (b, l, w) = (v.dims[0], v.dims[1], v.dims[2]);
    proof {
        assert(v.dims =~= seq![b, l, w]);
        assert(n.dims =~= seq![b, 1usize, w]);
        assert(n.dims.remove(1) =~= seq![b, w]);
        lemma_counts(b, 1, w, w);
        lemma_counts(b, w, w, w);
        vstd::arithmetic::mul::lemma_mul_basics(w as int);
    }
    let out = lift(squeeze(&one, 1))?;
    proof {
        let r = value(out);
        lemma_second_axis(b, 1, w, w);
        lemma_second_axis(b, w, w, w);
        assert forall|o: int, i: int| 0 <= o < b && 0 <= i < w implies #[trigger] r.at(1, o, i, 0)
            == v.at(1, o, m as int, i) by {
            assert(n.at(1, o, 0, i) == v.at(1, o, m + 0, i));
            vstd::arithmetic::mul::lemma_mul_basics(o);
            assert((o * 1 + 0) * (w as int) + i == (o * w + i) * 1 + 0);
        }
    }
    Ok(out)
}

} // verus!
