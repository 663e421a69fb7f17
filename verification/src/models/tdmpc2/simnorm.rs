//! Simplicial normalisation.

use candle_core::Tensor;
use vstd::prelude::*;

use crate::error::{lift, message, Result, SwmError};
use crate::tensor::arithmetic::{is_last_softmax, like, softmax_last_dim};
use crate::tensor::facts::lemma_count_push;
use crate::tensor::layout::{dims, reshape};
use crate::tensor::value::{count, hosted, tensor_dims, value, TensorValue};
use crate::text::{decimal, with_numbers};

verus! {

/// Turns groups of neighbouring elements into shares that add up to one.
#[derive(Debug, Clone, Copy, PartialEq, Eq, Structural)]
pub struct SimNorm {
    pub simplex_dim: usize,
}

/// The last axis split into groups.
pub open spec fn grouped(dims: Seq<usize>, simplex: usize) -> Seq<usize> {
    dims.drop_last().push((dims.last() / simplex) as usize).push(simplex)
}

/// The softmax of each group of the last axis.
pub open spec fn sim_normed(simplex: usize, x: TensorValue, r: TensorValue) -> bool {
    exists|shares: TensorValue|
        #[trigger] is_last_softmax(x.shaped(grouped(x.dims, simplex)), shares) && r
            == shares.shaped(x.dims) && r.keys.len() == x.keys.len() && r.element == x.element
            && r.location == x.location
}

/// What is wrong with a shape for groups of this size.
pub open spec fn simnorm_complaint(dims: Seq<usize>, simplex: usize) -> Option<Seq<char>> {
    if dims.len() == 0 {
        Some("SimNorm expects at least one dimension"@)
    } else if simplex == 0 {
        Some("SimNorm simplex dim must be greater than zero"@)
    } else if dims.last() % simplex != 0 {
        Some(
            "SimNorm last dim "@ + decimal(dims.last() as nat)
                + " must be divisible by simplex dim "@
                + decimal(simplex as nat),
        )
    } else {
        None
    }
}

impl SimNorm {
    pub fn new(simplex_dim: usize) -> (r: Self)
        ensures
            r.simplex_dim == simplex_dim,
    {
        Self { simplex_dim }
    }

    /// Normalises each group of the last axis.
    pub fn forward(&self, xs: &Tensor) -> (r: Result<Tensor>)
        ensures
            r matches Ok(o) ==> sim_normed(self.simplex_dim, value(*xs), value(o)) && like(
                value(*xs),
                value(o),
            ),
            simnorm_complaint(tensor_dims(*xs), self.simplex_dim) matches Some(text) ==> r is Err
                && r->Err_0.says(text),
            simnorm_complaint(tensor_dims(*xs), self.simplex_dim) is None ==> (r matches Err(e)
                ==> e is Backend),
            simnorm_complaint(tensor_dims(*xs), self.simplex_dim) is None && hosted(value(*xs))
                ==> r is Ok,
    {
        let shape = dims(xs);
        if shape.len() == 0 {
            return Err(message("SimNorm expects at least one dimension"));
        }
        if self.simplex_dim == 0 {
            return Err(message("SimNorm simplex dim must be greater than zero"));
        }
        let last: usize = shape[shape.len() - 1];
        if last % self.simplex_dim != 0 {
            let text = with_numbers(
                "SimNorm last dim ",
                last,
                " must be divisible by simplex dim ",
                self.simplex_dim,
                "",
            );
            proof {
                reveal_strlit("");
                assert(text@ =~= simnorm_complaint(shape@, self.simplex_dim)->0);
            }
            return Err(SwmError::Message(text));
        }
        let mut groups = shape.clone();
        let _ = groups.pop();
        groups.push(last / self.simplex_dim);
        groups.push(self.simplex_dim);
        let ghost s = self.simplex_dim;
        proof {
            assert(groups@ =~= grouped(shape@, s));
            let q = (last / s) as usize;
            let head = shape@.drop_last();
            lemma_count_push(head, q);
            lemma_count_push(head.push(q), s);
            lemma_count_push(head, last);
            assert(head.push(last) =~= shape@);
            vstd::arithmetic::div_mod::lemma_fundamental_div_mod(last as int, s as int);
            let c = count(head) as int;
            assert((c * q) * s == c * last) by (nonlinear_arith)
                requires
                    last == s * q,
            ;
        }
        let split = lift(reshape(xs, groups.as_slice()))?;
        let shares = lift(softmax_last_dim(&split))?;
        let out = lift(reshape(&shares, shape.as_slice()))?;
        proof {
            assert(is_last_softmax(value(*xs).shaped(grouped(shape@, s)), value(shares)));
        }
        Ok(out)
    }
}

} // verus!
