//! Dividing by a natural number.

use candle_core::Tensor;
use vstd::prelude::*;

use crate::error::{lift, Result};
use crate::rounding::{
    lemma_exact, lemma_natural, lemma_reduced, lemma_rounding_keeps_sign, lemma_scale, lemma_units,
    number, rounds_to, scale, units,
};
use crate::tensor::arithmetic::{
    finite_at, nearest_at, reciprocal, reciprocal_of, reciprocal_rounds, units_at,
};
use crate::tensor::layout::{cast_of, cast_rounds, dtype_of, to_dtype};
use crate::tensor::make::{from_u64, whole};
use crate::tensor::value::{is_double, tensor_keys, value, ElementType, TensorValue};

verus! {

/// One divided by a natural number, in double precision.
pub open spec fn is_share(n: u64, r: TensorValue) -> bool {
    exists|number: TensorValue|
        #[trigger] cast_of(whole(n), number) && number.element is F64 && reciprocal_of(number, r)
}

/// A share is the double-precision number nearest to one over its number, so a share
/// times its number is one, up to the neighbouring numbers.
pub proof fn a_share_times_its_number_is_one(n: u64, r: TensorValue)
    requires
        is_share(n, r),
        0 < n < 0x20_0000_0000_0000,
    ensures
        is_double(r),
        rounds_to(ElementType::F64, scale(ElementType::F64), n as int, r.keys[0]),
        r.keys[0] >= 0,
        r.keys[0] > 0 ==> units(ElementType::F64, r.keys[0] - 1) * n <= scale(ElementType::F64),
        scale(ElementType::F64) <= units(ElementType::F64, r.keys[0] + 1) * n || !number(
            ElementType::F64,
            r.keys[0] + 1,
        ),
{
    let d = ElementType::F64;
    let wide = choose|number: TensorValue|
        #[trigger] cast_of(whole(n), number) && number.element is F64 && reciprocal_of(number, r);
    let w = lemma_natural(n as int);
    let c = scale(d);
    lemma_scale(d);
    assert(whole(n).keys[0] == n);
    assert(rounds_to(d, n * c, 1, wide.keys[0])) by {
        reveal(cast_rounds);
        assert(rounds_to(d, whole(n).keys[0] * c, 1, wide.keys[0]));
    }
    assert(units(d, w) * 1 == n * c);
    lemma_exact(d, w, 1, wide.keys[0]);
    assert(finite_at(wide, 0));
    assert(nearest_at(r, 0, c * c, units_at(wide, 0))) by {
        reveal(reciprocal_rounds);
    }
    lemma_reduced(d, c, n as int, c, r.keys[0]);
    let k = r.keys[0];
    lemma_rounding_keeps_sign(d, c, n as int, k);
    let u = units(d, k);
    if k > 0 {
        lemma_units(d, k - 1, k);
        let v = units(d, k - 1);
        assert((u + v) * n <= 2 * c);
        assert(2 * (v * n) <= (u + v) * n) by (nonlinear_arith)
            requires
                v <= u,
                n > 0,
        ;
    }
    if number(d, k + 1) {
        lemma_units(d, k, k + 1);
        let v = units(d, k + 1);
        assert((u + v) * n >= 2 * c);
        assert(2 * (v * n) >= (u + v) * n) by (nonlinear_arith)
            requires
                v >= u,
                n > 0,
        ;
    }
}

/// One divided by a natural number, in double precision.
pub fn share_of(n: u64) -> (r: Result<Tensor>)
    requires
        n <= i64::MAX,
    ensures
        r matches Ok(o) ==> is_share(n, value(o)) && tensor_keys(o).len() == 1,
        r matches Err(e) ==> e is Backend,
        r is Ok,
        is_double(value(r->Ok_0)),
{
    let number = lift(from_u64(n))?;
    let wide = lift(to_dtype(&number, dtype_of(ElementType::F64)))?;
    let out = lift(reciprocal(&wide))?;
    proof {
        assert(cast_of(whole(n), value(wide)));
    }
    Ok(out)
}

} // verus!
