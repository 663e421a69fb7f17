//! Layer normalisation with the usual epsilon.

use candle_nn::LayerNorm;
use vstd::prelude::*;

use crate::error::{lift, message, Result};
use crate::scalar::{f64_key, F64};
use crate::tensor::layers::{
    from_file, held_as, layer_norm, norm_from, norm_home, norm_size, norm_stored, store_path,
    store_source, ParameterStore,
};
use crate::tensor::make::from_f64;
use crate::tensor::value::ElementType;

verus! {

/// The bits of 1e-5.
pub const EPSILON: u64 = 0x3ee4_f8b5_88e3_68f1;

/// Reads a layer normalisation with an epsilon of 1e-5. The width must not be
/// zero.
pub fn load_norm(store: &ParameterStore, size: usize) -> (r: Result<LayerNorm>)
    ensures
        size == 0 ==> r is Err && r->Err_0.says("normalised width must be greater than zero"@),
        size > 0 ==> (r matches Err(e) ==> e is Backend),
        r matches Ok(l) ==> size > 0 && norm_size(l) == size && norm_from(
            store_source(*store),
            store_path(*store),
            f64_key(EPSILON),
            l,
        ),
        r matches Ok(l) ==> forall|e: ElementType| #[trigger]
            held_as(store_source(*store), e) ==> norm_home(l, e),
        from_file(store_source(*store)) ==> (r is Ok <==> size > 0 && norm_stored(
            store_source(*store),
            store_path(*store),
            size,
        )),
{
    if size == 0 {
        return Err(message("normalised width must be greater than zero"));
    }
    let epsilon = lift(from_f64(F64::from_bits(EPSILON)))?;
    lift(layer_norm(store, size, &epsilon))
}

} // verus!
