//! Layers of the backend and the parameters that they are made from.

use candle_core::DType;
use candle_core::Device;
use candle_core::Tensor;
use candle_nn::Module;
use candle_nn::ModuleT;
use std::collections::HashMap;
use vstd::prelude::*;

use crate::error::{lift, message, Result};
use crate::models::lewm::config::VitEncoderConfig;
use crate::tensor::arithmetic::{computes, like, require_computable};
use crate::tensor::value::{
    count, device_location, dtype_element, is_double, plain, tensor_dims, tensor_element,
    tensor_keys, tensor_location, value, values, ElementType, Location, TensorValue,
};
use crate::text::decimal_text;
use crate::tensor::layout::laid_out;

verus! {

#[verifier::external_type_specification]
#[verifier::external_body]
pub struct ExLinear(candle_nn::Linear);

#[verifier::external_type_specification]
#[verifier::external_body]
pub struct ExLayerNorm(candle_nn::LayerNorm);

#[verifier::external_type_specification]
#[verifier::external_body]
pub struct ExBatchNorm(candle_nn::BatchNorm);

#[verifier::external_type_specification]
#[verifier::external_body]
pub struct ExConv1d(candle_nn::Conv1d);

#[verifier::external_type_specification]
#[verifier::external_body]
pub struct ExConv2d(candle_nn::Conv2d);

#[verifier::external_type_specification]
#[verifier::external_body]
pub struct ExEmbeddings(candle_transformers::models::vit::Embeddings);

#[verifier::external_type_specification]
#[verifier::external_body]
pub struct ExEncoder(candle_transformers::models::vit::Encoder);

#[verifier::external_type_specification]
#[verifier::external_body]
pub struct ExVarMap(candle_nn::VarMap);

/// `clone` of `candle_nn::Linear`: another handle on a linear layer with the same
/// parameters.
pub assume_specification[ <candle_nn::Linear as Clone>::clone ](l: &candle_nn::Linear) -> (r:
    candle_nn::Linear)
    ensures
        r == *l,
;

/// `clone` of `candle_nn::LayerNorm`: another handle on a layer normalisation with the same
/// parameters.
pub assume_specification[ <candle_nn::LayerNorm as Clone>::clone ](l: &candle_nn::LayerNorm) -> (r:
    candle_nn::LayerNorm)
    ensures
        r == *l,
;

/// `clone` of `candle_nn::BatchNorm`: another handle on a batch normalisation with the same
/// parameters.
pub assume_specification[ <candle_nn::BatchNorm as Clone>::clone ](l: &candle_nn::BatchNorm) -> (r:
    candle_nn::BatchNorm)
    ensures
        r == *l,
;

/// `clone` of `candle_nn::Conv1d`: another handle on a one-dimensional convolution with the same
/// parameters.
pub assume_specification[ <candle_nn::Conv1d as Clone>::clone ](l: &candle_nn::Conv1d) -> (r:
    candle_nn::Conv1d)
    ensures
        r == *l,
;

/// `clone` of `candle_nn::Conv2d`: another handle on a two-dimensional convolution with the same
/// parameters.
pub assume_specification[ <candle_nn::Conv2d as Clone>::clone ](l: &candle_nn::Conv2d) -> (r:
    candle_nn::Conv2d)
    ensures
        r == *l,
;

/// `clone` of `candle_transformers::models::vit::Embeddings`: another handle on
/// the same parameters.
pub assume_specification[ <candle_transformers::models::vit::Embeddings as Clone>::clone ](
    l: &candle_transformers::models::vit::Embeddings,
) -> (r: candle_transformers::models::vit::Embeddings)
    ensures
        r == *l,
;

/// `clone` of `candle_transformers::models::vit::Encoder`: another handle on the
/// same parameters.
pub assume_specification[ <candle_transformers::models::vit::Encoder as Clone>::clone ](
    l: &candle_transformers::models::vit::Encoder,
) -> (r: candle_transformers::models::vit::Encoder)
    ensures
        r == *l,
;

/// A collection of named parameters, seen from a place in its tree of names.
/// It holds a `candle_nn::VarBuilder`.
#[verifier::external_body]
pub struct ParameterStore {
    inner: candle_nn::VarBuilder<'static>,
}

/// Which collection a store reads. A store and those made from it by going down
/// the tree read the same one.
pub uninterp spec fn store_source(p: ParameterStore) -> int;

/// The names that lead from the root of the collection to the store.
pub uninterp spec fn store_path(p: ParameterStore) -> Seq<Seq<char>>;

/// The collection of a set of variables, for an element type and a place.
pub uninterp spec fn variables_source(
    vars: candle_nn::VarMap,
    e: ElementType,
    location: Location,
) -> int;

/// Whether a collection is that of a set of variables, for an element type and a
/// place.
pub open spec fn is_fresh(source: int, e: ElementType, location: Location) -> bool {
    exists|vars: candle_nn::VarMap| source == #[trigger] variables_source(vars, e, location)
}

/// Whether bytes are a safetensors file.
pub uninterp spec fn file_reads(data: Seq<u8>) -> bool;

/// The collection of the tensors of a safetensors file, for an element type and
/// a place.
pub uninterp spec fn file_source(data: Seq<u8>, e: ElementType, location: Location) -> int;

/// The collection of named tensors, for an element type and a place.
pub uninterp spec fn named_source(
    names: Seq<Seq<char>>,
    tensors: Seq<TensorValue>,
    e: ElementType,
    location: Location,
) -> int;

/// Whether a collection is a safetensors file whose parameters are brought to the
/// memory of the processor in an element type.
pub open spec fn held_as(source: int, e: ElementType) -> bool {
    exists|data: Seq<u8>| source == #[trigger] file_source(data, e, Location::Cpu)
}

/// The element types that every layer is computed in on the processor.
pub open spec fn layer_type(e: ElementType) -> bool {
    e is BF16 || e is F16 || e is F32
}

/// Whether no axis of a shape is empty.
pub open spec fn full(dims: Seq<usize>) -> bool {
    forall|k: int| 0 <= k < dims.len() ==> #[trigger] dims[k] > 0
}

/// Whether a tensor can go through layers on the processor.
pub open spec fn ready(v: TensorValue) -> bool {
    v.location is Cpu && layer_type(v.element) && full(v.dims)
}

/// The names of a list.
pub open spec fn texts(names: Seq<String>) -> Seq<Seq<char>> {
    names.map_values(|n: String| n@)
}

/// `candle_nn::VarBuilder::pp`: one name further down the tree.
#[verifier::external_body]
fn go_down(p: &ParameterStore, name: &str) -> (r: ParameterStore)
    ensures
        store_source(r) == store_source(*p),
        store_path(r) == store_path(*p).push(name@),
{
    ParameterStore { inner: p.inner.pp(name) }
}

/// `candle_nn::VarBuilder::from_varmap`, at the root of a set of variables.
#[verifier::external_body]
fn store_from_variables(vars: &candle_nn::VarMap, dtype: DType, device: &Device) -> (r:
    ParameterStore)
    ensures
        store_path(r) == Seq::<Seq<char>>::empty(),
        store_source(r) == variables_source(
            *vars,
            dtype_element(dtype),
            device_location(*device),
        ),
{
    ParameterStore { inner: candle_nn::VarBuilder::from_varmap(vars, dtype, device) }
}

/// `candle_nn::VarMap::new`. Nothing is claimed of the set: it is empty, and
/// variables come into it when they are asked for.
#[verifier::external_body]
fn new_variables() -> (r: candle_nn::VarMap) {
    candle_nn::VarMap::new()
}

/// `candle_nn::VarBuilder::from_buffered_safetensors`, at the root of the
/// tensors of a file. Whether it succeeds depends on the bytes alone.
#[verifier::external_body]
fn store_from_safetensors(data: Vec<u8>, dtype: DType, device: &Device) -> (r: core::result::Result<
    ParameterStore,
    candle_core::Error,
>)
    ensures
        r is Ok <==> file_reads(data@),
        r matches Ok(p) ==> store_path(p) == Seq::<Seq<char>>::empty() && store_source(p)
            == file_source(data@, dtype_element(dtype), device_location(*device)),
{
    let inner = candle_nn::VarBuilder::from_buffered_safetensors(data, dtype, device)?;
    Ok(ParameterStore { inner })
}

/// `candle_nn::VarBuilder::from_tensors`, at the root of named tensors.
#[verifier::external_body]
fn store_from_tensors(names: Vec<String>, tensors: Vec<Tensor>, dtype: DType, device: &Device) -> (r:
    ParameterStore)
    requires
        names@.len() == tensors@.len(),
    ensures
        store_path(r) == Seq::<Seq<char>>::empty(),
        store_source(r) == named_source(
            texts(names@),
            values(tensors@),
            dtype_element(dtype),
            device_location(*device),
        ),
{
    let named: HashMap<String, Tensor> = names.into_iter().zip(tensors).collect();
    ParameterStore { inner: candle_nn::VarBuilder::from_tensors(named, dtype, device) }
}

impl ParameterStore {
    /// The store one name further down the tree.
    pub fn pp(&self, name: &str) -> (r: ParameterStore)
        ensures
            store_source(r) == store_source(*self),
            store_path(r) == store_path(*self).push(name@),
    {
        go_down(self, name)
    }

    /// The store one numbered name further down the tree.
    pub fn at_index(&self, index: usize) -> (r: ParameterStore)
        ensures
            store_source(r) == store_source(*self),
            store_path(r) == store_path(*self).push(crate::text::decimal(index as nat)),
    {
        let name = decimal_text(index as u64);
        go_down(self, name.as_str())
    }

    /// A store over a set of variables, which are made as they are asked for.
    pub fn from_varmap(
        vars: &candle_nn::VarMap,
        dtype: DType,
        device: &Device,
    ) -> (r: ParameterStore)
        ensures
            store_path(r) == Seq::<Seq<char>>::empty(),
            store_source(r) == variables_source(
                *vars,
                dtype_element(dtype),
                device_location(*device),
            ),
    {
        store_from_variables(vars, dtype, device)
    }

    /// A store over the tensors of a safetensors file.
    pub fn from_safetensors(data: Vec<u8>, dtype: DType, device: &Device) -> (r: Result<
        ParameterStore,
    >)
        ensures
            r matches Ok(p) ==> store_path(p) == Seq::<Seq<char>>::empty() && store_source(p)
                == file_source(data@, dtype_element(dtype), device_location(*device)),
            r is Ok <==> file_reads(data@),
            r matches Err(e) ==> e is Backend,
    {
        lift(store_from_safetensors(data, dtype, device))
    }

    /// A store over named tensors, of which there must be as many as names.
    pub fn from_tensors(names: Vec<String>, tensors: Vec<Tensor>, dtype: DType, device: &Device) -> (r:
        Result<ParameterStore>)
        ensures
            r is Ok <==> names@.len() == tensors@.len(),
            r matches Ok(p) ==> store_path(p) == Seq::<Seq<char>>::empty() && store_source(p)
                == named_source(
                texts(names@),
                values(tensors@),
                dtype_element(dtype),
                device_location(*device),
            ),
            r matches Err(e) ==> e.says("parameter names and tensors differ in number"@),
    {
        if names.len() != tensors.len() {
            return Err(message("parameter names and tensors differ in number"));
        }
        Ok(store_from_tensors(names, tensors, dtype, device))
    }

    /// A store over new variables.
    pub fn fresh(dtype: DType, device: &Device) -> (r: ParameterStore)
        ensures
            store_path(r) == Seq::<Seq<char>>::empty(),
            is_fresh(store_source(r), dtype_element(dtype), device_location(*device)),
    {
        store_from_variables(&new_variables(), dtype, device)
    }
}

/// Whether a tensor was read from a source under a path.
pub uninterp spec fn is_parameter(source: int, path: Seq<Seq<char>>, v: TensorValue) -> bool;

/// Whether a source is a parameter file that is read into the memory of the
/// processor, in one of the plain element types.
pub open spec fn from_file(source: int) -> bool {
    exists|e: ElementType| #[trigger] held_as(source, e) && plain(e)
}

/// Whether the parameter under a path of a parameter file can be read in a shape.
pub uninterp spec fn stored(source: int, path: Seq<Seq<char>>, dims: Seq<usize>) -> bool;

/// Whether a parameter file has a weight and a bias of these shapes.
pub open spec fn affine_stored(
    source: int,
    path: Seq<Seq<char>>,
    weight: Seq<usize>,
    bias: usize,
) -> bool {
    stored(source, path.push("weight"@), weight) && stored(source, path.push("bias"@), seq![bias])
}

/// Whether a parameter file has a linear layer of these widths.
pub open spec fn linear_stored(
    source: int,
    path: Seq<Seq<char>>,
    in_dim: usize,
    out_dim: usize,
) -> bool {
    affine_stored(source, path, seq![out_dim, in_dim], out_dim)
}

/// Whether a parameter file has a linear layer of these widths without a bias.
pub open spec fn unbiased_stored(
    source: int,
    path: Seq<Seq<char>>,
    in_dim: usize,
    out_dim: usize,
) -> bool {
    stored(source, path.push("weight"@), seq![out_dim, in_dim])
}

/// Whether a parameter file has a layer normalisation of a width, under the names
/// of either convention.
pub uninterp spec fn norm_stored(source: int, path: Seq<Seq<char>>, size: usize) -> bool;

/// Whether a parameter file has a batch normalisation of a width.
pub open spec fn batch_norm_stored(source: int, path: Seq<Seq<char>>, size: usize) -> bool {
    &&& stored(source, path.push("running_mean"@), seq![size])
    &&& stored(source, path.push("running_var"@), seq![size])
    &&& affine_stored(source, path, seq![size], size)
}

/// Whether a parameter file has the embeddings of a vision transformer.
pub open spec fn embeddings_stored(
    source: int,
    path: Seq<Seq<char>>,
    c: VitEncoderConfig,
) -> bool {
    let side = c.image_size / c.patch_size;
    &&& stored(source, path.push("cls_token"@), seq![1usize, 1, c.hidden_size])
    &&& affine_stored(
        source,
        path.push("patch_embeddings"@).push("projection"@),
        seq![c.hidden_size, c.num_channels, c.patch_size, c.patch_size],
        c.hidden_size,
    )
    &&& stored(
        source,
        path.push("position_embeddings"@),
        seq![1usize, (side * side + 1) as usize, c.hidden_size],
    )
}

/// Whether a parameter file has what makes queries, keys or values.
pub open spec fn projection_stored(
    source: int,
    path: Seq<Seq<char>>,
    c: VitEncoderConfig,
) -> bool {
    let inner = (c.num_attention_heads * (c.hidden_size / c.num_attention_heads)) as usize;
    if c.qkv_bias {
        linear_stored(source, path, c.hidden_size, inner)
    } else {
        unbiased_stored(source, path, c.hidden_size, inner)
    }
}

/// Whether a parameter file has a layer of a vision transformer.
pub open spec fn layer_stored(source: int, path: Seq<Seq<char>>, c: VitEncoderConfig) -> bool {
    let attention = path.push("attention"@);
    &&& projection_stored(source, attention.push("attention"@).push("query"@), c)
    &&& projection_stored(source, attention.push("attention"@).push("key"@), c)
    &&& projection_stored(source, attention.push("attention"@).push("value"@), c)
    &&& linear_stored(
        source,
        attention.push("output"@).push("dense"@),
        c.hidden_size,
        c.hidden_size,
    )
    &&& linear_stored(
        source,
        path.push("intermediate"@).push("dense"@),
        c.hidden_size,
        c.intermediate_size,
    )
    &&& linear_stored(
        source,
        path.push("output"@).push("dense"@),
        c.intermediate_size,
        c.hidden_size,
    )
    &&& norm_stored(source, path.push("layernorm_before"@), c.hidden_size)
    &&& norm_stored(source, path.push("layernorm_after"@), c.hidden_size)
}

/// Whether a parameter file has every layer of a vision transformer.
pub open spec fn encoder_stored(source: int, path: Seq<Seq<char>>, c: VitEncoderConfig) -> bool {
    forall|k: int|
        0 <= k < c.num_hidden_layers ==> #[trigger] layer_stored(
            source,
            path.push("layer"@).push(crate::text::decimal(k as nat)),
            c,
        )
}

/// `candle_nn::VarBuilder::get`: the parameter of a name, which must have the
/// shape asked for. Whether a parameter file has it depends on the file, the
/// path and the shape.
#[verifier::external_body]
pub(crate) fn parameter(p: &ParameterStore, shape: &[usize], name: &str) -> (r: core::result::Result<
    Tensor,
    candle_core::Error,
>)
    ensures
        r matches Ok(t) ==> tensor_dims(t) == shape@ && tensor_keys(t).len() == count(shape@)
            && is_parameter(store_source(*p), store_path(*p).push(name@), value(t)),
        r matches Ok(t) ==> forall|e: ElementType| #[trigger]
            held_as(store_source(*p), e) ==> tensor_element(t) == e && tensor_location(t) is Cpu,
        from_file(store_source(*p)) ==> (r is Ok <==> stored(
            store_source(*p),
            store_path(*p).push(name@),
            shape@,
        )),
{
    p.inner.get(shape, name)
}

/// The input and output width of a linear layer.
pub uninterp spec fn linear_sizes(l: candle_nn::Linear) -> Seq<usize>;

/// Whether a linear layer was read from a source under a path.
pub uninterp spec fn linear_from(source: int, path: Seq<Seq<char>>, l: candle_nn::Linear) -> bool;

/// Whether the parameters of a linear layer have an element type in the memory of
/// the processor.
pub uninterp spec fn linear_home(l: candle_nn::Linear, e: ElementType) -> bool;

/// Whether `r` is what a linear layer makes of `x`.
pub uninterp spec fn is_linear(l: candle_nn::Linear, x: TensorValue, r: TensorValue) -> bool;

/// `candle_nn::linear`: a layer whose weight and bias are the parameters of
/// those names. Out of a parameter file it is read where the file has both.
#[verifier::external_body]
pub(crate) fn linear(p: &ParameterStore, in_dim: usize, out_dim: usize) -> (r: core::result::Result<
    candle_nn::Linear,
    candle_core::Error,
>)
    ensures
        r matches Ok(l) ==> linear_sizes(l) == seq![in_dim, out_dim] && linear_from(
            store_source(*p),
            store_path(*p),
            l,
        ),
        r matches Ok(l) ==> forall|e: ElementType| #[trigger]
            held_as(store_source(*p), e) ==> linear_home(l, e),
        from_file(store_source(*p)) ==> (r is Ok <==> linear_stored(
            store_source(*p),
            store_path(*p),
            in_dim,
            out_dim,
        )),
{
    candle_nn::linear(in_dim, out_dim, p.inner.clone())
}

/// Whether a linear layer without bias was read from a source under a path.
pub uninterp spec fn unbiased_from(source: int, path: Seq<Seq<char>>, l: candle_nn::Linear) -> bool;

/// `candle_nn::linear_no_bias`: a layer whose weight is the parameter of that
/// name. Out of a parameter file it is read where the file has it.
#[verifier::external_body]
pub(crate) fn linear_no_bias(p: &ParameterStore, in_dim: usize, out_dim: usize) -> (r:
    core::result::Result<candle_nn::Linear, candle_core::Error>)
    ensures
        r matches Ok(l) ==> linear_sizes(l) == seq![in_dim, out_dim] && unbiased_from(
            store_source(*p),
            store_path(*p),
            l,
        ),
        r matches Ok(l) ==> forall|e: ElementType| #[trigger]
            held_as(store_source(*p), e) ==> linear_home(l, e),
        from_file(store_source(*p)) ==> (r is Ok <==> unbiased_stored(
            store_source(*p),
            store_path(*p),
            in_dim,
            out_dim,
        )),
{
    candle_nn::linear_no_bias(in_dim, out_dim, p.inner.clone())
}

/// Whether a linear layer takes a tensor on the processor: four axes have to be
/// in row-major storage.
pub open spec fn linear_takes(l: candle_nn::Linear, x: Tensor) -> bool {
    &&& ready(value(x))
    &&& linear_home(l, tensor_element(x))
    &&& 2 <= tensor_dims(x).len() <= 4
    &&& tensor_dims(x).len() == 4 ==> laid_out(x)
    &&& tensor_dims(x).last() == linear_sizes(l)[0]
}

/// `forward` of `candle_nn::Linear`, on two to four axes.
#[verifier::external_body]
pub(crate) fn apply_linear(l: &candle_nn::Linear, x: &Tensor) -> (r: core::result::Result<
    Tensor,
    candle_core::Error,
>)
    ensures
        r matches Ok(o) ==> {
            &&& 2 <= tensor_dims(*x).len() <= 4
            &&& tensor_dims(*x).last() == linear_sizes(*l)[0]
            &&& value(o) == value(*x).alongside(
                tensor_dims(*x).drop_last().push(linear_sizes(*l)[1]),
                tensor_keys(o),
            )
            &&& tensor_keys(o).len() == count(tensor_dims(o))
            &&& is_linear(*l, value(*x), value(o))
            &&& full(tensor_dims(o)) ==> laid_out(o)
        },
        linear_takes(*l, *x) ==> r is Ok,
{
    l.forward(x)
}

/// The width that a layer normalisation works on.
pub uninterp spec fn norm_size(l: candle_nn::LayerNorm) -> usize;

/// Whether a layer normalisation with this epsilon was read from a source under
/// a path.
pub uninterp spec fn norm_from(
    source: int,
    path: Seq<Seq<char>>,
    epsilon: int,
    l: candle_nn::LayerNorm,
) -> bool;

/// Whether the parameters of a layer normalisation have an element type in the
/// memory of the processor, in row-major storage.
pub uninterp spec fn norm_home(l: candle_nn::LayerNorm, e: ElementType) -> bool;

/// Whether `r` is what a layer normalisation makes of `x`.
pub uninterp spec fn is_normed(l: candle_nn::LayerNorm, x: TensorValue, r: TensorValue) -> bool;

/// `candle_nn::layer_norm`, with the epsilon as a double-precision tensor
/// without axes. Whether a parameter file has the layer depends on the file, the
/// path and the width.
#[verifier::external_body]
pub(crate) fn layer_norm(p: &ParameterStore, size: usize, epsilon: &Tensor) -> (r:
    core::result::Result<candle_nn::LayerNorm, candle_core::Error>)
    requires
        tensor_keys(*epsilon).len() == 1,
    ensures
        r matches Ok(l) ==> norm_size(l) == size && norm_from(
            store_source(*p),
            store_path(*p),
            tensor_keys(*epsilon)[0],
            l,
        ),
        r matches Ok(l) ==> forall|e: ElementType| #[trigger]
            held_as(store_source(*p), e) ==> norm_home(l, e),
        from_file(store_source(*p)) && is_double(value(*epsilon)) ==> (r is Ok <==> norm_stored(
            store_source(*p),
            store_path(*p),
            size,
        )),
{
    let mut config = candle_nn::LayerNormConfig::default();
    config.eps = epsilon.to_scalar()?;
    candle_nn::layer_norm(size, config, p.inner.clone())
}

/// `forward` of `candle_nn::LayerNorm`, on a last axis of the width that it was
/// made for.
#[verifier::external_body]
fn backend_apply_norm(l: &candle_nn::LayerNorm, x: &Tensor) -> (r: core::result::Result<
    Tensor,
    candle_core::Error,
>)
    requires
        computes(tensor_element(*x)),
        tensor_dims(*x).len() > 0,
        tensor_dims(*x).last() == norm_size(*l),
        norm_size(*l) > 0,
    ensures
        r matches Ok(o) ==> like(value(*x), value(o)) && is_normed(*l, value(*x), value(o)),
        ready(value(*x)) && norm_home(*l, tensor_element(*x)) ==> r is Ok,
        r matches Ok(o) ==> full(tensor_dims(o)) ==> laid_out(o),
{
    l.forward(x)
}

/// What a layer normalisation makes of a tensor. Integers are refused.
pub(crate) fn apply_norm(l: &candle_nn::LayerNorm, x: &Tensor) -> (r: core::result::Result<
    Tensor,
    candle_core::Error,
>)
    requires
        tensor_dims(*x).len() > 0,
        tensor_dims(*x).last() == norm_size(*l),
        norm_size(*l) > 0,
    ensures
        r matches Ok(o) ==> like(value(*x), value(o)) && is_normed(*l, value(*x), value(o)),
        r is Ok ==> computes(tensor_element(*x)),
        ready(value(*x)) && norm_home(*l, tensor_element(*x)) ==> r is Ok,
        r matches Ok(o) ==> full(tensor_dims(o)) ==> laid_out(o),
{
    require_computable(x)?;
    backend_apply_norm(l, x)
}

/// Whether a batch normalisation with the usual settings was read from a source
/// under a path.
pub uninterp spec fn batch_norm_from(
    source: int,
    path: Seq<Seq<char>>,
    size: usize,
    l: candle_nn::BatchNorm,
) -> bool;

/// Whether the parameters of a batch normalisation of a width have an element type
/// in the memory of the processor.
pub uninterp spec fn batch_norm_home(l: candle_nn::BatchNorm, size: usize, e: ElementType) -> bool;

/// Whether `r` is what a batch normalisation, outside training, makes of `x`.
pub uninterp spec fn is_batch_normed(
    l: candle_nn::BatchNorm,
    x: TensorValue,
    r: TensorValue,
) -> bool;

/// `candle_nn::batch_norm` with its default settings, whose epsilon is 1e-5. Out
/// of a parameter file it is read where the file has the running mean and
/// variance, the weight and the bias.
#[verifier::external_body]
pub(crate) fn batch_norm(p: &ParameterStore, size: usize) -> (r: core::result::Result<
    candle_nn::BatchNorm,
    candle_core::Error,
>)
    ensures
        r matches Ok(l) ==> batch_norm_from(store_source(*p), store_path(*p), size, l),
        r matches Ok(l) ==> forall|e: ElementType| #[trigger]
            held_as(store_source(*p), e) ==> batch_norm_home(l, size, e),
        from_file(store_source(*p)) ==> (r is Ok <==> batch_norm_stored(
            store_source(*p),
            store_path(*p),
            size,
        )),
{
    candle_nn::batch_norm(size, candle_nn::BatchNormConfig::default(), p.inner.clone())
}

/// `forward_t` of `candle_nn::BatchNorm` outside training.
#[verifier::external_body]
fn backend_apply_batch_norm(l: &candle_nn::BatchNorm, x: &Tensor) -> (r: core::result::Result<
    Tensor,
    candle_core::Error,
>)
    requires
        computes(tensor_element(*x)),
    ensures
        r matches Ok(o) ==> like(value(*x), value(o)) && is_batch_normed(*l, value(*x), value(o)),
        ready(value(*x)) && tensor_dims(*x).len() >= 2 && batch_norm_home(
            *l,
            tensor_dims(*x)[1],
            tensor_element(*x),
        ) ==> r is Ok,
        r matches Ok(o) ==> full(tensor_dims(o)) ==> laid_out(o),
{
    l.forward_t(x, false)
}

/// What a batch normalisation makes of a tensor. Integers are refused.
pub(crate) fn apply_batch_norm(l: &candle_nn::BatchNorm, x: &Tensor) -> (r: core::result::Result<
    Tensor,
    candle_core::Error,
>)
    ensures
        r matches Ok(o) ==> like(value(*x), value(o)) && is_batch_normed(*l, value(*x), value(o)),
        r is Ok ==> computes(tensor_element(*x)),
        ready(value(*x)) && tensor_dims(*x).len() >= 2 && batch_norm_home(
            *l,
            tensor_dims(*x)[1],
            tensor_element(*x),
        ) ==> r is Ok,
        r matches Ok(o) ==> full(tensor_dims(o)) ==> laid_out(o),
{
    require_computable(x)?;
    backend_apply_batch_norm(l, x)
}

/// The input channels, output channels and kernel width of a one-dimensional
/// convolution of stride one.
pub uninterp spec fn conv1d_sizes(l: candle_nn::Conv1d) -> Seq<usize>;

/// Whether a one-dimensional convolution was read from a source under a path.
pub uninterp spec fn conv1d_from(source: int, path: Seq<Seq<char>>, l: candle_nn::Conv1d) -> bool;

/// Whether the parameters of a one-dimensional convolution have an element type in
/// the memory of the processor, in row-major storage.
pub uninterp spec fn conv1d_home(l: candle_nn::Conv1d, e: ElementType) -> bool;

/// Whether `r` is what a one-dimensional convolution makes of `x`.
pub uninterp spec fn is_conv1d(l: candle_nn::Conv1d, x: TensorValue, r: TensorValue) -> bool;

/// `candle_nn::conv1d` with its default settings: stride one, no padding. Out of a
/// parameter file it is read where the file has the weight and the bias.
#[verifier::external_body]
pub(crate) fn conv1d(p: &ParameterStore, channels_in: usize, channels_out: usize, kernel: usize) -> (r:
    core::result::Result<candle_nn::Conv1d, candle_core::Error>)
    ensures
        r matches Ok(l) ==> conv1d_sizes(l) == seq![channels_in, channels_out, kernel]
            && conv1d_from(store_source(*p), store_path(*p), l),
        r matches Ok(l) ==> forall|e: ElementType| #[trigger]
            held_as(store_source(*p), e) ==> conv1d_home(l, e),
        from_file(store_source(*p)) ==> (r is Ok <==> affine_stored(
            store_source(*p),
            store_path(*p),
            seq![channels_out, channels_in, kernel],
            channels_out,
        )),
{
    let config = candle_nn::Conv1dConfig::default();
    candle_nn::conv1d(channels_in, channels_out, kernel, config, p.inner.clone())
}

/// `forward` of `candle_nn::Conv1d` on `[batch, channels, length]`, the length
/// being at least the width of the kernel.
#[verifier::external_body]
fn backend_apply_conv1d(l: &candle_nn::Conv1d, x: &Tensor) -> (r: core::result::Result<
    Tensor,
    candle_core::Error,
>)
    requires
        computes(tensor_element(*x)),
        tensor_dims(*x).len() == 3,
        1 <= conv1d_sizes(*l)[2] <= tensor_dims(*x)[2],
    ensures
        r matches Ok(o) ==> {
            let size = conv1d_sizes(*l);
            &&& tensor_dims(*x)[1] == size[0]
            &&& value(o) == value(*x).alongside(
                seq![
                    tensor_dims(*x)[0],
                    size[1],
                    (tensor_dims(*x)[2] - size[2] + 1) as usize,
                ],
                tensor_keys(o),
            )
            &&& tensor_keys(o).len() == count(tensor_dims(o))
            &&& is_conv1d(*l, value(*x), value(o))
        },
        ready(value(*x)) && conv1d_home(*l, tensor_element(*x)) && tensor_dims(*x)[1] == conv1d_sizes(
            *l,
        )[0] ==> r is Ok,
{
    l.forward(x)
}

/// What a one-dimensional convolution makes of a tensor. Integers are refused.
pub(crate) fn apply_conv1d(l: &candle_nn::Conv1d, x: &Tensor) -> (r: core::result::Result<
    Tensor,
    candle_core::Error,
>)
    requires
        tensor_dims(*x).len() == 3,
        1 <= conv1d_sizes(*l)[2] <= tensor_dims(*x)[2],
    ensures
        r matches Ok(o) ==> {
            let size = conv1d_sizes(*l);
            &&& tensor_dims(*x)[1] == size[0]
            &&& value(o) == value(*x).alongside(
                seq![
                    tensor_dims(*x)[0],
                    size[1],
                    (tensor_dims(*x)[2] - size[2] + 1) as usize,
                ],
                tensor_keys(o),
            )
            &&& tensor_keys(o).len() == count(tensor_dims(o))
            &&& is_conv1d(*l, value(*x), value(o))
        },
        r is Ok ==> computes(tensor_element(*x)),
        ready(value(*x)) && conv1d_home(*l, tensor_element(*x)) && tensor_dims(*x)[1] == conv1d_sizes(
            *l,
        )[0] ==> r is Ok,
{
    require_computable(x)?;
    backend_apply_conv1d(l, x)
}

/// The input channels, output channels, kernel width and stride of a
/// two-dimensional convolution.
pub uninterp spec fn conv2d_sizes(l: candle_nn::Conv2d) -> Seq<usize>;

/// Whether a two-dimensional convolution was read from a source under a path.
pub uninterp spec fn conv2d_from(source: int, path: Seq<Seq<char>>, l: candle_nn::Conv2d) -> bool;

/// Whether the parameters of a two-dimensional convolution have an element type in
/// the memory of the processor, in row-major storage.
pub uninterp spec fn conv2d_home(l: candle_nn::Conv2d, e: ElementType) -> bool;

/// Whether `r` is what a two-dimensional convolution makes of `x`.
pub uninterp spec fn is_conv2d(l: candle_nn::Conv2d, x: TensorValue, r: TensorValue) -> bool;

/// `candle_nn::conv2d` with a stride and no padding. Out of a parameter file it is
/// read where the file has the weight and the bias.
#[verifier::external_body]
pub(crate) fn conv2d(
    p: &ParameterStore,
    channels_in: usize,
    channels_out: usize,
    kernel: usize,
    stride: usize,
) -> (r: core::result::Result<candle_nn::Conv2d, candle_core::Error>)
    ensures
        r matches Ok(l) ==> conv2d_sizes(l) == seq![channels_in, channels_out, kernel, stride]
            && conv2d_from(store_source(*p), store_path(*p), l),
        r matches Ok(l) ==> forall|e: ElementType| #[trigger]
            held_as(store_source(*p), e) ==> conv2d_home(l, e),
        from_file(store_source(*p)) ==> (r is Ok <==> affine_stored(
            store_source(*p),
            store_path(*p),
            seq![channels_out, channels_in, kernel, kernel],
            channels_out,
        )),
{
    let config = candle_nn::Conv2dConfig { stride, ..Default::default() };
    candle_nn::conv2d(channels_in, channels_out, kernel, config, p.inner.clone())
}

/// How many places a kernel has along a side.
pub open spec fn conv_places(side: int, kernel: int, stride: int) -> int {
    (side - kernel) / stride + 1
}

/// `forward` of `candle_nn::Conv2d` on `[batch, channels, height, width]`, both
/// sides being at least the width of the kernel.
#[verifier::external_body]
fn backend_apply_conv2d(l: &candle_nn::Conv2d, x: &Tensor) -> (r: core::result::Result<
    Tensor,
    candle_core::Error,
>)
    requires
        computes(tensor_element(*x)),
        tensor_dims(*x).len() == 4,
        1 <= conv2d_sizes(*l)[2] <= tensor_dims(*x)[2],
        conv2d_sizes(*l)[2] <= tensor_dims(*x)[3],
        conv2d_sizes(*l)[3] >= 1,
    ensures
        r matches Ok(o) ==> {
            let size = conv2d_sizes(*l);
            let (kernel, stride) = (size[2] as int, size[3] as int);
            &&& tensor_dims(*x)[1] == size[0]
            &&& value(o) == value(*x).alongside(
                seq![
                    tensor_dims(*x)[0],
                    size[1],
                    conv_places(tensor_dims(*x)[2] as int, kernel, stride) as usize,
                    conv_places(tensor_dims(*x)[3] as int, kernel, stride) as usize,
                ],
                tensor_keys(o),
            )
            &&& tensor_keys(o).len() == count(tensor_dims(o))
            &&& is_conv2d(*l, value(*x), value(o))
        },
        ready(value(*x)) && !(tensor_element(*x) is BF16) && conv2d_home(*l, tensor_element(*x))
            && tensor_dims(*x)[1] == conv2d_sizes(
            *l,
        )[0] ==> r is Ok,
{
    l.forward(x)
}

/// What a two-dimensional convolution makes of a tensor. Integers are refused.
pub(crate) fn apply_conv2d(l: &candle_nn::Conv2d, x: &Tensor) -> (r: core::result::Result<
    Tensor,
    candle_core::Error,
>)
    requires
        tensor_dims(*x).len() == 4,
        1 <= conv2d_sizes(*l)[2] <= tensor_dims(*x)[2],
        conv2d_sizes(*l)[2] <= tensor_dims(*x)[3],
        conv2d_sizes(*l)[3] >= 1,
    ensures
        r matches Ok(o) ==> {
            let size = conv2d_sizes(*l);
            let (kernel, stride) = (size[2] as int, size[3] as int);
            &&& tensor_dims(*x)[1] == size[0]
            &&& value(o) == value(*x).alongside(
                seq![
                    tensor_dims(*x)[0],
                    size[1],
                    conv_places(tensor_dims(*x)[2] as int, kernel, stride) as usize,
                    conv_places(tensor_dims(*x)[3] as int, kernel, stride) as usize,
                ],
                tensor_keys(o),
            )
            &&& tensor_keys(o).len() == count(tensor_dims(o))
            &&& is_conv2d(*l, value(*x), value(o))
        },
        r is Ok ==> computes(tensor_element(*x)),
        ready(value(*x)) && !(tensor_element(*x) is BF16) && conv2d_home(*l, tensor_element(*x))
            && tensor_dims(*x)[1] == conv2d_sizes(
            *l,
        )[0] ==> r is Ok,
{
    require_computable(x)?;
    backend_apply_conv2d(l, x)
}

/// The patch size, channels and width of the patch embeddings of a vision
/// transformer.
pub uninterp spec fn embeddings_sizes(
    l: candle_transformers::models::vit::Embeddings,
) -> Seq<usize>;

/// Whether patch embeddings were read from a source under a path.
pub uninterp spec fn embeddings_from(
    source: int,
    path: Seq<Seq<char>>,
    cfg: VitEncoderConfig,
    l: candle_transformers::models::vit::Embeddings,
) -> bool;

/// Whether the parameters of patch embeddings have an element type in the memory of
/// the processor.
pub uninterp spec fn embeddings_home(
    l: candle_transformers::models::vit::Embeddings,
    e: ElementType,
) -> bool;

/// How many patches the embeddings of places are for.
pub uninterp spec fn embeddings_patches(l: candle_transformers::models::vit::Embeddings) -> nat;

/// Whether `r` is what patch embeddings make of `x`.
pub uninterp spec fn is_embedded(
    l: candle_transformers::models::vit::Embeddings,
    x: TensorValue,
    r: TensorValue,
) -> bool;

/// `candle_transformers::models::vit::Embeddings::new` without a mask token, with
/// the epsilon as a double-precision tensor without axes. Out of a parameter file
/// they are read where the file has the token for the whole image, what projects
/// patches, and a position for each place.
#[verifier::external_body]
pub(crate) fn vit_embeddings(p: &ParameterStore, c: &VitEncoderConfig, epsilon: &Tensor) -> (r:
    core::result::Result<candle_transformers::models::vit::Embeddings, candle_core::Error>)
    requires
        c.patch_size > 0,
        (c.image_size / c.patch_size) * (c.image_size / c.patch_size) < usize::MAX,
        tensor_keys(*epsilon) == seq![c.layer_norm_eps.key()],
    ensures
        r matches Ok(l) ==> embeddings_sizes(l) == seq![
            c.patch_size,
            c.num_channels,
            c.hidden_size,
        ] && embeddings_from(store_source(*p), store_path(*p), *c, l),
        r matches Ok(l) ==> embeddings_patches(l) == (c.image_size / c.patch_size) * (c.image_size
            / c.patch_size),
        r matches Ok(l) ==> forall|e: ElementType| #[trigger]
            held_as(store_source(*p), e) ==> embeddings_home(l, e),
        from_file(store_source(*p)) && is_double(value(*epsilon)) ==> (r is Ok <==> embeddings_stored(
            store_source(*p),
            store_path(*p),
            *c,
        )),
{
    let config = candle_transformers::models::vit::Config {
        hidden_size: c.hidden_size,
        num_hidden_layers: c.num_hidden_layers,
        num_attention_heads: c.num_attention_heads,
        intermediate_size: c.intermediate_size,
        hidden_act: candle_nn::Activation::Gelu,
        layer_norm_eps: epsilon.to_scalar()?,
        image_size: c.image_size,
        patch_size: c.patch_size,
        num_channels: c.num_channels,
        qkv_bias: c.qkv_bias,
    };
    candle_transformers::models::vit::Embeddings::new(&config, false, p.inner.clone())
}

/// `forward` of `candle_transformers::models::vit::Embeddings` without a mask, on
/// images of at least one patch: a place for each patch after one for the whole
/// image.
#[verifier::external_body]
fn backend_apply_vit_embeddings(l: &candle_transformers::models::vit::Embeddings, x: &Tensor) -> (r:
    core::result::Result<Tensor, candle_core::Error>)
    requires
        computes(tensor_element(*x)),
        tensor_dims(*x).len() == 4,
        0 < embeddings_sizes(*l)[0] <= tensor_dims(*x)[2],
        embeddings_sizes(*l)[0] <= tensor_dims(*x)[3],
        (tensor_dims(*x)[2] / embeddings_sizes(*l)[0]) * (tensor_dims(*x)[3] / embeddings_sizes(
            *l,
        )[0]) < usize::MAX,
    ensures
        r matches Ok(o) ==> value(o) == value(*x).alongside(
            seq![
                tensor_dims(*x)[0],
                ((tensor_dims(*x)[2] / embeddings_sizes(*l)[0]) * (tensor_dims(*x)[3]
                    / embeddings_sizes(*l)[0]) + 1) as usize,
                embeddings_sizes(*l)[2],
            ],
            tensor_keys(o),
        ) && tensor_dims(*x)[1] == embeddings_sizes(*l)[1] && is_embedded(*l, value(*x), value(o)),
        ready(value(*x)) && !(tensor_element(*x) is BF16) && embeddings_home(*l, tensor_element(*x))
            && tensor_dims(*x)[1] == embeddings_sizes(*l)[1] && embeddings_sizes(*l)[2] > 0
            && embeddings_patches(*l) == (tensor_dims(*x)[2] / embeddings_sizes(*l)[0]) * (
        tensor_dims(*x)[3] / embeddings_sizes(*l)[0]) ==> r is Ok,
{
    l.forward(x, None, false)
}

/// What patch embeddings make of images. Integers are refused.
pub(crate) fn apply_vit_embeddings(l: &candle_transformers::models::vit::Embeddings, x: &Tensor) -> (r:
    core::result::Result<Tensor, candle_core::Error>)
    requires
        tensor_dims(*x).len() == 4,
        0 < embeddings_sizes(*l)[0] <= tensor_dims(*x)[2],
        embeddings_sizes(*l)[0] <= tensor_dims(*x)[3],
        (tensor_dims(*x)[2] / embeddings_sizes(*l)[0]) * (tensor_dims(*x)[3] / embeddings_sizes(
            *l,
        )[0]) < usize::MAX,
    ensures
        r matches Ok(o) ==> value(o) == value(*x).alongside(
            seq![
                tensor_dims(*x)[0],
                ((tensor_dims(*x)[2] / embeddings_sizes(*l)[0]) * (tensor_dims(*x)[3]
                    / embeddings_sizes(*l)[0]) + 1) as usize,
                embeddings_sizes(*l)[2],
            ],
            tensor_keys(o),
        ) && tensor_dims(*x)[1] == embeddings_sizes(*l)[1] && is_embedded(*l, value(*x), value(o)),
        r is Ok ==> computes(tensor_element(*x)),
        ready(value(*x)) && !(tensor_element(*x) is BF16) && embeddings_home(*l, tensor_element(*x))
            && tensor_dims(*x)[1] == embeddings_sizes(*l)[1] && embeddings_sizes(*l)[2] > 0
            && embeddings_patches(*l) == (tensor_dims(*x)[2] / embeddings_sizes(*l)[0]) * (
        tensor_dims(*x)[3] / embeddings_sizes(*l)[0]) ==> r is Ok,
{
    require_computable(x)?;
    backend_apply_vit_embeddings(l, x)
}

/// The width of the encoder of a vision transformer.
pub uninterp spec fn encoder_width(l: candle_transformers::models::vit::Encoder) -> usize;

/// Whether the encoder of a vision transformer was read from a source under a
/// path.
pub uninterp spec fn encoder_from(
    source: int,
    path: Seq<Seq<char>>,
    cfg: VitEncoderConfig,
    l: candle_transformers::models::vit::Encoder,
) -> bool;

/// Whether the parameters of the encoder of a vision transformer have an element
/// type in the memory of the processor, and its heads share its width evenly.
pub uninterp spec fn encoder_home(
    l: candle_transformers::models::vit::Encoder,
    e: ElementType,
) -> bool;

/// Whether `r` is what the encoder of a vision transformer makes of `x`.
pub uninterp spec fn is_encoded(
    l: candle_transformers::models::vit::Encoder,
    x: TensorValue,
    r: TensorValue,
) -> bool;

/// `candle_transformers::models::vit::Encoder::new`, with the epsilon as a
/// double-precision tensor without axes. Out of a parameter file it is read where
/// the file has every part of every layer.
#[verifier::external_body]
pub(crate) fn vit_encoder(p: &ParameterStore, c: &VitEncoderConfig, epsilon: &Tensor) -> (r:
    core::result::Result<candle_transformers::models::vit::Encoder, candle_core::Error>)
    requires
        0 < c.num_attention_heads <= c.hidden_size,
        c.num_hidden_layers <= u16::MAX,
        tensor_keys(*epsilon) == seq![c.layer_norm_eps.key()],
    ensures
        r matches Ok(l) ==> encoder_width(l) == c.hidden_size && encoder_from(
            store_source(*p),
            store_path(*p),
            *c,
            l,
        ),
        r matches Ok(l) ==> c.hidden_size % c.num_attention_heads == 0 && c.intermediate_size > 0
            ==> forall|e: ElementType| #[trigger]
            held_as(store_source(*p), e) ==> encoder_home(l, e),
        from_file(store_source(*p)) && is_double(value(*epsilon)) ==> (r is Ok <==> encoder_stored(
            store_source(*p),
            store_path(*p),
            *c,
        )),
{
    let config = candle_transformers::models::vit::Config {
        hidden_size: c.hidden_size,
        num_hidden_layers: c.num_hidden_layers,
        num_attention_heads: c.num_attention_heads,
        intermediate_size: c.intermediate_size,
        hidden_act: candle_nn::Activation::Gelu,
        layer_norm_eps: epsilon.to_scalar()?,
        image_size: c.image_size,
        patch_size: c.patch_size,
        num_channels: c.num_channels,
        qkv_bias: c.qkv_bias,
    };
    candle_transformers::models::vit::Encoder::new(&config, p.inner.clone())
}

/// `forward` of `candle_transformers::models::vit::Encoder` on places of its
/// width, of which there is one at least.
#[verifier::external_body]
fn backend_apply_vit_encoder(l: &candle_transformers::models::vit::Encoder, x: &Tensor) -> (r:
    core::result::Result<Tensor, candle_core::Error>)
    requires
        computes(tensor_element(*x)),
        tensor_dims(*x).len() == 3,
        tensor_dims(*x)[1] > 0,
        tensor_dims(*x)[2] == encoder_width(*l),
        encoder_width(*l) > 0,
    ensures
        r matches Ok(o) ==> like(value(*x), value(o)) && is_encoded(*l, value(*x), value(o)),
        ready(value(*x)) && encoder_home(*l, tensor_element(*x)) ==> r is Ok,
{
    l.forward(x)
}

/// What the encoder of a vision transformer makes of a tensor. Integers are
/// refused.
pub(crate) fn apply_vit_encoder(l: &candle_transformers::models::vit::Encoder, x: &Tensor) -> (r:
    core::result::Result<Tensor, candle_core::Error>)
    requires
        tensor_dims(*x).len() == 3,
        tensor_dims(*x)[1] > 0,
        tensor_dims(*x)[2] == encoder_width(*l),
        encoder_width(*l) > 0,
    ensures
        r matches Ok(o) ==> like(value(*x), value(o)) && is_encoded(*l, value(*x), value(o)),
        r is Ok ==> computes(tensor_element(*x)),
        ready(value(*x)) && encoder_home(*l, tensor_element(*x)) ==> r is Ok,
{
    require_computable(x)?;
    backend_apply_vit_encoder(l, x)
}

} // verus!
