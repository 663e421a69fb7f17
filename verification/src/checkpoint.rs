//! Where the parameters of a model come from.

use candle_core::DType;
use candle_core::Device;
use candle_core::Tensor;
use vstd::prelude::*;

use crate::error::Result;
use crate::tensor::layers::{
    file_reads, file_source, is_fresh, named_source, store_path, store_source, texts, ParameterStore,
};
use crate::tensor::value::{device_location, dtype_element, values, ElementType, Location};
use crate::text::same_text;

verus! {

/// The formats of parameter files.
#[derive(Debug, Clone, Copy, PartialEq, Eq, Structural)]
pub enum CheckpointFormat {
    Safetensors,
    Pickle,
}

/// The format of a file with this extension: a file that does not say it holds
/// safetensors is taken for a pickle.
pub fn checkpoint_format(extension: Option<&str>) -> (r: CheckpointFormat)
    ensures
        r is Safetensors <==> (extension matches Some(e) && e@ == "safetensors"@),
{
    match extension {
        Some(e) => if same_text(e, "safetensors") {
            CheckpointFormat::Safetensors
        } else {
            CheckpointFormat::Pickle
        },
        None => CheckpointFormat::Pickle,
    }
}

/// What a file was read as.
pub enum CheckpointContent {
    /// The bytes of a safetensors file.
    Bytes(Vec<u8>),
    /// The named tensors of a pickle.
    Named(Vec<String>, Vec<Tensor>),
}

/// The collection that the content of a parameter file is.
pub open spec fn content_source(
    content: CheckpointContent,
    e: ElementType,
    location: Location,
) -> int {
    match content {
        CheckpointContent::Bytes(data) => file_source(data@, e, location),
        CheckpointContent::Named(names, tensors) => named_source(
            texts(names@),
            values(tensors@),
            e,
            location,
        ),
    }
}

/// Whether the content of a parameter file can be read.
pub open spec fn content_reads(content: CheckpointContent) -> bool {
    match content {
        CheckpointContent::Bytes(data) => file_reads(data@),
        CheckpointContent::Named(_, _) => true,
    }
}

/// What is wrong with the content of a parameter file, if anything is.
pub open spec fn content_complaint(content: CheckpointContent) -> Option<Seq<char>> {
    match content {
        CheckpointContent::Bytes(_) => None,
        CheckpointContent::Named(names, tensors) => if names@.len() != tensors@.len() {
            Some("parameter names and tensors differ in number"@)
        } else {
            None
        },
    }
}

/// The parameters of a file that was read.
pub fn var_builder_from_content(content: CheckpointContent, dtype: DType, device: &Device) -> (r:
    Result<ParameterStore>)
    ensures
        r matches Ok(p) ==> store_path(p) == Seq::<Seq<char>>::empty(),
        r matches Ok(p) ==> store_source(p) == content_source(
            content,
            dtype_element(dtype),
            device_location(*device),
        ),
        content_complaint(content) matches Some(text) ==> r is Err && r->Err_0.says(text),
        content_complaint(content) is None ==> (r matches Err(e) ==> e is Backend),
        content_complaint(content) is None ==> (r is Ok <==> content_reads(content)),
{
    match content {
        CheckpointContent::Bytes(data) => ParameterStore::from_safetensors(data, dtype, device),
        CheckpointContent::Named(names, tensors) => ParameterStore::from_tensors(
            names,
            tensors,
            dtype,
            device,
        ),
    }
}

/// New parameters.
pub fn empty_var_builder(dtype: DType, device: &Device) -> (r: ParameterStore)
    ensures
        store_path(r) == Seq::<Seq<char>>::empty(),
        is_fresh(store_source(r), dtype_element(dtype), device_location(*device)),
{
    ParameterStore::fresh(dtype, device)
}

} // verus!
