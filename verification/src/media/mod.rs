//! Images and video in device memory: shapes, checks and the parameters of the
//! kernels that prepare them.

pub mod launch;
pub mod nvdec;
pub mod nvjpeg;
pub mod preprocessor;
pub mod shape;
pub mod tensors;

pub use preprocessor::{
    ImageHistoryPreprocessor, ImagePreprocessor, Nv12HistoryPreprocessor, Nv12Preprocessor,
};
pub use shape::{
    ImagePreprocess, Nv12ColorSpace, Nv12ImageShape, PackedImageFormat, PackedImageShape,
};
pub use tensors::{nv12_tensors, nv12_tensors_from_host, packed_u8_tensor, packed_u8_tensor_from_host};
