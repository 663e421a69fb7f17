//! Image preparation with an output of its own in device memory.

use candle_core::Device;
use candle_core::Tensor;
use vstd::prelude::*;

use crate::error::{lift, message, Result, SwmError};
use crate::media::launch::{
    launch_fits, nv12_launch_complaint, packed_launch_complaint, prepared_elements,
    MediaOutputLayout, PlaneView,
};
use crate::media::shape::{ImagePreprocess, Nv12ColorSpace, Nv12ImageShape, PackedImageShape};
use crate::media::tensors::{
    is_cuda, packed_complaint, planes_complaint, validate_input_tensor, validate_nv12_tensors,
};
use crate::tensor::layout::dtype_of;
use crate::tensor::make::zeros;
use crate::tensor::ranks::element_count;
use crate::tensor::value::{
    count, device_location, tensor_dims, tensor_element, tensor_location, value, ElementType,
    Location, TensorValue,
};
use crate::text::{decimal, with_numbers};

verus! {

/// What the kernel for packed images has to do.
#[derive(Debug, Clone, Copy, PartialEq)]
pub struct PackedU8ToNchwF32 {
    pub input_shape: PackedImageShape,
    pub config: ImagePreprocess,
    pub output_layout: MediaOutputLayout,
}

/// What the kernel for planes has to do.
#[derive(Debug, Clone, Copy, PartialEq)]
pub struct Nv12ToNchwF32 {
    pub input_shape: Nv12ImageShape,
    pub color_space: Nv12ColorSpace,
    pub config: ImagePreprocess,
    pub output_layout: MediaOutputLayout,
}

/// The first thing wrong with the place and the size of an output.
pub open spec fn output_complaint(dims: Seq<usize>, location: Location, name: Seq<char>) -> Option<
    Seq<char>,
> {
    if !(location is Cuda) {
        Some(name + " requires a CUDA Candle device"@)
    } else if count(dims) > usize::MAX {
        Some(name + " output shape overflowed"@)
    } else {
        None
    }
}

fn blank_output(sizes: &[usize], device: &Device, name: &str) -> (r: Result<Tensor>)
    ensures
        output_complaint(sizes@, device_location(*device), name@) matches Some(text) ==> r is Err
            && r->Err_0.says(text),
        output_complaint(sizes@, device_location(*device), name@) is None ==> (r matches Err(e)
            ==> e is Backend),
        r matches Ok(o) ==> tensor_dims(o) == sizes@ && tensor_element(o) is F32
            && tensor_location(o) == device_location(*device),
{
    if !is_cuda(device) {
        let mut text = String::from_str(name);
        text.append(" requires a CUDA Candle device");
        return Err(SwmError::Message(text));
    }
    if element_count(sizes).is_none() {
        let mut text = String::from_str(name);
        text.append(" output shape overflowed");
        return Err(SwmError::Message(text));
    }
    lift(zeros(sizes, dtype_of(ElementType::F32), device))
}

fn slot_error(front: &str, slot: usize, len: usize) -> (r: SwmError)
    ensures
        r.says(front@ + decimal(slot as nat) + " is outside history_len "@ + decimal(len as nat)),
{
    let text = with_numbers(front, slot, " is outside history_len ", len, "");
    proof {
        reveal_strlit("");
        assert(text@ =~= front@ + decimal(slot as nat) + " is outside history_len "@ + decimal(
            len as nat,
        ));
    }
    SwmError::Message(text)
}

/// Prepares planes into a tensor of its own.
pub struct Nv12Preprocessor {
    input_shape: Nv12ImageShape,
    color_space: Nv12ColorSpace,
    config: ImagePreprocess,
    output: Tensor,
}

impl Nv12Preprocessor {
    /// The shape of the images that go in.
    pub closed spec fn shape(&self) -> Nv12ImageShape {
        self.input_shape
    }

    /// How the images are prepared.
    pub closed spec fn settings(&self) -> ImagePreprocess {
        self.config
    }

    /// The colour space of the planes.
    pub closed spec fn colors(&self) -> Nv12ColorSpace {
        self.color_space
    }

    /// The shape of what the images are prepared into.
    pub closed spec fn output_dims(&self) -> Seq<usize> {
        tensor_dims(self.output)
    }

    /// Where the images are prepared.
    pub closed spec fn place(&self) -> Location {
        tensor_location(self.output)
    }

    #[verifier::type_invariant]
    pub closed spec fn consistent(self) -> bool {
        &&& self.input_shape.complaint() is None
        &&& self.config.complaint() is None
        &&& value(self.output).dims == MediaOutputLayout::Latest.dims(
            self.input_shape.batch,
            self.config,
        )
        &&& value(self.output).element is F32
        &&& value(self.output).location is Cuda
    }

    /// The first thing wrong with what a preprocessor is made of.
    pub open spec fn complaint(
        shape: Nv12ImageShape,
        config: ImagePreprocess,
        location: Location,
    ) -> Option<Seq<char>> {
        let wrong = shape.complaint();
        if wrong is Some {
            wrong
        } else if config.complaint() is Some {
            config.complaint()
        } else {
            output_complaint(
                MediaOutputLayout::Latest.dims(shape.batch, config),
                location,
                "Nv12Preprocessor"@,
            )
        }
    }

    pub fn new(
        device: &Device,
        input_shape: Nv12ImageShape,
        color_space: Nv12ColorSpace,
        config: ImagePreprocess,
    ) -> (r: Result<Self>)
        ensures
            Self::complaint(input_shape, config, device_location(*device)) matches Some(text)
                ==> r is Err && r->Err_0.says(text),
            Self::complaint(input_shape, config, device_location(*device)) is None
                ==> (r matches Err(e) ==> e is Backend),
            r matches Ok(o) ==> o.shape() == input_shape && o.settings() == config
                && o.colors() == color_space
                && o.output_dims() == MediaOutputLayout::Latest.dims(input_shape.batch, config)
                && o.place() == device_location(*device),
    {
        input_shape.validate()?;
        config.validate()?;
        let sizes: [usize; 4] = [
            input_shape.batch,
            3,
            config.output_height,
            config.output_width,
        ];
        proof {
            assert(sizes@ =~= MediaOutputLayout::Latest.dims(input_shape.batch, config));
        }
        let output = blank_output(&sizes, device, "Nv12Preprocessor")?;
        Ok(Self { input_shape, color_space, config, output })
    }

    /// The tensor that images are prepared into. What it holds changes as kernels
    /// write it.
    pub fn output(&self) -> (r: &Tensor)
        ensures
            tensor_dims(*r) == self.output_dims(),
            tensor_element(*r) is F32,
            tensor_location(*r) == self.place(),
    {
        proof {
            use_type_invariant(self);
        }
        &self.output
    }

    pub fn input_shape(&self) -> (r: Nv12ImageShape)
        ensures
            r == self.shape(),
    {
        self.input_shape
    }

    pub fn config(&self) -> (r: ImagePreprocess)
        ensures
            r == self.settings(),
    {
        self.config
    }

    pub fn color_space(&self) -> (r: Nv12ColorSpace)
        ensures
            r == self.colors(),
    {
        self.color_space
    }

    /// What the kernel has to do to prepare the planes.
    pub fn preprocess_nv12(&self, y_plane: &Tensor, uv_plane: &Tensor) -> (r: Result<Nv12ToNchwF32>)
        ensures
            planes_complaint(value(*y_plane), value(*uv_plane), self.shape()) matches Some(text)
                ==> r is Err && r->Err_0.says(text),
            r is Ok <==> planes_complaint(value(*y_plane), value(*uv_plane), self.shape()) is None,
            r matches Ok(o) ==> o == (Nv12ToNchwF32 {
                input_shape: self.shape(),
                color_space: self.colors(),
                config: self.settings(),
                output_layout: MediaOutputLayout::Latest,
            }),
    {
        validate_nv12_tensors(y_plane, uv_plane, self.input_shape)?;
        Ok(Nv12ToNchwF32 {
            input_shape: self.input_shape,
            color_space: self.color_space,
            config: self.config,
            output_layout: MediaOutputLayout::Latest,
        })
    }
}

/// Prepares packed images into a tensor of its own.
pub struct ImagePreprocessor {
    input_shape: PackedImageShape,
    config: ImagePreprocess,
    output: Tensor,
}

impl ImagePreprocessor {
    /// The shape of the images that go in.
    pub closed spec fn shape(&self) -> PackedImageShape {
        self.input_shape
    }

    /// How the images are prepared.
    pub closed spec fn settings(&self) -> ImagePreprocess {
        self.config
    }

    /// The shape of what the images are prepared into.
    pub closed spec fn output_dims(&self) -> Seq<usize> {
        tensor_dims(self.output)
    }

    /// Where the images are prepared.
    pub closed spec fn place(&self) -> Location {
        tensor_location(self.output)
    }

    #[verifier::type_invariant]
    pub closed spec fn consistent(self) -> bool {
        &&& self.input_shape.filled()
        &&& self.config.complaint() is None
        &&& value(self.output).dims == MediaOutputLayout::Latest.dims(
            self.input_shape.batch,
            self.config,
        )
        &&& value(self.output).element is F32
        &&& value(self.output).location is Cuda
    }

    /// The first thing wrong with what a preprocessor is made of.
    pub open spec fn complaint(
        shape: PackedImageShape,
        config: ImagePreprocess,
        location: Location,
    ) -> Option<Seq<char>> {
        let wrong = (if shape.filled() {
            None
        } else {
            Some("packed CUDA image dimensions must be greater than zero"@)
        });
        if wrong is Some {
            wrong
        } else if config.complaint() is Some {
            config.complaint()
        } else {
            output_complaint(
                MediaOutputLayout::Latest.dims(shape.batch, config),
                location,
                "ImagePreprocessor"@,
            )
        }
    }

    pub fn new(
        device: &Device,
        input_shape: PackedImageShape,
        config: ImagePreprocess,
    ) -> (r: Result<Self>)
        ensures
            Self::complaint(input_shape, config, device_location(*device)) matches Some(text)
                ==> r is Err && r->Err_0.says(text),
            Self::complaint(input_shape, config, device_location(*device)) is None
                ==> (r matches Err(e) ==> e is Backend),
            r matches Ok(o) ==> o.shape() == input_shape && o.settings() == config
                && o.output_dims() == MediaOutputLayout::Latest.dims(input_shape.batch, config)
                && o.place() == device_location(*device),
    {
        input_shape.validate()?;
        config.validate()?;
        let sizes: [usize; 4] = [
            input_shape.batch,
            3,
            config.output_height,
            config.output_width,
        ];
        proof {
            assert(sizes@ =~= MediaOutputLayout::Latest.dims(input_shape.batch, config));
        }
        let output = blank_output(&sizes, device, "ImagePreprocessor")?;
        Ok(Self { input_shape, config, output })
    }

    /// The tensor that images are prepared into. What it holds changes as kernels
    /// write it.
    pub fn output(&self) -> (r: &Tensor)
        ensures
            tensor_dims(*r) == self.output_dims(),
            tensor_element(*r) is F32,
            tensor_location(*r) == self.place(),
    {
        proof {
            use_type_invariant(self);
        }
        &self.output
    }

    pub fn input_shape(&self) -> (r: PackedImageShape)
        ensures
            r == self.shape(),
    {
        self.input_shape
    }

    pub fn config(&self) -> (r: ImagePreprocess)
        ensures
            r == self.settings(),
    {
        self.config
    }

    /// What the kernel has to do to prepare the images.
    pub fn preprocess_packed_u8(&self, input: &Tensor) -> (r: Result<PackedU8ToNchwF32>)
        ensures
            packed_complaint(value(*input), self.shape()) matches Some(text) ==> r is Err
                && r->Err_0.says(text),
            r is Ok <==> packed_complaint(value(*input), self.shape()) is None,
            r matches Ok(o) ==> o == (PackedU8ToNchwF32 {
                input_shape: self.shape(),
                config: self.settings(),
                output_layout: MediaOutputLayout::Latest,
            }),
    {
        validate_input_tensor(input, self.input_shape)?;
        Ok(PackedU8ToNchwF32 {
            input_shape: self.input_shape,
            config: self.config,
            output_layout: MediaOutputLayout::Latest,
        })
    }
}

/// Prepares planes into one slot after another of a history.
pub struct Nv12HistoryPreprocessor {
    input_shape: Nv12ImageShape,
    color_space: Nv12ColorSpace,
    config: ImagePreprocess,
    history_len: usize,
    output: Tensor,
}

impl Nv12HistoryPreprocessor {
    /// The shape of the images that go in.
    pub closed spec fn shape(&self) -> Nv12ImageShape {
        self.input_shape
    }

    /// How the images are prepared.
    pub closed spec fn settings(&self) -> ImagePreprocess {
        self.config
    }

    /// The colour space of the planes.
    pub closed spec fn colors(&self) -> Nv12ColorSpace {
        self.color_space
    }

    /// The slots of the history.
    pub closed spec fn slots(&self) -> usize {
        self.history_len
    }

    /// The shape of what the images are prepared into.
    pub closed spec fn output_dims(&self) -> Seq<usize> {
        tensor_dims(self.output)
    }

    /// Where the images are prepared.
    pub closed spec fn place(&self) -> Location {
        tensor_location(self.output)
    }

    #[verifier::type_invariant]
    pub closed spec fn consistent(self) -> bool {
        &&& self.input_shape.complaint() is None
        &&& self.config.complaint() is None
        &&& value(self.output).dims == MediaOutputLayout::History {
            history_len: self.history_len,
            history_slot: 0,
        }.dims(
            self.input_shape.batch,
            self.config,
        )
        &&& value(self.output).element is F32
        &&& value(self.output).location is Cuda
        &&& self.history_len > 0
    }

    /// The first thing wrong with what a preprocessor is made of.
    pub open spec fn complaint(
        shape: Nv12ImageShape,
        config: ImagePreprocess,
        history_len: usize,
        location: Location,
    ) -> Option<Seq<char>> {
        let wrong = shape.complaint();
        if wrong is Some {
            wrong
        } else if config.complaint() is Some {
            config.complaint()
        } else if history_len == 0 {
            Some("CUDA NV12 history length must be greater than zero"@)
        } else {
            output_complaint(
                MediaOutputLayout::History { history_len, history_slot: 0 }.dims(shape.batch, config),
                location,
                "Nv12HistoryPreprocessor"@,
            )
        }
    }

    pub fn new(
        device: &Device,
        input_shape: Nv12ImageShape,
        color_space: Nv12ColorSpace,
        history_len: usize,
        config: ImagePreprocess,
    ) -> (r: Result<Self>)
        ensures
            Self::complaint(
                input_shape,
                config,
                history_len,
                device_location(*device),
            ) matches Some(text) ==> r is Err && r->Err_0.says(text),
            Self::complaint(input_shape, config, history_len, device_location(*device)) is None
                ==> (r matches Err(e) ==> e is Backend),
            r matches Ok(o) ==> o.shape() == input_shape && o.settings() == config
                && o.colors() == color_space && o.slots() == history_len
                && o.output_dims() == (MediaOutputLayout::History { history_len, history_slot: 0 }).dims(
                input_shape.batch,
                config,
            )
                && o.place() == device_location(*device),
    {
        input_shape.validate()?;
        config.validate()?;
        if history_len == 0 {
            return Err(message("CUDA NV12 history length must be greater than zero"));
        }
        let sizes: [usize; 5] = [
            input_shape.batch,
            history_len,
            3,
            config.output_height,
            config.output_width,
        ];
        proof {
            assert(sizes@ =~= MediaOutputLayout::History { history_len, history_slot: 0 }.dims(
                input_shape.batch,
                config,
            ));
        }
        let output = blank_output(&sizes, device, "Nv12HistoryPreprocessor")?;
        Ok(Self { input_shape, color_space, config, history_len, output })
    }

    /// The tensor that images are prepared into. What it holds changes as kernels
    /// write it.
    pub fn output(&self) -> (r: &Tensor)
        ensures
            tensor_dims(*r) == self.output_dims(),
            tensor_element(*r) is F32,
            tensor_location(*r) == self.place(),
    {
        proof {
            use_type_invariant(self);
        }
        &self.output
    }

    pub fn input_shape(&self) -> (r: Nv12ImageShape)
        ensures
            r == self.shape(),
    {
        self.input_shape
    }

    pub fn history_len(&self) -> (r: usize)
        ensures
            r == self.slots(),
    {
        self.history_len
    }

    pub fn config(&self) -> (r: ImagePreprocess)
        ensures
            r == self.settings(),
    {
        self.config
    }

    pub fn color_space(&self) -> (r: Nv12ColorSpace)
        ensures
            r == self.colors(),
    {
        self.color_space
    }

    /// What the kernel has to do to prepare the planes into a slot.
    pub fn preprocess_nv12_into_slot(
        &self,
        y_plane: &Tensor,
        uv_plane: &Tensor,
        history_slot: usize,
    ) -> (r: Result<Nv12ToNchwF32>)
        ensures
            planes_complaint(value(*y_plane), value(*uv_plane), self.shape()) matches Some(text)
                ==> r is Err && r->Err_0.says(text),
            planes_complaint(value(*y_plane), value(*uv_plane), self.shape()) is None
                && history_slot >= self.slots() ==> r is Err && r->Err_0.says(
                "CUDA NV12 history slot "@ + decimal(history_slot as nat)
                    + " is outside history_len "@
                    + decimal(self.slots() as nat),
            ),
            r is Ok <==> planes_complaint(value(*y_plane), value(*uv_plane), self.shape()) is None
                && history_slot < self.slots(),
            r matches Ok(o) ==> o == (Nv12ToNchwF32 {
                input_shape: self.shape(),
                color_space: self.colors(),
                config: self.settings(),
                output_layout: MediaOutputLayout::History {
                    history_len: self.slots(),
                    history_slot,
                },
            }),
    {
        validate_nv12_tensors(y_plane, uv_plane, self.input_shape)?;
        if history_slot >= self.history_len {
            return Err(slot_error("CUDA NV12 history slot ", history_slot, self.history_len));
        }
        Ok(Nv12ToNchwF32 {
            input_shape: self.input_shape,
            color_space: self.color_space,
            config: self.config,
            output_layout: MediaOutputLayout::History { history_len: self.history_len, history_slot },
        })
    }
}

/// Prepares packed images into one slot after another of a history.
pub struct ImageHistoryPreprocessor {
    input_shape: PackedImageShape,
    config: ImagePreprocess,
    history_len: usize,
    output: Tensor,
}

impl ImageHistoryPreprocessor {
    /// The shape of the images that go in.
    pub closed spec fn shape(&self) -> PackedImageShape {
        self.input_shape
    }

    /// How the images are prepared.
    pub closed spec fn settings(&self) -> ImagePreprocess {
        self.config
    }

    /// The slots of the history.
    pub closed spec fn slots(&self) -> usize {
        self.history_len
    }

    /// The shape of what the images are prepared into.
    pub closed spec fn output_dims(&self) -> Seq<usize> {
        tensor_dims(self.output)
    }

    /// Where the images are prepared.
    pub closed spec fn place(&self) -> Location {
        tensor_location(self.output)
    }

    #[verifier::type_invariant]
    pub closed spec fn consistent(self) -> bool {
        &&& self.input_shape.filled()
        &&& self.config.complaint() is None
        &&& value(self.output).dims == MediaOutputLayout::History {
            history_len: self.history_len,
            history_slot: 0,
        }.dims(
            self.input_shape.batch,
            self.config,
        )
        &&& value(self.output).element is F32
        &&& value(self.output).location is Cuda
        &&& self.history_len > 0
    }

    /// The first thing wrong with what a preprocessor is made of.
    pub open spec fn complaint(
        shape: PackedImageShape,
        config: ImagePreprocess,
        history_len: usize,
        location: Location,
    ) -> Option<Seq<char>> {
        let wrong = (if shape.filled() {
            None
        } else {
            Some("packed CUDA image dimensions must be greater than zero"@)
        });
        if wrong is Some {
            wrong
        } else if config.complaint() is Some {
            config.complaint()
        } else if history_len == 0 {
            Some("CUDA image history length must be greater than zero"@)
        } else {
            output_complaint(
                MediaOutputLayout::History { history_len, history_slot: 0 }.dims(shape.batch, config),
                location,
                "ImageHistoryPreprocessor"@,
            )
        }
    }

    pub fn new(
        device: &Device,
        input_shape: PackedImageShape,
        history_len: usize,
        config: ImagePreprocess,
    ) -> (r: Result<Self>)
        ensures
            Self::complaint(
                input_shape,
                config,
                history_len,
                device_location(*device),
            ) matches Some(text) ==> r is Err && r->Err_0.says(text),
            Self::complaint(input_shape, config, history_len, device_location(*device)) is None
                ==> (r matches Err(e) ==> e is Backend),
            r matches Ok(o) ==> o.shape() == input_shape && o.settings() == config
                && o.slots() == history_len
                && o.output_dims() == (MediaOutputLayout::History { history_len, history_slot: 0 }).dims(
                input_shape.batch,
                config,
            )
                && o.place() == device_location(*device),
    {
        input_shape.validate()?;
        config.validate()?;
        if history_len == 0 {
            return Err(message("CUDA image history length must be greater than zero"));
        }
        let sizes: [usize; 5] = [
            input_shape.batch,
            history_len,
            3,
            config.output_height,
            config.output_width,
        ];
        proof {
            assert(sizes@ =~= MediaOutputLayout::History { history_len, history_slot: 0 }.dims(
                input_shape.batch,
                config,
            ));
        }
        let output = blank_output(&sizes, device, "ImageHistoryPreprocessor")?;
        Ok(Self { input_shape, config, history_len, output })
    }

    /// The tensor that images are prepared into. What it holds changes as kernels
    /// write it.
    pub fn output(&self) -> (r: &Tensor)
        ensures
            tensor_dims(*r) == self.output_dims(),
            tensor_element(*r) is F32,
            tensor_location(*r) == self.place(),
    {
        proof {
            use_type_invariant(self);
        }
        &self.output
    }

    pub fn input_shape(&self) -> (r: PackedImageShape)
        ensures
            r == self.shape(),
    {
        self.input_shape
    }

    pub fn history_len(&self) -> (r: usize)
        ensures
            r == self.slots(),
    {
        self.history_len
    }

    pub fn config(&self) -> (r: ImagePreprocess)
        ensures
            r == self.settings(),
    {
        self.config
    }

    /// What the kernel has to do to prepare the images into a slot.
    pub fn preprocess_packed_u8_into_slot(
        &self,
        input: &Tensor,
        history_slot: usize,
    ) -> (r: Result<PackedU8ToNchwF32>)
        ensures
            packed_complaint(value(*input), self.shape()) matches Some(text) ==> r is Err
                && r->Err_0.says(text),
            packed_complaint(value(*input), self.shape()) is None && history_slot >= self.slots()
                ==> r is Err && r->Err_0.says(
                "CUDA image history slot "@ + decimal(history_slot as nat)
                    + " is outside history_len "@
                    + decimal(self.slots() as nat),
            ),
            r is Ok <==> packed_complaint(value(*input), self.shape()) is None
                && history_slot < self.slots(),
            r matches Ok(o) ==> o == (PackedU8ToNchwF32 {
                input_shape: self.shape(),
                config: self.settings(),
                output_layout: MediaOutputLayout::History {
                    history_len: self.slots(),
                    history_slot,
                },
            }),
    {
        validate_input_tensor(input, self.input_shape)?;
        if history_slot >= self.history_len {
            return Err(slot_error("CUDA image history slot ", history_slot, self.history_len));
        }
        Ok(PackedU8ToNchwF32 {
            input_shape: self.input_shape,
            config: self.config,
            output_layout: MediaOutputLayout::History { history_len: self.history_len, history_slot },
        })
    }
}

/// Images that a preprocessor accepts are refused by its kernel only where they
/// do not lie in one piece or do not fit in 32 bits: their shapes are right.
pub proof fn accepted_images_can_be_launched(
    op: PackedU8ToNchwF32,
    accepted: TensorValue,
    output: PlaneView,
    input: PlaneView,
)
    requires
        packed_complaint(accepted, op.input_shape) is None,
        input.dims@ == accepted.dims,
        input.element == accepted.element,
        input.contiguous,
        output.dims@ == op.output_layout.dims(op.input_shape.batch, op.config),
        output.element is F32,
        output.contiguous,
    ensures
        packed_launch_complaint(output, input, op.input_shape, op.config, op.output_layout) is None
            <==> launch_fits(
            op.input_shape.batch,
            op.input_shape.height,
            op.input_shape.width,
            op.input_shape.elements(),
            op.config,
            prepared_elements(op.input_shape.batch, op.config),
            op.output_layout,
        ),
{
}

/// Planes that a preprocessor accepts are refused by its kernel only where they
/// do not lie in one piece or do not fit in 32 bits: their shapes are right.
pub proof fn accepted_planes_can_be_launched(
    op: Nv12ToNchwF32,
    accepted: (TensorValue, TensorValue),
    output: PlaneView,
    planes: (PlaneView, PlaneView),
)
    requires
        planes_complaint(accepted.0, accepted.1, op.input_shape) is None,
        planes.0.dims@ == accepted.0.dims,
        planes.0.element == accepted.0.element,
        planes.0.contiguous,
        planes.1.dims@ == accepted.1.dims,
        planes.1.element == accepted.1.element,
        planes.1.contiguous,
        output.dims@ == op.output_layout.dims(op.input_shape.batch, op.config),
        output.element is F32,
        output.contiguous,
    ensures
        nv12_launch_complaint(
            output,
            planes.0,
            planes.1,
            op.input_shape,
            op.config,
            op.output_layout,
        ) is None <==> launch_fits(
            op.input_shape.batch,
            op.input_shape.height,
            op.input_shape.width,
            op.input_shape.y_bytes(),
            op.config,
            prepared_elements(op.input_shape.batch, op.config),
            op.output_layout,
        ),
{
}

} // verus!
