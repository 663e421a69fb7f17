//! Pictures that a device decodes into packed images.

use candle_core::Device;
use candle_core::Tensor;
use vstd::prelude::*;

use crate::error::{lift, message, Result, SwmError};
use crate::media::launch::{PlaneNames, PlaneView};
use crate::media::shape::{PackedImageFormat, PackedImageShape};
use crate::media::tensors::{is_cuda, is_room};
use crate::tensor::facts::lemma_counts;
use crate::tensor::layout::{device_of, dims, dtype, dtype_of, element};
use crate::tensor::make::zeros;
use crate::tensor::ranks::{element_count, same_sizes};
use crate::tensor::value::{device_location, value, ElementType, TensorValue};
use crate::text::{
    decimal, decimal_text, signed_decimal, signed_text, sizes_text, with_dims, with_numbers,
};

verus! {

/// What a picture holds.
#[derive(Debug, Clone, Copy, PartialEq, Eq, Structural)]
pub struct NvJpegImageInfo {
    pub width: usize,
    pub height: usize,
    pub components: usize,
    /// The number of the chroma subsampling.
    pub subsampling: i32,
}

/// A decoded picture.
#[derive(Debug)]
pub struct NvJpegDecodedImage {
    pub tensor: Tensor,
    pub shape: PackedImageShape,
}

impl NvJpegImageInfo {
    /// The shape of the packed images that a picture is decoded into.
    pub open spec fn packed(self) -> PackedImageShape {
        PackedImageShape {
            batch: 1,
            height: self.height,
            width: self.width,
            format: PackedImageFormat::Rgb,
        }
    }

    pub fn packed_rgb_shape(self) -> (r: PackedImageShape)
        ensures
            r == self.packed(),
    {
        PackedImageShape::new(1, self.height, self.width, PackedImageFormat::Rgb)
    }

    /// The bytes of a row of a decoded picture, if a machine integer can hold
    /// them.
    pub fn pitch(self) -> (r: Option<usize>)
        ensures
            r matches Some(n) ==> n == self.width * 3,
            r is None ==> self.width * 3 > usize::MAX,
    {
        self.width.checked_mul(3)
    }
}

/// What is said of a status of the decoder library.
pub open spec fn status_said(status: u32) -> Seq<char> {
    match status {
        1 => "not initialized"@,
        2 => "invalid parameter"@,
        3 => "bad jpeg"@,
        4 => "jpeg not supported"@,
        5 => "allocator failure"@,
        6 => "execution failed"@,
        7 => "arch mismatch"@,
        8 => "internal error"@,
        9 => "implementation not supported"@,
        10 => "incomplete bitstream"@,
        _ => "unknown"@,
    }
}

/// What is said of a status of the decoder library.
pub fn status_name(status: u32) -> (r: &'static str)
    ensures
        r@ == status_said(status),
{
    match status {
        1 => "not initialized",
        2 => "invalid parameter",
        3 => "bad jpeg",
        4 => "jpeg not supported",
        5 => "allocator failure",
        6 => "execution failed",
        7 => "arch mismatch",
        8 => "internal error",
        9 => "implementation not supported",
        10 => "incomplete bitstream",
        _ => "unknown",
    }
}

/// What is said of a call that the decoder library failed.
pub open spec fn jpeg_complaint(status: u32, context: Seq<char>) -> Option<Seq<char>> {
    if status == 0 {
        None
    } else {
        Some(
            context + " failed with nvJPEG status "@ + decimal(status as nat) + " ("@ + status_said(
                status,
            ) + ")"@,
        )
    }
}

/// Whether a call to the decoder library succeeded.
pub fn check_nvjpeg(status: u32, context: &str) -> (r: Result<()>)
    ensures
        r is Ok <==> jpeg_complaint(status, context@) is None,
        r matches Err(e) ==> e.says(jpeg_complaint(status, context@)->0),
{
    if status == 0 {
        return Ok(());
    }
    let mut text = String::from_str(context);
    text.append(" failed with nvJPEG status ");
    text.append(decimal_text(status as u64).as_str());
    text.append(" (");
    text.append(status_name(status));
    text.append(")");
    Err(SwmError::Message(text))
}

/// Whether there is anything to decode.
pub fn require_encoded(encoded: &[u8]) -> (r: Result<()>)
    ensures
        r is Ok <==> encoded@.len() > 0,
        r matches Err(e) ==> e.says("encoded JPEG buffer is empty"@),
{
    if encoded.len() == 0 {
        return Err(message("encoded JPEG buffer is empty"));
    }
    Ok(())
}

/// What the decoder library says of a picture.
#[derive(Debug, Clone, Copy, PartialEq, Eq, Structural)]
pub struct JpegAnswer {
    pub status: u32,
    pub components: i32,
    pub subsampling: i32,
    /// The width and the height of the first component.
    pub width: i32,
    pub height: i32,
}

/// The first thing wrong with what the decoder library says of a picture.
pub open spec fn answer_complaint(answer: JpegAnswer) -> Option<Seq<char>> {
    if jpeg_complaint(answer.status, "nvjpegGetImageInfo"@) is Some {
        jpeg_complaint(answer.status, "nvjpegGetImageInfo"@)
    } else if answer.width <= 0 || answer.height <= 0 {
        Some(
            "nvJPEG returned invalid image dimensions "@ + signed_decimal(answer.width as int)
                + "x"@ + signed_decimal(answer.height as int),
        )
    } else {
        None
    }
}

/// What a picture holds, from what the decoder library says of it.
pub fn image_info(answer: JpegAnswer) -> (r: Result<NvJpegImageInfo>)
    ensures
        r is Ok <==> answer_complaint(answer) is None,
        r matches Err(e) ==> e.says(answer_complaint(answer)->0),
        r matches Ok(o) ==> o == (NvJpegImageInfo {
            width: answer.width as usize,
            height: answer.height as usize,
            components: answer.components as usize,
            subsampling: answer.subsampling,
        }) && o.width > 0 && o.height > 0,
{
    check_nvjpeg(answer.status, "nvjpegGetImageInfo")?;
    if answer.width <= 0 || answer.height <= 0 {
        let mut text = String::from_str("nvJPEG returned invalid image dimensions ");
        text.append(signed_text(answer.width as i64).as_str());
        text.append("x");
        text.append(signed_text(answer.height as i64).as_str());
        return Err(SwmError::Message(text));
    }
    Ok(
        NvJpegImageInfo {
            width: answer.width as usize,
            height: answer.height as usize,
            components: answer.components as usize,
            subsampling: answer.subsampling,
        },
    )
}

/// What is said of a picture without width or height.
pub open spec fn info_complaint(info: NvJpegImageInfo) -> Option<Seq<char>> {
    if info.width == 0 || info.height == 0 {
        Some(
            "nvJPEG image dimensions must be greater than zero, got "@ + decimal(info.width as nat)
                + "x"@ + decimal(info.height as nat),
        )
    } else {
        None
    }
}

/// Whether a picture has width and height.
pub fn validate_info(info: NvJpegImageInfo) -> (r: Result<()>)
    ensures
        r is Ok <==> info_complaint(info) is None,
        r matches Err(e) ==> e.says(info_complaint(info)->0),
{
    if info.width == 0 || info.height == 0 {
        let text = with_numbers(
            "nvJPEG image dimensions must be greater than zero, got ",
            info.width,
            "x",
            info.height,
            "",
        );
        proof {
            reveal_strlit("");
            assert(text@ =~= info_complaint(info)->0);
        }
        return Err(SwmError::Message(text));
    }
    Ok(())
}

/// The first thing wrong with room for a picture.
pub open spec fn room_complaint(info: NvJpegImageInfo) -> Option<Seq<char>> {
    if info_complaint(info) is Some {
        info_complaint(info)
    } else if info.packed().elements() > usize::MAX {
        Some("nvJPEG image shape overflowed"@)
    } else {
        None
    }
}

/// Room for a decoded picture. What it holds changes as a picture is decoded into it.
pub fn alloc_rgb_interleaved(info: NvJpegImageInfo, device: &Device) -> (r: Result<Tensor>)
    ensures
        room_complaint(info) matches Some(text) ==> r is Err && r->Err_0.says(text),
        room_complaint(info) is None ==> (r matches Err(e) ==> e is Backend),
        r matches Ok(o) ==> is_room(o, info.packed().dims(), *device),
        room_complaint(info) is None && device_location(*device) is Cpu ==> r is Ok,
{
    validate_info(info)?;
    let sizes: [usize; 4] = [1, info.height, info.width, 3];
    proof {
        assert(sizes@ =~= info.packed().dims());
        lemma_counts(1, info.height, info.width, 3);
        let (h, w) = (info.height as int, info.width as int);
        assert(1 * (h * (w * 3)) == 1 * h * w * 3) by (nonlinear_arith);
    }
    if element_count(&sizes).is_none() {
        return Err(message("nvJPEG image shape overflowed"));
    }
    lift(zeros(&sizes, dtype_of(ElementType::U8), device))
}

/// The first thing wrong with room that a picture should be decoded into.
pub open spec fn rgb_output_complaint(output: TensorValue, info: NvJpegImageInfo) -> Option<
    Seq<char>,
> {
    if !(output.location is Cuda) {
        Some("nvJPEG output tensor must live on a CUDA Candle device"@)
    } else if !(output.element is U8) {
        Some("nvJPEG output tensor must use U8 dtype"@)
    } else if output.dims != info.packed().dims() {
        Some(
            "nvJPEG output shape mismatch: expected "@ + sizes_text(info.packed().dims())
                + ", got "@ + sizes_text(output.dims),
        )
    } else {
        None
    }
}

fn shape_text(expected: &[usize], got: &[usize]) -> (r: String)
    ensures
        r@ == "nvJPEG output shape mismatch: expected "@ + sizes_text(expected@) + ", got "@
            + sizes_text(got@),
{
    let mut text = with_dims("nvJPEG output shape mismatch: expected ", expected);
    let tail = with_dims(", got ", got);
    text.append(tail.as_str());
    proof {
        assert(text@ =~= "nvJPEG output shape mismatch: expected "@ + sizes_text(expected@)
            + ", got "@ + sizes_text(got@));
    }
    text
}

/// Whether a picture can be decoded into a tensor.
pub fn validate_rgb_output(output: &Tensor, info: NvJpegImageInfo) -> (r: Result<()>)
    ensures
        r is Ok <==> rgb_output_complaint(value(*output), info) is None,
        r matches Err(e) ==> e.says(rgb_output_complaint(value(*output), info)->0),
{
    if !is_cuda(device_of(output)) {
        return Err(message("nvJPEG output tensor must live on a CUDA Candle device"));
    }
    if element(dtype(output)) != ElementType::U8 {
        return Err(message("nvJPEG output tensor must use U8 dtype"));
    }
    let expected: [usize; 4] = [1, info.height, info.width, 3];
    proof {
        assert(expected@ =~= info.packed().dims());
    }
    let got = dims(output);
    if !same_sizes(got.as_slice(), &expected) {
        return Err(SwmError::Message(shape_text(&expected, got.as_slice())));
    }
    Ok(())
}

/// The first thing wrong with the storage that the decoder library writes to.
pub open spec fn decode_complaint(output: PlaneView, info: NvJpegImageInfo) -> Option<Seq<char>> {
    let wrong = output.complaint(
        ElementType::U8,
        info.packed().dims(),
        PlaneNames {
            dtype: "nvJPEG output tensor must use U8 dtype"@,
            shape: "nvJPEG output"@,
            name: "nvJPEG output"@,
        },
    );
    if wrong is Some {
        wrong
    } else if info.width * 3 > usize::MAX {
        Some("nvJPEG image shape overflowed"@)
    } else {
        None
    }
}

/// The bytes of a row of the storage that the decoder library writes to.
pub fn decode_pitch(output: &PlaneView, info: NvJpegImageInfo) -> (r: Result<usize>)
    ensures
        r is Ok <==> decode_complaint(*output, info) is None,
        r matches Err(e) ==> e.says(decode_complaint(*output, info)->0),
        r matches Ok(n) ==> n == info.width * 3,
{
    let expected: [usize; 4] = [1, info.height, info.width, 3];
    proof {
        assert(expected@ =~= info.packed().dims());
    }
    output.check(
        ElementType::U8,
        &expected,
        "nvJPEG output tensor must use U8 dtype",
        "nvJPEG output",
    )?;
    match info.pitch() {
        Some(n) => Ok(n),
        None => Err(message("nvJPEG image shape overflowed")),
    }
}

/// How a shape of packed images is written in messages.
pub open spec fn packed_said(shape: PackedImageShape) -> Seq<char> {
    "PackedImageShape { batch: "@ + decimal(shape.batch as nat) + ", height: "@ + decimal(
        shape.height as nat,
    ) + ", width: "@ + decimal(shape.width as nat) + ", format: "@ + shape.format.called() + " }"@
}

fn packed_text(shape: PackedImageShape) -> (r: String)
    ensures
        r@ == packed_said(shape),
{
    let mut text = String::from_str("PackedImageShape { batch: ");
    text.append(decimal_text(shape.batch as u64).as_str());
    text.append(", height: ");
    text.append(decimal_text(shape.height as u64).as_str());
    text.append(", width: ");
    text.append(decimal_text(shape.width as u64).as_str());
    text.append(", format: ");
    text.append(shape.format.name());
    text.append(" }");
    text
}

/// Whether a preprocessor takes decoded pictures of this shape.
pub fn require_preprocessor_shape(info: NvJpegImageInfo, shape: PackedImageShape) -> (r: Result<()>)
    ensures
        r is Ok <==> shape == info.packed(),
        r matches Err(e) ==> e.says(
            "preprocessor input shape mismatch: expected "@ + packed_said(info.packed())
                + ", got "@ + packed_said(shape),
        ),
{
    let expected = info.packed_rgb_shape();
    if shape != expected {
        let mut text = String::from_str("preprocessor input shape mismatch: expected ");
        text.append(packed_text(expected).as_str());
        text.append(", got ");
        text.append(packed_text(shape).as_str());
        return Err(SwmError::Message(text));
    }
    Ok(())
}

/// A picture is decoded into room that was made for it.
pub proof fn room_for_a_picture_takes_it(info: NvJpegImageInfo, room: TensorValue)
    requires
        room.dims == info.packed().dims(),
        room.element is U8,
        room.location is Cuda,
    ensures
        rgb_output_complaint(room, info) is None,
{
}

} // verus!
