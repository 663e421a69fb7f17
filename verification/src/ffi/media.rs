//! Images, planes and decoders behind the C interface.

use candle_core::Device;
use candle_core::Tensor;
use vstd::prelude::*;

use crate::ffi::settings::{equal_numbers, same_numbers};
use crate::ffi::status::{backend_failed, carry, failed_saying, FfiError, FfiResult, SwmStatus};
use crate::media::nvdec::{NvDecCaps, NvDecCodec, NvDecDecoderConfig, NvDecSurfaceFormat};
use crate::media::preprocessor::{ImagePreprocessor, Nv12Preprocessor};
use crate::media::shape::{
    ImagePreprocess, Nv12ColorSpace, Nv12ImageShape, PackedImageFormat, PackedImageShape,
};
use crate::media::tensors::{
    is_room, nv12_tensors, packed_alloc_complaint, packed_complaint, packed_u8_tensor,
    planes_alloc_complaint, planes_complaint,
};
use crate::tensor::value::{
    device_location, tensor_dims, tensor_element, tensor_location, value, Location,
};
use crate::text::decimal;

verus! {

/// A truth as a number.
pub open spec fn flag(value: bool) -> i32 {
    if value {
        1
    } else {
        0
    }
}

/// A truth as a number.
pub fn c_flag(value: bool) -> (r: i32)
    ensures
        r == flag(value),
{
    if value {
        1
    } else {
        0
    }
}

/// What a device can decode, as it goes over the C interface.
#[derive(Debug, Clone, Copy, Default, PartialEq, Eq, Structural)]
pub struct SwmNvDecCaps {
    pub supported: i32,
    pub nvdec_count: usize,
    pub min_width: usize,
    pub min_height: usize,
    pub max_width: usize,
    pub max_height: usize,
    pub max_macroblock_count: usize,
    pub output_format_mask: u32,
    pub supports_nv12: i32,
    pub supports_p016: i32,
    pub supports_yuv444: i32,
    pub supports_yuv444_16bit: i32,
    pub histogram_supported: i32,
    pub histogram_counter_bit_depth: usize,
    pub max_histogram_bins: usize,
}

impl SwmNvDecCaps {
    /// What is told of a device.
    pub fn told(caps: NvDecCaps) -> (r: Self)
        ensures
            r == (SwmNvDecCaps {
                supported: flag(caps.supported),
                nvdec_count: caps.nvdec_count,
                min_width: caps.min_width,
                min_height: caps.min_height,
                max_width: caps.max_width,
                max_height: caps.max_height,
                max_macroblock_count: caps.max_macroblock_count,
                output_format_mask: caps.output_format_mask,
                supports_nv12: flag(caps.offers(NvDecSurfaceFormat::Nv12)),
                supports_p016: flag(caps.offers(NvDecSurfaceFormat::P016)),
                supports_yuv444: flag(caps.offers(NvDecSurfaceFormat::Yuv444)),
                supports_yuv444_16bit: flag(caps.offers(NvDecSurfaceFormat::Yuv44416Bit)),
                histogram_supported: flag(caps.histogram_supported),
                histogram_counter_bit_depth: caps.histogram_counter_bit_depth,
                max_histogram_bins: caps.max_histogram_bins,
            }),
    {
        SwmNvDecCaps {
            supported: c_flag(caps.supported),
            nvdec_count: caps.nvdec_count,
            min_width: caps.min_width,
            min_height: caps.min_height,
            max_width: caps.max_width,
            max_height: caps.max_height,
            max_macroblock_count: caps.max_macroblock_count,
            output_format_mask: caps.output_format_mask,
            supports_nv12: c_flag(caps.supports(NvDecSurfaceFormat::Nv12)),
            supports_p016: c_flag(caps.supports(NvDecSurfaceFormat::P016)),
            supports_yuv444: c_flag(caps.supports(NvDecSurfaceFormat::Yuv444)),
            supports_yuv444_16bit: c_flag(caps.supports(NvDecSurfaceFormat::Yuv44416Bit)),
            histogram_supported: c_flag(caps.histogram_supported),
            histogram_counter_bit_depth: caps.histogram_counter_bit_depth,
            max_histogram_bins: caps.max_histogram_bins,
        }
    }
}

/// What is said of a codec that there is not.
pub open spec fn codec_text(codec: u32) -> Seq<char> {
    "unknown NVDECODE codec "@ + decimal(codec as nat)
        + "; expected 0=H264, 1=HEVC, 2=AV1, or 3=VP9"@
}

/// What is said of a colour space that there is not.
pub open spec fn colors_text(color_space: u32) -> Seq<char> {
    "unknown NV12 color space "@ + decimal(color_space as nat)
        + "; expected 0=BT.601 video, 1=BT.709 video, 2=BT.601 full, or 3=BT.709 full"@
}

/// What is said of a format of packed images that there is not.
pub open spec fn format_text(format: u32) -> Seq<char> {
    "unknown packed CUDA image format "@ + decimal(format as nat)
        + "; expected 0=RGB, 1=BGR, 2=RGBA, or 3=BGRA"@
}

/// The codec that a number of the C interface stands for. A negative number
/// stands for none.
pub fn codec_from_ffi(codec: i32) -> (r: FfiResult<NvDecCodec>)
    ensures
        (codec as u32) < 4 ==> r is Ok && r->Ok_0.id() == codec as u32,
        (codec as u32) >= 4 ==> r is Err && r->Err_0.is(
            SwmStatus::RuntimeError,
            codec_text(codec as u32),
        ),
{
    carry(NvDecCodec::try_from(codec as u32))
}

/// The decoder that a caller asks for.
pub fn decoder_config_from_ffi(
    codec: i32,
    width: usize,
    height: usize,
    decode_surfaces: usize,
    output_surfaces: usize,
) -> (r: FfiResult<NvDecDecoderConfig>)
    ensures
        (codec as u32) < 4 <==> r is Ok,
        r matches Err(e) ==> e.is(SwmStatus::RuntimeError, codec_text(codec as u32)),
        r matches Ok(c) ==> c.codec.id() == codec as u32 && c == (NvDecDecoderConfig {
            codec: c.codec,
            width,
            height,
            decode_surfaces,
            output_surfaces,
        }),
{
    let codec = codec_from_ffi(codec)?;
    let mut config = NvDecDecoderConfig::new(codec, width, height);
    config.decode_surfaces = decode_surfaces;
    config.output_surfaces = output_surfaces;
    Ok(config)
}

/// The colour space that a number of the C interface stands for. A negative
/// number stands for none.
pub fn color_space_from_ffi(color_space: i32) -> (r: FfiResult<Nv12ColorSpace>)
    ensures
        (color_space as u32) < 4 <==> r is Ok,
        r matches Err(e) ==> e.is(SwmStatus::RuntimeError, colors_text(color_space as u32)),
        r matches Ok(c) ==> c.number() == color_space as u32,
{
    carry(Nv12ColorSpace::try_from(color_space as u32))
}

/// Packed images that a caller fills.
pub struct SwmCudaImage {
    pub tensor: Tensor,
    pub shape: PackedImageShape,
}

impl SwmCudaImage {
    /// The tensor has the shape, and a row of it can be counted.
    pub open spec fn well_formed(self) -> bool {
        &&& tensor_dims(self.tensor) == self.shape.dims()
        &&& self.shape.width * self.shape.format.width() <= usize::MAX
    }

    /// Room for packed images. What it holds changes as the caller fills it.
    pub fn with_room(device: &Device, batch: usize, height: usize, width: usize, format: i32) -> (r:
        FfiResult<Self>)
        ensures
            (format as u32) >= 4 ==> r is Err && r->Err_0.is(
                SwmStatus::RuntimeError,
                format_text(format as u32),
            ),
            (format as u32) < 4 ==> (r matches Err(e) ==> backend_failed(e) || exists|
                f: PackedImageFormat,
            |
                #[trigger] f.number() == format as u32 && failed_saying(
                    e,
                    packed_alloc_complaint(
                        PackedImageShape { batch, height, width, format: f },
                        device_location(*device),
                        "packed_u8_tensor"@,
                    ),
                )),
            forall|f: PackedImageFormat| #[trigger]
                f.number() == format as u32 ==> packed_alloc_complaint(
                    PackedImageShape { batch, height, width, format: f },
                    device_location(*device),
                    "packed_u8_tensor"@,
                ) is Some ==> r is Err && r->Err_0.message@ == packed_alloc_complaint(
                    PackedImageShape { batch, height, width, format: f },
                    device_location(*device),
                    "packed_u8_tensor"@,
                )->0,
            r matches Ok(o) ==> o.well_formed() && o.shape.format.number() == format as u32
                && o.shape == (PackedImageShape { batch, height, width, format: o.shape.format })
                && tensor_element(o.tensor) is U8 && tensor_location(o.tensor) == device_location(
                *device,
            ),
    {
        let format = carry(PackedImageFormat::try_from(format as u32))?;
        let shape = PackedImageShape::new(batch, height, width, format);
        let tensor = carry(packed_u8_tensor(shape, device))?;
        proof {
            let (b, h, w, c) = (
                batch as int,
                height as int,
                width as int,
                format.width() as int,
            );
            assert(w * c <= b * h * w * c) by (nonlinear_arith)
                requires
                    b > 0,
                    h > 0,
                    w > 0,
                    c > 0,
            ;
        }
        Ok(Self { tensor, shape })
    }

    /// The bytes of a row.
    pub fn pitch_bytes(&self) -> (r: usize)
        requires
            self.well_formed(),
        ensures
            r == self.shape.width * self.shape.format.width(),
    {
        self.shape.width * self.shape.channels()
    }
}

/// Planes that a caller fills.
pub struct SwmCudaNv12 {
    pub y_plane: Tensor,
    pub uv_plane: Tensor,
    pub shape: Nv12ImageShape,
}

impl SwmCudaNv12 {
    /// Room for planes. What it holds changes as the caller fills it.
    pub fn with_room(
        device: &Device,
        batch: usize,
        height: usize,
        width: usize,
    ) -> (r: FfiResult<Self>)
        ensures
            r matches Err(e) ==> backend_failed(e) || failed_saying(
                e,
                planes_alloc_complaint(
                    Nv12ImageShape { batch, height, width },
                    device_location(*device),
                    "nv12_tensors"@,
                ),
            ),
            planes_alloc_complaint(
                Nv12ImageShape { batch, height, width },
                device_location(*device),
                "nv12_tensors"@,
            ) matches Some(text) ==> r is Err && r->Err_0.message@ == text,
            r matches Ok(o) ==> o.shape == (Nv12ImageShape { batch, height, width })
                && is_room(o.y_plane, o.shape.y_dims(), *device) && is_room(
                o.uv_plane,
                o.shape.uv_dims(),
                *device,
            ),
    {
        let shape = Nv12ImageShape::new(batch, height, width);
        let (y_plane, uv_plane) = carry(nv12_tensors(shape, device))?;
        Ok(Self { y_plane, uv_plane, shape })
    }

    /// The bytes of a row of either plane.
    pub fn pitch_bytes(&self) -> (r: usize)
        ensures
            r == self.shape.width,
    {
        self.shape.width
    }
}

/// A row of colour has as many bytes as a row of brightness: half the pixels with
/// two bytes each.
pub proof fn planes_share_a_pitch(shape: Nv12ImageShape)
    requires
        shape.complaint() is None,
    ensures
        shape.uv_dims()[2] * shape.uv_dims()[3] == shape.y_dims()[2],
{
    let half = shape.uv_dims()[2] as int;
    assert(half * shape.uv_dims()[3] == half * 2);
}

/// Two ways to prepare images are the same.
pub open spec fn same_preparation(a: ImagePreprocess, b: ImagePreprocess) -> bool {
    &&& a.output_height == b.output_height
    &&& a.output_width == b.output_width
    &&& equal_numbers(a.mean@, b.mean@)
    &&& equal_numbers(a.std@, b.std@)
}

fn prepares_alike(a: &ImagePreprocess, b: &ImagePreprocess) -> (r: bool)
    ensures
        r == same_preparation(*a, *b),
{
    a.output_height == b.output_height && a.output_width == b.output_width && same_numbers(
        &a.mean,
        &b.mean,
    ) && same_numbers(&a.std, &b.std)
}

/// Whether a kept preprocessor does what is asked for.
pub open spec fn packed_serves(
    kept: Option<ImagePreprocessor>,
    shape: PackedImageShape,
    config: ImagePreprocess,
) -> bool {
    kept matches Some(p) && p.shape() == shape && same_preparation(p.settings(), config)
}

/// Makes sure that a preprocessor for packed images is kept. One that does what
/// is asked for stays, with its output.
pub fn cached_packed_preprocessor(
    cache: &mut Option<ImagePreprocessor>,
    device: &Device,
    shape: PackedImageShape,
    config: ImagePreprocess,
) -> (r: FfiResult<()>)
    ensures
        packed_serves(*old(cache), shape, config) ==> r is Ok && *final(cache) == *old(cache),
        r matches Err(e) ==> *final(cache) == *old(cache) && (backend_failed(e) || failed_saying(
            e,
            ImagePreprocessor::complaint(shape, config, device_location(*device)),
        )),
        !packed_serves(*old(cache), shape, config) && r is Ok ==> *final(cache) is Some
            && final(cache)->0.shape() == shape && final(cache)->0.settings() == config
            && final(cache)->0.place() == device_location(*device),
        !packed_serves(*old(cache), shape, config) ==> (ImagePreprocessor::complaint(
            shape,
            config,
            device_location(*device),
        ) matches Some(text) ==> r is Err && r->Err_0.message@ == text),
{
    let kept = match cache {
        Some(p) => p.input_shape() == shape && prepares_alike(&p.config(), &config),
        None => false,
    };
    if !kept {
        let fresh = carry(ImagePreprocessor::new(device, shape, config))?;
        *cache = Some(fresh);
    }
    Ok(())
}

/// Whether a kept preprocessor does what is asked for.
pub open spec fn nv12_serves(
    kept: Option<Nv12Preprocessor>,
    shape: Nv12ImageShape,
    color_space: Nv12ColorSpace,
    config: ImagePreprocess,
) -> bool {
    kept matches Some(p) && p.shape() == shape && p.colors() == color_space && same_preparation(
        p.settings(),
        config,
    )
}

/// Makes sure that a preprocessor for planes is kept. One that does what is asked
/// for stays, with its output.
pub fn cached_nv12_preprocessor(
    cache: &mut Option<Nv12Preprocessor>,
    device: &Device,
    shape: Nv12ImageShape,
    color_space: Nv12ColorSpace,
    config: ImagePreprocess,
) -> (r: FfiResult<()>)
    ensures
        nv12_serves(*old(cache), shape, color_space, config) ==> r is Ok
            && *final(cache) == *old(cache),
        r matches Err(e) ==> *final(cache) == *old(cache) && (backend_failed(e) || failed_saying(
            e,
            Nv12Preprocessor::complaint(shape, config, device_location(*device)),
        )),
        !nv12_serves(*old(cache), shape, color_space, config) && r is Ok ==> *final(cache) is Some
            && final(cache)->0.shape() == shape && final(cache)->0.colors() == color_space
            && final(cache)->0.settings() == config && final(cache)->0.place()
            == device_location(*device),
        !nv12_serves(*old(cache), shape, color_space, config) ==> (Nv12Preprocessor::complaint(
            shape,
            config,
            device_location(*device),
        ) matches Some(text) ==> r is Err && r->Err_0.message@ == text),
{
    let kept = match cache {
        Some(p) => p.input_shape() == shape && p.color_space() == color_space && prepares_alike(
            &p.config(),
            &config,
        ),
        None => false,
    };
    if !kept {
        let fresh = carry(Nv12Preprocessor::new(device, shape, color_space, config))?;
        *cache = Some(fresh);
    }
    Ok(())
}

/// How preparing images in a way and at a place fails: the preprocessor cannot be
/// made, or the images do not fit it.
pub open spec fn image_refused(
    image: SwmCudaImage,
    config: ImagePreprocess,
    location: Location,
    e: FfiError,
) -> bool {
    ||| backend_failed(e)
    ||| failed_saying(e, ImagePreprocessor::complaint(image.shape, config, location))
    ||| failed_saying(e, packed_complaint(value(image.tensor), image.shape))
}

/// How preparing planes in a way and at a place fails: there is no such colour
/// space, the preprocessor cannot be made, or the planes do not fit it.
pub open spec fn planes_refused(
    nv12: SwmCudaNv12,
    color_space: i32,
    config: ImagePreprocess,
    location: Location,
    e: FfiError,
) -> bool {
    if (color_space as u32) >= 4 {
        e.is(SwmStatus::RuntimeError, colors_text(color_space as u32))
    } else {
        ||| backend_failed(e)
        ||| failed_saying(e, Nv12Preprocessor::complaint(nv12.shape, config, location))
        ||| failed_saying(
            e,
            planes_complaint(value(nv12.y_plane), value(nv12.uv_plane), nv12.shape),
        )
    }
}

} // verus!
