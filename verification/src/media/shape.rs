//! Shapes and formats of images in device memory, and how they are prepared.

use vstd::prelude::*;

use crate::error::{message, Result, SwmError};
use crate::scalar::F32;
use crate::text::{decimal, with_number, with_numbers};

verus! {

/// The shape of images whose channels stand side by side.
#[derive(Debug, Clone, Copy, PartialEq, Eq, Structural)]
pub struct PackedImageShape {
    pub batch: usize,
    pub height: usize,
    pub width: usize,
    pub format: PackedImageFormat,
}

impl PackedImageShape {
    pub fn new(batch: usize, height: usize, width: usize, format: PackedImageFormat) -> (r: Self)
        ensures
            r == (Self { batch, height, width, format }),
    {
        Self { batch, height, width, format }
    }

    /// The number of elements.
    pub open spec fn elements(self) -> int {
        self.batch * self.height * self.width * self.format.width()
    }

    /// The sizes of the axes.
    pub open spec fn dims(self) -> Seq<usize> {
        seq![self.batch, self.height, self.width, self.format.width()]
    }

    /// No size is zero.
    pub open spec fn filled(self) -> bool {
        self.batch > 0 && self.height > 0 && self.width > 0
    }

    pub fn channels(self) -> (r: usize)
        ensures
            r == self.format.width(),
    {
        self.format.channels()
    }

    /// The number of elements, if a machine integer can hold it.
    pub fn checked_elem_count(self) -> (r: Option<usize>)
        ensures
            r matches Some(n) ==> n == self.elements(),
            r is None ==> self.elements() > usize::MAX,
    {
        let channels: usize = self.format.channels();
        let ghost (b, h, w, c) = (
            self.batch as int,
            self.height as int,
            self.width as int,
            channels as int,
        );
        if self.batch == 0 || self.height == 0 || self.width == 0 {
            proof {
                assert(b * h * w * c == 0) by (nonlinear_arith)
                    requires
                        b == 0 || h == 0 || w == 0,
                ;
            }
            return Some(0);
        }
        proof {
            assert(b * h <= b * h * w && b * h * w <= b * h * w * c) by (nonlinear_arith)
                requires
                    b > 0,
                    h > 0,
                    w > 0,
                    c >= 3,
            ;
        }
        let n: usize = match self.batch.checked_mul(self.height) {
            Some(n) => n,
            None => {
                return None;
            },
        };
        let n: usize = match n.checked_mul(self.width) {
            Some(n) => n,
            None => {
                return None;
            },
        };
        n.checked_mul(channels)
    }

    /// The number of elements, which a machine integer must be able to hold.
    pub fn elem_count(self) -> (r: usize)
        requires
            self.elements() <= usize::MAX,
        ensures
            r == self.elements(),
    {
        match self.checked_elem_count() {
            Some(n) => n,
            None => 0,
        }
    }

    /// Whether no size is zero.
    pub fn validate(self) -> (r: Result<()>)
        ensures
            r is Ok <==> self.filled(),
            r matches Err(e) ==> e.says("packed CUDA image dimensions must be greater than zero"@),
    {
        if self.batch == 0 || self.height == 0 || self.width == 0 {
            return Err(message("packed CUDA image dimensions must be greater than zero"));
        }
        Ok(())
    }
}

/// The channels of a pixel and their order.
#[derive(Debug, Clone, Copy, PartialEq, Eq, Structural)]
pub enum PackedImageFormat {
    Rgb,
    Bgr,
    Rgba,
    Bgra,
}

impl PackedImageFormat {
    /// The number of channels.
    pub open spec fn width(self) -> usize {
        match self {
            PackedImageFormat::Rgb | PackedImageFormat::Bgr => 3,
            PackedImageFormat::Rgba | PackedImageFormat::Bgra => 4,
        }
    }

    /// The number that kernels and callers know the format by.
    pub open spec fn number(self) -> u32 {
        match self {
            PackedImageFormat::Rgb => 0,
            PackedImageFormat::Bgr => 1,
            PackedImageFormat::Rgba => 2,
            PackedImageFormat::Bgra => 3,
        }
    }

    /// What the format is called.
    pub open spec fn called(self) -> Seq<char> {
        match self {
            PackedImageFormat::Rgb => "Rgb"@,
            PackedImageFormat::Bgr => "Bgr"@,
            PackedImageFormat::Rgba => "Rgba"@,
            PackedImageFormat::Bgra => "Bgra"@,
        }
    }

    /// What the format is called.
    pub fn name(self) -> (r: &'static str)
        ensures
            r@ == self.called(),
    {
        match self {
            PackedImageFormat::Rgb => "Rgb",
            PackedImageFormat::Bgr => "Bgr",
            PackedImageFormat::Rgba => "Rgba",
            PackedImageFormat::Bgra => "Bgra",
        }
    }

    pub fn channels(self) -> (r: usize)
        ensures
            r == self.width(),
    {
        match self {
            PackedImageFormat::Rgb | PackedImageFormat::Bgr => 3,
            PackedImageFormat::Rgba | PackedImageFormat::Bgra => 4,
        }
    }

    pub fn kernel_id(self) -> (r: u32)
        ensures
            r == self.number(),
    {
        match self {
            PackedImageFormat::Rgb => 0,
            PackedImageFormat::Bgr => 1,
            PackedImageFormat::Rgba => 2,
            PackedImageFormat::Bgra => 3,
        }
    }

    /// The format of a number.
    pub fn try_from(value: u32) -> (r: Result<Self>)
        ensures
            r is Ok <==> value <= 3,
            r matches Ok(f) ==> f.number() == value,
            r matches Err(e) ==> e.says(
                "unknown packed CUDA image format "@ + decimal(value as nat)
                    + "; expected 0=RGB, 1=BGR, 2=RGBA, or 3=BGRA"@,
            ),
    {
        match value {
            0 => Ok(PackedImageFormat::Rgb),
            1 => Ok(PackedImageFormat::Bgr),
            2 => Ok(PackedImageFormat::Rgba),
            3 => Ok(PackedImageFormat::Bgra),
            other => Err(
                SwmError::Message(
                    with_number(
                        "unknown packed CUDA image format ",
                        other as usize,
                        "; expected 0=RGB, 1=BGR, 2=RGBA, or 3=BGRA",
                    ),
                ),
            ),
        }
    }
}

/// The shape of images in a plane of brightness and a plane of colour at half
/// the size.
#[derive(Debug, Clone, Copy, PartialEq, Eq, Structural)]
pub struct Nv12ImageShape {
    pub batch: usize,
    pub height: usize,
    pub width: usize,
}

impl Nv12ImageShape {
    pub fn new(batch: usize, height: usize, width: usize) -> (r: Self)
        ensures
            r == (Self { batch, height, width }),
    {
        Self { batch, height, width }
    }

    /// The sizes of the axes of the plane of brightness.
    pub open spec fn y_dims(self) -> Seq<usize> {
        seq![self.batch, self.height, self.width]
    }

    /// The sizes of the axes of the plane of colour.
    pub open spec fn uv_dims(self) -> Seq<usize> {
        seq![self.batch, (self.height / 2) as usize, (self.width / 2) as usize, 2usize]
    }

    /// The number of bytes of the plane of brightness.
    pub open spec fn y_bytes(self) -> int {
        self.batch * self.height * self.width
    }

    /// The number of bytes of the plane of colour.
    pub open spec fn uv_bytes(self) -> int {
        self.batch * (self.height / 2) * (self.width / 2) * 2
    }

    /// The first thing wrong with the shape.
    pub open spec fn complaint(self) -> Option<Seq<char>> {
        if self.batch == 0 || self.height == 0 || self.width == 0 {
            Some("NV12 CUDA image dimensions must be greater than zero"@)
        } else if self.height % 2 != 0 || self.width % 2 != 0 {
            Some(
                "NV12 CUDA image dimensions must be even, got "@ + decimal(self.height as nat)
                    + "x"@
                    + decimal(self.width as nat),
            )
        } else {
            None
        }
    }

    /// Whether the shape is valid.
    pub fn validate(self) -> (r: Result<()>)
        ensures
            r is Ok <==> self.complaint() is None,
            r matches Err(e) ==> e.says(self.complaint()->0),
    {
        if self.batch == 0 || self.height == 0 || self.width == 0 {
            return Err(message("NV12 CUDA image dimensions must be greater than zero"));
        }
        if self.height % 2 != 0 || self.width % 2 != 0 {
            let text = with_numbers(
                "NV12 CUDA image dimensions must be even, got ",
                self.height,
                "x",
                self.width,
                "",
            );
            proof {
                reveal_strlit("");
                assert(text@ =~= self.complaint()->0);
            }
            return Err(SwmError::Message(text));
        }
        Ok(())
    }
}

/// A valid pair of planes holds three bytes for every two pixels.
pub proof fn planes_hold_three_bytes_for_two_pixels(shape: Nv12ImageShape)
    requires
        shape.complaint() is None,
    ensures
        2 * (shape.y_bytes() + shape.uv_bytes()) == 3 * shape.y_bytes(),
{
    let (b, h, w) = (shape.batch as int, shape.height as int, shape.width as int);
    let (p, q) = (h / 2, w / 2);
    assert(h == 2 * p && w == 2 * q);
    assert(2 * (b * p * q * 2) == b * (2 * p) * (2 * q)) by (nonlinear_arith);
}

/// How colours are written as brightness and colour.
#[derive(Debug, Clone, Copy, PartialEq, Eq, Structural)]
pub enum Nv12ColorSpace {
    Bt601Video,
    Bt709Video,
    Bt601Full,
    Bt709Full,
}

impl Nv12ColorSpace {
    /// The number that kernels and callers know the colour space by.
    pub open spec fn number(self) -> u32 {
        match self {
            Nv12ColorSpace::Bt601Video => 0,
            Nv12ColorSpace::Bt709Video => 1,
            Nv12ColorSpace::Bt601Full => 2,
            Nv12ColorSpace::Bt709Full => 3,
        }
    }

    pub fn kernel_id(self) -> (r: u32)
        ensures
            r == self.number(),
    {
        match self {
            Nv12ColorSpace::Bt601Video => 0,
            Nv12ColorSpace::Bt709Video => 1,
            Nv12ColorSpace::Bt601Full => 2,
            Nv12ColorSpace::Bt709Full => 3,
        }
    }

    /// The colour space of a number.
    pub fn try_from(value: u32) -> (r: Result<Self>)
        ensures
            r is Ok <==> value <= 3,
            r matches Ok(f) ==> f.number() == value,
            r matches Err(e) ==> e.says(
                "unknown NV12 color space "@ + decimal(value as nat)
                    + "; expected 0=BT.601 video, 1=BT.709 video, 2=BT.601 full, or 3=BT.709 full"@,
            ),
    {
        match value {
            0 => Ok(Nv12ColorSpace::Bt601Video),
            1 => Ok(Nv12ColorSpace::Bt709Video),
            2 => Ok(Nv12ColorSpace::Bt601Full),
            3 => Ok(Nv12ColorSpace::Bt709Full),
            other => Err(
                SwmError::Message(
                    with_number(
                        "unknown NV12 color space ",
                        other as usize,
                        "; expected 0=BT.601 video, 1=BT.709 video, 2=BT.601 full, or 3=BT.709 full",
                    ),
                ),
            ),
        }
    }
}

/// No two formats and no two colour spaces share a number.
pub proof fn numbers_tell_formats_apart(
    f: PackedImageFormat,
    g: PackedImageFormat,
    s: Nv12ColorSpace,
    t: Nv12ColorSpace,
)
    ensures
        f.number() == g.number() <==> f == g,
        s.number() == t.number() <==> s == t,
{
}

/// How images are prepared.
#[derive(Debug, Clone, Copy, PartialEq)]
pub struct ImagePreprocess {
    pub output_height: usize,
    pub output_width: usize,
    pub mean: [F32; 3],
    pub std: [F32; 3],
}

/// Whether colours are normalised by the statistics of ImageNet: the means
/// 0.485, 0.456 and 0.406, and the deviations 0.229, 0.224 and 0.225.
pub open spec fn imagenet_statistics(p: ImagePreprocess) -> bool {
    &&& p.mean@ == seq![
        F32 { bits: 0x3ef8_51ec },
        F32 { bits: 0x3ee9_78d5 },
        F32 { bits: 0x3ecf_df3b },
    ]
    &&& p.std@ == seq![
        F32 { bits: 0x3e6a_7efa },
        F32 { bits: 0x3e65_6042 },
        F32 { bits: 0x3e66_6666 },
    ]
}

impl ImagePreprocess {
    /// Images of 224 pixels with the usual mean and deviation.
    pub fn imagenet_224() -> (r: Self)
        ensures
            r.output_height == 224,
            r.output_width == 224,
            imagenet_statistics(r),
    {
        Self {
            output_height: 224,
            output_width: 224,
            mean: [
                F32::from_bits(0x3ef8_51ec),
                F32::from_bits(0x3ee9_78d5),
                F32::from_bits(0x3ecf_df3b),
            ],
            std: [
                F32::from_bits(0x3e6a_7efa),
                F32::from_bits(0x3e65_6042),
                F32::from_bits(0x3e66_6666),
            ],
        }
    }

    /// The first thing wrong with the settings.
    pub open spec fn complaint(self) -> Option<Seq<char>> {
        if self.output_height == 0 || self.output_width == 0 {
            Some("CUDA preprocess output dimensions must be greater than zero"@)
        } else if exists|k: int| 0 <= k < 3 && (#[trigger] self.std@[k]).key() == 0 {
            Some("CUDA preprocess std values must be non-zero"@)
        } else {
            None
        }
    }

    /// Whether the settings are valid.
    pub fn validate(self) -> (r: Result<()>)
        ensures
            r is Ok <==> self.complaint() is None,
            r matches Err(e) ==> e.says(self.complaint()->0),
    {
        if self.output_height == 0 || self.output_width == 0 {
            return Err(message("CUDA preprocess output dimensions must be greater than zero"));
        }
        if self.std[0].order_key() == 0 || self.std[1].order_key() == 0 || self.std[2].order_key()
            == 0 {
            proof {
                if self.std@[0].key() == 0 {
                } else if self.std@[1].key() == 0 {
                } else {
                    assert(self.std@[2].key() == 0);
                }
            }
            return Err(message("CUDA preprocess std values must be non-zero"));
        }
        Ok(())
    }
}

} // verus!
