//! What the kernels that prepare images are launched with.

use vstd::prelude::*;

use crate::error::{message, Result, SwmError};
use crate::media::shape::{ImagePreprocess, Nv12ColorSpace, Nv12ImageShape, PackedImageShape};
use crate::tensor::ranks::same_sizes;
use crate::tensor::value::ElementType;
use crate::text::{sizes_text, with_dims};

verus! {

/// Where prepared images go: into a tensor of their own, or into one slot of a
/// history.
#[derive(Debug, Clone, Copy, PartialEq, Eq, Structural)]
pub enum MediaOutputLayout {
    Latest,
    History { history_len: usize, history_slot: usize },
}

impl MediaOutputLayout {
    /// The sizes of the axes of the output.
    pub open spec fn dims(self, batch: usize, config: ImagePreprocess) -> Seq<usize> {
        match self {
            MediaOutputLayout::Latest => seq![
                batch,
                3usize,
                config.output_height,
                config.output_width,
            ],
            MediaOutputLayout::History { history_len, history_slot } => seq![
                batch,
                history_len,
                3usize,
                config.output_height,
                config.output_width,
            ],
        }
    }

    fn sizes(self, batch: usize, config: &ImagePreprocess) -> (r: Vec<usize>)
        ensures
            r@ == self.dims(batch, *config),
    {
        match self {
            MediaOutputLayout::Latest => {
                let r = vec![batch, 3, config.output_height, config.output_width];
                proof {
                    assert(r@ =~= self.dims(batch, *config));
                }
                r
            },
            MediaOutputLayout::History { history_len, history_slot } => {
                let r = vec![batch, history_len, 3, config.output_height, config.output_width];
                proof {
                    assert(r@ =~= self.dims(batch, *config));
                }
                r
            },
        }
    }
}

/// What a kernel sees of a tensor in device memory.
#[derive(Debug, Clone)]
pub struct PlaneView {
    pub element: ElementType,
    pub dims: Vec<usize>,
    pub contiguous: bool,
}

/// The three things that are said of a tensor with the wrong element type, shape
/// or storage.
pub struct PlaneNames {
    pub dtype: Seq<char>,
    pub shape: Seq<char>,
    pub name: Seq<char>,
}

impl PlaneView {
    /// The first thing wrong with a tensor that should have an element type and
    /// a shape and lie in one piece.
    pub open spec fn complaint(self, e: ElementType, dims: Seq<usize>, said: PlaneNames) -> Option<
        Seq<char>,
    > {
        if self.element != e {
            Some(said.dtype)
        } else if self.dims@ != dims {
            Some(
                said.shape + " shape mismatch: expected "@ + sizes_text(dims) + ", got "@
                    + sizes_text(self.dims@),
            )
        } else if !self.contiguous {
            Some(said.name + " must be contiguous"@)
        } else {
            None
        }
    }

    pub(crate) fn check(
        &self,
        e: ElementType,
        expected: &[usize],
        dtype: &str,
        name: &str,
    ) -> (r: Result<()>)
        ensures
            r is Ok <==> self.complaint(
                e,
                expected@,
                PlaneNames { dtype: dtype@, shape: name@, name: name@ },
            ) is None,
            r matches Err(err) ==> err.says(
                self.complaint(
                    e,
                    expected@,
                    PlaneNames { dtype: dtype@, shape: name@, name: name@ },
                )->0,
            ),
    {
        let ghost said = PlaneNames { dtype: dtype@, shape: name@, name: name@ };
        if self.element != e {
            return Err(message(dtype));
        }
        if !same_sizes(self.dims.as_slice(), expected) {
            let mut text = String::from_str(name);
            let middle = with_dims(" shape mismatch: expected ", expected);
            let tail = with_dims(", got ", self.dims.as_slice());
            text.append(middle.as_str());
            text.append(tail.as_str());
            proof {
                assert(text@ =~= self.complaint(e, expected@, said)->0);
            }
            return Err(SwmError::Message(text));
        }
        if !self.contiguous {
            let mut text = String::from_str(name);
            text.append(" must be contiguous");
            return Err(SwmError::Message(text));
        }
        Ok(())
    }
}

/// The first thing wrong with the output of the kernel for packed images.
pub open spec fn packed_output_complaint(
    output: PlaneView,
    shape: PackedImageShape,
    config: ImagePreprocess,
    layout: MediaOutputLayout,
) -> Option<Seq<char>> {
    output.complaint(
        ElementType::F32,
        layout.dims(shape.batch, config),
        PlaneNames {
            dtype: "CUDA media output tensor must use F32 dtype"@,
            shape: "CUDA media output"@,
            name: "CUDA media output"@,
        },
    )
}

/// The first thing wrong with the input of the kernel for packed images.
pub open spec fn packed_input_complaint(input: PlaneView, shape: PackedImageShape) -> Option<
    Seq<char>,
> {
    input.complaint(
        ElementType::U8,
        shape.dims(),
        PlaneNames {
            dtype: "CUDA media input tensor must use U8 dtype"@,
            shape: "CUDA media input"@,
            name: "CUDA media input"@,
        },
    )
}

/// Whether the output of the kernel for packed images is as it should be.
pub fn validate_output_layout(
    output: &PlaneView,
    shape: &PackedImageShape,
    config: &ImagePreprocess,
    layout: MediaOutputLayout,
) -> (r: Result<()>)
    ensures
        r is Ok <==> packed_output_complaint(*output, *shape, *config, layout) is None,
        r matches Err(e) ==> e.says(packed_output_complaint(*output, *shape, *config, layout)->0),
{
    let expected = layout.sizes(shape.batch, config);
    output.check(
        ElementType::F32,
        expected.as_slice(),
        "CUDA media output tensor must use F32 dtype",
        "CUDA media output",
    )
}

/// Whether the input of the kernel for packed images is as it should be.
pub fn validate_input_layout(input: &PlaneView, shape: &PackedImageShape) -> (r: Result<()>)
    ensures
        r is Ok <==> packed_input_complaint(*input, *shape) is None,
        r matches Err(e) ==> e.says(packed_input_complaint(*input, *shape)->0),
{
    let expected: [usize; 4] = [shape.batch, shape.height, shape.width, shape.channels()];
    proof {
        assert(expected@ =~= shape.dims());
    }
    input.check(
        ElementType::U8,
        &expected,
        "CUDA media input tensor must use U8 dtype",
        "CUDA media input",
    )
}

/// The first thing wrong with the output of the kernel for planes.
pub open spec fn nv12_output_complaint(
    output: PlaneView,
    shape: Nv12ImageShape,
    config: ImagePreprocess,
    layout: MediaOutputLayout,
) -> Option<Seq<char>> {
    output.complaint(
        ElementType::F32,
        layout.dims(shape.batch, config),
        PlaneNames {
            dtype: "CUDA NV12 output tensor must use F32 dtype"@,
            shape: "CUDA NV12 output"@,
            name: "CUDA NV12 output"@,
        },
    )
}

/// The first thing wrong with a plane of brightness.
pub open spec fn y_complaint(input: PlaneView, shape: Nv12ImageShape) -> Option<Seq<char>> {
    input.complaint(
        ElementType::U8,
        shape.y_dims(),
        PlaneNames {
            dtype: "CUDA NV12 Y plane must use U8 dtype"@,
            shape: "CUDA NV12 Y plane"@,
            name: "CUDA NV12 Y plane"@,
        },
    )
}

/// The first thing wrong with a plane of colour.
pub open spec fn uv_complaint(input: PlaneView, shape: Nv12ImageShape) -> Option<Seq<char>> {
    input.complaint(
        ElementType::U8,
        shape.uv_dims(),
        PlaneNames {
            dtype: "CUDA NV12 UV plane must use U8 dtype"@,
            shape: "CUDA NV12 UV plane"@,
            name: "CUDA NV12 UV plane"@,
        },
    )
}

/// Whether the output of the kernel for planes is as it should be.
pub fn validate_nv12_output_layout(
    output: &PlaneView,
    shape: &Nv12ImageShape,
    config: &ImagePreprocess,
    layout: MediaOutputLayout,
) -> (r: Result<()>)
    ensures
        r is Ok <==> nv12_output_complaint(*output, *shape, *config, layout) is None,
        r matches Err(e) ==> e.says(nv12_output_complaint(*output, *shape, *config, layout)->0),
{
    let expected = layout.sizes(shape.batch, config);
    output.check(
        ElementType::F32,
        expected.as_slice(),
        "CUDA NV12 output tensor must use F32 dtype",
        "CUDA NV12 output",
    )
}

/// Whether a plane of brightness is as it should be.
pub fn validate_nv12_y_layout(input: &PlaneView, shape: &Nv12ImageShape) -> (r: Result<()>)
    ensures
        r is Ok <==> y_complaint(*input, *shape) is None,
        r matches Err(e) ==> e.says(y_complaint(*input, *shape)->0),
{
    let expected: [usize; 3] = [shape.batch, shape.height, shape.width];
    proof {
        assert(expected@ =~= shape.y_dims());
    }
    input.check(
        ElementType::U8,
        &expected,
        "CUDA NV12 Y plane must use U8 dtype",
        "CUDA NV12 Y plane",
    )
}

/// Whether a plane of colour is as it should be.
pub fn validate_nv12_uv_layout(input: &PlaneView, shape: &Nv12ImageShape) -> (r: Result<()>)
    ensures
        r is Ok <==> uv_complaint(*input, *shape) is None,
        r matches Err(e) ==> e.says(uv_complaint(*input, *shape)->0),
{
    let expected: [usize; 4] = [shape.batch, shape.height / 2, shape.width / 2, 2];
    proof {
        assert(expected@ =~= shape.uv_dims());
    }
    input.check(
        ElementType::U8,
        &expected,
        "CUDA NV12 UV plane must use U8 dtype",
        "CUDA NV12 UV plane",
    )
}

/// The integer arguments that both kernels take.
#[derive(Debug, Clone, Copy, PartialEq, Eq, Structural)]
pub struct KernelLaunch {
    /// How many threads have work.
    pub items: u32,
    pub batch: u32,
    pub in_h: u32,
    pub in_w: u32,
    /// The bytes of a pixel of the input.
    pub channels: u32,
    pub out_h: u32,
    pub out_w: u32,
    /// The number of the format or of the colour space.
    pub encoding: u32,
    /// Zero where the output is no history.
    pub history_len: u32,
    pub history_slot: u32,
}

/// The length of the history of an output, or zero.
pub open spec fn launch_history(layout: MediaOutputLayout) -> (int, int) {
    match layout {
        MediaOutputLayout::Latest => (0, 0),
        MediaOutputLayout::History { history_len, history_slot } => (
            history_len as int,
            history_slot as int,
        ),
    }
}

/// Whether every size and every index that a kernel forms fits in 32 bits, for
/// an input and an output of so many elements.
pub open spec fn launch_fits(
    batch: usize,
    in_h: usize,
    in_w: usize,
    input: int,
    config: ImagePreprocess,
    output: int,
    layout: MediaOutputLayout,
) -> bool {
    &&& batch <= u32::MAX
    &&& in_h <= u32::MAX
    &&& in_w <= u32::MAX
    &&& config.output_height <= u32::MAX
    &&& config.output_width <= u32::MAX
    &&& launch_history(layout).0 <= u32::MAX
    &&& launch_history(layout).1 <= u32::MAX
    &&& input <= u32::MAX
    &&& output <= u32::MAX
    &&& layout matches MediaOutputLayout::History { history_len, history_slot } ==> output
        * history_len <= u32::MAX
}

/// The elements of prepared images, without the slots of a history.
pub open spec fn prepared_elements(batch: usize, config: ImagePreprocess) -> int {
    batch * 3 * config.output_height * config.output_width
}

fn to_u32(n: usize) -> (r: Option<u32>)
    ensures
        n <= u32::MAX ==> r == Some(n as u32),
        n > u32::MAX ==> r is None,
{
    if n <= u32::MAX as usize {
        Some(n as u32)
    } else {
        None
    }
}

fn product(a: u32, b: u32, c: u32, d: u32) -> (r: Option<u32>)
    ensures
        r matches Some(n) ==> n == a * b * c * d,
        r is None ==> a * b * c * d > u32::MAX,
{
    let ghost (x, y, z, w) = (a as int, b as int, c as int, d as int);
    if a == 0 || b == 0 || c == 0 || d == 0 {
        proof {
            assert(x * y * z * w == 0) by (nonlinear_arith)
                requires
                    x == 0 || y == 0 || z == 0 || w == 0,
            ;
        }
        return Some(0);
    }
    proof {
        assert(x * y <= x * y * z && x * y * z <= x * y * z * w) by (nonlinear_arith)
            requires
                x > 0,
                y > 0,
                z > 0,
                w > 0,
        ;
    }
    let n: u32 = match a.checked_mul(b) {
        Some(n) => n,
        None => {
            return None;
        },
    };
    let n: u32 = match n.checked_mul(c) {
        Some(n) => n,
        None => {
            return None;
        },
    };
    n.checked_mul(d)
}

/// The arguments of a kernel, where all of them fit in 32 bits.
fn launch_with(
    batch: usize,
    in_h: usize,
    in_w: usize,
    channels: u32,
    planes: u32,
    encoding: u32,
    config: &ImagePreprocess,
    layout: MediaOutputLayout,
) -> (r: Option<KernelLaunch>)
    requires
        1 <= planes <= 3,
    ensures
        r is Some <==> launch_fits(
            batch,
            in_h,
            in_w,
            batch * in_h * in_w * channels,
            *config,
            prepared_elements(batch, *config),
            layout,
        ),
        r matches Some(k) ==> k == (KernelLaunch {
            items: (batch * planes * config.output_height * config.output_width) as u32,
            batch: batch as u32,
            in_h: in_h as u32,
            in_w: in_w as u32,
            channels,
            out_h: config.output_height as u32,
            out_w: config.output_width as u32,
            encoding,
            history_len: launch_history(layout).0 as u32,
            history_slot: launch_history(layout).1 as u32,
        }) && k.items == batch * planes * config.output_height * config.output_width,
{
    let b: u32 = to_u32(batch)?;
    let h: u32 = to_u32(in_h)?;
    let w: u32 = to_u32(in_w)?;
    let oh: u32 = to_u32(config.output_height)?;
    let ow: u32 = to_u32(config.output_width)?;
    let (len, slot) = match layout {
        MediaOutputLayout::Latest => (0, 0),
        MediaOutputLayout::History { history_len, history_slot } => (
            to_u32(history_len)?,
            to_u32(history_slot)?,
        ),
    };
    let input: u32 = product(b, h, w, channels)?;
    let output: u32 = product(b, 3, oh, ow)?;
    proof {
        let (x, p, y, z) = (b as int, planes as int, oh as int, ow as int);
        assert(x * p * y * z <= x * 3 * y * z) by (nonlinear_arith)
            requires
                x >= 0,
                1 <= p <= 3,
                y >= 0,
                z >= 0,
        ;
    }
    match layout {
        MediaOutputLayout::Latest => {},
        MediaOutputLayout::History { history_len, history_slot } => {
            if output.checked_mul(len).is_none() {
                return None;
            }
        },
    }
    let items: u32 = product(b, planes, oh, ow)?;
    Some(
        KernelLaunch {
            items,
            batch: b,
            in_h: h,
            in_w: w,
            channels,
            out_h: oh,
            out_w: ow,
            encoding,
            history_len: len,
            history_slot: slot,
        },
    )
}

/// The first thing wrong with a launch of the kernel for packed images.
pub open spec fn packed_launch_complaint(
    output: PlaneView,
    input: PlaneView,
    shape: PackedImageShape,
    config: ImagePreprocess,
    layout: MediaOutputLayout,
) -> Option<Seq<char>> {
    if packed_output_complaint(output, shape, config, layout) is Some {
        packed_output_complaint(output, shape, config, layout)
    } else if packed_input_complaint(input, shape) is Some {
        packed_input_complaint(input, shape)
    } else if !launch_fits(
        shape.batch,
        shape.height,
        shape.width,
        shape.elements(),
        config,
        prepared_elements(shape.batch, config),
        layout,
    ) {
        Some("CUDA media launch exceeds the 32-bit index range"@)
    } else {
        None
    }
}

/// What the kernel for packed images is launched with: a thread for each
/// element of the prepared images.
pub fn packed_launch(
    output: &PlaneView,
    input: &PlaneView,
    shape: &PackedImageShape,
    config: &ImagePreprocess,
    layout: MediaOutputLayout,
) -> (r: Result<KernelLaunch>)
    ensures
        packed_launch_complaint(*output, *input, *shape, *config, layout) matches Some(text)
            ==> r is Err && r->Err_0.says(text),
        packed_launch_complaint(*output, *input, *shape, *config, layout) is None ==> r is Ok,
        r matches Ok(k) ==> k == (KernelLaunch {
            items: prepared_elements(shape.batch, *config) as u32,
            batch: shape.batch as u32,
            in_h: shape.height as u32,
            in_w: shape.width as u32,
            channels: shape.format.width() as u32,
            out_h: config.output_height as u32,
            out_w: config.output_width as u32,
            encoding: shape.format.number(),
            history_len: launch_history(layout).0 as u32,
            history_slot: launch_history(layout).1 as u32,
        }) && k.items == prepared_elements(shape.batch, *config),
{
    validate_output_layout(output, shape, config, layout)?;
    validate_input_layout(input, shape)?;
    let channels: usize = shape.channels();
    match launch_with(
        shape.batch,
        shape.height,
        shape.width,
        channels as u32,
        3,
        shape.format.kernel_id(),
        config,
        layout,
    ) {
        Some(k) => Ok(k),
        None => Err(message("CUDA media launch exceeds the 32-bit index range")),
    }
}

/// The first thing wrong with a launch of the kernel for planes.
pub open spec fn nv12_launch_complaint(
    output: PlaneView,
    y: PlaneView,
    uv: PlaneView,
    shape: Nv12ImageShape,
    config: ImagePreprocess,
    layout: MediaOutputLayout,
) -> Option<Seq<char>> {
    if nv12_output_complaint(output, shape, config, layout) is Some {
        nv12_output_complaint(output, shape, config, layout)
    } else if y_complaint(y, shape) is Some {
        y_complaint(y, shape)
    } else if uv_complaint(uv, shape) is Some {
        uv_complaint(uv, shape)
    } else if !launch_fits(
        shape.batch,
        shape.height,
        shape.width,
        shape.y_bytes(),
        config,
        prepared_elements(shape.batch, config),
        layout,
    ) {
        Some("CUDA NV12 launch exceeds the 32-bit index range"@)
    } else {
        None
    }
}

/// What the kernel for planes is launched with: a thread for each pixel of the
/// prepared images.
pub fn nv12_launch(
    output: &PlaneView,
    y: &PlaneView,
    uv: &PlaneView,
    shape: &Nv12ImageShape,
    color_space: Nv12ColorSpace,
    config: &ImagePreprocess,
    layout: MediaOutputLayout,
) -> (r: Result<KernelLaunch>)
    ensures
        nv12_launch_complaint(*output, *y, *uv, *shape, *config, layout) matches Some(text)
            ==> r is Err && r->Err_0.says(text),
        nv12_launch_complaint(*output, *y, *uv, *shape, *config, layout) is None ==> r is Ok,
        r matches Ok(k) ==> k == (KernelLaunch {
            items: (shape.batch * config.output_height * config.output_width) as u32,
            batch: shape.batch as u32,
            in_h: shape.height as u32,
            in_w: shape.width as u32,
            channels: 1,
            out_h: config.output_height as u32,
            out_w: config.output_width as u32,
            encoding: color_space.number(),
            history_len: launch_history(layout).0 as u32,
            history_slot: launch_history(layout).1 as u32,
        }) && k.items == shape.batch * config.output_height * config.output_width,
{
    validate_nv12_output_layout(output, shape, config, layout)?;
    validate_nv12_y_layout(y, shape)?;
    validate_nv12_uv_layout(uv, shape)?;
    proof {
        vstd::arithmetic::mul::lemma_mul_basics(shape.batch as int);
        vstd::arithmetic::mul::lemma_mul_basics(shape.y_bytes());
    }
    match launch_with(
        shape.batch,
        shape.height,
        shape.width,
        1,
        1,
        color_space.kernel_id(),
        config,
        layout,
    ) {
        Some(k) => Ok(k),
        None => Err(message("CUDA NV12 launch exceeds the 32-bit index range")),
    }
}

} // verus!
