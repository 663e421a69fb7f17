//! The image encoder of the TD-MPC2 model.

use candle_core::Tensor;
use candle_nn::Conv2d;
use candle_nn::Linear;
use vstd::prelude::*;

use crate::error::{lift, message, Result, SwmError};
use crate::tensor::arithmetic::{is_mish, mish};
use crate::tensor::facts::{lemma_count_push, lemma_counts, lemma_full_count};
use crate::tensor::layers::{
    affine_stored, apply_conv2d, apply_linear, conv2d, conv2d_from, conv2d_home, conv2d_sizes,
    conv_places, from_file, full, held_as, is_conv2d, is_linear, linear, linear_from, linear_home,
    linear_sizes, linear_stored, ready, store_path, store_source, ParameterStore,
};
use crate::tensor::layout::{contiguous, dims, permute, permuted, reshape, share};
use crate::tensor::ranks::element_count;
use crate::tensor::value::{
    count, resident, tensor_dims, tensor_element, tensor_keys, tensor_location, value, ElementType,
    TensorValue,
};
use crate::text::{decimal, sizes_text, with_dims, with_numbers};

verus! {

/// The order of axes that brings channels before height and width.
pub open spec fn channels_first(rank: int) -> Seq<usize> {
    Seq::new(
        rank as nat,
        |k: int|
            if k < rank - 3 {
                k as usize
            } else if k == rank - 3 {
                (rank - 1) as usize
            } else {
                (k - 1) as usize
            },
    )
}

/// Images with channels first, whichever way they came.
pub open spec fn with_channels_first(x: TensorValue, r: TensorValue) -> bool {
    if x.dims.last() == 3 {
        permuted(x, channels_first(x.dims.len() as int), r)
    } else {
        r == x
    }
}

/// What is wrong with a shape for square images of this size.
pub open spec fn pixels_complaint(dims: Seq<usize>, image_size: usize) -> Option<Seq<char>> {
    let rank = dims.len() as int;
    let size = decimal(image_size as nat);
    if rank < 3 {
        Some("pixel encoder expects at least 3 dims, got "@ + sizes_text(dims))
    } else if dims[rank - 1] == 3 {
        if dims[rank - 3] != image_size || dims[rank - 2] != image_size {
            Some(
                "pixel encoder expects NHWC spatial size "@ + size + "x"@ + size + ", got "@
                    + sizes_text(dims),
            )
        } else {
            None
        }
    } else if dims[rank - 3] != 3 || dims[rank - 2] != image_size || dims[rank - 1] != image_size {
        Some(
            "pixel encoder expects NCHW or NHWC with 3 channels and spatial size "@ + size + "x"@
                + size + ", got "@ + sizes_text(dims),
        )
    } else {
        None
    }
}

/// Brings images to channels first.
pub fn pixels_to_nchw(xs: &Tensor, image_size: usize) -> (r: Result<Tensor>)
    ensures
        pixels_complaint(tensor_dims(*xs), image_size) matches Some(text) ==> r is Err
            && r->Err_0.says(text),
        pixels_complaint(tensor_dims(*xs), image_size) is None ==> (r matches Err(e)
            ==> e is Backend),
        pixels_complaint(tensor_dims(*xs), image_size) is None && (tensor_dims(*xs).last() != 3
            || resident(value(*xs))) ==> r is Ok,
        r matches Ok(o) ==> with_channels_first(value(*xs), value(o)) && tensor_dims(o)
            == tensor_dims(*xs).take(tensor_dims(*xs).len() - 3)
                + seq![3usize, image_size, image_size]
            && tensor_element(o) == tensor_element(*xs) && tensor_location(o) == tensor_location(
            *xs,
        ),
{
    let shape = dims(xs);
    let rank: usize = shape.len();
    if rank < 3 {
        return Err(
            SwmError::Message(
                with_dims("pixel encoder expects at least 3 dims, got ", shape.as_slice()),
            ),
        );
    }
    let ghost size = decimal(image_size as nat);
    if shape[rank - 1] == 3 {
        if shape[rank - 3] != image_size || shape[rank - 2] != image_size {
            let head = with_numbers(
                "pixel encoder expects NHWC spatial size ",
                image_size,
                "x",
                image_size,
                ", got ",
            );
            return Err(SwmError::Message(with_dims(head.as_str(), shape.as_slice())));
        }
        let mut order: Vec<usize> = Vec::new();
        let mut k: usize = 0;
        while k < rank - 3
            invariant
                rank >= 3,
                k <= rank - 3,
                order@ == channels_first(rank as int).take(k as int),
            decreases rank - 3 - k,
        {
            order.push(k);
            proof {
                assert(order@ =~= channels_first(rank as int).take(k + 1));
            }
            k = k + 1;
        }
        order.push(rank - 1);
        order.push(rank - 3);
        order.push(rank - 2);
        proof {
            assert(order@ =~= channels_first(rank as int));
        }
        let moved = lift(permute(xs, order))?;
        proof {
            assert(tensor_dims(moved) =~= shape@.take(rank - 3) + seq![
                3usize,
                image_size,
                image_size,
            ]);
        }
        return lift(contiguous(&moved));
    }
    if shape[rank - 3] != 3 || shape[rank - 2] != image_size || shape[rank - 1] != image_size {
        let head = with_numbers(
            "pixel encoder expects NCHW or NHWC with 3 channels and spatial size ",
            image_size,
            "x",
            image_size,
            ", got ",
        );
        return Err(SwmError::Message(with_dims(head.as_str(), shape.as_slice())));
    }
    proof {
        assert(shape@ =~= shape@.take(rank - 3) + seq![3usize, image_size, image_size]);
    }
    Ok(share(xs))
}

/// What is said of a side that is shorter than a kernel.
pub open spec fn kernel_complaint(side: int, kernel: int) -> Seq<char> {
    "image size "@ + decimal(side as nat) + " is too small for TD-MPC2 pixel CNN kernel "@
        + decimal(kernel as nat)
}

/// The side of an image after a convolution.
pub fn conv_out_size(size: usize, kernel: usize, stride: usize) -> (r: Result<usize>)
    requires
        kernel > 0,
        stride > 0,
    ensures
        r is Ok <==> size >= kernel,
        r matches Ok(n) ==> n == conv_places(size as int, kernel as int, stride as int) && 1 <= n
            <= size,
        r matches Err(e) ==> e.says(kernel_complaint(size as int, kernel as int)),
{
    if size < kernel {
        let text = with_numbers(
            "image size ",
            size,
            " is too small for TD-MPC2 pixel CNN kernel ",
            kernel,
            "",
        );
        proof {
            reveal_strlit("");
            assert(text@ =~= kernel_complaint(size as int, kernel as int));
        }
        return Err(SwmError::Message(text));
    }
    proof {
        let d = (size - kernel) as int;
        vstd::arithmetic::div_mod::lemma_div_is_ordered_by_denominator(d, 1, stride as int);
        vstd::arithmetic::div_mod::lemma_div_basics(d);
        vstd::arithmetic::div_mod::lemma_div_pos_is_pos(d, stride as int);
    }
    Ok((size - kernel) / stride + 1)
}

/// The sides of an image after each of the four convolutions.
pub open spec fn side1(image: int) -> int {
    conv_places(image, 7, 2)
}

pub open spec fn side2(image: int) -> int {
    conv_places(side1(image), 5, 2)
}

pub open spec fn side3(image: int) -> int {
    conv_places(side2(image), 3, 2)
}

pub open spec fn side4(image: int) -> int {
    conv_places(side3(image), 3, 1)
}

/// The width of the flattened image after the four convolutions.
pub open spec fn cnn_width(image: int) -> int {
    32 * side4(image) * side4(image)
}

/// What is wrong with an image size for the four convolutions.
pub open spec fn cnn_complaint(image: int) -> Option<Seq<char>> {
    if image < 7 {
        Some(kernel_complaint(image, 7))
    } else if side1(image) < 5 {
        Some(kernel_complaint(side1(image), 5))
    } else if side2(image) < 3 {
        Some(kernel_complaint(side2(image), 3))
    } else if side3(image) < 3 {
        Some(kernel_complaint(side3(image), 3))
    } else if 32 * side4(image) > usize::MAX || cnn_width(image) > usize::MAX {
        Some("image size is too large for TD-MPC2 pixel CNN"@)
    } else {
        None
    }
}

/// The width of the flattened image after the four convolutions.
pub fn cnn_out_dim(image_size: usize) -> (r: Result<usize>)
    ensures
        cnn_complaint(image_size as int) matches Some(text) ==> r is Err && r->Err_0.says(text),
        cnn_complaint(image_size as int) is None ==> r is Ok && r->Ok_0 == cnn_width(
            image_size as int,
        ),
{
    let size: usize = conv_out_size(image_size, 7, 2)?;
    let size: usize = conv_out_size(size, 5, 2)?;
    let size: usize = conv_out_size(size, 3, 2)?;
    let size: usize = conv_out_size(size, 3, 1)?;
    let row = match size.checked_mul(32) {
        Some(n) => n,
        None => {
            return Err(message("image size is too large for TD-MPC2 pixel CNN"));
        },
    };
    match row.checked_mul(size) {
        Some(n) => Ok(n),
        None => Err(message("image size is too large for TD-MPC2 pixel CNN")),
    }
}

/// Encodes square images.
#[derive(Debug, Clone)]
pub struct PixelEncoder {
    pub image_size: usize,
    pub output_dim: usize,
    pub conv1: Conv2d,
    pub conv2: Conv2d,
    pub conv3: Conv2d,
    pub conv4: Conv2d,
    pub proj: Linear,
}

impl PixelEncoder {
    pub open spec fn well_formed(self) -> bool {
        &&& cnn_complaint(self.image_size as int) is None
        &&& conv2d_sizes(self.conv1) == seq![3usize, 32, 7, 2]
        &&& conv2d_sizes(self.conv2) == seq![32usize, 32, 5, 2]
        &&& conv2d_sizes(self.conv3) == seq![32usize, 32, 3, 2]
        &&& conv2d_sizes(self.conv4) == seq![32usize, 32, 3, 1]
        &&& linear_sizes(self.proj) == seq![
            cnn_width(self.image_size as int) as usize,
            self.output_dim,
        ]
    }

    pub open spec fn loaded(self, source: int, path: Seq<Seq<char>>) -> bool {
        &&& conv2d_from(source, path.push("cnn"@).push("0"@), self.conv1)
        &&& conv2d_from(source, path.push("cnn"@).push("2"@), self.conv2)
        &&& conv2d_from(source, path.push("cnn"@).push("4"@), self.conv3)
        &&& conv2d_from(source, path.push("cnn"@).push("6"@), self.conv4)
        &&& linear_from(source, path.push("pixel_encoder"@), self.proj)
    }

    /// A convolution and its activation.
    pub open spec fn stage(conv: Conv2d, x: TensorValue, r: TensorValue) -> bool {
        exists|y: TensorValue| #[trigger] is_conv2d(conv, x, y) && is_mish(y, r)
    }

    /// What the encoder makes of a batch of images with channels first.
    pub open spec fn of_batch(self, x: TensorValue, r: TensorValue) -> bool {
        exists|a: TensorValue, b: TensorValue, c: TensorValue, d: TensorValue|
            #[trigger] Self::stage(self.conv1, x, a) && #[trigger] Self::stage(self.conv2, a, b)
                && #[trigger] Self::stage(self.conv3, b, c) && #[trigger] Self::stage(
                self.conv4,
                c,
                d,
            ) && is_linear(self.proj, flat_rows(d), r)
    }

    /// The parameters of the encoder have an element type in the memory of the
    /// processor.
    pub open spec fn home(self, e: ElementType) -> bool {
        &&& conv2d_home(self.conv1, e)
        &&& conv2d_home(self.conv2, e)
        &&& conv2d_home(self.conv3, e)
        &&& conv2d_home(self.conv4, e)
        &&& linear_home(self.proj, e)
    }

    /// Whether the encoder takes images on the processor.
    pub open spec fn takes(self, x: TensorValue) -> bool {
        ready(x) && !(x.element is BF16) && self.home(x.element)
    }

    /// What the encoder makes of images with any axes before channels, height
    /// and width.
    pub open spec fn of(self, x: TensorValue, r: TensorValue) -> bool {
        let leading = x.dims.take(x.dims.len() - 3);
        exists|first: TensorValue, rows: TensorValue|
            #[trigger] with_channels_first(x, first) && #[trigger] self.of_batch(
                as_batch(first),
                rows,
            ) && r == rows.shaped(leading.push(self.output_dim))
    }

    /// What is wrong with a shape for this encoder.
    pub open spec fn complaint(self, dims: Seq<usize>) -> Option<Seq<char>> {
        if pixels_complaint(dims, self.image_size) is Some {
            pixels_complaint(dims, self.image_size)
        } else if count(dims.take(dims.len() - 3)) > usize::MAX {
            Some("observation shape overflowed"@)
        } else {
            None
        }
    }

    /// Whether a parameter file has every parameter of the encoder.
    pub open spec fn stored(
        source: int,
        path: Seq<Seq<char>>,
        image_size: usize,
        output_dim: usize,
    ) -> bool {
        let cnn = path.push("cnn"@);
        &&& affine_stored(source, cnn.push("0"@), seq![32usize, 3, 7, 7], 32)
        &&& affine_stored(source, cnn.push("2"@), seq![32usize, 32, 5, 5], 32)
        &&& affine_stored(source, cnn.push("4"@), seq![32usize, 32, 3, 3], 32)
        &&& affine_stored(source, cnn.push("6"@), seq![32usize, 32, 3, 3], 32)
        &&& linear_stored(
            source,
            path.push("pixel_encoder"@),
            cnn_width(image_size as int) as usize,
            output_dim,
        )
    }

    pub fn new(image_size: usize, output_dim: usize, store: &ParameterStore) -> (r: Result<Self>)
        ensures
            r matches Ok(e) ==> e.well_formed() && e.image_size == image_size && e.output_dim
                == output_dim && e.loaded(store_source(*store), store_path(*store)),
            r matches Err(SwmError::Message(m)) ==> cnn_complaint(image_size as int) == Some(m@),
            cnn_complaint(image_size as int) is Some ==> r is Err,
            r matches Ok(l) ==> forall|e: ElementType| #[trigger]
                held_as(store_source(*store), e) ==> l.home(e),
            from_file(store_source(*store)) ==> (r is Ok <==> cnn_complaint(
                    image_size as int,
                ) is None && Self::stored(
                    store_source(*store),
                    store_path(*store),
                    image_size,
                    output_dim,
                )),
    {
        let cnn = store.pp("cnn");
        let conv1 = lift(conv2d(&cnn.pp("0"), 3, 32, 7, 2))?;
        let conv2 = lift(conv2d(&cnn.pp("2"), 32, 32, 5, 2))?;
        let conv3 = lift(conv2d(&cnn.pp("4"), 32, 32, 3, 2))?;
        let conv4 = lift(conv2d(&cnn.pp("6"), 32, 32, 3, 1))?;
        let width: usize = cnn_out_dim(image_size)?;
        let proj = lift(linear(&store.pp("pixel_encoder"), width, output_dim))?;
        Ok(Self { image_size, output_dim, conv1, conv2, conv3, conv4, proj })
    }

    pub fn forward(&self, xs: &Tensor) -> (r: Result<Tensor>)
        requires
            self.well_formed(),
        ensures
            pixels_complaint(tensor_dims(*xs), self.image_size) matches Some(text) ==> r is Err
                && r->Err_0.says(text),
            self.complaint(tensor_dims(*xs)) is Some ==> r is Err,
            r matches Err(SwmError::Message(m)) ==> self.complaint(tensor_dims(*xs)) == Some(m@),
            r matches Ok(o) ==> self.of(value(*xs), value(o)) && tensor_dims(o) == tensor_dims(
                *xs,
            ).take(tensor_dims(*xs).len() - 3).push(self.output_dim) && tensor_keys(o).len()
                == count(tensor_dims(o)) && tensor_element(o) == tensor_element(*xs)
                && tensor_location(o) == tensor_location(*xs),
            self.complaint(tensor_dims(*xs)) is None && self.takes(value(*xs)) ==> r is Ok,
    {
        let first = pixels_to_nchw(xs, self.image_size)?;
        let shape = dims(&first);
        let ghost s = self.image_size;
        let mut leading = shape.clone();
        let _ = leading.pop();
        let _ = leading.pop();
        let _ = leading.pop();
        let ghost lead = tensor_dims(*xs).take(tensor_dims(*xs).len() - 3);
        proof {
            assert(leading@ =~= lead);
        }
        let batch = match element_count(leading.as_slice()) {
            Some(n) => n,
            None => {
                return Err(message("observation shape overflowed"));
            },
        };
        let images: [usize; 4] = [batch, 3, self.image_size, self.image_size];
        proof {
            assert(images@ =~= seq![batch, 3usize, s, s]);
            lemma_counts(batch, 3, s, s);
            lemma_count_push(lead, 3);
            lemma_count_push(lead.push(3), s);
            lemma_count_push(lead.push(3).push(s), s);
            assert(lead.push(3).push(s).push(s) =~= lead + seq![3usize, s, s]);
            let (b, z) = (batch as int, s as int);
            assert(b * 3 * z * z == b * (3 * (z * z))) by (nonlinear_arith);
            if full(tensor_dims(*xs)) {
                assert(full(lead));
                lemma_full_count(lead);
            }
            assert(conv2d_sizes(self.conv1)[0] == 3);
            assert(conv2d_sizes(self.conv2)[0] == 32 && conv2d_sizes(self.conv1)[1] == 32);
            assert(conv2d_sizes(self.conv3)[0] == 32 && conv2d_sizes(self.conv2)[1] == 32);
            assert(conv2d_sizes(self.conv4)[0] == 32 && conv2d_sizes(self.conv3)[1] == 32);
        }
        let x = lift(reshape(&first, &images))?;
        let a = conv_stage(&self.conv1, &x)?;
        let b = conv_stage(&self.conv2, &a)?;
        let c = conv_stage(&self.conv3, &b)?;
        let d = conv_stage(&self.conv4, &c)?;
        let shape4 = dims(&d);
        let width: usize = cnn_out_dim(self.image_size)?;
        let flat: [usize; 2] = [batch, width];
        let ghost side = side4(s as int) as usize;
        proof {
            assert(shape4@ =~= seq![batch, 32usize, side, side]);
            assert(flat@ =~= seq![batch, width]);
            lemma_counts(batch, 32, side, side);
            lemma_counts(batch, width, 0, 0);
            let (n, z) = (batch as int, side as int);
            assert(32 * (z * z) == 32 * z * z) by (nonlinear_arith);
            assert(count(shape4@) == count(flat@));
            assert(32 * z * z > 0) by (nonlinear_arith)
                requires
                    z > 0,
            ;
            assert(linear_sizes(self.proj)[0] == width);
        }
        let rows = lift(reshape(&d, &flat))?;
        let y = lift(apply_linear(&self.proj, &rows))?;
        leading.push(self.output_dim);
        proof {
            assert(shape4@.take(1) =~= seq![batch]);
            assert(shape4@.skip(1) =~= seq![32usize, side, side]);
            lemma_counts(32, side, side, side);
            assert(value(rows) == flat_rows(value(d)));
            assert(shape@.take(shape@.len() - 3) =~= lead);
            assert(value(x).dims =~= as_batch(value(first)).dims);
            assert(value(x) == as_batch(value(first)));
            assert(self.of_batch(value(x), value(y)));
            assert(with_channels_first(value(*xs), value(first)));
            lemma_count_push(lead, self.output_dim);
            assert(tensor_dims(y) =~= seq![batch, self.output_dim]);
            lemma_counts(batch, self.output_dim, 0, 0);
        }
        lift(reshape(&y, leading.as_slice()))
    }
}

/// Images with all axes before channels, height and width as one.
pub open spec fn as_batch(x: TensorValue) -> TensorValue {
    let n = x.dims.len();
    x.shaped(
        seq![count(x.dims.take(n - 3)) as usize, x.dims[n - 3], x.dims[n - 2], x.dims[n - 1]],
    )
}

/// All axes after the first as one.
pub open spec fn flat_rows(x: TensorValue) -> TensorValue {
    x.shaped(seq![x.dims[0], count(x.dims.skip(1)) as usize])
}

/// Applies a convolution and its activation.
fn conv_stage(conv: &Conv2d, x: &Tensor) -> (r: Result<Tensor>)
    requires
        tensor_dims(*x).len() == 4,
        1 <= conv2d_sizes(*conv)[2] <= tensor_dims(*x)[2],
        conv2d_sizes(*conv)[2] <= tensor_dims(*x)[3],
        conv2d_sizes(*conv)[3] >= 1,
    ensures
        r matches Ok(o) ==> PixelEncoder::stage(*conv, value(*x), value(o)) && tensor_dims(o)
            == seq![
            tensor_dims(*x)[0],
            conv2d_sizes(*conv)[1],
            conv_places(
                tensor_dims(*x)[2] as int,
                conv2d_sizes(*conv)[2] as int,
                conv2d_sizes(*conv)[3] as int,
            ) as usize,
            conv_places(
                tensor_dims(*x)[3] as int,
                conv2d_sizes(*conv)[2] as int,
                conv2d_sizes(*conv)[3] as int,
            ) as usize,
        ] && tensor_keys(o).len() == count(tensor_dims(o))
            && tensor_element(o) == tensor_element(*x)
            && tensor_location(o) == tensor_location(*x),
        r matches Err(e) ==> e is Backend,
        ready(value(*x)) && !(tensor_element(*x) is BF16) && conv2d_home(*conv, tensor_element(*x))
            && tensor_dims(*x)[1] == conv2d_sizes(*conv)[0] ==> r is Ok,
{
    let y = lift(apply_conv2d(conv, x))?;
    let out = lift(mish(&y))?;
    proof {
        assert(is_conv2d(*conv, value(*x), value(y)));
    }
    Ok(out)
}

} // verus!
