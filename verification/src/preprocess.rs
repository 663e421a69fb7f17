//! Preparing raw frames, states and actions.

use candle_core::DType;
use candle_core::Device;
use candle_core::Tensor;
use vstd::arithmetic::div_mod::{lemma_mod_bound, lemma_multiply_divide_lt};
use vstd::prelude::*;

use crate::error::{lift, message, Result, SwmError};
use crate::scalar::{nan_key, F32, F32_INFINITY};
use crate::session::tdmpc2::place;
use crate::tensor::arithmetic::{difference_of, divide, quotient_of, subtract};
use crate::tensor::facts::{lemma_counts, lemma_five};
use crate::tensor::layout::{
    broadcast_as, cast_of, dims, dtype_of, narrow, narrowed, placed, share, squeeze, to_dtype,
};
use crate::tensor::make::{cpu, from_f32, from_u8};
use crate::tensor::value::{
    count, device_location, dtype_element, plain, resident, spread, spreads, tensor_dims,
    tensor_element, tensor_location, value, ElementType, Location, TensorValue,
};
use crate::text::{decimal, with_number, with_numbers};

verus! {

/// The bits of 255.0 in single precision.
pub const FULL: u32 = 0x437f_0000;

/// The shape of frames of three bytes for each pixel.
#[derive(Debug, Clone, Copy, PartialEq)]
pub struct RgbFrameShape {
    pub batch: usize,
    pub time: usize,
    pub height: usize,
    pub width: usize,
}

impl RgbFrameShape {
    /// The number of bytes.
    pub open spec fn bytes(self) -> int {
        self.batch * self.time * self.height * self.width * 3
    }

    /// No size is zero.
    pub open spec fn filled(self) -> bool {
        self.batch > 0 && self.time > 0 && self.height > 0 && self.width > 0
    }

    /// The shape as it is written in messages.
    pub open spec fn written(self) -> Seq<char> {
        "RgbFrameShape { batch: "@ + decimal(self.batch as nat) + ", time: "@ + decimal(
            self.time as nat,
        ) + ", height: "@ + decimal(self.height as nat) + ", width: "@ + decimal(self.width as nat)
            + " }"@
    }

    /// Whether no size is zero.
    pub fn validate(&self) -> (r: Result<()>)
        ensures
            r is Ok <==> self.filled(),
            r matches Err(e) ==> e.says(
                "RGB frame shape dimensions must all be greater than zero"@,
            ),
    {
        if self.batch == 0 || self.time == 0 || self.height == 0 || self.width == 0 {
            return Err(message("RGB frame shape dimensions must all be greater than zero"));
        }
        Ok(())
    }

    /// The number of bytes, if a machine integer can hold it.
    pub fn input_len(&self) -> (r: Option<usize>)
        requires
            self.filled(),
        ensures
            r matches Some(n) ==> n == self.bytes(),
            r is None ==> self.bytes() > usize::MAX,
    {
        let (b, t, h, w) = (self.batch, self.time, self.height, self.width);
        let ghost (x, y, p, q) = (b as int, t as int, h as int, w as int);
        proof {
            assert(x * y <= x * y * p && x * y * p <= x * y * p * q
                && x * y * p * q <= x * y * p * q
                * 3 && 0 < x * y) by (nonlinear_arith)
                requires
                    x > 0,
                    y > 0,
                    p > 0,
                    q > 0,
            ;
        }
        let n: usize = match b.checked_mul(t) {
            Some(n) => n,
            None => {
                return None;
            },
        };
        let n: usize = match n.checked_mul(h) {
            Some(n) => n,
            None => {
                return None;
            },
        };
        let n: usize = match n.checked_mul(w) {
            Some(n) => n,
            None => {
                return None;
            },
        };
        n.checked_mul(3)
    }

    fn write(&self) -> (r: String)
        ensures
            r@ == self.written(),
    {
        let mut out = with_numbers(
            "RgbFrameShape { batch: ",
            self.batch,
            ", time: ",
            self.time,
            ", height: ",
        );
        let tail = with_numbers("", self.height, ", width: ", self.width, " }");
        out.append(tail.as_str());
        proof {
            reveal_strlit("");
            assert(out@ =~= self.written());
        }
        out
    }
}

/// How frames are prepared.
#[derive(Debug, Clone, Copy, PartialEq)]
pub struct ImagePreprocess {
    pub image_size: usize,
    pub mean: [F32; 3],
    pub std: [F32; 3],
}

impl ImagePreprocess {
    /// Frames of 224 pixels with the usual mean and deviation.
    pub fn imagenet_224() -> (r: Self)
        ensures
            r.image_size == 224,
            r.mean@ == seq![
                F32 { bits: 0x3ef8_51ec },
                F32 { bits: 0x3ee9_78d5 },
                F32 { bits: 0x3ecf_df3b },
            ],
            r.std@ == seq![
                F32 { bits: 0x3e6a_7efa },
                F32 { bits: 0x3e65_6042 },
                F32 { bits: 0x3e66_6666 },
            ],
    {
        Self {
            image_size: 224,
            mean: [
                F32::from_bits(0x3ef8_51ec),
                F32::from_bits(0x3ee9_78d5),
                F32::from_bits(0x3ecf_df3b),
            ],
            std: [
                F32::from_bits(0x3e6a_7efa),
                F32::from_bits(0x3e65_6042),
                F32::from_bits(0x3e66_6666),
            ],
        }
    }

    /// The first thing wrong with the settings.
    pub open spec fn complaint(self) -> Option<Seq<char>> {
        if self.image_size == 0 {
            Some("image_size must be greater than zero"@)
        } else if exists|k: int| 0 <= k < 3 && (#[trigger] self.std@[k]).key() == 0 {
            Some("image normalization std values must be non-zero"@)
        } else {
            None
        }
    }

    /// Whether the settings are valid.
    pub fn validate(&self) -> (r: Result<()>)
        ensures
            r is Ok <==> self.complaint() is None,
            r matches Err(e) ==> e.says(self.complaint()->0),
    {
        if self.image_size == 0 {
            return Err(message("image_size must be greater than zero"));
        }
        if self.std[0].order_key() == 0 || self.std[1].order_key() == 0 || self.std[2].order_key()
            == 0 {
            proof {
                if self.std@[0].key() == 0 {
                } else if self.std@[1].key() == 0 {
                } else {
                    assert(self.std@[2].key() == 0);
                }
            }
            return Err(message("image normalization std values must be non-zero"));
        }
        Ok(())
    }
}

/// The byte of the frames that stands at position `k` of the resized frames
/// `[batch, time, 3, size, size]`: the nearest pixel towards the origin.
pub open spec fn source(shape: RgbFrameShape, size: int, k: int) -> int {
    let frame = k / (3 * size * size);
    let channel = (k / (size * size)) % 3;
    let y = (k / size) % size;
    let x = k % size;
    ((frame * shape.height + y * shape.height / size) * shape.width + x * shape.width / size) * 3
        + channel
}

/// The number of bytes of resized frames.
pub open spec fn resized_len(shape: RgbFrameShape, size: int) -> int {
    shape.batch * shape.time * (3 * size * size)
}

/// Frames resized to squares, with channels first.
pub open spec fn resized(frames: Seq<u8>, shape: RgbFrameShape, size: int) -> Seq<u8> {
    Seq::new(resized_len(shape, size) as nat, |k: int| frames[source(shape, size, k)])
}

/// Every byte of resized frames comes from a byte of the frames.
pub proof fn resizing_reads_within_frames(shape: RgbFrameShape, size: int, k: int)
    requires
        shape.filled(),
        size > 0,
        0 <= k < resized_len(shape, size),
    ensures
        0 <= source(shape, size, k) < shape.bytes(),
{
    let plane = size * size;
    let all = 3 * size * size;
    assert(plane > 0 && all > 0 && all == 3 * plane) by (nonlinear_arith)
        requires
            size > 0,
            plane == size * size,
            all == 3 * size * size,
    ;
    let frames = shape.batch * shape.time;
    assert(all * frames == frames * all) by (nonlinear_arith);
    lemma_multiply_divide_lt(k, all, frames);
    let f = k / all;
    let c = (k / plane) % 3;
    let y = (k / size) % size;
    let x = k % size;
    lemma_mod_bound(k / plane, 3);
    lemma_mod_bound(k / size, size);
    lemma_mod_bound(k, size);
    assert(0 <= f) by {
        vstd::arithmetic::div_mod::lemma_div_pos_is_pos(k, all);
    }
    let (h, w) = (shape.height as int, shape.width as int);
    assert(0 <= y * h && y * h < size * h && 0 <= x * w && x * w < size * w) by (nonlinear_arith)
        requires
            0 <= y < size,
            0 <= x < size,
            h > 0,
            w > 0,
    ;
    lemma_multiply_divide_lt(y * h, size, h);
    lemma_multiply_divide_lt(x * w, size, w);
    vstd::arithmetic::div_mod::lemma_div_pos_is_pos(y * h, size);
    vstd::arithmetic::div_mod::lemma_div_pos_is_pos(x * w, size);
    let sy = y * h / size;
    let sx = x * w / size;
    assert(0 <= (f * h + sy) * w + sx < frames * h * w) by (nonlinear_arith)
        requires
            0 <= f < frames,
            0 <= sy < h,
            0 <= sx < w,
    ;
}

fn source_index(shape: &RgbFrameShape, size: usize, k: usize, len: usize) -> (r: usize)
    requires
        shape.filled(),
        size > 0,
        k < resized_len(*shape, size as int),
        3 * size * size <= usize::MAX,
        shape.bytes() == len,
    ensures
        r == source(*shape, size as int, k as int),
        r < len,
{
    proof {
        resizing_reads_within_frames(*shape, size as int, k as int);
        let s = size as int;
        assert(0 < s * s && s * s <= 3 * s * s && 3 * s <= 3 * s * s) by (nonlinear_arith)
            requires
                s > 0,
        ;
    }
    let plane: usize = size * size;
    let all: usize = 3 * size * size;
    let frame: usize = k / all;
    let channel: usize = (k / plane) % 3;
    let y: usize = (k / size) % size;
    let x: usize = k % size;
    let ghost (h, w, f, c) = (
        shape.height as int,
        shape.width as int,
        frame as int,
        channel as int,
    );
    proof {
        assert(y * h <= u128::MAX && x * w <= u128::MAX) by (nonlinear_arith)
            requires
                0 <= y <= u64::MAX,
                0 <= x <= u64::MAX,
                0 <= h <= u64::MAX,
                0 <= w <= u64::MAX,
        ;
        assert(y * h < size * h && x * w < size * w) by (nonlinear_arith)
            requires
                0 <= y < size,
                0 <= x < size,
                h > 0,
                w > 0,
        ;
        lemma_multiply_divide_lt(y * h, size as int, h);
        lemma_multiply_divide_lt(x * w, size as int, w);
    }
    let sy: usize = (y as u128 * shape.height as u128 / size as u128) as usize;
    let sx: usize = (x as u128 * shape.width as u128 / size as u128) as usize;
    proof {
        let (a, b) = (sy as int, sx as int);
        let row = f * h + a;
        let pixel = row * w + b;
        assert(pixel * 3 + c == source(*shape, size as int, k as int));
        assert(0 <= f * h <= row && row <= row * w && row * w <= pixel && pixel <= pixel * 3 + c)
            by (nonlinear_arith)
            requires
                f >= 0,
                h > 0,
                w > 0,
                a >= 0,
                b >= 0,
                c >= 0,
                row == f * h + a,
                pixel == row * w + b,
        ;
    }
    ((frame * shape.height + sy) * shape.width + sx) * 3 + channel
}

fn resize(frames: &[u8], shape: &RgbFrameShape, size: usize, total: usize) -> (r: Vec<u8>)
    requires
        shape.filled(),
        size > 0,
        3 * size * size <= usize::MAX,
        total == resized_len(*shape, size as int),
        shape.bytes() == frames@.len(),
    ensures
        r@ == resized(frames@, *shape, size as int),
{
    let mut out: Vec<u8> = Vec::new();
    let mut k: usize = 0;
    while k < total
        invariant
            shape.filled(),
            size > 0,
            3 * size * size <= usize::MAX,
            total == resized_len(*shape, size as int),
            shape.bytes() == frames@.len(),
            k <= total,
            out@ == resized(frames@, *shape, size as int).take(k as int),
        decreases total - k,
    {
        let at = source_index(shape, size, k, frames.len());
        out.push(frames[at]);
        proof {
            assert(out@ =~= resized(frames@, *shape, size as int).take(k + 1));
        }
        k = k + 1;
    }
    proof {
        assert(resized(frames@, *shape, size as int).take(k as int) =~= resized(
            frames@,
            *shape,
            size as int,
        ));
    }
    out
}

/// Single-precision numbers as a tensor on the CPU.
pub open spec fn singles(xs: Seq<F32>, dims: Seq<usize>) -> TensorValue {
    TensorValue {
        dims,
        keys: xs.map_values(|x: F32| x.key()),
        element: ElementType::F32,
        location: Location::Cpu,
    }
}

/// Bytes as shares of the largest, less the mean of their channel and divided by
/// its deviation.
pub open spec fn is_normalised(
    data: TensorValue,
    mean: Seq<F32>,
    std: Seq<F32>,
    r: TensorValue,
) -> bool {
    exists|single: TensorValue, scaled: TensorValue, centred: TensorValue|
        #[trigger] cast_of(data, single) && single.element is F32 && #[trigger] quotient_of(
            single,
            spread(singles(seq![F32 { bits: FULL }], one_place()), data.dims),
            scaled,
        ) && #[trigger] difference_of(
            scaled,
            spread(singles(mean, one_channel()), data.dims),
            centred,
        ) && quotient_of(centred, spread(singles(std, one_channel()), data.dims), r)
}

/// One element on five axes.
pub open spec fn one_place() -> Seq<usize> {
    seq![1usize, 1, 1, 1, 1]
}

/// One element for each channel on five axes.
pub open spec fn one_channel() -> Seq<usize> {
    seq![1usize, 1, 3, 1, 1]
}

/// The frames `[batch, time, 3, size, size]` that a model sees.
pub open spec fn is_prepared(
    frames: Seq<u8>,
    shape: RgbFrameShape,
    config: ImagePreprocess,
    e: ElementType,
    location: Location,
    r: TensorValue,
) -> bool {
    let size = config.image_size;
    exists|bytes: TensorValue, near: TensorValue|
        bytes.dims == seq![shape.batch, shape.time, 3usize, size, size] && bytes.keys == resized(
            frames,
            shape,
            size as int,
        ).map_values(|b: u8| b as int) && bytes.element is U8 && bytes.location is Cpu
            && #[trigger] is_normalised(bytes, config.mean@, config.std@, near)
                && #[trigger] placed(
            near,
            e,
            location,
            r,
        )
}

/// The first thing wrong with frames.
pub open spec fn frames_complaint(
    len: nat,
    shape: RgbFrameShape,
    config: ImagePreprocess,
) -> Option<
    Seq<char>,
> {
    let size = config.image_size;
    if !shape.filled() {
        Some("RGB frame shape dimensions must all be greater than zero"@)
    } else if config.complaint() is Some {
        config.complaint()
    } else if shape.bytes() > usize::MAX || 3 * size * size > usize::MAX || resized_len(
        shape,
        size as int,
    ) > usize::MAX {
        Some("RGB frame shape overflowed"@)
    } else if len != shape.bytes() {
        Some(
            "RGB frame buffer has "@ + decimal(len) + " bytes, expected "@ + decimal(
                shape.bytes() as nat,
            ) + " for "@ + shape.written(),
        )
    } else {
        None
    }
}

fn spread_singles(xs: &[F32], shape: &[usize], target: &[usize]) -> (r: Result<Tensor>)
    requires
        count(shape@) == xs@.len(),
        shape@.len() == target@.len(),
        count(target@) <= usize::MAX,
    ensures
        r matches Ok(o) ==> value(o) == spread(singles(xs@, shape@), target@),
        r matches Err(e) ==> e is Backend,
        spreads(shape@, target@) ==> r is Ok,
{
    let device = cpu();
    let t = lift(from_f32(xs, shape, &device))?;
    lift(broadcast_as(&t, target))
}

fn normalise(bytes: &Tensor, config: &ImagePreprocess, shape: &[usize]) -> (r: Result<Tensor>)
    requires
        shape@ == tensor_dims(*bytes),
        shape@.len() == 5,
        count(shape@) <= usize::MAX,
    ensures
        r matches Ok(o) ==> is_normalised(value(*bytes), config.mean@, config.std@, value(o))
            && tensor_dims(o) == shape@,
        r matches Err(e) ==> e is Backend,
        r matches Ok(o) ==> tensor_element(o) is F32 && tensor_location(o) == tensor_location(*bytes),
        resident(value(*bytes)) && shape@[2] == 3 ==> r is Ok,
{
    let full: [F32; 1] = [F32::from_bits(FULL)];
    let single_shape: [usize; 5] = [1, 1, 1, 1, 1];
    let channel_shape: [usize; 5] = [1, 1, 3, 1, 1];
    proof {
        assert(full@ =~= seq![F32 { bits: FULL }]);
        assert(single_shape@ =~= one_place());
        assert(channel_shape@ =~= one_channel());
        lemma_five(1, 1, 1, 1, 1);
        lemma_five(1, 1, 3, 1, 1);
    }
    let single = lift(to_dtype(bytes, dtype_of(ElementType::F32)))?;
    let top = spread_singles(&full, &single_shape, shape)?;
    let scaled = lift(divide(&single, &top))?;
    let mean = spread_singles(&config.mean, &channel_shape, shape)?;
    let centred = lift(subtract(&scaled, &mean))?;
    let std = spread_singles(&config.std, &channel_shape, shape)?;
    let out = lift(divide(&centred, &std))?;
    proof {
        let d = value(*bytes).dims;
        assert(cast_of(value(*bytes), value(single)));
        assert(quotient_of(
            value(single),
            spread(singles(seq![F32 { bits: FULL }], one_place()), d),
            value(scaled),
        ));
        assert(difference_of(
            value(scaled),
            spread(singles(config.mean@, one_channel()), d),
            value(centred),
        ));
    }
    Ok(out)
}

/// Resizes frames to squares, puts channels first and normalises them.
pub fn preprocess_rgb_frames_u8(
    frames: &[u8],
    shape: RgbFrameShape,
    config: ImagePreprocess,
    dtype: DType,
    device: &Device,
) -> (r: Result<Tensor>)
    ensures
        frames_complaint(frames@.len(), shape, config) matches Some(text) ==> r is Err
            && r->Err_0.says(text),
        frames_complaint(frames@.len(), shape, config) is None ==> (r matches Err(e)
            ==> e is Backend),
        r matches Ok(o) ==> is_prepared(
            frames@,
            shape,
            config,
            dtype_element(dtype),
            device_location(*device),
            value(o),
        ) && tensor_dims(o) == seq![
            shape.batch,
            shape.time,
            3usize,
            config.image_size,
            config.image_size,
        ],
        frames_complaint(frames@.len(), shape, config) is None && device_location(*device) is Cpu
            && plain(dtype_element(dtype)) ==> r is Ok,
{
    shape.validate()?;
    config.validate()?;
    let size: usize = config.image_size;
    let ghost s = size as int;
    let ghost pictures = shape.batch * shape.time;
    proof {
        assert(s * s <= 3 * s * s && 3 * s <= 3 * s * s && 0 < pictures && 0 < s * s
            && pictures <= pictures * (3 * s * s) && 3 * (s * s) == 3 * s * s)
            by (nonlinear_arith)
            requires
                s > 0,
                pictures == shape.batch * shape.time,
                shape.batch > 0,
                shape.time > 0,
        ;
    }
    let expected: usize = match shape.input_len() {
        Some(n) => n,
        None => {
            return Err(message("RGB frame shape overflowed"));
        },
    };
    let plane: usize = match size.checked_mul(size) {
        Some(n) => n,
        None => {
            return Err(message("RGB frame shape overflowed"));
        },
    };
    let all: usize = match plane.checked_mul(3) {
        Some(n) => n,
        None => {
            return Err(message("RGB frame shape overflowed"));
        },
    };
    let count_frames: usize = match shape.batch.checked_mul(shape.time) {
        Some(n) => n,
        None => {
            return Err(message("RGB frame shape overflowed"));
        },
    };
    let total: usize = match count_frames.checked_mul(all) {
        Some(n) => n,
        None => {
            return Err(message("RGB frame shape overflowed"));
        },
    };
    if frames.len() != expected {
        let mut text = with_numbers(
            "RGB frame buffer has ",
            frames.len(),
            " bytes, expected ",
            expected,
            " for ",
        );
        text.append(shape.write().as_str());
        proof {
            assert(text@ =~= frames_complaint(frames@.len(), shape, config)->0);
        }
        return Err(SwmError::Message(text));
    }
    let data = resize(frames, &shape, size, total);
    let dims5: [usize; 5] = [shape.batch, shape.time, 3, size, size];
    proof {
        assert(dims5@ =~= seq![shape.batch, shape.time, 3usize, size, size]);
        lemma_five(shape.batch, shape.time, 3, size, size);
        let (x, y) = (shape.batch as int, shape.time as int);
        assert(x * y * (3 * s * s) == x * (y * (3 * (s * s)))) by (nonlinear_arith);
    }
    let here = cpu();
    let bytes = lift(from_u8(data.as_slice(), &dims5, &here))?;
    let near = normalise(&bytes, &config, &dims5)?;
    let out = place(&near, device, dtype)?;
    proof {
        assert(is_normalised(value(bytes), config.mean@, config.std@, value(near)));
        assert(placed(
            value(near),
            dtype_element(dtype),
            device_location(*device),
            value(out),
        ));
    }
    Ok(out)
}

/// The last of prepared frames.
pub open spec fn is_latest(all: TensorValue, r: TensorValue) -> bool {
    exists|one: TensorValue|
        #[trigger] narrowed(all, 1, all.dims[1] - 1, 1, one) && r == one.shaped(all.dims.remove(1))
}

/// Prepares the last frame of each entry of a batch.
pub fn preprocess_latest_rgb_frame_u8(
    frames: &[u8],
    shape: RgbFrameShape,
    config: ImagePreprocess,
    dtype: DType,
    device: &Device,
) -> (r: Result<Tensor>)
    ensures
        frames_complaint(frames@.len(), shape, config) matches Some(text) ==> r is Err
            && r->Err_0.says(text),
        frames_complaint(frames@.len(), shape, config) is None ==> (r matches Err(e)
            ==> e is Backend),
        r matches Ok(o) ==> (exists|all: TensorValue| #[trigger]
            is_prepared(
                frames@,
                shape,
                config,
                dtype_element(dtype),
                device_location(*device),
                all,
            ) && is_latest(all, value(o))) && tensor_dims(o) == seq![
            shape.batch,
            3usize,
            config.image_size,
            config.image_size,
        ],
        frames_complaint(frames@.len(), shape, config) is None && device_location(*device) is Cpu
            && plain(dtype_element(dtype)) ==> r is Ok,
{
    let all = preprocess_rgb_frames_u8(frames, shape, config, dtype, device)?;
    let d = dims(&all);
    proof {
        assert(shape.filled());
    }
    let one = lift(narrow(&all, 1, d[1] - 1, 1))?;
    proof {
        assert(tensor_dims(one).remove(1) =~= tensor_dims(all).remove(1));
        assert(tensor_dims(all).remove(1) =~= seq![
            shape.batch,
            3usize,
            config.image_size,
            config.image_size,
        ]);
    }
    let out = lift(squeeze(&one, 1))?;
    proof {
        assert(narrowed(value(all), 1, value(all).dims[1] - 1, 1, value(one)));
        assert(is_prepared(
            frames@,
            shape,
            config,
            dtype_element(dtype),
            device_location(*device),
            value(all),
        ));
    }
    Ok(out)
}

/// The slice of an optional list.
pub open spec fn listed(xs: Option<&[F32]>) -> Option<Seq<F32>> {
    match xs {
        Some(v) => Some(v@),
        None => None,
    }
}

/// The first thing wrong with states.
pub open spec fn states_complaint(
    len: nat,
    batch: usize,
    width: usize,
    mean: Option<Seq<F32>>,
    std: Option<Seq<F32>>,
) -> Option<Seq<char>> {
    if batch == 0 || width == 0 {
        Some("state shape dimensions must all be greater than zero"@)
    } else if batch * width > usize::MAX {
        Some("state shape overflowed"@)
    } else if len != batch * width {
        Some(
            "state buffer has "@ + decimal(len) + " values, expected "@ + decimal(
                (batch * width) as nat,
            ),
        )
    } else if mean is Some && mean->0.len() != width {
        Some(
            "state mean length "@ + decimal(mean->0.len()) + " does not match state_dim "@
                + decimal(
                width as nat,
            ),
        )
    } else if std is Some && std->0.len() != width {
        Some(
            "state std length "@ + decimal(std->0.len()) + " does not match state_dim "@ + decimal(
                width as nat,
            ),
        )
    } else if std is Some && exists|k: int|
        0 <= k < std->0.len() && (#[trigger] std->0[k]).key() == 0 {
        Some("state std values must be non-zero"@)
    } else {
        None
    }
}

/// One row of numbers.
pub open spec fn one_row(width: usize) -> Seq<usize> {
    seq![1usize, width]
}

/// States `[batch, width]` less a mean, where there is one.
pub open spec fn is_shifted(x: TensorValue, mean: Option<Seq<F32>>, r: TensorValue) -> bool {
    match mean {
        Some(m) => difference_of(x, spread(singles(m, one_row(x.dims[1])), x.dims), r),
        None => r == x,
    }
}

/// States `[batch, width]` divided by a deviation, where there is one.
pub open spec fn is_scaled(x: TensorValue, std: Option<Seq<F32>>, r: TensorValue) -> bool {
    match std {
        Some(d) => quotient_of(x, spread(singles(d, one_row(x.dims[1])), x.dims), r),
        None => r == x,
    }
}

fn any_zero(xs: &[F32]) -> (r: bool)
    ensures
        r == exists|k: int| 0 <= k < xs@.len() && (#[trigger] xs@[k]).key() == 0,
{
    let mut k: usize = 0;
    while k < xs.len()
        invariant
            k <= xs@.len(),
            forall|j: int| 0 <= j < k ==> (#[trigger] xs@[j]).key() != 0,
        decreases xs@.len() - k,
    {
        if xs[k].order_key() == 0 {
            proof {
                assert(xs@[k as int].key() == 0);
            }
            return true;
        }
        k = k + 1;
    }
    false
}

fn check_states(
    len: usize,
    batch: usize,
    width: usize,
    mean: Option<&[F32]>,
    std: Option<&[F32]>,
) -> (r: Result<()>)
    ensures
        r is Ok <==> states_complaint(len as nat, batch, width, listed(mean), listed(std)) is None,
        r matches Err(e) ==> e.says(
            states_complaint(len as nat, batch, width, listed(mean), listed(std))->0,
        ),
{
    let ghost text = states_complaint(len as nat, batch, width, listed(mean), listed(std));
    proof {
        reveal_strlit("");
    }
    if batch == 0 || width == 0 {
        return Err(message("state shape dimensions must all be greater than zero"));
    }
    let expected: usize = match batch.checked_mul(width) {
        Some(n) => n,
        None => {
            return Err(message("state shape overflowed"));
        },
    };
    if len != expected {
        let said = with_numbers("state buffer has ", len, " values, expected ", expected, "");
        proof {
            assert(said@ =~= text->0);
        }
        return Err(SwmError::Message(said));
    }
    if let Some(mean) = mean {
        if mean.len() != width {
            let said = with_numbers(
                "state mean length ",
                mean.len(),
                " does not match state_dim ",
                width,
                "",
            );
            proof {
                assert(said@ =~= text->0);
            }
            return Err(SwmError::Message(said));
        }
    }
    if let Some(std) = std {
        if std.len() != width {
            let said = with_numbers(
                "state std length ",
                std.len(),
                " does not match state_dim ",
                width,
                "",
            );
            proof {
                assert(said@ =~= text->0);
            }
            return Err(SwmError::Message(said));
        }
        if any_zero(std) {
            return Err(message("state std values must be non-zero"));
        }
    }
    Ok(())
}

/// Normalises states `[batch, state_dim]` where a mean or a deviation is given.
pub fn preprocess_states(
    states: &[F32],
    batch: usize,
    state_dim: usize,
    mean: Option<&[F32]>,
    std: Option<&[F32]>,
    dtype: DType,
    device: &Device,
) -> (r: Result<Tensor>)
    ensures
        states_complaint(states@.len(), batch, state_dim, listed(mean), listed(std)) matches Some(
            text,
        ) ==> r is Err && r->Err_0.says(text),
        states_complaint(states@.len(), batch, state_dim, listed(mean), listed(std)) is None ==> (
        r matches Err(e) ==> e is Backend),
        r matches Ok(o) ==> (exists|shifted: TensorValue, scaled: TensorValue|
            is_shifted(
                singles(states@, seq![batch, state_dim]),
                listed(mean),
                shifted,
            ) && #[trigger] is_scaled(shifted, listed(std), scaled) && placed(
                scaled,
                dtype_element(dtype),
                device_location(*device),
                value(o),
            )) && tensor_dims(o) == seq![batch, state_dim],
        states_complaint(states@.len(), batch, state_dim, listed(mean), listed(std)) is None
            && device_location(*device) is Cpu && plain(dtype_element(dtype)) ==> r is Ok,
{
    check_states(states.len(), batch, state_dim, mean, std)?;
    let shape: [usize; 2] = [batch, state_dim];
    let row: [usize; 2] = [1, state_dim];
    proof {
        assert(shape@ =~= seq![batch, state_dim]);
        assert(row@ =~= one_row(state_dim));
        lemma_counts(batch, state_dim, 0, 0);
        lemma_counts(1, state_dim, 0, 0);
        vstd::arithmetic::mul::lemma_mul_basics(state_dim as int);
    }
    let here = cpu();
    let given = lift(from_f32(states, &shape, &here))?;
    let shifted = match mean {
        Some(m) => {
            let wide = spread_singles(m, &row, &shape)?;
            lift(subtract(&given, &wide))?
        },
        None => given,
    };
    let scaled = match std {
        Some(d) => {
            let wide = spread_singles(d, &row, &shape)?;
            lift(divide(&shifted, &wide))?
        },
        None => share(&shifted),
    };
    let out = place(&scaled, device, dtype)?;
    proof {
        assert(is_shifted(
            singles(states@, seq![batch, state_dim]),
            listed(mean),
            value(shifted),
        ));
        assert(is_scaled(value(shifted), listed(std), value(scaled)));
    }
    Ok(out)
}

/// Whether a number is below another. No NaN is below or above a number.
pub open spec fn below(a: F32, b: F32) -> bool {
    !nan_key(a.key()) && !nan_key(b.key()) && a.key() < b.key()
}

fn is_below(a: F32, b: F32) -> (r: bool)
    ensures
        r == below(a, b),
{
    let (x, y) = (a.order_key(), b.order_key());
    let top: i64 = F32_INFINITY as i64;
    -top <= x && x <= top && -top <= y && y <= top && x < y
}

/// A number, or the bound that it lies beyond.
pub open spec fn clamped(x: F32, low: F32, high: F32) -> F32 {
    let y = if below(x, low) {
        low
    } else {
        x
    };
    if below(high, y) {
        high
    } else {
        y
    }
}

/// Actions brought within the bounds of their component.
pub open spec fn all_clamped(actions: Seq<F32>, low: Seq<F32>, high: Seq<F32>) -> Seq<F32> {
    Seq::new(
        actions.len(),
        |k: int|
            clamped(actions[k], low[k % low.len() as int], high[k % low.len() as int]),
    )
}

/// Whether a lower bound is at or below an upper one.
pub open spec fn ordered(low: F32, high: F32) -> bool {
    !nan_key(low.key()) && !nan_key(high.key()) && low.key() <= high.key()
}

/// The first thing wrong with actions.
pub open spec fn actions_complaint(
    len: nat,
    batch: usize,
    time: usize,
    width: usize,
    min: Seq<F32>,
    max: Seq<F32>,
) -> Option<Seq<char>> {
    if batch == 0 || time == 0 || width == 0 {
        Some("action shape dimensions must all be greater than zero"@)
    } else if batch * time * width > usize::MAX {
        Some("action shape overflowed"@)
    } else if len != batch * time * width {
        Some(
            "action buffer has "@ + decimal(len) + " values, expected "@ + decimal(
                (batch * time * width) as nat,
            ),
        )
    } else if min.len() != width || max.len() != width {
        Some(
            "action bounds must match action_dim "@ + decimal(width as nat) + ", got min="@
                + decimal(min.len()) + " max="@ + decimal(max.len()),
        )
    } else if exists|k: int| 0 <= k < width && !ordered(#[trigger] min[k], max[k]) {
        Some("action bounds must be numbers with min <= max"@)
    } else {
        None
    }
}

fn check_actions(len: usize, batch: usize, time: usize, width: usize, min: &[F32], max: &[F32]) -> (r:
    Result<()>)
    ensures
        r is Ok <==> actions_complaint(len as nat, batch, time, width, min@, max@) is None,
        r matches Err(e) ==> e.says(
            actions_complaint(len as nat, batch, time, width, min@, max@)->0,
        ),
{
    let ghost text = actions_complaint(len as nat, batch, time, width, min@, max@);
    proof {
        reveal_strlit("");
    }
    if batch == 0 || time == 0 || width == 0 {
        return Err(message("action shape dimensions must all be greater than zero"));
    }
    proof {
        let (b, t, w) = (batch as int, time as int, width as int);
        assert(b * t <= b * t * w) by (nonlinear_arith)
            requires
                b > 0,
                t > 0,
                w > 0,
        ;
    }
    let steps: usize = match batch.checked_mul(time) {
        Some(n) => n,
        None => {
            return Err(message("action shape overflowed"));
        },
    };
    let expected: usize = match steps.checked_mul(width) {
        Some(n) => n,
        None => {
            return Err(message("action shape overflowed"));
        },
    };
    if len != expected {
        let said = with_numbers("action buffer has ", len, " values, expected ", expected, "");
        proof {
            assert(said@ =~= text->0);
        }
        return Err(SwmError::Message(said));
    }
    if min.len() != width || max.len() != width {
        let mut said = with_numbers(
            "action bounds must match action_dim ",
            width,
            ", got min=",
            min.len(),
            " max=",
        );
        let tail = with_number("", max.len(), "");
        said.append(tail.as_str());
        proof {
            assert(said@ =~= text->0);
        }
        return Err(SwmError::Message(said));
    }
    let mut k: usize = 0;
    while k < width
        invariant
            k <= width,
            min@.len() == width,
            max@.len() == width,
            width > 0,
            text == actions_complaint(len as nat, batch, time, width, min@, max@),
            text matches Some(t) ==> t == "action bounds must be numbers with min <= max"@,
            (exists|j: int| 0 <= j < width && !ordered(#[trigger] min@[j], max@[j])) ==> text
                is Some,
            text is Some ==> exists|j: int| 0 <= j < width && !ordered(#[trigger] min@[j], max@[j]),
            forall|j: int| 0 <= j < k ==> ordered(#[trigger] min@[j], max@[j]),
        decreases width - k,
    {
        let (x, y) = (min[k].order_key(), max[k].order_key());
        let top: i64 = F32_INFINITY as i64;
        if !(-top <= x && x <= top && -top <= y && y <= top && x <= y) {
            proof {
                assert(!ordered(min@[k as int], max@[k as int]));
            }
            return Err(message("action bounds must be numbers with min <= max"));
        }
        k = k + 1;
    }
    Ok(())
}

/// Brings actions `[batch, time, action_dim]` within bounds.
pub fn preprocess_actions(
    actions: &[F32],
    batch: usize,
    time: usize,
    action_dim: usize,
    min: &[F32],
    max: &[F32],
    dtype: DType,
    device: &Device,
) -> (r: Result<Tensor>)
    ensures
        actions_complaint(actions@.len(), batch, time, action_dim, min@, max@) matches Some(text)
            ==> r is Err && r->Err_0.says(text),
        actions_complaint(actions@.len(), batch, time, action_dim, min@, max@) is None ==> (
        r matches Err(e) ==> e is Backend),
        r matches Ok(o) ==> placed(
            singles(all_clamped(actions@, min@, max@), seq![batch, time, action_dim]),
            dtype_element(dtype),
            device_location(*device),
            value(o),
        ) && tensor_dims(o) == seq![batch, time, action_dim],
        actions_complaint(actions@.len(), batch, time, action_dim, min@, max@) is None
            && device_location(*device) is Cpu && plain(dtype_element(dtype)) ==> r is Ok,
{
    check_actions(actions.len(), batch, time, action_dim, min, max)?;
    let ghost all = all_clamped(actions@, min@, max@);
    let mut out: Vec<F32> = Vec::new();
    let mut k: usize = 0;
    while k < actions.len()
        invariant
            k <= actions@.len(),
            min@.len() == action_dim,
            max@.len() == action_dim,
            action_dim > 0,
            all == all_clamped(actions@, min@, max@),
            out@ == all.take(k as int),
        decreases actions@.len() - k,
    {
        let at: usize = k % action_dim;
        let x = actions[k];
        let raised = if is_below(x, min[at]) {
            min[at]
        } else {
            x
        };
        let kept = if is_below(max[at], raised) {
            max[at]
        } else {
            raised
        };
        out.push(kept);
        proof {
            assert(out@ =~= all.take(k + 1));
        }
        k = k + 1;
    }
    let shape: [usize; 3] = [batch, time, action_dim];
    proof {
        assert(all.take(k as int) =~= all);
        assert(shape@ =~= seq![batch, time, action_dim]);
        lemma_counts(batch, time, action_dim, 0);
        let (b, t, w) = (batch as int, time as int, action_dim as int);
        assert(b * t * w == b * (t * w)) by (nonlinear_arith);
    }
    let here = cpu();
    let given = lift(from_f32(out.as_slice(), &shape, &here))?;
    place(&given, device, dtype)
}

/// Prepared actions lie within their bounds, unless they are no numbers.
pub proof fn prepared_actions_lie_within_bounds(x: F32, low: F32, high: F32)
    requires
        ordered(low, high),
    ensures
        nan_key(x.key()) ==> clamped(x, low, high) == x,
        !nan_key(x.key()) ==> low.key() <= clamped(x, low, high).key() <= high.key(),
        low.key() <= x.key() <= high.key() ==> clamped(x, low, high) == x,
{
}

} // verus!
