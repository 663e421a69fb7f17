//! The observations, the bounds and the images that come over the C interface.

use candle_core::Device;
use candle_core::Tensor;
use vstd::prelude::*;

use crate::artifact::{PreprocessConfig, RuntimeSchema};
use crate::ffi::status::{backend_failed, carry, FfiError, FfiResult, SwmStatus};
use crate::media::shape::ImagePreprocess;
use crate::models::tdmpc2::config::{EncodingConfig, TdMpc2Config};
use crate::planner::config::{copy_numbers, ActionBounds, ONE};
use crate::scalar::F32;
use crate::tensor::facts::{lemma_counts, lemma_split};
use crate::tensor::make::from_f32;
use crate::tensor::value::{count, device_location, value, ElementType, Location, TensorValue};
use crate::error::lift;
use crate::text::{decimal, decimal_text, same_text, signed_decimal, signed_text, with_numbers};

verus! {

/// How the pixels of a frame are laid out.
#[derive(Debug, Clone, Copy, PartialEq, Eq, Structural)]
pub enum SwmPixelLayout {
    Nchw,
    Nhwc,
}

impl SwmPixelLayout {
    /// The number of a layout.
    pub open spec fn number(self) -> i32 {
        match self {
            SwmPixelLayout::Nchw => 0,
            SwmPixelLayout::Nhwc => 1,
        }
    }

    /// The sizes of the axes of frames in a layout.
    pub open spec fn dims(self, batch: usize, height: usize, width: usize) -> Seq<usize> {
        match self {
            SwmPixelLayout::Nchw => seq![batch, 3usize, height, width],
            SwmPixelLayout::Nhwc => seq![batch, height, width, 3usize],
        }
    }
}

/// What is said of a layout that there is not.
pub open spec fn layout_text(layout: i32) -> Seq<char> {
    "unknown pixel layout "@ + signed_decimal(layout as int) + "; expected 0=NCHW or 1=NHWC"@
}

/// The layout that a number stands for.
pub fn parse_pixel_layout(layout: i32) -> (r: FfiResult<SwmPixelLayout>)
    ensures
        layout == 0 || layout == 1 ==> r is Ok && r->Ok_0.number() == layout,
        layout != 0 && layout != 1 ==> r is Err && r->Err_0.is(
            SwmStatus::InvalidArgument,
            layout_text(layout),
        ),
{
    if layout == 0 {
        return Ok(SwmPixelLayout::Nchw);
    }
    if layout == 1 {
        return Ok(SwmPixelLayout::Nhwc);
    }
    let mut text = String::from_str("unknown pixel layout ");
    text.append(signed_text(layout as i64).as_str());
    text.append("; expected 0=NCHW or 1=NHWC");
    Err(FfiError::invalid_text(text))
}

/// The width of the state and the size of the images that are observed.
pub type ObservedDims = (Option<usize>, Option<usize>);

/// What the first `n` encodings observe, or what is wrong with them.
pub open spec fn observed(config: TdMpc2Config, n: nat) -> core::result::Result<
    ObservedDims,
    Seq<char>,
>
    decreases n,
{
    if n == 0 {
        Ok((None, None))
    } else {
        match observed(config, (n - 1) as nat) {
            Err(text) => Err(text),
            Ok(before) => {
                let e = config.encodings@[n - 1];
                if e.name@ == "state"@ {
                    if before.0 is Some {
                        Err("TD-MPC2 C ABI does not support duplicate state observations"@)
                    } else {
                        Ok((Some(e.input_dim), before.1))
                    }
                } else if e.name@ == "pixels"@ {
                    if before.1 is Some {
                        Err("TD-MPC2 C ABI does not support duplicate pixel observations"@)
                    } else {
                        Ok((before.0, Some(image_size_of(config, e))))
                    }
                } else {
                    Err("TD-MPC2 C ABI does not support observation '"@ + e.name@ + "'"@)
                }
            },
        }
    }
}

/// The size of the images of an encoding.
pub open spec fn image_size_of(config: TdMpc2Config, e: EncodingConfig) -> usize {
    match config.image_size {
        Some(n) => n,
        None => e.input_dim,
    }
}

/// What a model observes, or what is wrong with it.
pub open spec fn all_observed(config: TdMpc2Config) -> core::result::Result<
    ObservedDims,
    Seq<char>,
> {
    match observed(config, config.encodings@.len()) {
        Err(text) => Err(text),
        Ok(dims) => if dims.0 is None && dims.1 is None {
            Err("TD-MPC2 C ABI requires a state or pixel observation"@)
        } else {
            Ok(dims)
        },
    }
}

proof fn lemma_observed_fails(config: TdMpc2Config, k: nat, n: nat)
    requires
        k <= n,
        observed(config, k) is Err,
    ensures
        observed(config, n) == observed(config, k),
    decreases n,
{
    if k < n {
        lemma_observed_fails(config, k, (n - 1) as nat);
    }
}

/// The width of the state and the size of the images that a model observes.
pub fn tdmpc2_observation_dims(config: &TdMpc2Config) -> (r: FfiResult<ObservedDims>)
    ensures
        all_observed(*config) matches Ok(dims) ==> r is Ok && r->Ok_0 == dims,
        all_observed(*config) matches Err(text) ==> r is Err && r->Err_0.is(
            SwmStatus::InvalidArgument,
            text,
        ),
{
    let mut state_dim: Option<usize> = None;
    let mut image_size: Option<usize> = None;
    let mut k: usize = 0;
    while k < config.encodings.len()
        invariant
            k <= config.encodings@.len(),
            observed(*config, k as nat) == Ok::<ObservedDims, Seq<char>>((state_dim, image_size)),
        decreases config.encodings@.len() - k,
    {
        let encoding = &config.encodings[k];
        proof {
            if observed(*config, (k + 1) as nat) is Err {
                lemma_observed_fails(*config, (k + 1) as nat, config.encodings@.len());
            }
        }
        if same_text(encoding.name.as_str(), "state") {
            if state_dim.is_some() {
                return Err(
                    FfiError::invalid(
                        "TD-MPC2 C ABI does not support duplicate state observations",
                    ),
                );
            }
            state_dim = Some(encoding.input_dim);
        } else if same_text(encoding.name.as_str(), "pixels") {
            if image_size.is_some() {
                return Err(
                    FfiError::invalid(
                        "TD-MPC2 C ABI does not support duplicate pixel observations",
                    ),
                );
            }
            image_size =
            Some(
                match config.image_size {
                    Some(n) => n,
                    None => encoding.input_dim,
                },
            );
        } else {
            let mut text = String::from_str("TD-MPC2 C ABI does not support observation '");
            text.append(encoding.name.as_str());
            text.append("'");
            return Err(FfiError::invalid_text(text));
        }
        k = k + 1;
    }
    if state_dim.is_none() && image_size.is_none() {
        return Err(FfiError::invalid("TD-MPC2 C ABI requires a state or pixel observation"));
    }
    Ok((state_dim, image_size))
}

proof fn lemma_observed_names(config: TdMpc2Config, n: nat)
    requires
        observed(config, n) is Ok,
        n <= config.encodings@.len(),
    ensures
        forall|k: int|
            0 <= k < n ==> (#[trigger] config.encodings@[k]).name@ == "state"@
                || config.encodings@[k].name@ == "pixels"@,
        (observed(config, n)->Ok_0.0 is Some) <==> exists|k: int|
            0 <= k < n && (#[trigger] config.encodings@[k]).name@ == "state"@,
        (observed(config, n)->Ok_0.1 is Some) <==> exists|k: int|
            0 <= k < n && (#[trigger] config.encodings@[k]).name@ == "pixels"@,
        forall|j: int, k: int|
            #![trigger config.encodings@[j], config.encodings@[k]]
            0 <= j < n && 0 <= k < n && config.encodings@[j].name@ == config.encodings@[k].name@
                ==> j == k,
    decreases n,
{
    reveal_strlit("state");
    reveal_strlit("pixels");
    assert("state"@.len() != "pixels"@.len());
    if n > 0 {
        lemma_observed_names(config, (n - 1) as nat);
        let e = config.encodings@[n - 1];
        if e.name@ == "state"@ {
            assert(exists|k: int| 0 <= k < n
                && (#[trigger] config.encodings@[k]).name@ == "state"@);
        } else {
            assert(exists|k: int| 0 <= k < n
                && (#[trigger] config.encodings@[k]).name@ == "pixels"@);
        }
    }
}

/// A model that is accepted observes a state, pixels or both, each of them once
/// and nothing else.
pub proof fn accepted_models_observe_each_thing_once(config: TdMpc2Config)
    requires
        all_observed(config) is Ok,
    ensures
        0 < config.encodings@.len() <= 2,
        forall|k: int|
            0 <= k < config.encodings@.len() ==> (#[trigger] config.encodings@[k]).name@
                == "state"@ || config.encodings@[k].name@ == "pixels"@,
        (all_observed(config)->Ok_0.0 is Some) <==> exists|k: int|
            0 <= k < config.encodings@.len() && (#[trigger] config.encodings@[k]).name@ == "state"@,
        (all_observed(config)->Ok_0.1 is Some) <==> exists|k: int|
            0 <= k < config.encodings@.len()
                && (#[trigger] config.encodings@[k]).name@ == "pixels"@,
{
    lemma_observed_names(config, config.encodings@.len());
    if config.encodings@.len() > 2 {
        let (a, b, c) = (config.encodings@[0], config.encodings@[1], config.encodings@[2]);
        assert(a.name@ == b.name@ || a.name@ == c.name@ || b.name@ == c.name@);
    }
}

/// Settings, or what stands in for them.
pub open spec fn bound_or(
    first: Option<Vec<F32>>,
    second: Option<Vec<F32>>,
    bits: u32,
    action_dim: usize,
) -> Seq<F32> {
    if first is Some {
        first->0@
    } else if second is Some {
        second->0@
    } else {
        Seq::new(action_dim as nat, |k: int| F32 { bits })
    }
}

/// The bits of -1.0.
pub const MINUS_ONE: u32 = 0xbf80_0000;

fn bound_values(
    first: &Option<Vec<F32>>,
    second: &Option<Vec<F32>>,
    bits: u32,
    action_dim: usize,
) -> (r: Vec<F32>)
    ensures
        r@ == bound_or(*first, *second, bits, action_dim),
{
    if let Some(v) = first {
        return copy_numbers(v.as_slice());
    }
    if let Some(v) = second {
        return copy_numbers(v.as_slice());
    }
    let mut out: Vec<F32> = Vec::new();
    let mut k: usize = 0;
    while k < action_dim
        invariant
            k <= action_dim,
            out@ == Seq::new(k as nat, |j: int| F32 { bits }),
        decreases action_dim - k,
    {
        out.push(F32::from_bits(bits));
        proof {
            assert(out@ =~= Seq::new((k + 1) as nat, |j: int| F32 { bits }));
        }
        k = k + 1;
    }
    out
}

/// What is said of ranges that do not have the size of an action.
pub open spec fn bounds_text(low: Seq<F32>, high: Seq<F32>, action_dim: usize) -> Seq<char> {
    "action bounds must match action_dim "@ + decimal(action_dim as nat) + ", got low="@ + decimal(
        low.len(),
    ) + " high="@ + decimal(high.len())
}

/// The ranges of the actions: those of the schema, else those of the
/// preparation, else from minus one to one.
pub fn action_bounds_from_schema(
    schema: &RuntimeSchema,
    preprocess: &PreprocessConfig,
    action_dim: usize,
) -> (r: FfiResult<ActionBounds>)
    ensures
        ({
            let low = bound_or(schema.action.min, preprocess.action_min, MINUS_ONE, action_dim);
            let high = bound_or(schema.action.max, preprocess.action_max, ONE, action_dim);
            &&& low.len() == action_dim && high.len() == action_dim ==> r is Ok && r->Ok_0.low@
                == low && r->Ok_0.high@ == high
            &&& low.len() != action_dim || high.len() != action_dim ==> r is Err && r->Err_0.is(
                SwmStatus::InvalidArgument,
                bounds_text(low, high, action_dim),
            )
        }),
{
    let low = bound_values(&schema.action.min, &preprocess.action_min, MINUS_ONE, action_dim);
    let high = bound_values(&schema.action.max, &preprocess.action_max, ONE, action_dim);
    if low.len() != action_dim || high.len() != action_dim {
        let mut text = String::from_str("action bounds must match action_dim ");
        text.append(decimal_text(action_dim as u64).as_str());
        text.append(", got low=");
        text.append(decimal_text(low.len() as u64).as_str());
        text.append(" high=");
        text.append(decimal_text(high.len() as u64).as_str());
        return Err(FfiError::invalid_text(text));
    }
    Ok(ActionBounds { low, high })
}

/// How images are prepared for a model: by the settings of its artifact, and
/// else unchanged in the size of the model.
pub open spec fn prepared_for(
    p: ImagePreprocess,
    preprocess: PreprocessConfig,
    image_size: usize,
) -> bool {
    let size = match preprocess.image_size {
        Some(n) => n,
        None => image_size,
    };
    &&& p.output_height == size
    &&& p.output_width == size
    &&& preprocess.image_mean matches Some(m) ==> p.mean == m
    &&& preprocess.image_mean is None ==> p.mean@ == seq![
        F32 { bits: 0 },
        F32 { bits: 0 },
        F32 { bits: 0 },
    ]
    &&& preprocess.image_std matches Some(s) ==> p.std == s
    &&& preprocess.image_std is None ==> p.std@ == seq![
        F32 { bits: ONE },
        F32 { bits: ONE },
        F32 { bits: ONE },
    ]
}

/// Scaled to a size and nothing else.
pub open spec fn plainly_prepared(p: ImagePreprocess, image_size: usize) -> bool {
    &&& p.output_height == image_size
    &&& p.output_width == image_size
    &&& p.mean@ == seq![F32 { bits: 0 }, F32 { bits: 0 }, F32 { bits: 0 }]
    &&& p.std@ == seq![F32 { bits: ONE }, F32 { bits: ONE }, F32 { bits: ONE }]
}

pub fn image_preprocess_from_config(preprocess: &PreprocessConfig, image_size: usize) -> (r:
    ImagePreprocess)
    ensures
        prepared_for(r, *preprocess, image_size),
{
    let size: usize = match preprocess.image_size {
        Some(n) => n,
        None => image_size,
    };
    let zero = F32::from_bits(0);
    let one = F32::from_bits(ONE);
    let mean = match preprocess.image_mean {
        Some(m) => m,
        None => [zero, zero, zero],
    };
    let std = match preprocess.image_std {
        Some(s) => s,
        None => [one, one, one],
    };
    let r = ImagePreprocess { output_height: size, output_width: size, mean, std };
    proof {
        if preprocess.image_mean is None {
            assert(r.mean@ =~= seq![F32 { bits: 0 }, F32 { bits: 0 }, F32 { bits: 0 }]);
        }
        if preprocess.image_std is None {
            assert(r.std@ =~= seq![F32 { bits: ONE }, F32 { bits: ONE }, F32 { bits: ONE }]);
        }
    }
    r
}

/// The first thing wrong with the shape of a state.
pub open spec fn state_complaint(held: Option<usize>, batch: usize, state_dim: usize) -> Option<
    Seq<char>,
> {
    if batch == 0 {
        Some("batch must be greater than zero"@)
    } else if held is None {
        Some("TD-MPC2 artifact does not have a state observation"@)
    } else if state_dim != held->0 {
        Some(
            "state_dim "@ + decimal(state_dim as nat) + " does not match runtime state_dim "@
                + decimal(held->0 as nat),
        )
    } else if batch * state_dim > usize::MAX {
        Some("state length overflow"@)
    } else {
        None
    }
}

/// How many numbers a state is made of.
pub fn state_input_len(held: Option<usize>, batch: usize, state_dim: usize) -> (r: FfiResult<usize>)
    ensures
        state_complaint(held, batch, state_dim) matches Some(text) ==> r is Err && r->Err_0.is(
            SwmStatus::InvalidArgument,
            text,
        ),
        state_complaint(held, batch, state_dim) is None ==> r is Ok && r->Ok_0 == batch * state_dim,
{
    if batch == 0 {
        return Err(FfiError::invalid("batch must be greater than zero"));
    }
    let expected: usize = match held {
        Some(n) => n,
        None => {
            return Err(FfiError::invalid("TD-MPC2 artifact does not have a state observation"));
        },
    };
    if state_dim != expected {
        let text = with_numbers(
            "state_dim ",
            state_dim,
            " does not match runtime state_dim ",
            expected,
            "",
        );
        proof {
            reveal_strlit("");
            assert(text@ =~= state_complaint(held, batch, state_dim)->0);
        }
        return Err(FfiError::invalid_text(text));
    }
    match batch.checked_mul(state_dim) {
        Some(n) => Ok(n),
        None => Err(FfiError::invalid("state length overflow")),
    }
}

/// Whether a product of sizes, taken from the left, leaves the machine integers
/// at some step.
pub open spec fn overflows(sizes: Seq<usize>) -> bool
    decreases sizes.len(),
{
    sizes.len() > 0 && (overflows(sizes.drop_last()) || product(sizes) > usize::MAX)
}

/// The product of sizes.
pub open spec fn product(sizes: Seq<usize>) -> int
    decreases sizes.len(),
{
    if sizes.len() == 0 {
        1
    } else {
        product(sizes.drop_last()) * sizes.last()
    }
}

fn checked_product(sizes: &[usize]) -> (r: Option<usize>)
    ensures
        r is None <==> overflows(sizes@),
        r matches Some(n) ==> n == product(sizes@),
{
    let mut n: usize = 1;
    let mut k: usize = 0;
    while k < sizes.len()
        invariant
            k <= sizes@.len(),
            n == product(sizes@.take(k as int)),
            !overflows(sizes@.take(k as int)),
        decreases sizes@.len() - k,
    {
        proof {
            assert(sizes@.take(k + 1).drop_last() =~= sizes@.take(k as int));
        }
        match n.checked_mul(sizes[k]) {
            Some(m) => {
                n = m;
            },
            None => {
                proof {
                    lemma_overflows_on(sizes@, k + 1);
                }
                return None;
            },
        }
        k = k + 1;
    }
    proof {
        assert(sizes@.take(k as int) =~= sizes@);
    }
    Some(n)
}

proof fn lemma_overflows_on(sizes: Seq<usize>, k: int)
    requires
        0 <= k <= sizes.len(),
        overflows(sizes.take(k)),
    ensures
        overflows(sizes),
    decreases sizes.len(),
{
    if k < sizes.len() {
        assert(sizes.drop_last().take(k) =~= sizes.take(k));
        lemma_overflows_on(sizes.drop_last(), k);
    } else {
        assert(sizes.take(k) =~= sizes);
    }
}

proof fn lemma_product_is_count(sizes: Seq<usize>)
    ensures
        product(sizes) == count(sizes),
    decreases sizes.len(),
{
    if sizes.len() > 0 {
        let front = sizes.drop_last();
        lemma_product_is_count(front);
        lemma_split(sizes, sizes.len() - 1);
        assert(sizes.take(sizes.len() - 1) =~= front);
        assert(sizes.skip(sizes.len() as int) =~= Seq::<usize>::empty());
        assert(count(Seq::<usize>::empty()) == 1);
        vstd::arithmetic::mul::lemma_mul_basics(count(front) * sizes.last());
    }
}

/// The first thing wrong with the shape of frames.
pub open spec fn pixel_complaint(
    held: Option<usize>,
    batch: usize,
    height: usize,
    width: usize,
) -> Option<Seq<char>> {
    if batch == 0 {
        Some("batch must be greater than zero"@)
    } else if held is None {
        Some("TD-MPC2 artifact does not have a pixel observation"@)
    } else if height != held->0 || width != held->0 {
        Some(
            "pixel input must match image_size "@ + decimal(held->0 as nat) + ", got "@ + decimal(
                height as nat,
            ) + "x"@ + decimal(width as nat),
        )
    } else if overflows(seq![batch, 3, height, width]) {
        Some("pixel length overflow"@)
    } else {
        None
    }
}

/// How many numbers frames are made of.
pub fn pixel_input_len(held: Option<usize>, batch: usize, height: usize, width: usize) -> (r:
    FfiResult<usize>)
    ensures
        pixel_complaint(held, batch, height, width) matches Some(text) ==> r is Err
            && r->Err_0.is(SwmStatus::InvalidArgument, text),
        pixel_complaint(held, batch, height, width) is None ==> r is Ok && r->Ok_0 == count(
            seq![batch, 3, height, width],
        ),
{
    if batch == 0 {
        return Err(FfiError::invalid("batch must be greater than zero"));
    }
    let size: usize = match held {
        Some(n) => n,
        None => {
            return Err(FfiError::invalid("TD-MPC2 artifact does not have a pixel observation"));
        },
    };
    if height != size || width != size {
        return Err(
            FfiError::invalid_text(
                size_text("pixel input must match image_size ", size, height, width),
            ),
        );
    }
    let sizes: [usize; 4] = [batch, 3, height, width];
    proof {
        assert(sizes@ =~= seq![batch, 3usize, height, width]);
        lemma_product_is_count(sizes@);
    }
    match checked_product(&sizes) {
        Some(n) => Ok(n),
        None => Err(FfiError::invalid("pixel length overflow")),
    }
}

/// Frames from numbers in a layout.
pub fn pixel_tensor(
    pixels: &[F32],
    batch: usize,
    height: usize,
    width: usize,
    layout: i32,
    device: &Device,
) -> (r: FfiResult<Tensor>)
    requires
        pixels@.len() == count(seq![batch, 3, height, width]),
    ensures
        layout != 0 && layout != 1 ==> r is Err && r->Err_0.is(
            SwmStatus::InvalidArgument,
            layout_text(layout),
        ),
        layout == 0 || layout == 1 ==> (r matches Err(e) ==> backend_failed(e)),
        r matches Ok(t) ==> value(t) == numbers_value(
            pixels@,
            if layout == 0 {
                SwmPixelLayout::Nchw.dims(batch, height, width)
            } else {
                SwmPixelLayout::Nhwc.dims(batch, height, width)
            },
            device_location(*device),
        ),
        (layout == 0 || layout == 1) && device_location(*device) is Cpu ==> r is Ok,
{
    let form = parse_pixel_layout(layout)?;
    match form {
        SwmPixelLayout::Nchw => {
            let sizes: [usize; 4] = [batch, 3, height, width];
            proof {
                assert(sizes@ =~= form.dims(batch, height, width));
            }
            carry(lift(from_f32(pixels, &sizes, device)))
        },
        SwmPixelLayout::Nhwc => {
            let sizes: [usize; 4] = [batch, height, width, 3];
            proof {
                assert(sizes@ =~= form.dims(batch, height, width));
                lemma_counts(batch, 3, height, width);
                lemma_counts(batch, height, width, 3);
                let (b, h, w) = (batch as int, height as int, width as int);
                assert(b * (3 * (h * w)) == b * (h * (w * 3))) by (nonlinear_arith);
            }
            carry(lift(from_f32(pixels, &sizes, device)))
        },
    }
}

/// Numbers as the elements of a tensor.
pub open spec fn numbers_value(
    data: Seq<F32>,
    dims: Seq<usize>,
    location: Location,
) -> TensorValue {
    TensorValue {
        dims,
        keys: data.map_values(|x: F32| x.key()),
        element: ElementType::F32,
        location,
    }
}

/// A state from numbers.
pub fn state_tensor(state: &[F32], batch: usize, state_dim: usize, device: &Device) -> (r: FfiResult<
    Tensor,
>)
    requires
        state@.len() == batch * state_dim,
    ensures
        r matches Err(e) ==> backend_failed(e),
        r matches Ok(t) ==> value(t) == numbers_value(
            state@,
            seq![batch, state_dim],
            device_location(*device),
        ),
        device_location(*device) is Cpu ==> r is Ok,
{
    let sizes: [usize; 2] = [batch, state_dim];
    proof {
        assert(sizes@ =~= seq![batch, state_dim]);
        lemma_counts(batch, state_dim, 0, 0);
    }
    carry(lift(from_f32(state, &sizes, device)))
}

/// The first thing wrong with the shape of a history of frames.
pub open spec fn history_complaint(
    image_size: usize,
    batch: usize,
    time: usize,
    height: usize,
    width: usize,
) -> Option<Seq<char>> {
    if batch == 0 || time == 0 {
        Some("LeWM pixel batch and time must be greater than zero"@)
    } else if height != image_size || width != image_size {
        Some(
            "LeWM pixel input must match image_size "@ + decimal(image_size as nat) + ", got "@
                + decimal(height as nat) + "x"@ + decimal(width as nat),
        )
    } else if overflows(seq![batch, time, 3, height, width]) {
        Some("LeWM pixel length overflow"@)
    } else {
        None
    }
}

/// How many numbers a history of frames is made of.
pub fn history_input_len(
    image_size: usize,
    batch: usize,
    time: usize,
    height: usize,
    width: usize,
) -> (r: FfiResult<usize>)
    ensures
        history_complaint(image_size, batch, time, height, width) matches Some(text) ==> r is Err
            && r->Err_0.is(SwmStatus::InvalidArgument, text),
        history_complaint(image_size, batch, time, height, width) is None ==> r is Ok && r->Ok_0
            == count(seq![batch, time, 3, height, width]),
{
    if batch == 0 || time == 0 {
        return Err(FfiError::invalid("LeWM pixel batch and time must be greater than zero"));
    }
    if height != image_size || width != image_size {
        return Err(
            FfiError::invalid_text(
                size_text("LeWM pixel input must match image_size ", image_size, height, width),
            ),
        );
    }
    let sizes: [usize; 5] = [batch, time, 3, height, width];
    proof {
        assert(sizes@ =~= seq![batch, time, 3usize, height, width]);
        lemma_product_is_count(sizes@);
    }
    match checked_product(&sizes) {
        Some(n) => Ok(n),
        None => Err(FfiError::invalid("LeWM pixel length overflow")),
    }
}

/// A history of frames from numbers.
pub fn history_tensor(
    pixels: &[F32],
    batch: usize,
    time: usize,
    height: usize,
    width: usize,
    device: &Device,
) -> (r: FfiResult<Tensor>)
    requires
        pixels@.len() == count(seq![batch, time, 3, height, width]),
    ensures
        r matches Err(e) ==> backend_failed(e),
        r matches Ok(t) ==> value(t) == numbers_value(
            pixels@,
            seq![batch, time, 3, height, width],
            device_location(*device),
        ),
        device_location(*device) is Cpu ==> r is Ok,
{
    let sizes: [usize; 5] = [batch, time, 3, height, width];
    proof {
        assert(sizes@ =~= seq![batch, time, 3usize, height, width]);
    }
    carry(lift(from_f32(pixels, &sizes, device)))
}

/// What is said of a history of the wrong length.
pub open spec fn frames_complaint(history_size: usize, time: usize) -> Seq<char> {
    "LeWM current pixel history must have time="@ + decimal(history_size as nat)
        + " frames, got "@ + decimal(time as nat)
}

/// Whether a history has as many frames as the model looks back over.
pub fn require_frames(history_size: usize, time: usize) -> (r: FfiResult<()>)
    ensures
        r is Ok <==> time == history_size,
        r matches Err(e) ==> e.is(
            SwmStatus::InvalidArgument,
            frames_complaint(history_size, time),
        ),
{
    if time != history_size {
        let text = with_numbers(
            "LeWM current pixel history must have time=",
            history_size,
            " frames, got ",
            time,
            "",
        );
        proof {
            reveal_strlit("");
            assert(text@ =~= frames_complaint(history_size, time));
        }
        return Err(FfiError::invalid_text(text));
    }
    Ok(())
}

/// The first thing wrong with a buffer that holds a history of frames.
pub open spec fn media_history_complaint(
    history_size: usize,
    media_batch: usize,
    batch: usize,
    time: usize,
    require_config_history: bool,
) -> Option<Seq<char>> {
    if batch == 0 || time == 0 {
        Some("LeWM media history batch and time must be greater than zero"@)
    } else if require_config_history && time != history_size {
        Some(frames_complaint(history_size, time))
    } else if batch * time > usize::MAX {
        Some("LeWM media history batch overflow"@)
    } else if media_batch != batch * time {
        Some(
            "LeWM media buffer batch "@ + decimal(media_batch as nat) + " must equal batch*time "@
                + decimal((batch * time) as nat),
        )
    } else {
        None
    }
}

/// Whether a buffer holds a history of frames.
pub fn validate_lewm_media_history(
    history_size: usize,
    media_batch: usize,
    batch: usize,
    time: usize,
    require_config_history: bool,
) -> (r: FfiResult<()>)
    ensures
        ({
            let wrong = media_history_complaint(
                history_size,
                media_batch,
                batch,
                time,
                require_config_history,
            );
            &&& r is Ok <==> wrong is None
            &&& r matches Err(e) ==> e.is(SwmStatus::InvalidArgument, wrong->0)
        }),
{
    if batch == 0 || time == 0 {
        return Err(
            FfiError::invalid("LeWM media history batch and time must be greater than zero"),
        );
    }
    if require_config_history {
        require_frames(history_size, time)?;
    }
    let expected: usize = match batch.checked_mul(time) {
        Some(n) => n,
        None => {
            return Err(FfiError::invalid("LeWM media history batch overflow"));
        },
    };
    if media_batch != expected {
        let text = with_numbers(
            "LeWM media buffer batch ",
            media_batch,
            " must equal batch*time ",
            expected,
            "",
        );
        proof {
            reveal_strlit("");
            assert(text@ =~= media_history_complaint(
                history_size,
                media_batch,
                batch,
                time,
                require_config_history,
            )->0);
        }
        return Err(FfiError::invalid_text(text));
    }
    Ok(())
}

fn size_text(front: &str, size: usize, height: usize, width: usize) -> (r: String)
    ensures
        r@ == front@ + decimal(size as nat) + ", got "@ + decimal(height as nat) + "x"@ + decimal(
            width as nat,
        ),
{
    let mut text = String::from_str(front);
    text.append(decimal_text(size as u64).as_str());
    text.append(", got ");
    text.append(decimal_text(height as u64).as_str());
    text.append("x");
    text.append(decimal_text(width as u64).as_str());
    text
}

} // verus!
