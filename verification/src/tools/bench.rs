//! What the benchmarks measure, row by row.

use candle_core::DType;
use candle_core::Device;
use candle_core::Tensor;
use vstd::prelude::*;

use crate::checkpoint::empty_var_builder;
use crate::error::{lift, message, Result, SwmError};
use crate::ffi::lewm::{scores_for, SwmLeWm};
use crate::ffi::outputs::{OutputsWanted, PlanOutputs};
use crate::ffi::planning::{cem_call, icem_call, mppi_call, start_of};
use crate::ffi::settings::{is_cem, is_icem, is_mppi};
use crate::ffi::status::{FfiError, FfiResult, SwmStatus};
use crate::media::launch::MediaOutputLayout;
use crate::media::preprocessor::{ImagePreprocessor, Nv12Preprocessor};
use crate::media::shape::{
    ImagePreprocess, Nv12ColorSpace, Nv12ImageShape, PackedImageFormat, PackedImageShape,
};
use crate::media::tensors::{
    nv12_tensors, packed_alloc_complaint, packed_u8_tensor, planes_alloc_complaint,
};
use crate::models::lewm::config::LeWmConfig;
use crate::models::lewm::goal::{goal_complaint, is_goal_cost};
use crate::models::lewm::model::{images_complaint, LeWm};
use crate::planner::config::{CemConfig, IcemConfig, MppiConfig};
use crate::planner::noise::{DeviceNoise, NoiseSource};
use crate::session::lewm::{for_samples, LeWmGoalScorer};
use crate::tensor::layers::is_fresh;
use crate::tensor::layout::{broadcast_as, unsqueeze};
use crate::tensor::make::filled;
use crate::tensor::ranks::{dims3, element_count, rank_complaint};
use crate::tensor::select::{pick_step, step_of};
use crate::tensor::value::{
    count, device_location, dtype_element, spreads, tensor_dims, tensor_element, tensor_location,
    value, ElementType, Location, TensorValue,
};
use crate::tools::arguments::{
    bench_complaint, bench_elites, bench_plans, elites_for, plans_for, BenchPlans,
};

verus! {

/// A row of a benchmark.
#[derive(Debug, Clone, Copy, PartialEq, Eq, Structural)]
pub enum BenchRow {
    MediaJpeg,
    MediaPacked,
    MediaNv12,
    Encode,
    Rollout,
    Cost,
    Dynamics,
    Score,
    Full,
    PolicyRollout,
    PolicySampleFixed,
    PolicySampleGenerated,
    FfiActorMean,
    FfiPolicyRoll,
    FfiPolicySamp,
    PlanCem,
    PlanMppi,
    PlanIcem,
    FfiPlanCem,
    FfiPlanMppi,
    FfiPlanIcem,
}

impl BenchRow {
    /// What a row is called.
    pub open spec fn called(self) -> Seq<char> {
        match self {
            BenchRow::MediaJpeg => "media_jpeg"@,
            BenchRow::MediaPacked => "media_packed"@,
            BenchRow::MediaNv12 => "media_nv12"@,
            BenchRow::Encode => "encode"@,
            BenchRow::Rollout => "rollout"@,
            BenchRow::Cost => "cost"@,
            BenchRow::Dynamics => "dynamics"@,
            BenchRow::Score => "score"@,
            BenchRow::Full => "full"@,
            BenchRow::PolicyRollout => "policy_rollout"@,
            BenchRow::PolicySampleFixed => "policy_sample_fixed"@,
            BenchRow::PolicySampleGenerated => "policy_sample_generated"@,
            BenchRow::FfiActorMean => "ffi_actor_mean"@,
            BenchRow::FfiPolicyRoll => "ffi_policy_roll"@,
            BenchRow::FfiPolicySamp => "ffi_policy_samp"@,
            BenchRow::PlanCem => "plan_cem"@,
            BenchRow::PlanMppi => "plan_mppi"@,
            BenchRow::PlanIcem => "plan_icem"@,
            BenchRow::FfiPlanCem => "ffi_plan_cem"@,
            BenchRow::FfiPlanMppi => "ffi_plan_mppi"@,
            BenchRow::FfiPlanIcem => "ffi_plan_icem"@,
        }
    }

    pub fn name(self) -> (r: &'static str)
        ensures
            r@ == self.called(),
    {
        match self {
            BenchRow::MediaJpeg => "media_jpeg",
            BenchRow::MediaPacked => "media_packed",
            BenchRow::MediaNv12 => "media_nv12",
            BenchRow::Encode => "encode",
            BenchRow::Rollout => "rollout",
            BenchRow::Cost => "cost",
            BenchRow::Dynamics => "dynamics",
            BenchRow::Score => "score",
            BenchRow::Full => "full",
            BenchRow::PolicyRollout => "policy_rollout",
            BenchRow::PolicySampleFixed => "policy_sample_fixed",
            BenchRow::PolicySampleGenerated => "policy_sample_generated",
            BenchRow::FfiActorMean => "ffi_actor_mean",
            BenchRow::FfiPolicyRoll => "ffi_policy_roll",
            BenchRow::FfiPolicySamp => "ffi_policy_samp",
            BenchRow::PlanCem => "plan_cem",
            BenchRow::PlanMppi => "plan_mppi",
            BenchRow::PlanIcem => "plan_icem",
            BenchRow::FfiPlanCem => "ffi_plan_cem",
            BenchRow::FfiPlanMppi => "ffi_plan_mppi",
            BenchRow::FfiPlanIcem => "ffi_plan_icem",
        }
    }

    /// Whether a kernel or a decoder of the device does the work of a row.
    pub open spec fn is_media(self) -> bool {
        self is MediaJpeg || self is MediaPacked || self is MediaNv12
    }
}

/// The rows of the LeWM benchmark, in their order.
pub fn lewm_rows() -> (r: Vec<BenchRow>)
    ensures
        r@ == seq![
            BenchRow::MediaPacked,
            BenchRow::MediaNv12,
            BenchRow::Encode,
            BenchRow::Rollout,
            BenchRow::Cost,
            BenchRow::Full,
            BenchRow::FfiPlanCem,
            BenchRow::FfiPlanMppi,
            BenchRow::FfiPlanIcem,
        ],
{
    vec![
        BenchRow::MediaPacked,
        BenchRow::MediaNv12,
        BenchRow::Encode,
        BenchRow::Rollout,
        BenchRow::Cost,
        BenchRow::Full,
        BenchRow::FfiPlanCem,
        BenchRow::FfiPlanMppi,
        BenchRow::FfiPlanIcem,
    ]
}

/// The rows of the TD-MPC2 benchmark without a picture.
pub open spec fn tdmpc2_row_list() -> Seq<BenchRow> {
    seq![
        BenchRow::MediaPacked,
        BenchRow::MediaNv12,
        BenchRow::Encode,
        BenchRow::Dynamics,
        BenchRow::Score,
        BenchRow::Full,
        BenchRow::PolicyRollout,
        BenchRow::PolicySampleFixed,
        BenchRow::PolicySampleGenerated,
        BenchRow::FfiActorMean,
        BenchRow::FfiPolicyRoll,
        BenchRow::FfiPolicySamp,
        BenchRow::PlanCem,
        BenchRow::FfiPlanCem,
        BenchRow::FfiPlanMppi,
        BenchRow::FfiPlanIcem,
        BenchRow::PlanMppi,
        BenchRow::PlanIcem,
    ]
}

/// The rows of the TD-MPC2 benchmark, in their order. A picture comes first.
pub fn tdmpc2_rows(jpeg: bool) -> (r: Vec<BenchRow>)
    ensures
        r@ == if jpeg {
            seq![BenchRow::MediaJpeg] + tdmpc2_row_list()
        } else {
            tdmpc2_row_list()
        },
{
    let mut out: Vec<BenchRow> = Vec::new();
    if jpeg {
        out.push(BenchRow::MediaJpeg);
    }
    out.push(BenchRow::MediaPacked);
    out.push(BenchRow::MediaNv12);
    out.push(BenchRow::Encode);
    out.push(BenchRow::Dynamics);
    out.push(BenchRow::Score);
    out.push(BenchRow::Full);
    out.push(BenchRow::PolicyRollout);
    out.push(BenchRow::PolicySampleFixed);
    out.push(BenchRow::PolicySampleGenerated);
    out.push(BenchRow::FfiActorMean);
    out.push(BenchRow::FfiPolicyRoll);
    out.push(BenchRow::FfiPolicySamp);
    out.push(BenchRow::PlanCem);
    out.push(BenchRow::FfiPlanCem);
    out.push(BenchRow::FfiPlanMppi);
    out.push(BenchRow::FfiPlanIcem);
    out.push(BenchRow::PlanMppi);
    out.push(BenchRow::PlanIcem);
    proof {
        if jpeg {
            assert(out@ =~= seq![BenchRow::MediaJpeg] + tdmpc2_row_list());
        } else {
            assert(out@ =~= tdmpc2_row_list());
        }
    }
    out
}

/// The sizes of a benchmark.
#[derive(Debug, Clone, Copy, PartialEq, Eq, Structural)]
pub struct BenchSizes {
    pub batch_size: usize,
    pub samples: usize,
    pub horizon: usize,
    pub planner_iterations: usize,
    pub elites: Option<usize>,
    pub state_dim: usize,
    pub action_dim: usize,
}

/// What a status is called in messages.
pub open spec fn status_said(s: SwmStatus) -> Seq<char> {
    match s {
        SwmStatus::Success => "Ok"@,
        SwmStatus::NullPointer => "NullPointer"@,
        SwmStatus::InvalidArgument => "InvalidArgument"@,
        SwmStatus::RuntimeError => "RuntimeError"@,
        SwmStatus::Panic => "Panic"@,
    }
}

fn status_name(s: SwmStatus) -> (r: &'static str)
    ensures
        r@ == status_said(s),
{
    match s {
        SwmStatus::Success => "Ok",
        SwmStatus::NullPointer => "NullPointer",
        SwmStatus::InvalidArgument => "InvalidArgument",
        SwmStatus::RuntimeError => "RuntimeError",
        SwmStatus::Panic => "Panic",
    }
}

/// Whether an error of a benchmark tells of a failed call of the C interface.
pub open spec fn tells_of(e: SwmError, call: FfiError) -> bool {
    e.says("C ABI call failed with "@ + status_said(call.status) + ": "@ + call.message@)
}

/// Turns a failed call of the C interface into an error of a benchmark.
pub fn ensure_ffi_status<T>(r: FfiResult<T>) -> (o: Result<T>)
    ensures
        r matches Ok(t) ==> o == Ok::<T, SwmError>(t),
        r matches Err(e) ==> o is Err && tells_of(o->Err_0, e),
{
    match r {
        Ok(t) => Ok(t),
        Err(e) => {
            let mut text = String::from_str("C ABI call failed with ");
            text.append(status_name(e.status));
            text.append(": ");
            text.append(e.message.as_str());
            Err(SwmError::Message(text))
        },
    }
}

/// Images and planes of a benchmark, with the preprocessors for them.
pub struct BenchMedia {
    pub packed_pixels: Tensor,
    pub packed: ImagePreprocessor,
    pub nv12_y: Tensor,
    pub nv12_uv: Tensor,
    pub nv12: Nv12Preprocessor,
}

/// Bytes that are all zero.
pub open spec fn no_light(dims: Seq<usize>, location: Location) -> TensorValue {
    TensorValue { dims, keys: filled(dims, 0), element: ElementType::U8, location }
}

impl BenchMedia {
    /// The images of a benchmark.
    pub open spec fn packed_shape(frames: usize, size: usize) -> PackedImageShape {
        PackedImageShape {
            batch: frames,
            height: size,
            width: size,
            format: PackedImageFormat::Rgb,
        }
    }

    /// The planes of a benchmark.
    pub open spec fn planes_shape(frames: usize, size: usize) -> Nv12ImageShape {
        Nv12ImageShape { batch: frames, height: size, width: size }
    }

    /// The first thing wrong with frames and how they are to be prepared.
    pub open spec fn complaint(
        frames: usize,
        size: usize,
        config: ImagePreprocess,
        location: Location,
    ) -> Option<Seq<char>> {
        let packed = Self::packed_shape(frames, size);
        let planes = Self::planes_shape(frames, size);
        if packed_alloc_complaint(packed, location, "packed_u8_tensor"@) is Some {
            packed_alloc_complaint(packed, location, "packed_u8_tensor"@)
        } else if ImagePreprocessor::complaint(packed, config, location) is Some {
            ImagePreprocessor::complaint(packed, config, location)
        } else if planes_alloc_complaint(planes, location, "nv12_tensors"@) is Some {
            planes_alloc_complaint(planes, location, "nv12_tensors"@)
        } else {
            Nv12Preprocessor::complaint(planes, config, location)
        }
    }

    /// Blank frames of a size, which are prepared in the same size.
    pub fn new(device: &Device, frames: usize, size: usize, config: ImagePreprocess) -> (r: Result<
        Self,
    >)
        ensures
            !(device_location(*device) is Cuda) ==> r is Err,
            frames == 0 || size == 0 ==> r is Err,
            packed_alloc_complaint(
                Self::packed_shape(frames, size),
                device_location(*device),
                "packed_u8_tensor"@,
            ) matches Some(text) ==> r is Err && r->Err_0.says(text),
            Self::complaint(frames, size, config, device_location(*device)) is Some ==> r is Err,
            r matches Err(SwmError::Message(m)) ==> Self::complaint(
                frames,
                size,
                config,
                device_location(*device),
            ) == Some(m@),
            r matches Ok(m) ==> {
                let place = device_location(*device);
                let output = MediaOutputLayout::Latest.dims(frames, config);
                &&& m.packed.shape() == Self::packed_shape(frames, size)
                &&& m.packed.settings() == config
                &&& m.packed.output_dims() == output && m.packed.place() == place
                &&& m.nv12.shape() == Self::planes_shape(frames, size)
                &&& m.nv12.colors() is Bt709Video
                &&& m.nv12.settings() == config
                &&& m.nv12.output_dims() == output && m.nv12.place() == place
                &&& value(m.packed_pixels) == no_light(m.packed.shape().dims(), place)
                &&& value(m.nv12_y) == no_light(m.nv12.shape().y_dims(), place)
                &&& value(m.nv12_uv) == no_light(m.nv12.shape().uv_dims(), place)
            },
    {
        let packed_shape = PackedImageShape::new(frames, size, size, PackedImageFormat::Rgb);
        let packed_pixels = packed_u8_tensor(packed_shape, device)?;
        let packed = ImagePreprocessor::new(device, packed_shape, config)?;
        let nv12_shape = Nv12ImageShape::new(frames, size, size);
        let (nv12_y, nv12_uv) = nv12_tensors(nv12_shape, device)?;
        let nv12 = Nv12Preprocessor::new(device, nv12_shape, Nv12ColorSpace::Bt709Video, config)?;
        Ok(Self { packed_pixels, packed, nv12_y, nv12_uv, nv12 })
    }
}

/// All that a plan can tell.
pub open spec fn everything() -> OutputsWanted {
    OutputsWanted { action: true, sequence: true, best_costs: true }
}

pub(crate) fn want_everything() -> (r: OutputsWanted)
    ensures
        r == everything(),
{
    OutputsWanted { action: true, sequence: true, best_costs: true }
}

/// The LeWM benchmark: a model, its inputs and a handle with a goal.
pub struct LeWmBench {
    pub model: LeWm,
    pub pixels: Tensor,
    pub actions: Tensor,
    pub emb_init: Tensor,
    pub rollout: Tensor,
    pub goal: Tensor,
    pub handle: SwmLeWm,
    pub plans: BenchPlans,
}

/// What a row comes to.
pub enum BenchOutput {
    /// The row is the work of a kernel or a decoder, or of another benchmark.
    Elsewhere,
    Value(Tensor),
    Plan(PlanOutputs),
}

fn last_step(emb: &Tensor) -> (r: Result<Tensor>)
    ensures
        tensor_dims(*emb).len() != 3 ==> r is Err && r->Err_0.says(
            rank_complaint(3, tensor_dims(*emb)),
        ),
        tensor_dims(*emb).len() == 3 && tensor_dims(*emb)[1] == 0 ==> r is Err && r->Err_0.says(
            "LeWM benchmark needs at least one frame"@,
        ),
        tensor_dims(*emb).len() == 3 && tensor_dims(*emb)[1] > 0 ==> r is Ok && step_of(
            value(*emb),
            tensor_dims(*emb)[1] - 1,
            value(r->Ok_0),
        ),
{
    let (b, t, d) = dims3(emb)?;
    if t == 0 {
        return Err(message("LeWM benchmark needs at least one frame"));
    }
    pick_step(emb, t - 1)
}

/// What is wrong with embeddings that are to be repeated for samples.
pub open spec fn spread_complaint(emb: Seq<usize>, batch: usize, samples: usize) -> Option<
    Seq<char>,
> {
    if emb.len() != 3 {
        Some(rank_complaint(3, emb))
    } else if count(seq![batch, samples, emb[1], emb[2]]) > usize::MAX {
        Some("LeWM benchmark shape overflowed"@)
    } else {
        None
    }
}

/// Repeats embeddings for every sample. They must be those of as many rows, or of
/// one that stands for all.
fn spread_history(emb: &Tensor, batch: usize, samples: usize) -> (r: Result<Tensor>)
    ensures
        spread_complaint(tensor_dims(*emb), batch, samples) matches Some(text) ==> r is Err
            && r->Err_0.says(text),
        spread_complaint(tensor_dims(*emb), batch, samples) is None ==> (r is Ok <==> tensor_dims(
            *emb,
        )[0] == batch || tensor_dims(*emb)[0] == 1) && (r matches Err(e) ==> e is Backend),
        r matches Ok(o) ==> value(o) == for_samples(value(*emb), batch, samples) && tensor_dims(o)
            == seq![batch, samples, tensor_dims(*emb)[1], tensor_dims(*emb)[2]],
{
    let (b, h, d) = dims3(emb)?;
    let shape: [usize; 4] = [batch, samples, h, d];
    proof {
        assert(shape@ =~= seq![batch, samples, h, d]);
    }
    if element_count(&shape).is_none() {
        return Err(message("LeWM benchmark shape overflowed"));
    }
    let column = lift(unsqueeze(emb, 1))?;
    proof {
        let (src, dst) = (seq![b, 1usize, h, d], seq![batch, samples, h, d]);
        assert(tensor_dims(*emb).insert(1, 1) =~= src);
        if spreads(src, dst) {
            assert(src[0] == dst[0] || src[0] == 1);
        }
    }
    lift(broadcast_as(&column, &shape))
}

/// Images that can be embedded show at least one frame.
proof fn lemma_frames_shown(patch_size: usize, pixels: Seq<usize>)
    requires
        images_complaint(patch_size, pixels) is None,
    ensures
        pixels.len() == 5,
        pixels[1] > 0,
{
    let (b, t) = (pixels[0] as int, pixels[1] as int);
    assert(t != 0) by (nonlinear_arith)
        requires
            b * t != 0,
    ;
}

/// Nothing is wrong with the settings of the tiny model.
proof fn lemma_tiny_is_sound(config: LeWmConfig, action_dim: usize)
    requires
        config.tiny_patch14(action_dim),
    ensures
        config.complaint() is None,
{
}

impl LeWmBench {
    /// The model works, and so does the planner of the handle.
    pub open spec fn well_formed(self) -> bool {
        self.model.well_formed() && self.handle.well_formed()
    }

    /// The stored embeddings, rollout and goal come from the images and the
    /// actions.
    pub open spec fn prepared(self, sizes: BenchSizes) -> bool {
        exists|emb: TensorValue|
            {
                &&& #[trigger] self.model.encodes(value(self.pixels), emb)
                &&& value(self.emb_init) == for_samples(emb, sizes.batch_size, sizes.samples)
                &&& step_of(emb, emb.dims[1] - 1, value(self.goal))
                &&& self.model.rolls_out(
                    value(self.emb_init),
                    value(self.actions),
                    self.model.cfg.history_size as int,
                    value(self.rollout),
                )
            }
    }

    /// The shape of the embeddings of images, repeated for samples.
    pub open spec fn start_dims(sizes: BenchSizes, pixels: Seq<usize>) -> Seq<usize> {
        seq![sizes.batch_size, sizes.samples, pixels[1], 192]
    }

    /// The first thing wrong with images and actions before any row is rolled out.
    pub open spec fn inputs_complaint(
        sizes: BenchSizes,
        pixels: Seq<usize>,
        actions: Seq<usize>,
    ) -> Option<Seq<char>> {
        if images_complaint(14, pixels) is Some {
            images_complaint(14, pixels)
        } else if count(Self::start_dims(sizes, pixels)) > usize::MAX {
            Some("LeWM benchmark shape overflowed"@)
        } else {
            LeWm::rollout_complaint(Self::start_dims(sizes, pixels), actions)
        }
    }

    /// The first thing wrong with what a benchmark is set up with.
    pub open spec fn setup_complaint(
        sizes: BenchSizes,
        pixels: Seq<usize>,
        actions: Seq<usize>,
    ) -> Option<Seq<char>> {
        if Self::inputs_complaint(sizes, pixels, actions) is Some {
            Self::inputs_complaint(sizes, pixels, actions)
        } else {
            bench_complaint("LeWM planner"@, sizes.samples, sizes.planner_iterations, sizes.elites)
        }
    }

    /// The model and the handle have new parameters of an element type at a place,
    /// and the handle works there.
    pub open spec fn is_new(self, e: ElementType, location: Location) -> bool {
        &&& exists|s: int| #[trigger] is_fresh(s, e, location) && self.model.loaded(s, Seq::empty())
        &&& exists|s: int| #[trigger]
            is_fresh(s, e, location) && self.handle.session.held().loaded(s, Seq::empty())
        &&& self.handle.session.element() == e
        &&& self.handle.session.location() == location
    }

    /// What can be said of a benchmark when it is set up: the first thing wrong, or
    /// what the tiny model says of its first rollout.
    pub open spec fn setup_says(
        sizes: BenchSizes,
        pixels: Seq<usize>,
        actions: Seq<usize>,
        text: Seq<char>,
    ) -> bool {
        ||| Self::setup_complaint(sizes, pixels, actions) == Some(text)
        ||| Self::inputs_complaint(sizes, pixels, actions) is None && exists|model: LeWm|
            model.well_formed() && model.cfg.tiny_patch14(sizes.action_dim)
                && #[trigger] model.rollout_says(
                Self::start_dims(sizes, pixels),
                actions,
                3,
                text,
            )
    }

    /// Sets the benchmark up with images and action candidates.
    pub fn new(
        sizes: BenchSizes,
        device: &Device,
        dtype: DType,
        pixels: Tensor,
        actions: Tensor,
    ) -> (r: Result<Self>)
        ensures
            bench_complaint(
                "LeWM planner"@,
                sizes.samples,
                sizes.planner_iterations,
                sizes.elites,
            ) is Some ==> r is Err,
            Self::setup_complaint(sizes, tensor_dims(pixels), tensor_dims(actions)) is Some
                ==> r is Err,
            tensor_dims(pixels).len() == 5 && tensor_dims(pixels)[0] != sizes.batch_size
                && tensor_dims(pixels)[0] != 1 ==> r is Err,
            r matches Err(SwmError::Message(m)) ==> Self::setup_says(
                sizes,
                tensor_dims(pixels),
                tensor_dims(actions),
                m@,
            ),
            r matches Ok(b) ==> {
                &&& b.well_formed()
                &&& b.pixels == pixels
                &&& b.actions == actions
                &&& b.model.cfg.tiny_patch14(sizes.action_dim)
                &&& b.handle.session.held().cfg.tiny_patch14(sizes.action_dim)
                &&& b.is_new(dtype_element(dtype), device_location(*device))
                &&& b.prepared(sizes)
                &&& b.handle.goal_emb is Some
                &&& b.handle.session.embedding() is Some
                &&& b.handle.action_dim == sizes.action_dim
                &&& b.plans == plans_for(
                    sizes.horizon,
                    sizes.samples,
                    elites_for(sizes.samples, sizes.elites),
                    sizes.planner_iterations,
                )
            },
    {
        let store = empty_var_builder(dtype, device);
        let config = LeWmConfig::tiny_patch14_224(sizes.action_dim);
        proof {
            lemma_tiny_is_sound(config, sizes.action_dim);
        }
        let model = LeWm::new(config, &store)?;
        let ghost (p, a) = (tensor_dims(pixels), tensor_dims(actions));
        let ghost start = Self::start_dims(sizes, p);
        proof {
            assert(model.pixels_complaint(p) == images_complaint(14, p));
        }
        let emb = model.encode_pixels(&pixels)?;
        proof {
            assert(images_complaint(14, p) is None);
            lemma_frames_shown(14, p);
            assert(tensor_dims(emb) =~= seq![p[0], p[1], 192usize]);
            assert(seq![
                sizes.batch_size,
                sizes.samples,
                tensor_dims(emb)[1],
                tensor_dims(emb)[2],
            ] =~= start);
        }
        let emb_init = spread_history(&emb, sizes.batch_size, sizes.samples)?;
        let rollout = match model.rollout_embeddings(&emb_init, &actions) {
            Ok(t) => t,
            Err(e) => {
                proof {
                    if e is Message && LeWm::rollout_complaint(start, a) is None {
                        assert(model.rollout_says(start, a, 3, e->Message_0@));
                    }
                    assert(e is Message ==> Self::setup_says(sizes, p, a, e->Message_0@));
                }
                return Err(e);
            },
        };
        proof {
            assert(Self::inputs_complaint(sizes, p, a) is None);
        }
        let goal = last_step(&emb)?;
        let elites: usize = bench_elites(
            "LeWM planner",
            sizes.samples,
            sizes.planner_iterations,
            sizes.elites,
        )?;
        let handle_config = LeWmConfig::tiny_patch14_224(sizes.action_dim);
        proof {
            lemma_tiny_is_sound(handle_config, sizes.action_dim);
        }
        let handle = SwmLeWm::synthetic_for_bench(
            handle_config,
            dtype,
            device,
            &pixels,
            &goal,
        )?;
        let plans = bench_plans(sizes.horizon, sizes.samples, elites, sizes.planner_iterations);
        proof {
            assert(model.encodes(value(pixels), value(emb)));
        }
        Ok(Self { model, pixels, actions, emb_init, rollout, goal, handle, plans })
    }

    /// The shape of drawn images.
    pub open spec fn drawn_pixels(sizes: BenchSizes) -> Seq<usize> {
        seq![sizes.batch_size, 3, 3, 224, 224]
    }

    /// The shape of drawn action candidates.
    pub open spec fn drawn_actions(sizes: BenchSizes) -> Seq<usize> {
        seq![sizes.batch_size, sizes.samples, sizes.horizon, sizes.action_dim]
    }

    /// Whether a machine integer can hold the elements of every drawn input.
    pub open spec fn draws_fit(sizes: BenchSizes) -> bool {
        count(Self::drawn_pixels(sizes)) <= usize::MAX && count(Self::drawn_actions(sizes))
            <= usize::MAX
    }

    /// Sets the benchmark up with images and action candidates that are drawn on
    /// the device.
    pub fn drawn(sizes: BenchSizes, device: &Device, dtype: DType) -> (r: Result<Self>)
        ensures
            bench_complaint(
                "LeWM planner"@,
                sizes.samples,
                sizes.planner_iterations,
                sizes.elites,
            ) is Some ==> r is Err,
            count(Self::drawn_pixels(sizes)) > usize::MAX ==> r is Err && r->Err_0.says(
                "noise shape overflowed"@,
            ),
            !Self::draws_fit(sizes) || Self::setup_complaint(
                sizes,
                Self::drawn_pixels(sizes),
                Self::drawn_actions(sizes),
            ) is Some ==> r is Err,
            r matches Err(SwmError::Message(m)) ==> if Self::draws_fit(sizes) {
                Self::setup_says(
                    sizes,
                    Self::drawn_pixels(sizes),
                    Self::drawn_actions(sizes),
                    m@,
                )
            } else {
                m@ == "noise shape overflowed"@
            },
            r matches Ok(b) ==> {
                &&& b.well_formed()
                &&& tensor_dims(b.pixels) == Self::drawn_pixels(sizes)
                &&& tensor_dims(b.actions) == Self::drawn_actions(sizes)
                &&& tensor_element(b.pixels) == dtype_element(dtype)
                &&& tensor_location(b.pixels) == device_location(*device)
                &&& tensor_element(b.actions) == dtype_element(dtype)
                &&& tensor_location(b.actions) == device_location(*device)
                &&& b.is_new(dtype_element(dtype), device_location(*device))
                &&& b.model.cfg.tiny_patch14(sizes.action_dim)
                &&& b.prepared(sizes)
                &&& b.handle.goal_emb is Some
            },
    {
        let mut noise = DeviceNoise;
        let frames: [usize; 5] = [sizes.batch_size, 3, 3, 224, 224];
        let moves: [usize; 4] = [sizes.batch_size, sizes.samples, sizes.horizon, sizes.action_dim];
        proof {
            assert(frames@ =~= seq![sizes.batch_size, 3usize, 3usize, 224usize, 224usize]);
            assert(moves@ =~= seq![
                sizes.batch_size,
                sizes.samples,
                sizes.horizon,
                sizes.action_dim,
            ]);
        }
        let pixels = noise.standard_normal(&frames, dtype, device)?;
        let actions = noise.standard_normal(&moves, dtype, device)?;
        LeWmBench::new(sizes, device, dtype, pixels, actions)
    }

    /// The whole way from images to costs.
    pub open spec fn full(self, r: TensorValue) -> bool {
        exists|emb: TensorValue, goal: TensorValue, rollout: TensorValue|
            {
                &&& #[trigger] self.model.encodes(value(self.pixels), emb)
                &&& #[trigger] step_of(emb, emb.dims[1] - 1, goal)
                &&& #[trigger] self.model.rolls_out(
                    for_samples(
                        emb,
                        value(self.emb_init).dims[0],
                        value(self.emb_init).dims[1],
                    ),
                    value(self.actions),
                    self.model.cfg.history_size as int,
                    rollout,
                )
                &&& is_goal_cost(rollout, goal, r)
            }
    }

    /// The shape of the embeddings of the images, repeated as those at the start.
    pub open spec fn repeated_dims(self) -> Seq<usize> {
        seq![
            tensor_dims(self.emb_init)[0],
            tensor_dims(self.emb_init)[1],
            tensor_dims(self.pixels)[1],
            self.model.cfg.projector.output_dim,
        ]
    }

    /// The first thing wrong with what the whole way starts from.
    pub open spec fn full_complaint(self) -> Option<Seq<char>> {
        if tensor_dims(self.emb_init).len() != 4 {
            Some("LeWM benchmark needs embeddings of four axes"@)
        } else if self.model.pixels_complaint(tensor_dims(self.pixels)) is Some {
            self.model.pixels_complaint(tensor_dims(self.pixels))
        } else if count(self.repeated_dims()) > usize::MAX {
            Some("LeWM benchmark shape overflowed"@)
        } else {
            LeWm::rollout_complaint(self.repeated_dims(), tensor_dims(self.actions))
        }
    }

    /// What can be said on the whole way from images.
    pub open spec fn full_says(self, text: Seq<char>) -> bool {
        let (start, acts) = (self.repeated_dims(), tensor_dims(self.actions));
        if self.full_complaint() is Some {
            self.full_complaint() == Some(text)
        } else {
            ||| self.model.rollout_says(start, acts, self.model.cfg.history_size as int, text)
            ||| goal_complaint(
                seq![start[0], start[1], (acts[2] + 1) as usize, start[3]],
                seq![tensor_dims(self.pixels)[0], start[3]],
            ) == Some(text)
        }
    }

    fn run_full(&self) -> (r: Result<Tensor>)
        requires
            self.well_formed(),
        ensures
            tensor_dims(self.emb_init).len() != 4 ==> r is Err && r->Err_0.says(
                "LeWM benchmark needs embeddings of four axes"@,
            ),
            self.full_complaint() is Some ==> r is Err,
            r matches Err(SwmError::Message(m)) ==> self.full_says(m@),
            r matches Ok(o) ==> self.full(value(o)),
    {
        let d = crate::tensor::layout::dims(&self.emb_init);
        if d.len() != 4 {
            return Err(message("LeWM benchmark needs embeddings of four axes"));
        }
        let emb = self.model.encode_pixels(&self.pixels)?;
        proof {
            lemma_frames_shown(self.model.encoder.patch_size, tensor_dims(self.pixels));
            assert(tensor_dims(emb) =~= seq![
                tensor_dims(self.pixels)[0],
                tensor_dims(self.pixels)[1],
                self.model.cfg.projector.output_dim,
            ]);
            assert(seq![
                d@[0],
                d@[1],
                tensor_dims(emb)[1],
                tensor_dims(emb)[2],
            ] =~= self.repeated_dims());
        }
        let init = spread_history(&emb, d[0], d[1])?;
        let rollout = self.model.rollout_embeddings(&init, &self.actions)?;
        let goal = last_step(&emb)?;
        proof {
            assert(tensor_dims(goal) =~= seq![
                tensor_dims(self.pixels)[0],
                self.model.cfg.projector.output_dim,
            ]);
        }
        let cost = self.model.goal_cost(&rollout, &goal)?;
        proof {
            assert(self.model.encodes(value(self.pixels), value(emb)));
            assert(step_of(value(emb), value(emb).dims[1] - 1, value(goal)));
            assert(self.model.rolls_out(
                for_samples(
                    value(emb),
                    value(self.emb_init).dims[0],
                    value(self.emb_init).dims[1],
                ),
                value(self.actions),
                self.model.cfg.history_size as int,
                value(rollout),
            ));
        }
        Ok(cost)
    }

    /// A plan of the handle with CEM.
    pub open spec fn planned_cem(self, r: FfiResult<PlanOutputs>) -> bool {
        exists|c: CemConfig, scorer: LeWmGoalScorer|
            #[trigger] is_cem(c, self.plans.cem, self.handle.action_dim, self.handle.action_bounds)
                && #[trigger] scores_for(scorer, self.handle.session, self.handle.goal_emb->0)
                && cem_call(&scorer, c, everything(), r)
    }

    /// A plan of the handle with MPPI.
    pub open spec fn planned_mppi(self, r: FfiResult<PlanOutputs>) -> bool {
        exists|c: MppiConfig, scorer: LeWmGoalScorer|
            #[trigger] is_mppi(c, self.plans.mppi, self.handle.action_dim, self.handle.action_bounds)
                && #[trigger] scores_for(scorer, self.handle.session, self.handle.goal_emb->0)
                && mppi_call(&scorer, c, everything(), r)
    }

    /// A plan of the handle with iCEM, and what the next starts from.
    pub open spec fn planned_icem(self, r: FfiResult<PlanOutputs>, next: Option<Tensor>) -> bool {
        exists|c: IcemConfig, scorer: LeWmGoalScorer|
            #[trigger] is_icem(c, self.plans.icem, self.handle.action_dim, self.handle.action_bounds)
                && #[trigger] scores_for(scorer, self.handle.session, self.handle.goal_emb->0)
                && icem_call(&scorer, start_of(self.handle.icem_planner, c), everything(), r, next)
    }

    /// How a row fails.
    pub open spec fn row_failed(self, row: BenchRow, e: SwmError, next: Option<Tensor>) -> bool {
        let acts = tensor_dims(self.actions);
        match row {
            BenchRow::Encode => e matches SwmError::Message(m) ==> self.model.pixels_complaint(
                tensor_dims(self.pixels),
            ) == Some(m@),
            BenchRow::Rollout => e matches SwmError::Message(m) ==> match LeWm::rollout_complaint(
                tensor_dims(self.emb_init),
                acts,
            ) {
                Some(text) => m@ == text,
                None => self.model.rollout_says(
                    tensor_dims(self.emb_init),
                    acts,
                    self.model.cfg.history_size as int,
                    m@,
                ),
            },
            BenchRow::Cost => e matches SwmError::Message(m) ==> goal_complaint(
                tensor_dims(self.rollout),
                tensor_dims(self.goal),
            ) == Some(m@),
            BenchRow::Full => e matches SwmError::Message(m) ==> self.full_says(m@),
            BenchRow::FfiPlanCem => exists|f: FfiError|
                #[trigger] tells_of(e, f) && self.planned_cem(Err(f)),
            BenchRow::FfiPlanMppi => exists|f: FfiError|
                #[trigger] tells_of(e, f) && self.planned_mppi(Err(f)),
            BenchRow::FfiPlanIcem => exists|f: FfiError|
                #[trigger] tells_of(e, f) && self.planned_icem(Err(f), next),
            _ => false,
        }
    }

    /// Runs a row once.
    pub fn run(&mut self, row: BenchRow) -> (r: Result<BenchOutput>)
        requires
            old(self).well_formed(),
            old(self).handle.goal_emb is Some,
        ensures
            final(self).well_formed(),
            *final(self) == (LeWmBench {
                handle: SwmLeWm {
                    icem_planner: final(self).handle.icem_planner,
                    ..old(self).handle
                },
                ..*old(self)
            }),
            !(row is FfiPlanIcem) ==> *final(self) == *old(self),
            r matches Ok(o) ==> match row {
                BenchRow::Encode => o is Value && old(self).model.encodes(
                    value(old(self).pixels),
                    value(o->Value_0),
                ),
                BenchRow::Rollout => o is Value && old(self).model.rolls_out(
                    value(old(self).emb_init),
                    value(old(self).actions),
                    old(self).model.cfg.history_size as int,
                    value(o->Value_0),
                ),
                BenchRow::Cost => o is Value && is_goal_cost(
                    value(old(self).rollout),
                    value(old(self).goal),
                    value(o->Value_0),
                ),
                BenchRow::Full => o is Value && old(self).full(value(o->Value_0)),
                BenchRow::FfiPlanCem => o is Plan && old(self).planned_cem(Ok(o->Plan_0)),
                BenchRow::FfiPlanMppi => o is Plan && old(self).planned_mppi(Ok(o->Plan_0)),
                BenchRow::FfiPlanIcem => o is Plan && final(self).handle.icem_planner is Some
                    && old(self).planned_icem(Ok(o->Plan_0), final(self).handle.icem_planner->0.warm_start),
                _ => o is Elsewhere,
            },
            row.is_media() ==> r is Ok,
            r matches Err(e) ==> old(self).row_failed(
                row,
                e,
                match final(self).handle.icem_planner {
                    Some(p) => p.warm_start,
                    None => None,
                },
            ),
    {
        match row {
            BenchRow::Encode => Ok(BenchOutput::Value(self.model.encode_pixels(&self.pixels)?)),
            BenchRow::Rollout => Ok(
                BenchOutput::Value(self.model.rollout_embeddings(&self.emb_init, &self.actions)?),
            ),
            BenchRow::Cost => Ok(
                BenchOutput::Value(self.model.goal_cost(&self.rollout, &self.goal)?),
            ),
            BenchRow::Full => Ok(BenchOutput::Value(self.run_full()?)),
            BenchRow::FfiPlanCem => Ok(
                BenchOutput::Plan(
                    ensure_ffi_status(self.handle.plan_cem(self.plans.cem, want_everything()))?,
                ),
            ),
            BenchRow::FfiPlanMppi => Ok(
                BenchOutput::Plan(
                    ensure_ffi_status(self.handle.plan_mppi(self.plans.mppi, want_everything()))?,
                ),
            ),
            BenchRow::FfiPlanIcem => {
                let plan = ensure_ffi_status(
                    self.handle.plan_icem(self.plans.icem, want_everything()),
                )?;
                Ok(BenchOutput::Plan(plan))
            },
            _ => Ok(BenchOutput::Elsewhere),
        }
    }
}

} // verus!
