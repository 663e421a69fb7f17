//! A TD-MPC2 model behind the C interface.

use candle_core::DType;
use candle_core::Device;
use candle_core::Tensor;
use vstd::prelude::*;

use crate::artifact::{DeploymentArtifact, PreprocessConfig};
use crate::checkpoint::{
    content_complaint, content_reads, content_source, empty_var_builder, var_builder_from_content,
    CheckpointContent,
};
use crate::config::ModelConfig;
use crate::error::{message, Result, SwmError};
use crate::ffi::inputs::{
    action_bounds_from_schema, all_observed, bound_or, bounds_text, image_preprocess_from_config,
    layout_text, numbers_value, pixel_complaint, pixel_input_len, pixel_tensor, plainly_prepared,
    prepared_for, state_complaint, state_input_len,
    state_tensor, tdmpc2_observation_dims, SwmPixelLayout, MINUS_ONE,
};
use crate::ffi::media::{
    cached_nv12_preprocessor, cached_packed_preprocessor, color_space_from_ffi, image_refused,
    nv12_serves, packed_serves, planes_refused, same_preparation, SwmCudaImage, SwmCudaNv12,
};
use crate::ffi::outputs::{
    are_numbers, flatten2, flatten3, read_complaint, OutputsWanted, PlanOutputs,
};
use crate::ffi::planning::{
    cem_call, clear_icem_warm_start, icem_call, mppi_call, plan_cem, plan_icem, plan_mppi,
    start_of,
};
use crate::ffi::settings::{
    is_cem, is_icem, is_mppi, SwmCemPlanConfig, SwmIcemPlanConfig, SwmMppiPlanConfig,
};
use crate::ffi::status::{
    backend_failed, carry, failed_saying, FfiError, FfiResult, SwmStatus,
};
use crate::media::preprocessor::{
    ImagePreprocessor, Nv12Preprocessor, Nv12ToNchwF32, PackedU8ToNchwF32,
};
use crate::media::shape::{ImagePreprocess, Nv12ColorSpace};
use crate::media::tensors::{packed_complaint, planes_complaint};
use crate::models::tdmpc2::bins::{two_hot_complaint, two_hot_value};
use crate::models::tdmpc2::config::TdMpc2Config;
use crate::models::tdmpc2::model::{layers_complaint, settings_complaint, TdMpc2};
use crate::models::tdmpc2::state::{
    lemma_state_settings, state_settings_complaint, state_start_complaint,
};
use crate::planner::config::{unit_bounds, ActionBounds, CemConfig, IcemConfig, MppiConfig, ONE};
use crate::planner::icem::IcemPlanner;
use crate::scalar::F32;
use crate::session::tdmpc2::{lemma_state_held, lemma_state_refused, TdMpc2Session};
use crate::tensor::layers::{held_as, is_fresh, store_source};
use crate::tensor::value::{
    count, device_location, dtype_element, plain, tensor_dims, tensor_element, value, Location,
    TensorValue,
};
use crate::models::tdmpc2::encode::one_observation;

verus! {

/// A model, what it observes and the planner that it keeps.
pub struct SwmTdMpc2 {
    pub session: TdMpc2Session,
    pub state_dim: Option<usize>,
    pub image_size: Option<usize>,
    pub image_preprocess: Option<ImagePreprocess>,
    pub packed_preprocessor: Option<ImagePreprocessor>,
    pub nv12_preprocessor: Option<Nv12Preprocessor>,
    pub action_dim: usize,
    pub action_bounds: ActionBounds,
    pub icem_planner: Option<IcemPlanner>,
}

/// The first thing wrong with an artifact that should hold a TD-MPC2 model.
pub open spec fn artifact_complaint(artifact: DeploymentArtifact) -> Option<Seq<char>> {
    match artifact.config {
        ModelConfig::LeWm(_) => Some("swm_tdmpc2_load only supports tdmpc2 artifacts"@),
        ModelConfig::TdMpc2(c) => match all_observed(c) {
            Err(text) => Some(text),
            Ok(dims) => None,
        },
    }
}

/// What is said of an artifact whose ranges do not have the size of an action.
pub open spec fn artifact_bounds_text(
    artifact: DeploymentArtifact,
    action_dim: usize,
) -> Seq<char> {
    bounds_text(
        bound_or(
            artifact.schema.action.min,
            artifact.preprocess.action_min,
            MINUS_ONE,
            action_dim,
        ),
        bound_or(artifact.schema.action.max, artifact.preprocess.action_max, ONE, action_dim),
        action_dim,
    )
}

/// The ranges of an artifact have the width of its actions.
pub open spec fn bounds_fit(artifact: DeploymentArtifact, action_dim: usize) -> bool {
    &&& bound_or(
        artifact.schema.action.min,
        artifact.preprocess.action_min,
        MINUS_ONE,
        action_dim,
    ).len() == action_dim
    &&& bound_or(
        artifact.schema.action.max,
        artifact.preprocess.action_max,
        ONE,
        action_dim,
    ).len() == action_dim
}

/// The ranges that an artifact gives its actions.
pub open spec fn bounded_by(
    artifact: DeploymentArtifact,
    b: ActionBounds,
    action_dim: usize,
) -> bool {
    &&& b.low@ == bound_or(
        artifact.schema.action.min,
        artifact.preprocess.action_min,
        MINUS_ONE,
        action_dim,
    )
    &&& b.high@ == bound_or(
        artifact.schema.action.max,
        artifact.preprocess.action_max,
        ONE,
        action_dim,
    )
}

/// Whether an error speaks of settings that no model can be made from.
pub open spec fn settings_refused(cfg: TdMpc2Config, e: FfiError) -> bool {
    match settings_complaint(cfg) {
        Some(text) => e.is(SwmStatus::RuntimeError, text),
        None => e.status is RuntimeError && layers_complaint(cfg, e.message@),
    }
}

/// A list of two named tensors.
pub open spec fn both<'a>(a: &'a str, s: &'a Tensor, b: &'a str, t: &'a Tensor) -> Seq<
    (&'a str, &'a Tensor),
> {
    seq![(a, s), (b, t)]
}

impl SwmTdMpc2 {
    /// The planner that is kept is usable.
    pub open spec fn well_formed(self) -> bool {
        self.icem_planner matches Some(p) ==> p.well_formed()
    }

    /// Everything but the session stays.
    pub open spec fn same_but_session(self, other: Self) -> bool {
        self == (SwmTdMpc2 { session: self.session, ..other })
    }

    /// The session stands where it stood.
    pub open spec fn same_step(self, other: Self) -> bool {
        self.session.seen() == other.session.seen() && self.session.latent()
            == other.session.latent() && self.session.same_setting(other.session)
    }

    /// Puts a handle together from an artifact and from what its parameter file
    /// was read as.
    pub fn load(
        artifact: DeploymentArtifact,
        content: core::result::Result<CheckpointContent, String>,
        dtype: DType,
        device: &Device,
    ) -> (r: FfiResult<Self>)
        ensures
            artifact_complaint(artifact) matches Some(text) ==> r is Err && r->Err_0.is(
                SwmStatus::InvalidArgument,
                text,
            ),
            artifact_complaint(artifact) is None ==> (!bounds_fit(
                artifact,
                artifact.config->TdMpc2_0.action_dim,
            ) ==> r is Err && r->Err_0.is(
                SwmStatus::InvalidArgument,
                artifact_bounds_text(artifact, artifact.config->TdMpc2_0.action_dim),
            )),
            artifact_complaint(artifact) is None && bounds_fit(
                artifact,
                artifact.config->TdMpc2_0.action_dim,
            ) ==> match content {
                Err(text) => r is Err && r->Err_0.is(SwmStatus::RuntimeError, text@),
                Ok(c) => r matches Err(e) ==> backend_failed(e) || failed_saying(
                    e,
                    content_complaint(c),
                ) || settings_refused(artifact.config->TdMpc2_0, e),
            },
            artifact_complaint(artifact) is None && settings_complaint(
                artifact.config->TdMpc2_0,
            ) is Some ==> r is Err,
            r matches Ok(h) ==> content is Ok && h.session.held().loaded(
                content_source(content->Ok_0, dtype_element(dtype), device_location(*device)),
                Seq::empty(),
            ),
            r matches Ok(h) ==> {
                let c = artifact.config->TdMpc2_0;
                &&& h.well_formed()
                &&& h.session.held().cfg == c
                &&& h.session.element() == dtype_element(dtype)
                &&& h.session.location() == device_location(*device)
                &&& h.session.seen() is None
                &&& all_observed(c) == Ok::<_, Seq<char>>((h.state_dim, h.image_size))
                &&& h.action_dim == c.action_dim
                &&& bounded_by(artifact, h.action_bounds, c.action_dim)
                &&& h.image_preprocess is Some <==> h.image_size is Some
                &&& h.image_preprocess matches Some(p) ==> prepared_for(
                    p,
                    artifact.preprocess,
                    h.image_size->0,
                )
                &&& h.packed_preprocessor is None
                &&& h.nv12_preprocessor is None
                &&& h.icem_planner is None
            },
            artifact_complaint(artifact) is None && content is Ok && content_complaint(
                    content->Ok_0,
                ) is None && !content_reads(content->Ok_0) ==> r is Err,
            r matches Ok(h) ==> content->Ok_0 is Bytes && device_location(*device) is Cpu
                    ==> h.session.held().home(dtype_element(dtype)) && h.session.held().encoders_home(
                    dtype_element(dtype),
                ),
            artifact_complaint(artifact) is None && bounds_fit(
                    artifact,
                    artifact.config->TdMpc2_0.action_dim,
                ) && content is Ok && content->Ok_0 is Bytes && content_reads(content->Ok_0)
                    && device_location(*device) is Cpu && plain(dtype_element(dtype)) && settings_complaint(
                    artifact.config->TdMpc2_0,
                ) is None ==> (r is Ok <==> TdMpc2::stored(
                    content_source(content->Ok_0, dtype_element(dtype), Location::Cpu),
                    Seq::empty(),
                    artifact.config->TdMpc2_0,
                )),
    {
        let config = match artifact.config {
            ModelConfig::TdMpc2(c) => c,
            ModelConfig::LeWm(_) => {
                return Err(FfiError::invalid("swm_tdmpc2_load only supports tdmpc2 artifacts"));
            },
        };
        let (state_dim, image_size) = tdmpc2_observation_dims(&config)?;
        let action_dim: usize = config.action_dim;
        let action_bounds = action_bounds_from_schema(
            &artifact.schema,
            &artifact.preprocess,
            action_dim,
        )?;
        let image_preprocess = match image_size {
            Some(n) => Some(image_preprocess_from_config(&artifact.preprocess, n)),
            None => None,
        };
        let parameters = match content {
            Ok(c) => c,
            Err(text) => {
                return Err(FfiError::runtime_text(text));
            },
        };
        let store = carry(var_builder_from_content(parameters, dtype, device))?;
        proof {
            if content is Ok && content->Ok_0 is Bytes && device_location(*device) is Cpu {
                assert(held_as(store_source(store), dtype_element(dtype)));
            }
        }
        let model = carry(TdMpc2::new(config, &store))?;
        let session = TdMpc2Session::new(model, device.clone(), dtype);
        Ok(
            Self {
                session,
                state_dim,
                image_size,
                image_preprocess,
                packed_preprocessor: None,
                nv12_preprocessor: None,
                action_dim,
                action_bounds,
                icem_planner: None,
            },
        )
    }

    /// A handle with new parameters that has seen a state.
    pub fn synthetic_state_for_bench(
        state_dim: usize,
        action_dim: usize,
        dtype: DType,
        device: &Device,
        state: &Tensor,
    ) -> (r: Result<Self>)
        ensures
            state_settings_complaint(action_dim) matches Some(text) ==> r is Err && r->Err_0.says(
                text,
            ),
            state_start_complaint(state_dim, action_dim, tensor_dims(*state)) is Some ==> r is Err,
            r matches Err(SwmError::Message(m)) ==> state_start_complaint(
                state_dim,
                action_dim,
                tensor_dims(*state),
            ) == Some(m@),
            r matches Ok(h) ==> {
                &&& h.well_formed()
                &&& h.state_dim == Some(state_dim)
                &&& h.image_size is None
                &&& h.action_dim == action_dim
                &&& unit_bounds(h.action_bounds, action_dim)
                &&& h.session.held().cfg.sees_state(state_dim, action_dim)
                &&& exists|s: int| #[trigger]
                    is_fresh(s, dtype_element(dtype), device_location(*device))
                        && h.session.held().loaded(s, Seq::empty())
                &&& h.session.element() == dtype_element(dtype)
                &&& h.session.location() == device_location(*device)
                &&& exists|z: Tensor| #[trigger] h.session.holds(one_observation("state", state), z)
                &&& h.image_preprocess is None
                &&& h.packed_preprocessor is None
                &&& h.nv12_preprocessor is None
                &&& h.icem_planner is None
            },
    {
        let store = empty_var_builder(dtype, device);
        let config = TdMpc2Config::state_only(state_dim, action_dim);
        proof {
            lemma_state_settings(config, state_dim, action_dim);
        }
        let model = TdMpc2::new(config, &store)?;
        let mut session = TdMpc2Session::new(model, device.clone(), dtype);
        let ghost fresh = session;
        let z = match session.reset_state(state) {
            Ok(z) => z,
            Err(e) => {
                proof {
                    if e is Message {
                        lemma_state_refused(
                            fresh,
                            state_dim,
                            action_dim,
                            state,
                            e->Message_0@,
                        );
                    }
                }
                return Err(e);
            },
        };
        proof {
            lemma_state_held(session, state_dim, action_dim, state, z);
        }
        let action_bounds = ActionBounds::symmetric(action_dim, F32::from_bits(ONE));
        proof {
            assert(session.holds(one_observation("state", state), z));
        }
        Ok(
            Self {
                session,
                state_dim: Some(state_dim),
                image_size: None,
                image_preprocess: None,
                packed_preprocessor: None,
                nv12_preprocessor: None,
                action_dim,
                action_bounds,
                icem_planner: None,
            },
        )
    }

    /// The width of the state, or zero.
    pub fn state_dim(&self) -> (r: usize)
        ensures
            r == (match self.state_dim {
                Some(n) => n,
                None => 0,
            }),
    {
        match self.state_dim {
            Some(n) => n,
            None => 0,
        }
    }

    /// The size of the images, or zero.
    pub fn image_size(&self) -> (r: usize)
        ensures
            r == (match self.image_size {
                Some(n) => n,
                None => 0,
            }),
    {
        match self.image_size {
            Some(n) => n,
            None => 0,
        }
    }

    /// Whether a step needs a state and pixels.
    pub open spec fn needs_both(self) -> bool {
        self.state_dim is Some && self.image_size is Some
    }

    /// Refuses half of a step.
    pub fn refuse_half(&self, text: &str) -> (r: FfiResult<()>)
        ensures
            r is Ok <==> !self.needs_both(),
            r matches Err(e) ==> e.is(SwmStatus::InvalidArgument, text@),
    {
        if self.state_dim.is_some() && self.image_size.is_some() {
            return Err(FfiError::invalid(text));
        }
        Ok(())
    }

    /// The step was started with a state.
    pub open spec fn saw_state(self, state: TensorValue) -> bool {
        exists|t: Tensor, z: Tensor|
            value(t) == state && #[trigger] self.session.holds(one_observation("state", &t), z)
    }

    /// The step was started with frames.
    pub open spec fn saw_pixels(self, pixels: TensorValue) -> bool {
        exists|t: Tensor, z: Tensor|
            value(t) == pixels && #[trigger] self.session.holds(one_observation("pixels", &t), z)
    }

    /// The step was started with frames and a state.
    pub open spec fn saw_both(self, pixels: TensorValue, state: TensorValue) -> bool {
        exists|p: Tensor, s: Tensor, z: Tensor|
            value(p) == pixels && value(s) == state && #[trigger] self.session.holds(
                both("pixels", &p, "state", &s),
                z,
            )
    }

    /// Whether a state can have failed to start a step in this way.
    pub open spec fn refuses_state(self, state: TensorValue, e: FfiError) -> bool {
        backend_failed(e) || (e.status is RuntimeError && exists|t: Tensor|
            value(t) == state && #[trigger] self.session.reset_says(one_observation("state", &t), e.message@))
    }

    /// Whether frames can have failed to start a step in this way.
    pub open spec fn refuses_pixels(self, pixels: TensorValue, e: FfiError) -> bool {
        backend_failed(e) || (e.status is RuntimeError && exists|t: Tensor|
            value(t) == pixels && #[trigger] self.session.reset_says(
                one_observation("pixels", &t),
                e.message@,
            ))
    }

    /// Whether frames and a state can have failed to start a step in this way.
    pub open spec fn refuses_both(
        self,
        pixels: TensorValue,
        state: TensorValue,
        e: FfiError,
    ) -> bool {
        backend_failed(e) || (e.status is RuntimeError && exists|p: Tensor, s: Tensor|
            value(p) == pixels && value(s) == state && #[trigger] self.session.reset_says(
                both("pixels", &p, "state", &s),
                e.message@,
            ))
    }

    /// How many numbers the state of a step without pixels is made of.
    pub fn reset_state_len(&self, batch: usize, state_dim: usize) -> (r: FfiResult<usize>)
        ensures
            self.needs_both() ==> r is Err && r->Err_0.is(
                SwmStatus::InvalidArgument,
                "TD-MPC2 artifact also requires pixels; use swm_tdmpc2_reset_state_pixels"@,
            ),
            !self.needs_both() ==> (state_complaint(self.state_dim, batch, state_dim) matches Some(
                text,
            ) ==> r is Err && r->Err_0.is(SwmStatus::InvalidArgument, text)),
            !self.needs_both() && state_complaint(self.state_dim, batch, state_dim) is None
                ==> r is Ok && r->Ok_0 == batch * state_dim,
    {
        self.refuse_half("TD-MPC2 artifact also requires pixels; use swm_tdmpc2_reset_state_pixels")?;
        state_input_len(self.state_dim, batch, state_dim)
    }

    /// Starts a step with a state. Where it cannot be encoded, the step before
    /// stays.
    pub fn reset_state(
        &mut self,
        state: &[F32],
        batch: usize,
        state_dim: usize,
    ) -> (r: FfiResult<()>)
        requires
            state@.len() == batch * state_dim,
        ensures
            final(self).same_but_session(*old(self)),
            r matches Err(e) ==> final(self).same_step(*old(self)) && old(self).refuses_state(
                numbers_value(state@, seq![batch, state_dim], old(self).session.location()),
                e,
            ),
            r is Ok ==> final(self).session.same_setting(old(self).session)
                && final(self).saw_state(
                numbers_value(state@, seq![batch, state_dim], old(self).session.location()),
            ),
            forall|t: Tensor, lead: Seq<usize>|
                    value(t) == numbers_value(
                        state@,
                        seq![batch, state_dim],
                        old(self).session.location(),
                    ) && #[trigger] old(self).session.sees_here(
                        one_observation("state", &t),
                        lead,
                    ) ==> r is Ok,
    {
        let t = state_tensor(state, batch, state_dim, self.session.device())?;
        proof {
            assert(one_observation("state", &t) =~= seq![("state", &t)]);
            assert forall|u: Tensor, lead: Seq<usize>|
                value(u) == value(t) && #[trigger] self.session.sees_here(
                    one_observation("state", &u),
                    lead,
                ) implies self.session.sees_here(one_observation("state", &t), lead) by {
                self.session.lemma_sees_by_value(
                    one_observation("state", &u),
                    one_observation("state", &t),
                    lead,
                );
            }
        }
        let z = carry(self.session.reset_state(&t))?;
        proof {
            assert(self.session.holds(one_observation("state", &t), z));
        }
        Ok(())
    }

    /// How many numbers the frames of a step without a state are made of.
    pub fn reset_pixels_len(
        &self,
        batch: usize,
        height: usize,
        width: usize,
    ) -> (r: FfiResult<usize>)
        ensures
            self.needs_both() ==> r is Err && r->Err_0.is(
                SwmStatus::InvalidArgument,
                "TD-MPC2 artifact also requires state; use swm_tdmpc2_reset_state_pixels"@,
            ),
            !self.needs_both() ==> (pixel_complaint(
                self.image_size,
                batch,
                height,
                width,
            ) matches Some(text) ==> r is Err && r->Err_0.is(SwmStatus::InvalidArgument, text)),
            !self.needs_both() && pixel_complaint(self.image_size, batch, height, width) is None
                ==> r is Ok && r->Ok_0 == count(seq![batch, 3, height, width]),
    {
        self.refuse_half("TD-MPC2 artifact also requires state; use swm_tdmpc2_reset_state_pixels")?;
        pixel_input_len(self.image_size, batch, height, width)
    }

    /// The frames that numbers in a layout stand for.
    pub open spec fn frames(
        self,
        pixels: Seq<F32>,
        batch: usize,
        height: usize,
        width: usize,
        layout: i32,
    ) -> TensorValue {
        numbers_value(
            pixels,
            if layout == 0 {
                SwmPixelLayout::Nchw.dims(batch, height, width)
            } else {
                SwmPixelLayout::Nhwc.dims(batch, height, width)
            },
            self.session.location(),
        )
    }

    /// Starts a step with frames. Where they cannot be encoded, the step before
    /// stays.
    pub fn reset_pixels(
        &mut self,
        pixels: &[F32],
        batch: usize,
        height: usize,
        width: usize,
        layout: i32,
    ) -> (r: FfiResult<()>)
        requires
            pixels@.len() == count(seq![batch, 3, height, width]),
        ensures
            final(self).same_but_session(*old(self)),
            layout != 0 && layout != 1 ==> r is Err && r->Err_0.is(
                SwmStatus::InvalidArgument,
                layout_text(layout),
            ),
            layout == 0 || layout == 1 ==> (r matches Err(e) ==> old(self).refuses_pixels(
                old(self).frames(pixels@, batch, height, width, layout),
                e,
            )),
            r is Err ==> final(self).same_step(*old(self)),
            r is Ok ==> final(self).session.same_setting(old(self).session)
                && final(self).saw_pixels(
                old(self).frames(pixels@, batch, height, width, layout),
            ),
            layout == 0 || layout == 1 ==> forall|t: Tensor, lead: Seq<usize>|
                    value(t) == old(self).frames(pixels@, batch, height, width, layout)
                    && #[trigger] old(self).session.sees_here(
                        one_observation("pixels", &t),
                        lead,
                    ) ==> r is Ok,
    {
        let t = pixel_tensor(pixels, batch, height, width, layout, self.session.device())?;
        proof {
            assert(one_observation("pixels", &t) =~= seq![("pixels", &t)]);
            assert forall|u: Tensor, lead: Seq<usize>|
                value(u) == value(t) && #[trigger] self.session.sees_here(
                    one_observation("pixels", &u),
                    lead,
                ) implies self.session.sees_here(one_observation("pixels", &t), lead) by {
                self.session.lemma_sees_by_value(
                    one_observation("pixels", &u),
                    one_observation("pixels", &t),
                    lead,
                );
            }
        }
        let z = carry(self.session.reset_pixels(&t))?;
        proof {
            assert(self.session.holds(one_observation("pixels", &t), z));
        }
        Ok(())
    }

    /// Starts a step with a state and frames. Where they cannot be encoded, the
    /// step before stays.
    pub fn reset_state_pixels(
        &mut self,
        state: &[F32],
        pixels: &[F32],
        batch: usize,
        state_dim: usize,
        height: usize,
        width: usize,
        layout: i32,
    ) -> (r: FfiResult<()>)
        requires
            state@.len() == batch * state_dim,
            pixels@.len() == count(seq![batch, 3, height, width]),
        ensures
            final(self).same_but_session(*old(self)),
            layout != 0 && layout != 1 ==> r is Err && (backend_failed(r->Err_0) || r->Err_0.is(
                SwmStatus::InvalidArgument,
                layout_text(layout),
            )),
            layout == 0 || layout == 1 ==> (r matches Err(e) ==> old(self).refuses_both(
                old(self).frames(pixels@, batch, height, width, layout),
                numbers_value(state@, seq![batch, state_dim], old(self).session.location()),
                e,
            )),
            r is Err ==> final(self).same_step(*old(self)),
            r is Ok ==> final(self).session.same_setting(old(self).session) && final(self).saw_both(
                old(self).frames(pixels@, batch, height, width, layout),
                numbers_value(state@, seq![batch, state_dim], old(self).session.location()),
            ),
            layout == 0 || layout == 1 ==> forall|p: Tensor, s: Tensor, lead: Seq<usize>|
                    value(p) == old(self).frames(pixels@, batch, height, width, layout)
                    && value(s) == numbers_value(
                        state@,
                        seq![batch, state_dim],
                        old(self).session.location(),
                    ) && #[trigger] old(self).session.sees_here(
                        both("pixels", &p, "state", &s),
                        lead,
                    ) ==> r is Ok,
    {
        let s = state_tensor(state, batch, state_dim, self.session.device())?;
        let p = pixel_tensor(pixels, batch, height, width, layout, self.session.device())?;
        proof {
            assert forall|q: Tensor, u: Tensor, lead: Seq<usize>|
                value(q) == value(p) && value(u) == value(s) && #[trigger] self.session.sees_here(
                    both("pixels", &q, "state", &u),
                    lead,
                ) implies self.session.sees_here(both("pixels", &p, "state", &s), lead) by {
                self.session.lemma_sees_by_value(
                    both("pixels", &q, "state", &u),
                    both("pixels", &p, "state", &s),
                    lead,
                );
            }
        }
        self.step_with_both(&p, &s)
    }

    fn step_with_both(&mut self, p: &Tensor, s: &Tensor) -> (r: FfiResult<()>)
        ensures
            final(self).same_but_session(*old(self)),
            r matches Err(e) ==> final(self).same_step(*old(self)) && old(self).refuses_both(
                value(*p),
                value(*s),
                e,
            ),
            r is Ok ==> final(self).session.same_setting(old(self).session) && final(self).saw_both(
                value(*p),
                value(*s),
            ),
            forall|lead: Seq<usize>|
                    #[trigger] old(self).session.sees_here(both("pixels", p, "state", s), lead)
                        ==> r is Ok,
    {
        let obs: [(&str, &Tensor); 2] = [("pixels", p), ("state", s)];
        proof {
            assert(obs@ =~= both("pixels", p, "state", s));
        }
        let z = carry(self.session.reset_observations(&obs))?;
        proof {
            assert(self.session.holds(both("pixels", p, "state", s), z));
        }
        Ok(())
    }

    /// The images that are asked for can be prepared.
    pub open spec fn image_complaint(self, image: SwmCudaImage) -> Option<Seq<char>> {
        if self.image_size is None {
            Some("TD-MPC2 artifact does not have a pixel observation"@)
        } else if image.shape.batch == 0 {
            Some("image batch must be greater than zero"@)
        } else {
            None
        }
    }

    /// Whether images are prepared in this way.
    pub open spec fn prepares(self, c: ImagePreprocess) -> bool {
        match self.image_preprocess {
            Some(p) => c == p,
            None => plainly_prepared(c, self.image_size->0),
        }
    }

    fn preparation(&self, image_size: usize) -> (r: ImagePreprocess)
        requires
            self.image_size == Some(image_size),
        ensures
            self.prepares(r),
    {
        match self.image_preprocess {
            Some(p) => p,
            None => image_preprocess_from_config(&PreprocessConfig::default(), image_size),
        }
    }

    /// What the kernel has to do to prepare images for the model, with a
    /// preprocessor that is kept.
    pub fn preprocess_cuda_image(&mut self, image: &SwmCudaImage) -> (r: FfiResult<
        PackedU8ToNchwF32,
    >)
        ensures
            old(self).image_complaint(*image) matches Some(text) ==> r is Err && r->Err_0.is(
                SwmStatus::InvalidArgument,
                text,
            ),
            old(self).image_complaint(*image) is None ==> (r matches Err(e) ==> exists|
                c: ImagePreprocess,
            |
                #[trigger] old(self).prepares(c) && image_refused(
                    *image,
                    c,
                    old(self).session.location(),
                    e,
                )),
            *final(self) == (SwmTdMpc2 {
                packed_preprocessor: final(self).packed_preprocessor,
                ..*old(self)
            }),
            old(self).image_preprocess matches Some(p) ==> packed_serves(
                old(self).packed_preprocessor,
                image.shape,
                p,
            ) ==> final(self).packed_preprocessor == old(self).packed_preprocessor,
            r matches Ok(op) ==> final(self).packed_preprocessor is Some && op.input_shape
                == image.shape && op.config == final(self).packed_preprocessor->0.settings()
                && op.output_layout is Latest && packed_complaint(value(image.tensor), image.shape)
                is None,
            r matches Ok(op) ==> exists|c: ImagePreprocess| #[trigger]
                old(self).prepares(c) && (op.config == c || same_preparation(op.config, c)),
    {
        let size: usize = match self.image_size {
            Some(n) => n,
            None => {
                return Err(FfiError::invalid("TD-MPC2 artifact does not have a pixel observation"));
            },
        };
        if image.shape.batch == 0 {
            return Err(FfiError::invalid("image batch must be greater than zero"));
        }
        let config = self.preparation(size);
        cached_packed_preprocessor(
            &mut self.packed_preprocessor,
            self.session.device(),
            image.shape,
            config,
        )?;
        match &self.packed_preprocessor {
            Some(p) => carry(p.preprocess_packed_u8(&image.tensor)),
            None => Err(FfiError::runtime(message("CUDA packed-image preprocessor cache is empty"))),
        }
    }

    /// The planes that are asked for can be prepared.
    pub open spec fn planes_complaint(self, nv12: SwmCudaNv12) -> Option<Seq<char>> {
        if self.image_size is None {
            Some("TD-MPC2 artifact does not have a pixel observation"@)
        } else if nv12.shape.batch == 0 {
            Some("NV12 batch must be greater than zero"@)
        } else {
            None
        }
    }

    /// What the kernel has to do to prepare planes for the model, with a
    /// preprocessor that is kept.
    pub fn preprocess_cuda_nv12(&mut self, nv12: &SwmCudaNv12, color_space: i32) -> (r: FfiResult<
        Nv12ToNchwF32,
    >)
        ensures
            old(self).planes_complaint(*nv12) matches Some(text) ==> r is Err && r->Err_0.is(
                SwmStatus::InvalidArgument,
                text,
            ),
            old(self).planes_complaint(*nv12) is None ==> (r matches Err(e) ==> exists|
                c: ImagePreprocess,
            |
                #[trigger] old(self).prepares(c) && planes_refused(
                    *nv12,
                    color_space,
                    c,
                    old(self).session.location(),
                    e,
                )),
            (color_space as u32) >= 4 ==> r is Err,
            *final(self) == (SwmTdMpc2 {
                nv12_preprocessor: final(self).nv12_preprocessor,
                ..*old(self)
            }),
            forall|c: Nv12ColorSpace|
                old(self).image_preprocess is Some && #[trigger] c.number() == color_space as u32
                    && nv12_serves(
                    old(self).nv12_preprocessor,
                    nv12.shape,
                    c,
                    old(self).image_preprocess->0,
                ) ==> final(self).nv12_preprocessor == old(self).nv12_preprocessor,
            r matches Ok(op) ==> final(self).nv12_preprocessor is Some && op.input_shape
                == nv12.shape && op.color_space.number() == color_space as u32 && op.config
                == final(self).nv12_preprocessor->0.settings() && op.output_layout is Latest
                && planes_complaint(value(nv12.y_plane), value(nv12.uv_plane), nv12.shape) is None,
            r matches Ok(op) ==> exists|c: ImagePreprocess| #[trigger]
                old(self).prepares(c) && (op.config == c || same_preparation(op.config, c)),
    {
        let size: usize = match self.image_size {
            Some(n) => n,
            None => {
                return Err(FfiError::invalid("TD-MPC2 artifact does not have a pixel observation"));
            },
        };
        if nv12.shape.batch == 0 {
            return Err(FfiError::invalid("NV12 batch must be greater than zero"));
        }
        let config = self.preparation(size);
        let colors = color_space_from_ffi(color_space)?;
        cached_nv12_preprocessor(
            &mut self.nv12_preprocessor,
            self.session.device(),
            nv12.shape,
            colors,
            config,
        )?;
        match &self.nv12_preprocessor {
            Some(p) => carry(p.preprocess_nv12(&nv12.y_plane, &nv12.uv_plane)),
            None => Err(FfiError::runtime(message("CUDA NV12 preprocessor cache is empty"))),
        }
    }

    /// Starts a step with prepared frames. Where they cannot be encoded, the step
    /// before stays.
    pub fn reset_prepared(&mut self, pixels: &Tensor) -> (r: FfiResult<()>)
        ensures
            final(self).same_but_session(*old(self)),
            r matches Err(e) ==> final(self).same_step(*old(self)) && old(self).refuses_pixels(
                value(*pixels),
                e,
            ),
            r is Ok ==> final(self).session.same_setting(old(self).session)
                && final(self).saw_pixels(value(*pixels)),
            forall|lead: Seq<usize>|
                    #[trigger] old(self).session.sees_here(
                        one_observation("pixels", pixels),
                        lead,
                    ) ==> r is Ok,
    {
        proof {
            assert(one_observation("pixels", pixels) =~= seq![("pixels", pixels)]);
        }
        let z = carry(self.session.reset_pixels(pixels))?;
        proof {
            assert(self.session.holds(one_observation("pixels", pixels), z));
        }
        Ok(())
    }

    /// Starts a step with a state and prepared frames. Where they cannot be
    /// encoded, the step before stays.
    pub fn reset_state_prepared(
        &mut self,
        state: &[F32],
        batch: usize,
        state_dim: usize,
        pixels: &Tensor,
    ) -> (r: FfiResult<()>)
        requires
            state@.len() == batch * state_dim,
        ensures
            final(self).same_but_session(*old(self)),
            r matches Err(e) ==> final(self).same_step(*old(self)) && old(self).refuses_both(
                value(*pixels),
                numbers_value(state@, seq![batch, state_dim], old(self).session.location()),
                e,
            ),
            r is Ok ==> final(self).session.same_setting(old(self).session) && final(self).saw_both(
                value(*pixels),
                numbers_value(state@, seq![batch, state_dim], old(self).session.location()),
            ),
            forall|s: Tensor, lead: Seq<usize>|
                    value(s) == numbers_value(
                        state@,
                        seq![batch, state_dim],
                        old(self).session.location(),
                    ) && #[trigger] old(self).session.sees_here(
                        both("pixels", pixels, "state", &s),
                        lead,
                    ) ==> r is Ok,
    {
        let s = state_tensor(state, batch, state_dim, self.session.device())?;
        proof {
            assert forall|u: Tensor, lead: Seq<usize>|
                value(u) == value(s) && #[trigger] self.session.sees_here(
                    both("pixels", pixels, "state", &u),
                    lead,
                ) implies self.session.sees_here(both("pixels", pixels, "state", &s), lead) by {
                self.session.lemma_sees_by_value(
                    both("pixels", pixels, "state", &u),
                    both("pixels", pixels, "state", &s),
                    lead,
                );
            }
        }
        self.step_with_both(pixels, &s)
    }

    /// Plans with CEM at the current step.
    pub fn plan_cem(&self, settings: SwmCemPlanConfig, wanted: OutputsWanted) -> (r: FfiResult<
        PlanOutputs,
    >)
        ensures
            exists|c: CemConfig| #[trigger]
                is_cem(c, settings, self.action_dim, self.action_bounds) && cem_call(
                    &self.session,
                    c,
                    wanted,
                    r,
                ),
    {
        plan_cem(&self.session, settings, self.action_dim, &self.action_bounds, wanted)
    }

    /// Plans with MPPI at the current step.
    pub fn plan_mppi(&self, settings: SwmMppiPlanConfig, wanted: OutputsWanted) -> (r: FfiResult<
        PlanOutputs,
    >)
        ensures
            exists|c: MppiConfig| #[trigger]
                is_mppi(c, settings, self.action_dim, self.action_bounds) && mppi_call(
                    &self.session,
                    c,
                    wanted,
                    r,
                ),
    {
        plan_mppi(&self.session, settings, self.action_dim, &self.action_bounds, wanted)
    }

    /// Plans with iCEM at the current step, from where the plan before left off.
    pub fn plan_icem(&mut self, settings: SwmIcemPlanConfig, wanted: OutputsWanted) -> (r: FfiResult<
        PlanOutputs,
    >)
        requires
            old(self).well_formed(),
        ensures
            final(self).well_formed(),
            *final(self) == (SwmTdMpc2 { icem_planner: final(self).icem_planner, ..*old(self) }),
            final(self).icem_planner is Some,
            exists|c: IcemConfig| #[trigger]
                is_icem(c, settings, old(self).action_dim, old(self).action_bounds)
                    && final(self).icem_planner->0.config == start_of(old(self).icem_planner, c).0
                    && icem_call(
                    &old(self).session,
                    start_of(old(self).icem_planner, c),
                    wanted,
                    r,
                    final(self).icem_planner->0.warm_start,
                ),
    {
        plan_icem(
            &mut self.icem_planner,
            &self.session,
            settings,
            self.action_dim,
            &self.action_bounds,
            wanted,
        )
    }

    /// Forgets what the next iCEM plan would start from.
    pub fn clear_icem_warm_start(&mut self)
        requires
            old(self).well_formed(),
        ensures
            final(self).well_formed(),
            *final(self) == (SwmTdMpc2 { icem_planner: final(self).icem_planner, ..*old(self) }),
            old(self).icem_planner is None ==> final(self).icem_planner is None,
            old(self).icem_planner is Some ==> final(self).icem_planner == Some(
                IcemPlanner { warm_start: None, ..old(self).icem_planner->0 },
            ),
    {
        clear_icem_warm_start(&mut self.icem_planner)
    }

    /// How a call for the mean action fails at the current step: the policy says
    /// so, the action cannot be read as numbers, or it is not wanted.
    pub open spec fn no_mean_action(self, wanted: bool, e: FfiError) -> bool {
        if self.session.latent() is None {
            e.is(SwmStatus::RuntimeError, "TdMpc2Session must be reset before actor action"@)
        } else {
            ||| backend_failed(e)
            ||| failed_saying(e, self.session.held().actor_complaint())
            ||| exists|action: TensorValue|
                #[trigger] self.session.held().mean_action(value(self.session.latent()->0), action)
                    && failed_saying(e, read_complaint(action, 2))
            ||| !wanted && e.is(SwmStatus::NullPointer, "action_out pointer is null"@)
        }
    }

    /// How a call for a mean rollout fails at the current step: the policy says
    /// so, what it gave cannot be read as numbers, or it is not wanted.
    pub open spec fn no_mean_rollout(
        self,
        horizon: usize,
        wanted: bool,
        rewards: bool,
        e: FfiError,
    ) -> bool {
        if self.session.latent() is None {
            e.is(SwmStatus::RuntimeError, "TdMpc2Session must be reset before actor rollout"@)
        } else {
            let m = self.session.held();
            let z = self.session.latent()->0;
            ||| backend_failed(e)
            ||| e.status is RuntimeError && m.rollout_complaint(horizon as nat, e.message@)
            ||| failed_saying(
                e,
                two_hot_complaint(
                    tensor_dims(z).drop_last().push(m.cfg.num_bins).insert(1, horizon),
                    m.cfg.num_bins,
                ),
            )
            ||| exists|
                actions: TensorValue,
                logits: TensorValue,
                end: TensorValue,
                gained: TensorValue,
            |
                #[trigger] m.mean_logits(value(z), horizon as nat, actions, logits, end)
                    && #[trigger] two_hot_value(
                    logits,
                    m.cfg.vmin,
                    m.cfg.vmax,
                    m.cfg.num_bins,
                    gained,
                ) && (failed_saying(e, read_complaint(actions, 3)) || rewards && failed_saying(
                    e,
                    read_complaint(gained, 3),
                ))
            ||| !wanted && e.is(SwmStatus::NullPointer, "actions_out pointer is null"@)
        }
    }

    /// How a call for a sampled rollout fails at the current step: the request is
    /// wrong, the policy says so, what it gave cannot be read as numbers, or it is
    /// not wanted.
    pub open spec fn no_sampled_rollout(
        self,
        horizon: usize,
        num_trajs: usize,
        wanted: bool,
        e: FfiError,
    ) -> bool {
        if self.session.latent() is None {
            e.is(SwmStatus::RuntimeError, "TdMpc2Session must be reset before actor rollout"@)
        } else {
            let m = self.session.held();
            let z = self.session.latent()->0;
            match m.sampling_complaint(tensor_dims(z), horizon, num_trajs) {
                Some(text) => backend_failed(e) || e.is(SwmStatus::RuntimeError, text),
                None => {
                    ||| backend_failed(e)
                    ||| failed_saying(e, m.actor_complaint())
                    ||| failed_saying(e, m.latent_complaint())
                    ||| exists|noise: TensorValue, actions: TensorValue|
                        #[trigger] m.mean_of_draws(value(z), noise, actions) && failed_saying(
                            e,
                            read_complaint(actions, 3),
                        )
                    ||| !wanted && e.is(SwmStatus::NullPointer, "actions_out pointer is null"@)
                },
            }
        }
    }

    /// Whether the policy answers on the processor, in single precision.
    pub open spec fn answers_here(self) -> bool {
        let m = self.session.held();
        let z = self.session.latent()->0;
        &&& self.session.latent() is Some && tensor_dims(z).len() == 2 && tensor_element(z) is F32
        &&& m.actor_complaint() is None && m.takes(value(z), m.latent() as int)
    }

    /// The mean action of the policy at the current step, as numbers.
    pub fn actor_mean_action(&self, wanted: bool) -> (r: FfiResult<Vec<F32>>)
        ensures
            self.session.latent() is None ==> r is Err && r->Err_0.is(
                SwmStatus::RuntimeError,
                "TdMpc2Session must be reset before actor action"@,
            ),
            !wanted ==> r is Err,
            r matches Err(e) ==> self.no_mean_action(wanted, e),
            r matches Ok(o) ==> exists|action: TensorValue| #[trigger]
                self.session.held().mean_action(value(self.session.latent()->0), action)
                    && are_numbers(action, o@),
            wanted && self.answers_here() ==> r is Ok,
    {
        let action = carry(self.session.actor_mean_action())?;
        proof {
            assert(self.session.held().mean_action(
                value(self.session.latent()->0),
                value(action),
            ));
        }
        let out = flatten2(&action)?;
        if !wanted {
            let e = FfiError::null("action_out");
            proof {
                reveal_strlit("action_out");
                reveal_strlit(" pointer is null");
                reveal_strlit("action_out pointer is null");
                assert(e.message@ =~= "action_out pointer is null"@);
            }
            return Err(e);
        }
        Ok(out)
    }

    /// The mean actions of the policy for a number of steps and, where they are
    /// wanted, their rewards, as numbers.
    pub fn rollout_actor_mean(&self, horizon: usize, wanted: bool, rewards: bool) -> (r: FfiResult<
        (Vec<F32>, Option<Vec<F32>>),
    >)
        ensures
            self.session.latent() is None ==> r is Err && r->Err_0.is(
                SwmStatus::RuntimeError,
                "TdMpc2Session must be reset before actor rollout"@,
            ),
            horizon == 0 ==> r is Err,
            !wanted ==> r is Err,
            r matches Err(e) ==> self.no_mean_rollout(
                horizon,
                wanted,
                rewards,
                e,
            ),
            r matches Ok(o) ==> (o.1 is Some <==> rewards) && exists|
                actions: TensorValue,
                logits: TensorValue,
                end: TensorValue,
                gained: TensorValue,
            |
                #[trigger] self.session.held().mean_logits(
                    value(self.session.latent()->0),
                    horizon as nat,
                    actions,
                    logits,
                    end,
                ) && #[trigger] two_hot_value(
                    logits,
                    self.session.held().cfg.vmin,
                    self.session.held().cfg.vmax,
                    self.session.held().cfg.num_bins,
                    gained,
                ) && are_numbers(actions, o.0@) && (o.1 is Some ==> are_numbers(gained, o.1->0@)),
            wanted && horizon > 0 && self.answers_here() && self.session.held().latent_complaint() is None
                    && two_hot_complaint(
                    tensor_dims(self.session.latent()->0).drop_last().push(
                        self.session.held().cfg.num_bins,
                    ).insert(1, horizon),
                    self.session.held().cfg.num_bins,
                ) is None ==> r is Ok,
    {
        let (actions, gained, end) = carry(self.session.rollout_actor_mean(horizon))?;
        let out = flatten3(&actions)?;
        if !wanted {
            let e = FfiError::null("actions_out");
            proof {
                reveal_strlit("actions_out");
                reveal_strlit(" pointer is null");
                reveal_strlit("actions_out pointer is null");
                assert(e.message@ =~= "actions_out pointer is null"@);
            }
            return Err(e);
        }
        let told = if rewards {
            Some(flatten3(&gained)?)
        } else {
            None
        };
        Ok((out, told))
    }

    /// The mean over drawn actions for a number of steps, as numbers.
    pub fn rollout_actor_sample(&self, horizon: usize, num_trajs: usize, wanted: bool) -> (r:
        FfiResult<Vec<F32>>)
        ensures
            self.session.latent() is None ==> r is Err && r->Err_0.is(
                SwmStatus::RuntimeError,
                "TdMpc2Session must be reset before actor rollout"@,
            ),
            horizon == 0 || num_trajs == 0 ==> r is Err,
            !wanted ==> r is Err,
            r matches Err(e) ==> self.no_sampled_rollout(
                horizon,
                num_trajs,
                wanted,
                e,
            ),
            r matches Ok(o) ==> exists|noise: TensorValue, actions: TensorValue|
                noise.dims == seq![
                    num_trajs,
                    tensor_dims(self.session.latent()->0)[0],
                    horizon,
                    self.session.held().cfg.action_dim,
                ] && #[trigger] self.session.held().mean_of_draws(
                    value(self.session.latent()->0),
                    noise,
                    actions,
                ) && are_numbers(actions, o@),
            wanted && self.answers_here() && self.session.held().latent_complaint() is None
                    && self.session.held().sampling_complaint(
                    tensor_dims(self.session.latent()->0),
                    horizon,
                    num_trajs,
                ) is None ==> r is Ok,
    {
        let actions = carry(self.session.rollout_actor_sampled(horizon, num_trajs))?;
        let out = flatten3(&actions)?;
        if !wanted {
            let e = FfiError::null("actions_out");
            proof {
                reveal_strlit("actions_out");
                reveal_strlit(" pointer is null");
                reveal_strlit("actions_out pointer is null");
                assert(e.message@ =~= "actions_out pointer is null"@);
            }
            return Err(e);
        }
        Ok(out)
    }
}

} // verus!
