//! A LeWM model behind the C interface.

use candle_core::DType;
use candle_core::Device;
use candle_core::Tensor;
use vstd::prelude::*;

use crate::artifact::DeploymentArtifact;
use crate::checkpoint::{
    content_complaint, content_reads, content_source, empty_var_builder, var_builder_from_content,
    CheckpointContent,
};
use crate::config::ModelConfig;
use crate::error::{lift, message, Result, SwmError};
use crate::ffi::inputs::{
    action_bounds_from_schema, history_complaint, history_input_len, history_tensor,
    image_preprocess_from_config, media_history_complaint, numbers_value, prepared_for,
    require_frames, frames_complaint, validate_lewm_media_history,
};
use crate::ffi::media::{
    cached_nv12_preprocessor, cached_packed_preprocessor, color_space_from_ffi, image_refused,
    nv12_serves, packed_serves, planes_refused, same_preparation, SwmCudaImage, SwmCudaNv12,
};
use crate::ffi::outputs::{OutputsWanted, PlanOutputs};
use crate::ffi::planning::{
    cem_call, clear_icem_warm_start, icem_call, mppi_call, plan_cem, plan_icem, plan_mppi,
    start_of,
};
use crate::ffi::settings::{
    is_cem, is_icem, is_mppi, SwmCemPlanConfig, SwmIcemPlanConfig, SwmMppiPlanConfig,
};
use crate::ffi::status::{
    backend_failed, carry, failed_saying, FfiError, FfiResult, SwmStatus,
};
use crate::ffi::tdmpc2::{artifact_bounds_text, bounded_by, bounds_fit};
use crate::media::preprocessor::{
    ImagePreprocessor, Nv12Preprocessor, Nv12ToNchwF32, PackedU8ToNchwF32,
};
use crate::media::shape::{imagenet_statistics, ImagePreprocess, Nv12ColorSpace};
use crate::media::tensors::{packed_complaint, planes_complaint};
use crate::models::lewm::config::LeWmConfig;
use crate::models::lewm::model::{images_complaint, LeWm};
use crate::planner::config::{unit_bounds, ActionBounds, CemConfig, IcemConfig, MppiConfig, ONE};
use crate::planner::icem::IcemPlanner;
use crate::scalar::F32;
use crate::session::lewm::{LeWmGoalScorer, LeWmSession};
use crate::session::tdmpc2::place;
use crate::tensor::layout::{laid_out, placed, reshape};
use crate::tensor::ranks::element_count;
use crate::tensor::layers::{held_as, is_fresh, store_source};
use crate::tensor::value::{
    count, device_location, dtype_element, plain, resident, tensor_dims, value, Location,
};

verus! {

/// A model, its goal and the planner that it keeps.
pub struct SwmLeWm {
    pub session: LeWmSession,
    pub goal_emb: Option<Tensor>,
    pub action_dim: usize,
    pub image_size: usize,
    pub history_size: usize,
    pub image_preprocess: ImagePreprocess,
    pub packed_preprocessor: Option<ImagePreprocessor>,
    pub nv12_preprocessor: Option<Nv12Preprocessor>,
    pub action_bounds: ActionBounds,
    pub icem_planner: Option<IcemPlanner>,
}

/// A scorer for the goal of a session.
pub open spec fn scores_for(scorer: LeWmGoalScorer, session: LeWmSession, goal: Tensor) -> bool {
    scorer.held() == session && scorer.goal() == goal
}

/// The first thing wrong with a model and the images that it is shown.
pub open spec fn start_complaint(config: LeWmConfig, pixels: Seq<usize>) -> Option<Seq<char>> {
    if config.complaint() is Some {
        config.complaint()
    } else {
        images_complaint(config.encoder.patch_size, pixels)
    }
}

impl SwmLeWm {
    /// The planner that is kept is usable.
    pub open spec fn well_formed(self) -> bool {
        self.icem_planner matches Some(p) ==> p.well_formed()
    }

    /// Everything but the session stays.
    pub open spec fn same_but_session(self, other: Self) -> bool {
        self == (SwmLeWm { session: self.session, ..other })
    }

    /// The session has the model, the element type and the place of another.
    pub open spec fn same_setting(self, other: Self) -> bool {
        self.session.held() == other.session.held() && self.session.element()
            == other.session.element() && self.session.location() == other.session.location()
    }

    /// Puts a handle together from an artifact and from what its parameter file
    /// was read as.
    pub fn load(
        artifact: DeploymentArtifact,
        content: core::result::Result<CheckpointContent, String>,
        dtype: DType,
        device: &Device,
    ) -> (r: FfiResult<Self>)
        ensures
            !(artifact.config is LeWm) ==> r is Err && r->Err_0.is(
                SwmStatus::InvalidArgument,
                "swm_lewm_load only supports le_wm artifacts"@,
            ),
            artifact.config is LeWm ==> (!bounds_fit(
                artifact,
                artifact.config->LeWm_0.action_encoder.input_dim,
            ) ==> r is Err && r->Err_0.is(
                SwmStatus::InvalidArgument,
                artifact_bounds_text(artifact, artifact.config->LeWm_0.action_encoder.input_dim),
            )),
            artifact.config is LeWm && bounds_fit(
                artifact,
                artifact.config->LeWm_0.action_encoder.input_dim,
            ) ==> match content {
                Err(text) => r is Err && r->Err_0.is(SwmStatus::RuntimeError, text@),
                Ok(c) => r matches Err(e) ==> backend_failed(e) || failed_saying(
                    e,
                    content_complaint(c),
                ) || failed_saying(e, artifact.config->LeWm_0.complaint()),
            },
            artifact.config is LeWm && artifact.config->LeWm_0.complaint() is Some ==> r is Err,
            r matches Ok(h) ==> content is Ok && h.session.held().loaded(
                content_source(content->Ok_0, dtype_element(dtype), device_location(*device)),
                Seq::empty(),
            ),
            r matches Ok(h) ==> {
                let c = artifact.config->LeWm_0;
                &&& h.well_formed()
                &&& h.session.held().cfg == c
                &&& h.session.element() == dtype_element(dtype)
                &&& h.session.location() == device_location(*device)
                &&& h.session.embedding() is None
                &&& h.goal_emb is None
                &&& h.action_dim == c.action_encoder.input_dim
                &&& h.image_size == c.encoder.image_size
                &&& h.history_size == c.history_size
                &&& prepared_for(h.image_preprocess, artifact.preprocess, h.image_size)
                &&& bounded_by(artifact, h.action_bounds, h.action_dim)
                &&& h.packed_preprocessor is None
                &&& h.nv12_preprocessor is None
                &&& h.icem_planner is None
            },
            artifact.config is LeWm && content is Ok && content_complaint(content->Ok_0) is None
                    && !content_reads(content->Ok_0) ==> r is Err,
            r matches Ok(h) ==> {
                    let c = artifact.config->LeWm_0.encoder;
                    content->Ok_0 is Bytes && device_location(*device) is Cpu && c.hidden_size
                        % c.num_attention_heads == 0 && c.intermediate_size > 0
                        ==> h.session.held().home(dtype_element(dtype))
                },
            artifact.config is LeWm && bounds_fit(
                    artifact,
                    artifact.config->LeWm_0.action_encoder.input_dim,
                ) && content is Ok && content->Ok_0 is Bytes && content_reads(content->Ok_0)
                    && device_location(*device) is Cpu && plain(dtype_element(dtype))
                && artifact.config->LeWm_0.complaint() is None
                    ==> (r is Ok <==> LeWm::stored(
                    content_source(content->Ok_0, dtype_element(dtype), Location::Cpu),
                    Seq::empty(),
                    artifact.config->LeWm_0,
                )),
    {
        let config = match artifact.config {
            ModelConfig::LeWm(c) => c,
            ModelConfig::TdMpc2(_) => {
                return Err(FfiError::invalid("swm_lewm_load only supports le_wm artifacts"));
            },
        };
        let action_dim: usize = config.action_encoder.input_dim;
        let image_size: usize = config.encoder.image_size;
        let history_size: usize = config.history_size;
        let action_bounds = action_bounds_from_schema(
            &artifact.schema,
            &artifact.preprocess,
            action_dim,
        )?;
        let image_preprocess = image_preprocess_from_config(&artifact.preprocess, image_size);
        let parameters = match content {
            Ok(c) => c,
            Err(text) => {
                return Err(FfiError::runtime_text(text));
            },
        };
        let store = carry(var_builder_from_content(parameters, dtype, device))?;
        proof {
            if content is Ok && content->Ok_0 is Bytes && device_location(*device) is Cpu {
                assert(held_as(store_source(store), dtype_element(dtype)));
            }
        }
        let model = carry(LeWm::new(config, &store))?;
        let session = LeWmSession::new(model, device.clone(), dtype);
        Ok(
            Self {
                session,
                goal_emb: None,
                action_dim,
                image_size,
                history_size,
                image_preprocess,
                packed_preprocessor: None,
                nv12_preprocessor: None,
                action_bounds,
                icem_planner: None,
            },
        )
    }

    /// A handle with new parameters that has seen images and has a goal.
    pub fn synthetic_for_bench(
        config: LeWmConfig,
        dtype: DType,
        device: &Device,
        pixels: &Tensor,
        goal_emb: &Tensor,
    ) -> (r: Result<Self>)
        ensures
            start_complaint(config, tensor_dims(*pixels)) is Some ==> r is Err,
            r matches Err(SwmError::Message(m)) ==> start_complaint(config, tensor_dims(*pixels))
                == Some(m@),
            r matches Ok(h) ==> {
                &&& h.well_formed()
                &&& h.session.held().cfg == config
                &&& exists|s: int| #[trigger]
                    is_fresh(s, dtype_element(dtype), device_location(*device))
                        && h.session.held().loaded(s, Seq::empty())
                &&& h.session.element() == dtype_element(dtype)
                &&& h.session.location() == device_location(*device)
                &&& h.session.embedding() is Some
                &&& h.session.embeds(value(*pixels), value(h.session.embedding()->0))
                &&& h.goal_emb is Some
                &&& placed(
                    value(*goal_emb),
                    dtype_element(dtype),
                    device_location(*device),
                    value(h.goal_emb->0),
                )
                &&& h.action_dim == config.action_encoder.input_dim
                &&& h.image_size == config.encoder.image_size
                &&& h.history_size == config.history_size
                &&& h.image_preprocess.output_height == h.image_size
                &&& h.image_preprocess.output_width == h.image_size
                &&& imagenet_statistics(h.image_preprocess)
                &&& unit_bounds(h.action_bounds, h.action_dim)
                &&& h.packed_preprocessor is None
                &&& h.nv12_preprocessor is None
                &&& h.icem_planner is None
            },
    {
        let action_dim: usize = config.action_encoder.input_dim;
        let image_size: usize = config.encoder.image_size;
        let history_size: usize = config.history_size;
        let store = empty_var_builder(dtype, device);
        let model = LeWm::new(config, &store)?;
        let mut session = LeWmSession::new(model, device.clone(), dtype);
        let emb = session.reset_pixels(pixels)?;
        let goal = place(goal_emb, device, dtype)?;
        let usual = ImagePreprocess::imagenet_224();
        let image_preprocess = ImagePreprocess {
            output_height: image_size,
            output_width: image_size,
            mean: usual.mean,
            std: usual.std,
        };
        let action_bounds = ActionBounds::symmetric(action_dim, F32::from_bits(ONE));
        Ok(
            Self {
                session,
                goal_emb: Some(goal),
                action_dim,
                image_size,
                history_size,
                image_preprocess,
                packed_preprocessor: None,
                nv12_preprocessor: None,
                action_bounds,
                icem_planner: None,
            },
        )
    }

    /// How many numbers the frames of a step are made of. There must be as many
    /// frames as the model looks back over.
    pub fn reset_pixels_len(&self, batch: usize, time: usize, height: usize, width: usize) -> (r:
        FfiResult<usize>)
        ensures
            time != self.history_size ==> r is Err && r->Err_0.is(
                SwmStatus::InvalidArgument,
                frames_complaint(self.history_size, time),
            ),
            time == self.history_size ==> (history_complaint(
                self.image_size,
                batch,
                time,
                height,
                width,
            ) matches Some(text) ==> r is Err && r->Err_0.is(SwmStatus::InvalidArgument, text)),
            time == self.history_size && history_complaint(
                self.image_size,
                batch,
                time,
                height,
                width,
            ) is None ==> r is Ok && r->Ok_0 == count(seq![batch, time, 3, height, width]),
    {
        require_frames(self.history_size, time)?;
        history_input_len(self.image_size, batch, time, height, width)
    }

    /// Whether frames of a shape can have failed to be embedded in this way.
    pub open spec fn refuses(self, pixels: Seq<usize>, e: FfiError) -> bool {
        backend_failed(e) || failed_saying(e, self.session.held().pixels_complaint(pixels))
    }

    /// Starts a step with frames. Where they cannot be embedded, the step before
    /// stays.
    pub fn reset_pixels(
        &mut self,
        pixels: &[F32],
        batch: usize,
        time: usize,
        height: usize,
        width: usize,
    ) -> (r: FfiResult<()>)
        requires
            pixels@.len() == count(seq![batch, time, 3, height, width]),
        ensures
            final(self).same_but_session(*old(self)),
            final(self).same_setting(*old(self)),
            r matches Err(e) ==> final(self).session.embedding() == old(self).session.embedding()
                && old(self).refuses(seq![batch, time, 3, height, width], e),
            old(self).session.held().pixels_complaint(seq![batch, time, 3, height, width]) is Some
                ==> r is Err,
            r is Ok ==> final(self).session.embedding() is Some && old(self).session.embeds(
                numbers_value(
                    pixels@,
                    seq![batch, time, 3, height, width],
                    old(self).session.location(),
                ),
                value(final(self).session.embedding()->0),
            ),
            old(self).session.held().pixels_complaint(seq![batch, time, 3, height, width]) is None
                    && old(self).session.sees_here(
                    numbers_value(
                        pixels@,
                        seq![batch, time, 3, height, width],
                        old(self).session.location(),
                    ),
                ) ==> r is Ok,
    {
        let t = history_tensor(pixels, batch, time, height, width, self.session.device())?;
        let emb = carry(self.session.reset_pixels(&t))?;
        Ok(())
    }

    /// How many numbers the frames of a goal are made of.
    pub fn goal_pixels_len(&self, batch: usize, time: usize, height: usize, width: usize) -> (r:
        FfiResult<usize>)
        ensures
            history_complaint(self.image_size, batch, time, height, width) matches Some(text)
                ==> r is Err && r->Err_0.is(SwmStatus::InvalidArgument, text),
            history_complaint(self.image_size, batch, time, height, width) is None ==> r is Ok
                && r->Ok_0 == count(seq![batch, time, 3, height, width]),
    {
        history_input_len(self.image_size, batch, time, height, width)
    }

    /// Sets the goal by its frames. Where they cannot be embedded, the goal
    /// before stays.
    pub fn set_goal_pixels(
        &mut self,
        pixels: &[F32],
        batch: usize,
        time: usize,
        height: usize,
        width: usize,
    ) -> (r: FfiResult<()>)
        requires
            pixels@.len() == count(seq![batch, time, 3, height, width]),
        ensures
            *final(self) == (SwmLeWm { goal_emb: final(self).goal_emb, ..*old(self) }),
            r matches Err(e) ==> final(self).goal_emb == old(self).goal_emb && old(self).refuses(
                seq![batch, time, 3, height, width],
                e,
            ),
            old(self).session.held().pixels_complaint(seq![batch, time, 3, height, width]) is Some
                ==> r is Err,
            r is Ok ==> final(self).goal_emb is Some && old(self).session.embeds(
                numbers_value(
                    pixels@,
                    seq![batch, time, 3, height, width],
                    old(self).session.location(),
                ),
                value(final(self).goal_emb->0),
            ),
            old(self).session.held().pixels_complaint(seq![batch, time, 3, height, width]) is None
                    && old(self).session.sees_here(
                    numbers_value(
                        pixels@,
                        seq![batch, time, 3, height, width],
                        old(self).session.location(),
                    ),
                ) ==> r is Ok,
    {
        let t = history_tensor(pixels, batch, time, height, width, self.session.device())?;
        self.set_goal_prepared(&t)
    }

    /// Sets the goal by prepared frames.
    pub fn set_goal_prepared(&mut self, pixels: &Tensor) -> (r: FfiResult<()>)
        ensures
            *final(self) == (SwmLeWm { goal_emb: final(self).goal_emb, ..*old(self) }),
            r matches Err(e) ==> final(self).goal_emb == old(self).goal_emb && old(self).refuses(
                tensor_dims(*pixels),
                e,
            ),
            old(self).session.held().pixels_complaint(tensor_dims(*pixels)) is Some ==> r is Err,
            r is Ok ==> final(self).goal_emb is Some && old(self).session.embeds(
                value(*pixels),
                value(final(self).goal_emb->0),
            ),
            old(self).session.held().pixels_complaint(tensor_dims(*pixels)) is None
                    && old(self).session.sees_here(value(*pixels)) ==> r is Ok,
    {
        let goal = carry(self.session.encode_pixels(pixels))?;
        self.goal_emb = Some(goal);
        Ok(())
    }

    /// Starts a step with prepared frames.
    pub fn reset_prepared(&mut self, pixels: &Tensor) -> (r: FfiResult<()>)
        ensures
            final(self).same_but_session(*old(self)),
            final(self).same_setting(*old(self)),
            r matches Err(e) ==> final(self).session.embedding() == old(self).session.embedding()
                && old(self).refuses(tensor_dims(*pixels), e),
            old(self).session.held().pixels_complaint(tensor_dims(*pixels)) is Some ==> r is Err,
            r is Ok ==> final(self).session.embedding() is Some && old(self).session.embeds(
                value(*pixels),
                value(final(self).session.embedding()->0),
            ),
            old(self).session.held().pixels_complaint(tensor_dims(*pixels)) is None
                    && old(self).session.sees_here(value(*pixels)) ==> r is Ok,
    {
        let emb = carry(self.session.reset_pixels(pixels))?;
        Ok(())
    }

    /// What the kernel has to do to prepare the frames of a history, with a
    /// preprocessor that is kept.
    pub fn preprocess_cuda_image_history(
        &mut self,
        image: &SwmCudaImage,
        batch: usize,
        time: usize,
        require_config_history: bool,
    ) -> (r: FfiResult<PackedU8ToNchwF32>)
        ensures
            media_history_complaint(
                old(self).history_size,
                image.shape.batch,
                batch,
                time,
                require_config_history,
            ) matches Some(text) ==> r is Err && r->Err_0.is(SwmStatus::InvalidArgument, text),
            media_history_complaint(
                old(self).history_size,
                image.shape.batch,
                batch,
                time,
                require_config_history,
            ) is None ==> (r matches Err(e) ==> image_refused(
                *image,
                old(self).image_preprocess,
                old(self).session.location(),
                e,
            )),
            *final(self) == (SwmLeWm {
                packed_preprocessor: final(self).packed_preprocessor,
                ..*old(self)
            }),
            packed_serves(
                old(self).packed_preprocessor,
                image.shape,
                old(self).image_preprocess,
            ) ==> final(self).packed_preprocessor == old(self).packed_preprocessor,
            r matches Ok(op) ==> final(self).packed_preprocessor is Some && op.input_shape
                == image.shape && op.config == final(self).packed_preprocessor->0.settings()
                && op.output_layout is Latest && packed_complaint(value(image.tensor), image.shape)
                is None && (op.config == old(self).image_preprocess || same_preparation(
                op.config,
                old(self).image_preprocess,
            )),
    {
        validate_lewm_media_history(
            self.history_size,
            image.shape.batch,
            batch,
            time,
            require_config_history,
        )?;
        cached_packed_preprocessor(
            &mut self.packed_preprocessor,
            self.session.device(),
            image.shape,
            self.image_preprocess,
        )?;
        match &self.packed_preprocessor {
            Some(p) => carry(p.preprocess_packed_u8(&image.tensor)),
            None => Err(
                FfiError::runtime(message("CUDA packed-image preprocessor cache is empty")),
            ),
        }
    }

    /// What the kernel has to do to prepare the planes of a history, with a
    /// preprocessor that is kept.
    pub fn preprocess_cuda_nv12_history(
        &mut self,
        nv12: &SwmCudaNv12,
        batch: usize,
        time: usize,
        color_space: i32,
        require_config_history: bool,
    ) -> (r: FfiResult<Nv12ToNchwF32>)
        ensures
            media_history_complaint(
                old(self).history_size,
                nv12.shape.batch,
                batch,
                time,
                require_config_history,
            ) matches Some(text) ==> r is Err && r->Err_0.is(SwmStatus::InvalidArgument, text),
            media_history_complaint(
                old(self).history_size,
                nv12.shape.batch,
                batch,
                time,
                require_config_history,
            ) is None ==> (r matches Err(e) ==> planes_refused(
                *nv12,
                color_space,
                old(self).image_preprocess,
                old(self).session.location(),
                e,
            )),
            (color_space as u32) >= 4 ==> r is Err,
            *final(self) == (SwmLeWm {
                nv12_preprocessor: final(self).nv12_preprocessor,
                ..*old(self)
            }),
            forall|c: Nv12ColorSpace| #[trigger]
                c.number() == color_space as u32 && nv12_serves(
                    old(self).nv12_preprocessor,
                    nv12.shape,
                    c,
                    old(self).image_preprocess,
                ) ==> final(self).nv12_preprocessor == old(self).nv12_preprocessor,
            r matches Ok(op) ==> final(self).nv12_preprocessor is Some && op.input_shape
                == nv12.shape && op.color_space.number() == color_space as u32 && op.config
                == final(self).nv12_preprocessor->0.settings() && op.output_layout is Latest
                && planes_complaint(value(nv12.y_plane), value(nv12.uv_plane), nv12.shape) is None
                && (op.config == old(self).image_preprocess || same_preparation(
                op.config,
                old(self).image_preprocess,
            )),
    {
        validate_lewm_media_history(
            self.history_size,
            nv12.shape.batch,
            batch,
            time,
            require_config_history,
        )?;
        let colors = color_space_from_ffi(color_space)?;
        cached_nv12_preprocessor(
            &mut self.nv12_preprocessor,
            self.session.device(),
            nv12.shape,
            colors,
            self.image_preprocess,
        )?;
        match &self.nv12_preprocessor {
            Some(p) => carry(p.preprocess_nv12(&nv12.y_plane, &nv12.uv_plane)),
            None => Err(FfiError::runtime(message("CUDA NV12 preprocessor cache is empty"))),
        }
    }

    /// Prepared frames as a history `[batch, time, 3, size, size]`.
    pub fn history_view(&self, prepared: &Tensor, batch: usize, time: usize) -> (r: FfiResult<
        Tensor,
    >)
        ensures
            r matches Err(e) ==> backend_failed(e) || (count(
                seq![batch, time, 3, self.image_size, self.image_size],
            ) > usize::MAX && e.is(
                SwmStatus::RuntimeError,
                "LeWM media history shape overflowed"@,
            )),
            count(seq![batch, time, 3, self.image_size, self.image_size]) > usize::MAX ==> r is Err,
            r matches Ok(t) ==> value(t) == value(*prepared).shaped(
                seq![batch, time, 3, self.image_size, self.image_size],
            ) && count(seq![batch, time, 3, self.image_size, self.image_size]) == value(
                *prepared,
            ).keys.len(),
            (resident(value(*prepared)) || laid_out(*prepared)) && count(
                    seq![batch, time, 3, self.image_size, self.image_size],
                ) == value(*prepared).keys.len() && count(
                    seq![batch, time, 3, self.image_size, self.image_size],
                ) <= usize::MAX ==> r is Ok,
    {
        let sizes: [usize; 5] = [batch, time, 3, self.image_size, self.image_size];
        proof {
            assert(sizes@ =~= seq![batch, time, 3usize, self.image_size, self.image_size]);
        }
        if element_count(&sizes).is_none() {
            return Err(FfiError::runtime(message("LeWM media history shape overflowed")));
        }
        carry(lift(reshape(prepared, &sizes)))
    }

    /// Plans with CEM at the current step.
    pub fn plan_cem(&self, settings: SwmCemPlanConfig, wanted: OutputsWanted) -> (r: FfiResult<
        PlanOutputs,
    >)
        ensures
            self.goal_emb is None ==> r is Err && r->Err_0.is(
                SwmStatus::InvalidArgument,
                "LeWM goal pixels must be set before planning"@,
            ),
            self.goal_emb is Some ==> (exists|c: CemConfig, scorer: LeWmGoalScorer|
                #[trigger] is_cem(c, settings, self.action_dim, self.action_bounds)
                    && #[trigger] scores_for(scorer, self.session, self.goal_emb->0) && cem_call(
                    &scorer,
                    c,
                    wanted,
                    r,
                )),
    {
        match &self.goal_emb {
            None => Err(FfiError::invalid("LeWM goal pixels must be set before planning")),
            Some(goal) => {
                let scorer = LeWmGoalScorer::new(&self.session, goal);
                proof {
                    assert(scores_for(scorer, self.session, self.goal_emb->0));
                }
                plan_cem(&scorer, settings, self.action_dim, &self.action_bounds, wanted)
            },
        }
    }

    /// Plans with MPPI at the current step.
    pub fn plan_mppi(&self, settings: SwmMppiPlanConfig, wanted: OutputsWanted) -> (r: FfiResult<
        PlanOutputs,
    >)
        ensures
            self.goal_emb is None ==> r is Err && r->Err_0.is(
                SwmStatus::InvalidArgument,
                "LeWM goal pixels must be set before planning"@,
            ),
            self.goal_emb is Some ==> (exists|c: MppiConfig, scorer: LeWmGoalScorer|
                #[trigger] is_mppi(c, settings, self.action_dim, self.action_bounds)
                    && #[trigger] scores_for(scorer, self.session, self.goal_emb->0) && mppi_call(
                    &scorer,
                    c,
                    wanted,
                    r,
                )),
    {
        match &self.goal_emb {
            None => Err(FfiError::invalid("LeWM goal pixels must be set before planning")),
            Some(goal) => {
                let scorer = LeWmGoalScorer::new(&self.session, goal);
                proof {
                    assert(scores_for(scorer, self.session, self.goal_emb->0));
                }
                plan_mppi(&scorer, settings, self.action_dim, &self.action_bounds, wanted)
            },
        }
    }

    /// Plans with iCEM at the current step, from where the plan before left off.
    pub fn plan_icem(&mut self, settings: SwmIcemPlanConfig, wanted: OutputsWanted) -> (r: FfiResult<
        PlanOutputs,
    >)
        requires
            old(self).well_formed(),
        ensures
            final(self).well_formed(),
            *final(self) == (SwmLeWm { icem_planner: final(self).icem_planner, ..*old(self) }),
            old(self).goal_emb is None ==> r is Err && r->Err_0.is(
                SwmStatus::InvalidArgument,
                "LeWM goal pixels must be set before planning"@,
            ) && *final(self) == *old(self),
            old(self).goal_emb is Some ==> final(self).icem_planner is Some && (exists|
                c: IcemConfig,
                scorer: LeWmGoalScorer,
            |
                #[trigger] is_icem(c, settings, old(self).action_dim, old(self).action_bounds)
                    && #[trigger] scores_for(scorer, old(self).session, old(self).goal_emb->0)
                    && final(self).icem_planner->0.config == start_of(
                    old(self).icem_planner,
                    c,
                ).0 && icem_call(
                    &scorer,
                    start_of(old(self).icem_planner, c),
                    wanted,
                    r,
                    final(self).icem_planner->0.warm_start,
                )),
    {
        match &self.goal_emb {
            None => Err(FfiError::invalid("LeWM goal pixels must be set before planning")),
            Some(goal) => {
                let scorer = LeWmGoalScorer::new(&self.session, goal);
                proof {
                    assert(scores_for(scorer, old(self).session, old(self).goal_emb->0));
                }
                plan_icem(
                    &mut self.icem_planner,
                    &scorer,
                    settings,
                    self.action_dim,
                    &self.action_bounds,
                    wanted,
                )
            },
        }
    }

    /// Forgets what the next iCEM plan would start from.
    pub fn clear_icem_warm_start(&mut self)
        requires
            old(self).well_formed(),
        ensures
            final(self).well_formed(),
            *final(self) == (SwmLeWm { icem_planner: final(self).icem_planner, ..*old(self) }),
            old(self).icem_planner is None ==> final(self).icem_planner is None,
            old(self).icem_planner is Some ==> final(self).icem_planner == Some(
                IcemPlanner { warm_start: None, ..old(self).icem_planner->0 },
            ),
    {
        clear_icem_warm_start(&mut self.icem_planner)
    }
}

} // verus!
