//! A LeWM model at work: the frames of a step and the costs of actions.

use candle_core::DType;
use candle_core::Device;
use candle_core::Tensor;
use vstd::prelude::*;

use crate::error::{lift, message, Result, SwmError};
use crate::models::lewm::goal::{goal_complaint, is_goal_cost};
use crate::models::lewm::model::LeWm;
use crate::planner::scorer::CandidateScorer;
use crate::session::tdmpc2::place;
use crate::tensor::layout::{broadcast_as, dims, laid_out, placed, share, unsqueeze};
use crate::tensor::ranks::{dims3, dims4, element_count, rank_complaint};
use crate::tensor::value::{
    count, device_location, dtype_element, plain, resident, spread, tensor_dims, value, ElementType,
    Location, TensorValue,
};

verus! {

/// A model with the embedded frames of the current step.
#[derive(Debug)]
pub struct LeWmSession {
    model: LeWm,
    device: Device,
    dtype: DType,
    emb: Option<Tensor>,
}

/// Embeddings `[batch, time, width]` once for each sample.
pub open spec fn for_samples(emb: TensorValue, b: usize, s: usize) -> TensorValue {
    let (h, d) = (emb.dims[1], emb.dims[2]);
    spread(emb.shaped(seq![emb.dims[0], 1usize, h, d]), seq![b, s, h, d])
}

impl LeWmSession {
    /// The model of the session.
    pub closed spec fn held(self) -> LeWm {
        self.model
    }

    /// The element type of the session.
    pub closed spec fn element(self) -> ElementType {
        dtype_element(self.dtype)
    }

    /// The place of the session.
    pub closed spec fn location(self) -> Location {
        device_location(self.device)
    }

    /// The embedded frames of the current step.
    pub closed spec fn embedding(self) -> Option<Tensor> {
        self.emb
    }

    #[verifier::type_invariant]
    closed spec fn works(self) -> bool {
        self.model.well_formed()
    }

    pub fn new(model: LeWm, device: Device, dtype: DType) -> (r: Self)
        requires
            model.well_formed(),
        ensures
            r.held() == model,
            r.element() == dtype_element(dtype),
            r.location() == device_location(device),
            r.embedding() is None,
    {
        Self { model, device, dtype, emb: None }
    }

    pub fn device(&self) -> (r: &Device)
        ensures
            device_location(*r) == self.location(),
    {
        &self.device
    }

    pub fn dtype(&self) -> (r: DType)
        ensures
            dtype_element(r) == self.element(),
    {
        self.dtype
    }

    pub fn cached_embedding(&self) -> (r: Option<&Tensor>)
        ensures
            match r {
                Some(t) => self.embedding() == Some(*t),
                None => self.embedding() is None,
            },
    {
        match &self.emb {
            Some(t) => Some(t),
            None => None,
        }
    }

    /// Whether the session embeds images on the processor: those are brought to its
    /// element type first.
    pub open spec fn sees_here(self, pixels: TensorValue) -> bool {
        &&& self.location() is Cpu && plain(self.element())
        &&& resident(pixels)
        &&& self.held().sees(TensorValue { element: self.element(), ..pixels })
    }

    /// Whether the session scores candidates on the processor, in single precision.
    pub open spec fn scores_here(self, candidates: TensorValue, goal: TensorValue) -> bool {
        let emb = value(self.embedding()->0);
        let dims = self.history_dims(candidates.dims);
        &&& self.location() is Cpu && self.element() is F32
        &&& resident(candidates) && resident(goal)
        &&& emb.element is F32 && emb.location is Cpu
        &&& emb.dims[0] == candidates.dims[0] || emb.dims[0] == 1
        &&& self.held().rolls_here(
            emb.shaped(dims),
            TensorValue { element: ElementType::F32, ..candidates },
            dims[2] as int,
        )
        &&& LeWm::rollout_complaint(dims, candidates.dims) is None
        &&& goal_complaint(
            seq![dims[0], dims[1], (candidates.dims[2] + 1) as usize, dims[3]],
            goal.dims,
        ) is None
    }

    /// What images are embedded as, after they are brought to the place and the
    /// element type of the session.
    pub open spec fn embeds(self, pixels: TensorValue, r: TensorValue) -> bool {
        exists|near: TensorValue| #[trigger]
            placed(pixels, self.element(), self.location(), near) && self.held().encodes(near, r)
    }

    /// Embeds images `[batch, time, channels, height, width]`.
    pub fn encode_pixels(&self, pixels: &Tensor) -> (r: Result<Tensor>)
        ensures
            self.held().pixels_complaint(tensor_dims(*pixels)) is Some ==> r is Err,
            r matches Err(SwmError::Message(m)) ==> self.held().pixels_complaint(
                tensor_dims(*pixels),
            ) == Some(m@),
            r matches Ok(o) ==> self.embeds(value(*pixels), value(o)) && tensor_dims(o) == seq![
                tensor_dims(*pixels)[0],
                tensor_dims(*pixels)[1],
                self.held().cfg.projector.output_dim,
            ],
            self.held().pixels_complaint(tensor_dims(*pixels)) is None && self.sees_here(value(*pixels))
                    ==> r is Ok,
    {
        proof {
            use_type_invariant(self);
        }
        let near = place(pixels, &self.device, self.dtype)?;
        let out = self.model.encode_pixels(&near)?;
        proof {
            assert(placed(value(*pixels), self.element(), self.location(), value(near)));
        }
        Ok(out)
    }

    /// Starts a step with images. Where they cannot be embedded, the step before
    /// stays.
    pub fn reset_pixels(&mut self, pixels: &Tensor) -> (r: Result<Tensor>)
        ensures
            final(self).held() == old(self).held(),
            final(self).element() == old(self).element(),
            final(self).location() == old(self).location(),
            r is Err ==> final(self).embedding() == old(self).embedding(),
            r matches Ok(o) ==> final(self).embedding() == Some(o) && old(self).embeds(
                value(*pixels),
                value(o),
            ) && tensor_dims(o) == seq![
                tensor_dims(*pixels)[0],
                tensor_dims(*pixels)[1],
                old(self).held().cfg.projector.output_dim,
            ],
            old(self).held().pixels_complaint(tensor_dims(*pixels)) is Some ==> r is Err,
            r matches Err(SwmError::Message(m)) ==> old(self).held().pixels_complaint(
                tensor_dims(*pixels),
            ) == Some(m@),
            old(self).held().pixels_complaint(tensor_dims(*pixels)) is None && old(self).sees_here(
                    value(*pixels),
                ) ==> r is Ok,
    {
        proof {
            use_type_invariant(&*self);
        }
        let emb = self.encode_pixels(pixels)?;
        self.emb = Some(share(&emb));
        Ok(emb)
    }

    /// The costs of action candidates at the current step: each is rolled out
    /// from the frames of the step, looking back over as many frames.
    pub open spec fn scores(
        self,
        candidates: TensorValue,
        goal: TensorValue,
        r: TensorValue,
    ) -> bool {
        let emb = value(self.embedding()->0);
        exists|near: TensorValue, wanted: TensorValue, rollout: TensorValue|
            #[trigger] placed(candidates, self.element(), self.location(), near)
                && #[trigger] placed(goal, self.element(), self.location(), wanted)
                && #[trigger] self.held().rolls_out(
                for_samples(emb, near.dims[0], near.dims[1]),
                near,
                emb.dims[1] as int,
                rollout,
            ) && is_goal_cost(rollout, wanted, r)
    }

    /// The shape of a history for each candidate.
    pub open spec fn history_dims(self, candidates: Seq<usize>) -> Seq<usize> {
        let emb = tensor_dims(self.embedding()->0);
        seq![candidates[0], candidates[1], emb[1], emb[2]]
    }

    /// What is wrong with the shape of candidates at the current step.
    pub open spec fn candidates_complaint(self, dims: Seq<usize>) -> Option<Seq<char>> {
        if self.embedding() is None {
            Some("LeWmSession must be reset before scoring candidates"@)
        } else if dims.len() != 4 {
            Some(rank_complaint(4, dims))
        } else if tensor_dims(self.embedding()->0).len() != 3 {
            Some(rank_complaint(3, tensor_dims(self.embedding()->0)))
        } else if count(self.history_dims(dims)) > usize::MAX {
            Some("LeWM rollout shape overflowed"@)
        } else {
            None
        }
    }

    /// What can be said of candidates after their shape has passed.
    pub open spec fn scores_say(self, dims: Seq<usize>, goal: Seq<usize>, text: Seq<char>) -> bool {
        let emb = self.history_dims(dims);
        match LeWm::rollout_complaint(emb, dims) {
            Some(complaint) => text == complaint,
            None => {
                ||| self.held().rollout_says(emb, dims, emb[2] as int, text)
                ||| goal_complaint(
                    seq![emb[0], emb[1], (dims[2] + 1) as usize, emb[3]],
                    goal,
                ) == Some(text)
            },
        }
    }

    /// Scores action candidates `[batch, samples, time, actions]` at the current
    /// step by their distance from a goal.
    pub fn score_candidates(&self, action_candidates: &Tensor, goal_emb: &Tensor) -> (r: Result<
        Tensor,
    >)
        ensures
            self.candidates_complaint(tensor_dims(*action_candidates)) is Some ==> r is Err,
            self.embedding() is None ==> r is Err && r->Err_0.says(
                "LeWmSession must be reset before scoring candidates"@,
            ),
            r matches Err(SwmError::Message(m)) ==> match self.candidates_complaint(
                tensor_dims(*action_candidates),
            ) {
                Some(text) => m@ == text,
                None => self.scores_say(
                    tensor_dims(*action_candidates),
                    tensor_dims(*goal_emb),
                    m@,
                ),
            },
            r matches Ok(o) ==> self.scores(value(*action_candidates), value(*goal_emb), value(o))
                && tensor_dims(o) == seq![
                tensor_dims(*action_candidates)[0],
                tensor_dims(*action_candidates)[1],
            ],
            r matches Ok(o) ==> laid_out(o),
            self.candidates_complaint(tensor_dims(*action_candidates)) is None && self.scores_here(
                    value(*action_candidates),
                    value(*goal_emb),
                ) ==> r is Ok,
    {
        proof {
            use_type_invariant(self);
        }
        let emb = match &self.emb {
            None => {
                return Err(message("LeWmSession must be reset before scoring candidates"));
            },
            Some(emb) => emb,
        };
        let near = place(action_candidates, &self.device, self.dtype)?;
        let wanted = place(goal_emb, &self.device, self.dtype)?;
        let (b, s, t, a) = dims4(&near)?;
        let (eb, h, d) = dims3(emb)?;
        let shape: [usize; 4] = [b, s, h, d];
        proof {
            assert(shape@ =~= seq![b, s, h, d]);
        }
        if element_count(&shape).is_none() {
            return Err(message("LeWM rollout shape overflowed"));
        }
        let column = lift(unsqueeze(emb, 1))?;
        proof {
            assert(tensor_dims(*emb).insert(1, 1) =~= seq![eb, 1usize, h, d]);
        }
        let init = lift(broadcast_as(&column, &shape))?;
        let rollout = self.model.rollout_embeddings_with_history(&init, &near, h)?;
        let out = self.model.goal_cost(&rollout, &wanted)?;
        proof {
            assert(placed(
                value(*action_candidates),
                self.element(),
                self.location(),
                value(near),
            ));
            assert(placed(value(*goal_emb), self.element(), self.location(), value(wanted)));
            assert(value(init) == for_samples(value(*emb), b, s));
            assert(self.held().rolls_out(
                for_samples(value(*emb), value(near).dims[0], value(near).dims[1]),
                value(near),
                value(*emb).dims[1] as int,
                value(rollout),
            ));
        }
        Ok(out)
    }
}

/// What a session gives candidates as scores are the costs that its model gives
/// them directly: a rollout that looks back over as many frames as were seen, and
/// the distance of its end from the goal. Where the model looks back over that
/// many frames, they are the costs that it gives itself. Candidates and goal are at
/// the session's place in its element type.
pub proof fn session_scores_are_direct_costs(
    session: LeWmSession,
    candidates: TensorValue,
    goal: TensorValue,
    r: TensorValue,
)
    requires
        session.scores(candidates, goal, r),
        candidates.element == session.element(),
        candidates.location == session.location(),
        goal.element == session.element(),
        goal.location == session.location(),
    ensures
        exists|rollout: TensorValue|
            #[trigger] session.held().rolls_out(
                for_samples(value(session.embedding()->0), candidates.dims[0], candidates.dims[1]),
                candidates,
                value(session.embedding()->0).dims[1] as int,
                rollout,
            ) && is_goal_cost(rollout, goal, r),
        value(session.embedding()->0).dims[1] == session.held().cfg.history_size
            ==> session.held().costs(
            for_samples(value(session.embedding()->0), candidates.dims[0], candidates.dims[1]),
            goal,
            candidates,
            r,
        ),
{
    let emb = value(session.embedding()->0);
    let (near, wanted, rollout) = choose|
        near: TensorValue,
        wanted: TensorValue,
        rollout: TensorValue,
    |
        #[trigger] placed(candidates, session.element(), session.location(), near)
            && #[trigger] placed(goal, session.element(), session.location(), wanted)
            && #[trigger] session.held().rolls_out(
            for_samples(emb, near.dims[0], near.dims[1]),
            near,
            emb.dims[1] as int,
            rollout,
        ) && is_goal_cost(rollout, wanted, r);
    assert(near == candidates);
    assert(wanted == goal);
    assert(session.held().rolls_out(
        for_samples(emb, candidates.dims[0], candidates.dims[1]),
        candidates,
        emb.dims[1] as int,
        rollout,
    ));
}

/// Scores candidates of a session by their distance from a goal.
pub struct LeWmGoalScorer<'a> {
    session: &'a LeWmSession,
    goal_emb: &'a Tensor,
}

impl<'a> LeWmGoalScorer<'a> {
    /// The session behind the scorer.
    pub closed spec fn held(self) -> LeWmSession {
        *self.session
    }

    /// The goal of the scorer.
    pub closed spec fn goal(self) -> Tensor {
        *self.goal_emb
    }

    pub fn new(session: &'a LeWmSession, goal_emb: &'a Tensor) -> (r: Self)
        ensures
            r.held() == *session,
            r.goal() == *goal_emb,
    {
        Self { session, goal_emb }
    }
}

impl<'a> CandidateScorer for LeWmGoalScorer<'a> {
    fn device(&self) -> (r: &Device)
        ensures
            device_location(*r) == self.held().location(),
    {
        self.session.device()
    }

    fn dtype(&self) -> (r: DType)
        ensures
            dtype_element(r) == self.held().element(),
    {
        self.session.dtype()
    }

    /// The batch of the current step.
    fn batch_size(&self) -> (r: Option<usize>)
        ensures
            match self.held().embedding() {
                Some(e) => if tensor_dims(e).len() > 0 {
                    r == Some(tensor_dims(e)[0])
                } else {
                    r is None
                },
                None => r is None,
            },
    {
        match self.session.cached_embedding() {
            Some(e) => {
                let d = dims(e);
                if d.len() > 0 {
                    Some(d[0])
                } else {
                    None
                }
            },
            None => None,
        }
    }

    fn score_candidates(&self, action_candidates: &Tensor) -> (r: Result<Tensor>)
        ensures
            self.held().candidates_complaint(tensor_dims(*action_candidates)) is Some ==> r is Err,
            r matches Err(SwmError::Message(m)) ==> match self.held().candidates_complaint(
                tensor_dims(*action_candidates),
            ) {
                Some(text) => m@ == text,
                None => self.held().scores_say(
                    tensor_dims(*action_candidates),
                    tensor_dims(self.goal()),
                    m@,
                ),
            },
            r matches Ok(o) ==> self.held().scores(
                value(*action_candidates),
                value(self.goal()),
                value(o),
            ) && tensor_dims(o) == seq![
                tensor_dims(*action_candidates)[0],
                tensor_dims(*action_candidates)[1],
            ],
            r matches Ok(o) ==> laid_out(o),
            self.held().candidates_complaint(tensor_dims(*action_candidates)) is None
                    && self.held().scores_here(value(*action_candidates), value(self.goal())) ==> r is Ok,
    {
        self.session.score_candidates(action_candidates, self.goal_emb)
    }
}

} // verus!
