//! A TD-MPC2 model at work: the observations of a step, their encoding and what
//! follows from it.

use candle_core::DType;
use candle_core::Device;
use candle_core::Tensor;
use vstd::prelude::*;

use crate::error::{lift, message, Result, SwmError};
use crate::models::tdmpc2::bins::{two_hot_complaint, two_hot_value};
use crate::models::tdmpc2::config::TdMpc2Config;
use crate::models::tdmpc2::model::TdMpc2;
use crate::models::tdmpc2::state::{lemma_state_observed, state_complaint};
use crate::planner::scorer::CandidateScorer;
use crate::tensor::layout::{dims, laid_out, placed, share, to_device, to_dtype};
use crate::tensor::value::{
    device_location, dtype_element, plain, resident, tensor_dims, tensor_element, tensor_keys,
    tensor_location, value, ElementType, Location, TensorValue,
};
use crate::models::tdmpc2::encode::one_observation;

verus! {

/// A model with the observations of the current step.
#[derive(Debug)]
pub struct TdMpc2Session {
    model: TdMpc2,
    device: Device,
    dtype: DType,
    observations: Option<Vec<(String, Tensor)>>,
    z: Option<Tensor>,
}

/// Named tensors brought to a place and an element type.
pub open spec fn moved(
    given: Seq<(&str, &Tensor)>,
    e: ElementType,
    location: Location,
    stored: Seq<(String, Tensor)>,
) -> bool {
    &&& stored.len() == given.len()
    &&& forall|k: int|
        0 <= k < stored.len() ==> (#[trigger] stored[k]).0@ == given[k].0@ && placed(
            value(*given[k].1),
            e,
            location,
            value(stored[k].1),
        )
}

/// References to named tensors.
pub open spec fn refers(refs: Seq<(&str, &Tensor)>, stored: Seq<(String, Tensor)>) -> bool {
    &&& refs.len() == stored.len()
    &&& forall|k: int|
        0 <= k < refs.len() ==> (#[trigger] refs[k]).0@ == stored[k].0@ && *refs[k].1 == stored[k].1
}

/// Brings a tensor to a place and an element type.
pub(crate) fn place(t: &Tensor, device: &Device, dtype: DType) -> (r: Result<Tensor>)
    ensures
        r matches Ok(o) ==> placed(
            value(*t),
            dtype_element(dtype),
            device_location(*device),
            value(o),
        ) && tensor_keys(o).len() == tensor_keys(*t).len(),
        r matches Err(e) ==> e is Backend,
        resident(value(*t)) && device_location(*device) is Cpu && plain(dtype_element(dtype))
            ==> r is Ok,
{
    let there = lift(to_device(t, device))?;
    let out = lift(to_dtype(&there, dtype))?;
    proof {
        assert(value(there) == (TensorValue { location: device_location(*device), ..value(*t) }));
    }
    Ok(out)
}

fn references(stored: &Vec<(String, Tensor)>) -> (r: Vec<(&str, &Tensor)>)
    ensures
        refers(r@, stored@),
{
    let mut out: Vec<(&str, &Tensor)> = Vec::new();
    let mut k: usize = 0;
    while k < stored.len()
        invariant
            k <= stored@.len(),
            out@.len() == k,
            forall|j: int|
                0 <= j < k ==> (#[trigger] out@[j]).0@ == stored@[j].0@
                    && *out@[j].1 == stored@[j].1,
        decreases stored@.len() - k,
    {
        let entry = &stored[k];
        out.push((entry.0.as_str(), &entry.1));
        k = k + 1;
    }
    out
}

impl TdMpc2Session {
    /// The model of the session.
    pub closed spec fn held(self) -> TdMpc2 {
        self.model
    }

    /// The element type of the session.
    pub closed spec fn element(self) -> ElementType {
        dtype_element(self.dtype)
    }

    /// The place of the session.
    pub closed spec fn location(self) -> Location {
        device_location(self.device)
    }

    /// The observations of the current step.
    pub closed spec fn seen(self) -> Option<Seq<(String, Tensor)>> {
        match self.observations {
            Some(v) => Some(v@),
            None => None,
        }
    }

    /// The encoding of the current step.
    pub closed spec fn latent(self) -> Option<Tensor> {
        self.z
    }

    #[verifier::type_invariant]
    closed spec fn works(self) -> bool {
        self.model.well_formed()
    }

    /// The model, the place and the element type of two sessions are the same.
    pub open spec fn same_setting(self, other: Self) -> bool {
        self.held() == other.held() && self.element() == other.element() && self.location()
            == other.location()
    }

    pub fn new(model: TdMpc2, device: Device, dtype: DType) -> (r: Self)
        requires
            model.well_formed(),
        ensures
            r.held() == model,
            r.element() == dtype_element(dtype),
            r.location() == device_location(device),
            r.seen() is None,
            r.latent() is None,
    {
        Self { model, device, dtype, observations: None, z: None }
    }

    pub fn config(&self) -> (r: &TdMpc2Config)
        ensures
            *r == self.held().cfg,
    {
        self.model.config()
    }

    pub fn device(&self) -> (r: &Device)
        ensures
            device_location(*r) == self.location(),
    {
        &self.device
    }

    pub fn dtype(&self) -> (r: DType)
        ensures
            dtype_element(r) == self.element(),
    {
        self.dtype
    }

    pub fn cached_latent(&self) -> (r: Option<&Tensor>)
        ensures
            match r {
                Some(t) => self.latent() == Some(*t),
                None => self.latent() is None,
            },
    {
        match &self.z {
            Some(t) => Some(t),
            None => None,
        }
    }

    /// Whether observations were stored and encoded as `z`.
    pub open spec fn holds(self, given: Seq<(&str, &Tensor)>, z: Tensor) -> bool {
        &&& self.latent() == Some(z)
        &&& self.seen() is Some
        &&& moved(given, self.element(), self.location(), self.seen()->0)
        &&& exists|refs: Seq<(&str, &Tensor)>|
            #[trigger] refers(refs, self.seen()->0) && self.held().encode_complaint(refs) is None
                && self.held().encoded(refs, value(z))
    }

    /// Whether the session works in the memory of the processor.
    pub open spec fn works_here(self) -> bool {
        self.location() is Cpu && plain(self.element())
    }

    /// Whether observations are encoded on the processor.
    pub open spec fn sees_here(self, given: Seq<(&str, &Tensor)>, lead: Seq<usize>) -> bool {
        &&& self.works_here()
        &&& forall|k: int| 0 <= k < given.len() ==> resident(value(*(#[trigger] given[k]).1))
        &&& forall|refs: Seq<(&str, &Tensor)>, stored: Seq<(String, Tensor)>|
            #[trigger] moved(given, self.element(), self.location(), stored) && #[trigger] refers(
                refs,
                stored,
            ) ==> self.held().sees(refs, self.element(), lead)
    }

    /// Whether observations are encoded goes by their names and values.
    pub proof fn lemma_sees_by_value(
        self,
        given: Seq<(&str, &Tensor)>,
        other: Seq<(&str, &Tensor)>,
        lead: Seq<usize>,
    )
        requires
            self.sees_here(given, lead),
            other.len() == given.len(),
            forall|k: int|
                0 <= k < given.len() ==> (#[trigger] other[k]).0@ == given[k].0@ && value(
                    *other[k].1,
                ) == value(*given[k].1),
        ensures
            self.sees_here(other, lead),
    {
        assert forall|k: int| 0 <= k < other.len() implies resident(
            value(*(#[trigger] other[k]).1),
        ) by {
            assert(resident(value(*given[k].1)));
        }
        assert forall|refs: Seq<(&str, &Tensor)>, stored: Seq<(String, Tensor)>|
            #[trigger] moved(other, self.element(), self.location(), stored) && #[trigger] refers(
                refs,
                stored,
            ) implies self.held().sees(refs, self.element(), lead) by {
            assert(moved(given, self.element(), self.location(), stored)) by {
                assert forall|k: int| 0 <= k < stored.len() implies (#[trigger] stored[k]).0@
                    == given[k].0@ && placed(
                    value(*given[k].1),
                    self.element(),
                    self.location(),
                    value(stored[k].1),
                ) by {
                    assert(other[k].0@ == given[k].0@);
                }
            }
        }
    }

    /// What can be said of observations.
    pub open spec fn reset_says(self, given: Seq<(&str, &Tensor)>, text: Seq<char>) -> bool {
        exists|refs: Seq<(&str, &Tensor)>, stored: Seq<(String, Tensor)>|
            #[trigger] moved(given, self.element(), self.location(), stored) && #[trigger] refers(
                refs,
                stored,
            ) && (self.held().encode_complaint(refs) == Some(text) || self.held().cannot_join(
                refs,
                text,
            ))
    }

    /// Starts a step with named observations. Where they cannot be encoded, the
    /// step before stays.
    pub fn reset_observations(&mut self, observations: &[(&str, &Tensor)]) -> (r: Result<Tensor>)
        ensures
            final(self).same_setting(*old(self)),
            r is Err ==> final(self).seen() == old(self).seen()
                && final(self).latent() == old(self).latent(),
            r matches Ok(z) ==> final(self).holds(observations@, z),
            r matches Err(SwmError::Message(m)) ==> old(self).reset_says(observations@, m@),
            forall|lead: Seq<usize>| #[trigger]
                old(self).sees_here(observations@, lead) ==> r is Ok,
    {
        proof {
            use_type_invariant(&*self);
        }
        let mut stored: Vec<(String, Tensor)> = Vec::new();
        let mut k: usize = 0;
        while k < observations.len()
            invariant
                *self == *old(self),
                k <= observations@.len(),
                stored@.len() == k,
                self.model.well_formed(),
                forall|j: int|
                    0 <= j < k ==> (#[trigger] stored@[j]).0@ == observations@[j].0@ && placed(
                        value(*observations@[j].1),
                        self.element(),
                        self.location(),
                        value(stored@[j].1),
                    ),
            decreases observations@.len() - k,
        {
            let (name, tensor) = observations[k];
            proof {
                assert forall|lead: Seq<usize>| #[trigger] self.sees_here(
                    observations@,
                    lead,
                ) implies resident(value(*tensor)) by {
                    assert(observations@[k as int].1 == tensor);
                }
            }
            let near = place(tensor, &self.device, self.dtype)?;
            stored.push((String::from_str(name), near));
            k = k + 1;
        }
        let refs = references(&stored);
        let ghost refs_seq = refs@;
        proof {
            assert(moved(observations@, self.element(), self.location(), stored@));
            assert(refers(refs_seq, stored@));
        }
        let z = self.model.encode(refs.as_slice())?;
        self.observations = Some(stored);
        self.z = Some(share(&z));
        proof {
            assert(self.held().encoded(refs_seq, value(z)));
        }
        Ok(z)
    }

    /// Starts a step with an observation of the name `state`.
    pub fn reset_state(&mut self, state: &Tensor) -> (r: Result<Tensor>)
        ensures
            final(self).same_setting(*old(self)),
            r is Err ==> final(self).seen() == old(self).seen()
                && final(self).latent() == old(self).latent(),
            r matches Ok(z) ==> final(self).holds(seq![("state", state)], z),
            r matches Err(SwmError::Message(m))
                ==> old(self).reset_says(seq![("state", state)], m@),
            forall|lead: Seq<usize>| #[trigger]
                old(self).sees_here(one_observation("state", state), lead) ==> r is Ok,
    {
        let obs: [(&str, &Tensor); 1] = [("state", state)];
        proof {
            assert(obs@ =~= seq![("state", state)]);
        }
        self.reset_observations(&obs)
    }

    /// Starts a step with an observation of the name `pixels`.
    pub fn reset_pixels(&mut self, pixels: &Tensor) -> (r: Result<Tensor>)
        ensures
            final(self).same_setting(*old(self)),
            r is Err ==> final(self).seen() == old(self).seen()
                && final(self).latent() == old(self).latent(),
            r matches Ok(z) ==> final(self).holds(seq![("pixels", pixels)], z),
            r matches Err(SwmError::Message(m)) ==> old(self).reset_says(
                seq![("pixels", pixels)],
                m@,
            ),
            forall|lead: Seq<usize>| #[trigger]
                old(self).sees_here(one_observation("pixels", pixels), lead) ==> r is Ok,
    {
        let obs: [(&str, &Tensor); 1] = [("pixels", pixels)];
        proof {
            assert(obs@ =~= seq![("pixels", pixels)]);
        }
        self.reset_observations(&obs)
    }

    /// The mean action of the policy at the current step.
    pub fn actor_mean_action(&self) -> (r: Result<Tensor>)
        ensures
            self.latent() is None ==> r is Err && r->Err_0.says(
                "TdMpc2Session must be reset before actor action"@,
            ),
            self.latent() is Some ==> (r matches Err(SwmError::Message(m))
                ==> self.held().actor_complaint() == Some(m@)),
            r matches Ok(o) ==> self.held().mean_action(value(self.latent()->0), value(o))
                && tensor_dims(o) == self.held().action_dims(tensor_dims(self.latent()->0)),
            self.latent() is Some && self.held().actor_complaint() is None
                && self.held().takes(value(self.latent()->0), self.held().latent() as int)
                ==> r is Ok,
            r matches Ok(o) ==> tensor_element(o) == tensor_element(self.latent()->0) && tensor_location(o)
                    == tensor_location(self.latent()->0),
    {
        proof {
            use_type_invariant(self);
        }
        match &self.z {
            None => Err(message("TdMpc2Session must be reset before actor action")),
            Some(z) => self.model.actor_mean_action(z),
        }
    }

    /// The action that the policy takes at the current step with given draws.
    pub fn actor_sample_action(&self, noise: &Tensor) -> (r: Result<Tensor>)
        ensures
            self.latent() is None ==> r is Err && r->Err_0.says(
                "TdMpc2Session must be reset before actor action"@,
            ),
            self.latent() is Some ==> (r matches Err(SwmError::Message(m))
                ==> self.held().actor_complaint() == Some(m@) || m@ == self.held().noise_complaint(
                tensor_dims(self.latent()->0),
                tensor_dims(*noise),
            )),
            r matches Ok(o) ==> (exists|draws: TensorValue| #[trigger]
                placed(value(*noise), self.element(), self.location(), draws)
                    && self.held().sampled_action(value(self.latent()->0), draws, value(o)))
                && tensor_dims(o) == self.held().action_dims(tensor_dims(self.latent()->0)),
            self.latent() is Some && self.held().actor_complaint() is None
                && self.held().takes(value(self.latent()->0), self.held().latent() as int)
                && tensor_dims(*noise) == self.held().action_dims(tensor_dims(self.latent()->0))
                && self.works_here() && resident(value(*noise)) ==> r is Ok,
    {
        proof {
            use_type_invariant(self);
        }
        match &self.z {
            None => Err(message("TdMpc2Session must be reset before actor action")),
            Some(z) => {
                let draws = place(noise, &self.device, self.dtype)?;
                let out = self.model.actor_sample_action(z, &draws)?;
                proof {
                    assert(placed(value(*noise), self.element(), self.location(), value(draws)));
                }
                Ok(out)
            },
        }
    }

    /// Takes the mean action for a number of steps from the current one.
    pub fn rollout_actor_mean(&self, horizon: usize) -> (r: Result<(Tensor, Tensor, Tensor)>)
        ensures
            self.latent() is None ==> r is Err && r->Err_0.says(
                "TdMpc2Session must be reset before actor rollout"@,
            ),
            self.latent() is Some && horizon == 0 ==> r is Err,
            self.latent() is Some ==> (r matches Err(SwmError::Message(m))
                ==> self.held().rollout_complaint(horizon as nat, m@) || two_hot_complaint(
                tensor_dims(self.latent()->0).drop_last().push(self.held().cfg.num_bins).insert(
                    1,
                    horizon,
                ),
                self.held().cfg.num_bins,
            ) == Some(m@)),
            r matches Ok(o) ==> exists|logits: TensorValue| #[trigger]
                self.held().mean_logits(
                    value(self.latent()->0),
                    horizon as nat,
                    value(o.0),
                    logits,
                    value(o.2),
                ) && two_hot_value(
                    logits,
                    self.held().cfg.vmin,
                    self.held().cfg.vmax,
                    self.held().cfg.num_bins,
                    value(o.1),
                ),
            r matches Ok(o) ==> tensor_dims(o.2) == tensor_dims(self.latent()->0),
            self.latent() is Some && horizon > 0 && self.held().actor_complaint() is None
                && self.held().latent_complaint() is None
                && self.held().takes(value(self.latent()->0), self.held().latent() as int)
                && two_hot_complaint(
                tensor_dims(self.latent()->0).drop_last().push(self.held().cfg.num_bins).insert(1, horizon),
                self.held().cfg.num_bins,
            ) is None ==> r is Ok,
            r matches Ok(o) ==> tensor_dims(self.latent()->0).len() >= 2 && tensor_dims(o.0) == self.held().action_dims(
                    tensor_dims(self.latent()->0),
                ).insert(1, horizon) && tensor_dims(o.1) == tensor_dims(self.latent()->0).drop_last().insert(
                    1,
                    horizon,
                ).push(1),
            r matches Ok(o) ==> tensor_element(o.0) == tensor_element(self.latent()->0) && tensor_location(o.0)
                    == tensor_location(self.latent()->0),
            r matches Ok(o) ==> tensor_element(o.1) == tensor_element(self.latent()->0) && tensor_location(o.1)
                    == tensor_location(self.latent()->0),
    {
        proof {
            use_type_invariant(self);
        }
        match &self.z {
            None => Err(message("TdMpc2Session must be reset before actor rollout")),
            Some(z) => self.model.rollout_actor_mean(z, horizon),
        }
    }

    /// Draws actions from the current step on and takes the mean over the
    /// trajectories.
    pub fn rollout_actor_sampled(&self, horizon: usize, num_trajs: usize) -> (r: Result<Tensor>)
        ensures
            self.latent() is None ==> r is Err && r->Err_0.says(
                "TdMpc2Session must be reset before actor rollout"@,
            ),
            self.latent() is Some && horizon == 0 ==> r is Err && r->Err_0.says(
                "TD-MPC2 sampled actor rollout horizon must be greater than zero"@,
            ),
            self.latent() is Some && horizon > 0 && num_trajs == 0 ==> r is Err && r->Err_0.says(
                "TD-MPC2 sampled actor rollout requires at least one trajectory"@,
            ),
            self.latent() is Some ==> {
                let complaint = self.held().sampling_complaint(
                    tensor_dims(self.latent()->0),
                    horizon,
                    num_trajs,
                );
                &&& complaint is Some ==> r is Err
                &&& r matches Err(SwmError::Message(m)) ==> match complaint {
                    Some(text) => m@ == text,
                    None => self.held().actor_complaint() == Some(m@)
                        || self.held().latent_complaint() == Some(m@),
                }
            },
            r matches Ok(o) ==> exists|noise: TensorValue|
                noise.dims == seq![
                    num_trajs,
                    tensor_dims(self.latent()->0)[0],
                    horizon,
                    self.held().cfg.action_dim,
                ] && #[trigger] self.held().mean_of_draws(
                    value(self.latent()->0),
                    noise,
                    value(o),
                ),
            self.latent() is Some && self.held().sampling_complaint(
                tensor_dims(self.latent()->0),
                horizon,
                num_trajs,
            ) is None && self.held().actor_complaint() is None && self.held().latent_complaint() is None
                && self.held().takes(value(self.latent()->0), self.held().latent() as int) ==> r is Ok,
            r matches Ok(o) ==> tensor_dims(o).len() == 3,
            r matches Ok(o) ==> tensor_element(o) == tensor_element(self.latent()->0) && tensor_location(o)
                    == tensor_location(self.latent()->0),
    {
        proof {
            use_type_invariant(self);
        }
        match &self.z {
            None => Err(message("TdMpc2Session must be reset before actor rollout")),
            Some(z) => self.model.rollout_actor_sampled(z, horizon, num_trajs),
        }
    }

    /// Takes the mean over the trajectories of actions with given draws, from
    /// the current step on.
    pub fn rollout_actor_sampled_with_noise(&self, noise: &Tensor) -> (r: Result<Tensor>)
        ensures
            self.latent() is None ==> r is Err && r->Err_0.says(
                "TdMpc2Session must be reset before actor rollout"@,
            ),
            self.latent() is Some && self.held().draws_complaint(
                tensor_dims(self.latent()->0),
                tensor_dims(*noise),
            ) is Some ==> r is Err,
            self.latent() is Some ==> (r matches Err(SwmError::Message(m))
                ==> self.held().draws_complaint(tensor_dims(self.latent()->0), tensor_dims(*noise))
                == Some(m@) || self.held().actor_complaint() == Some(m@)
                || self.held().latent_complaint() == Some(m@)),
            r matches Ok(o) ==> exists|draws: TensorValue| #[trigger]
                placed(value(*noise), self.element(), self.location(), draws)
                    && self.held().mean_of_draws(value(self.latent()->0), draws, value(o)),
            self.latent() is Some && self.held().draws_complaint(
                tensor_dims(self.latent()->0),
                tensor_dims(*noise),
            ) is None && self.held().actor_complaint() is None && self.held().latent_complaint() is None
                && self.held().takes(value(self.latent()->0), self.held().latent() as int)
                && self.works_here()
                && resident(value(*noise)) ==> r is Ok,
    {
        proof {
            use_type_invariant(self);
        }
        match &self.z {
            None => Err(message("TdMpc2Session must be reset before actor rollout")),
            Some(z) => {
                let draws = place(noise, &self.device, self.dtype)?;
                let out = self.model.rollout_actor_sampled_with_noise(z, &draws)?;
                proof {
                    assert(placed(value(*noise), self.element(), self.location(), value(draws)));
                }
                Ok(out)
            },
        }
    }

    /// The costs of action candidates at the current step.
    pub open spec fn scores(self, candidates: TensorValue, r: TensorValue) -> bool {
        exists|refs: Seq<(&str, &Tensor)>, near: TensorValue|
            #[trigger] refers(refs, self.seen()->0) && #[trigger] placed(
                candidates,
                self.element(),
                self.location(),
                near,
            ) && self.held().cost_of(refs, near, r)
    }

    /// Whether candidates are scored on the processor at the current step.
    pub open spec fn scores_here(self, candidates: TensorValue, lead: Seq<usize>) -> bool {
        &&& self.works_here()
        &&& resident(candidates)
        &&& self.seen() is Some
        &&& forall|refs: Seq<(&str, &Tensor)>, near: TensorValue|
            #[trigger] refers(refs, self.seen()->0) && #[trigger] placed(
                candidates,
                self.element(),
                self.location(),
                near,
            ) ==> self.held().costs_here(refs, self.element(), lead, near)
    }

    /// What can be said of candidates at the current step.
    pub open spec fn scores_say(self, dims: Seq<usize>, text: Seq<char>) -> bool {
        exists|refs: Seq<(&str, &Tensor)>|
            #[trigger] refers(refs, self.seen()->0) && self.held().cost_says(refs, dims, text)
    }

    /// Scores action candidates `[batch, candidates, time, actions]` at the
    /// current step.
    pub fn score_candidates(&self, action_candidates: &Tensor) -> (r: Result<Tensor>)
        ensures
            self.seen() is None ==> r is Err && r->Err_0.says(
                "TdMpc2Session must be reset before scoring candidates"@,
            ),
            self.seen() is Some && self.held().candidates_complaint(
                tensor_dims(*action_candidates),
            ) is Some ==> r is Err,
            self.seen() is Some ==> (r matches Err(SwmError::Message(m)) ==> self.scores_say(
                tensor_dims(*action_candidates),
                m@,
            )),
            r matches Ok(o) ==> self.seen() is Some && self.scores(
                value(*action_candidates),
                value(o),
            ) && tensor_dims(o) == seq![
                tensor_dims(*action_candidates)[0],
                tensor_dims(*action_candidates)[1],
            ],
            forall|lead: Seq<usize>| #[trigger]
                self.scores_here(value(*action_candidates), lead) ==> r is Ok,
            r matches Ok(o) ==> laid_out(o),
    {
        proof {
            use_type_invariant(self);
        }
        match &self.observations {
            None => Err(message("TdMpc2Session must be reset before scoring candidates")),
            Some(stored) => {
                let refs = references(stored);
                proof {
                    assert(refers(refs@, self.seen()->0));
                }
                let near = place(action_candidates, &self.device, self.dtype)?;
                proof {
                    assert(placed(
                        value(*action_candidates),
                        self.element(),
                        self.location(),
                        value(near),
                    ));
                    assert forall|lead: Seq<usize>| #[trigger] self.scores_here(
                        value(*action_candidates),
                        lead,
                    ) implies self.held().costs_here(
                        refs@,
                        self.element(),
                        lead,
                        value(near),
                    ) by {}
                }
                let out = self.model.get_cost(refs.as_slice(), &near)?;
                Ok(out)
            },
        }
    }
}

/// What a session gives candidates as scores are the costs that its model gives
/// them directly after the observations of the step: where the candidates are at
/// the session's place in its element type.
pub proof fn session_scores_are_direct_costs(
    session: TdMpc2Session,
    candidates: TensorValue,
    r: TensorValue,
)
    requires
        session.scores(candidates, r),
        candidates.element == session.element(),
        candidates.location == session.location(),
    ensures
        exists|refs: Seq<(&str, &Tensor)>|
            #[trigger] refers(refs, session.seen()->0) && session.held().cost_of(
                refs,
                candidates,
                r,
            ),
{
    let (refs, near) = choose|refs: Seq<(&str, &Tensor)>, near: TensorValue|
        #[trigger] refers(refs, session.seen()->0) && #[trigger] placed(
            candidates,
            session.element(),
            session.location(),
            near,
        ) && session.held().cost_of(refs, near, r);
    assert(near == candidates);
    assert(refers(refs, session.seen()->0));
}

impl CandidateScorer for TdMpc2Session {
    fn device(&self) -> (r: &Device)
        ensures
            device_location(*r) == self.location(),
    {
        &self.device
    }

    fn dtype(&self) -> (r: DType)
        ensures
            dtype_element(r) == self.element(),
    {
        self.dtype
    }

    /// The batch of the current step.
    fn batch_size(&self) -> (r: Option<usize>)
        ensures
            match self.latent() {
                Some(z) => if tensor_dims(z).len() > 0 {
                    r == Some(tensor_dims(z)[0])
                } else {
                    r is None
                },
                None => r is None,
            },
    {
        match &self.z {
            Some(z) => {
                let d = dims(z);
                if d.len() > 0 {
                    Some(d[0])
                } else {
                    None
                }
            },
            None => None,
        }
    }

    fn score_candidates(&self, action_candidates: &Tensor) -> (r: Result<Tensor>)
        ensures
            self.seen() is None ==> r is Err && r->Err_0.says(
                "TdMpc2Session must be reset before scoring candidates"@,
            ),
            self.seen() is Some ==> (r matches Err(SwmError::Message(m)) ==> self.scores_say(
                tensor_dims(*action_candidates),
                m@,
            )),
            r matches Ok(o) ==> self.seen() is Some && self.scores(
                value(*action_candidates),
                value(o),
            ) && tensor_dims(o) == seq![
                tensor_dims(*action_candidates)[0],
                tensor_dims(*action_candidates)[1],
            ],
            forall|lead: Seq<usize>| #[trigger]
                self.scores_here(value(*action_candidates), lead) ==> r is Ok,
            r matches Ok(o) ==> laid_out(o),
    {
        TdMpc2Session::score_candidates(self, action_candidates)
    }
}

/// What a session with a model that sees a state vector says of one.
pub proof fn lemma_state_refused(
    session: TdMpc2Session,
    state_dim: usize,
    action_dim: usize,
    state: &Tensor,
    text: Seq<char>,
)
    requires
        session.held().well_formed(),
        session.held().cfg.sees_state(state_dim, action_dim),
        session.reset_says(seq![("state", state)], text),
    ensures
        state_complaint(state_dim, tensor_dims(*state)) == Some(text),
{
    let given = seq![("state", state)];
    let (refs, stored) = choose|refs: Seq<(&str, &Tensor)>, stored: Seq<(String, Tensor)>|
        #[trigger] moved(given, session.element(), session.location(), stored) && #[trigger] refers(
            refs,
            stored,
        ) && (session.held().encode_complaint(refs) == Some(text) || session.held().cannot_join(
            refs,
            text,
        ));
    assert(stored[0].0@ == given[0].0@);
    assert(refs[0].0@ == stored[0].0@);
    lemma_state_observed(session.held(), state_dim, action_dim, refs);
}

/// Nothing is wrong with a state vector that such a session holds.
pub proof fn lemma_state_held(
    session: TdMpc2Session,
    state_dim: usize,
    action_dim: usize,
    state: &Tensor,
    z: Tensor,
)
    requires
        session.held().well_formed(),
        session.held().cfg.sees_state(state_dim, action_dim),
        session.holds(seq![("state", state)], z),
    ensures
        state_complaint(state_dim, tensor_dims(*state)) is None,
{
    let given = seq![("state", state)];
    let stored = session.seen()->0;
    let refs = choose|refs: Seq<(&str, &Tensor)>|
        #[trigger] refers(refs, stored) && session.held().encode_complaint(refs) is None
            && session.held().encoded(refs, value(z));
    assert(stored[0].0@ == given[0].0@);
    assert(refs[0].0@ == stored[0].0@);
    lemma_state_observed(session.held(), state_dim, action_dim, refs);
}

} // verus!
