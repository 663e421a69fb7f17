//! Rolling the policy of the TD-MPC2 model out.

use candle_core::Tensor;
use vstd::prelude::*;

use crate::error::{lift, message, Result, SwmError};
use crate::models::tdmpc2::actor::{pair, paired, zero_draws_give_the_mean_action};
use crate::models::tdmpc2::bins::{two_hot_complaint, two_hot_inv, two_hot_value};
use crate::models::tdmpc2::model::TdMpc2;
use crate::tensor::arithmetic::{average_of, mean};
use crate::tensor::facts::{lemma_counts, lemma_place, lemma_position};
use crate::tensor::join::{alike, lemma_stacked_shape, stack, stacked};
use crate::tensor::layout::{
    broadcast_as, device_of, dims, dtype, dtype_of, laid_out, narrow, narrowed, placed, reshape,
    share, to_device, to_dtype, unsqueeze,
};
use crate::tensor::make::{normal_like, zeros};
use crate::tensor::ranks::{dims2, dims4, element_count, rank_complaint};
use crate::tensor::value::{
    count, resident, spread, spreads, tensor_dims, tensor_element, tensor_location, value, values,
    ElementType, TensorValue,
};
use crate::text::{decimal, with_numbers};
use crate::tensor::layers::full;

verus! {

/// The states, actions and reward logits of a rollout.
pub struct MeanRollout {
    pub states: Seq<TensorValue>,
    pub actions: Seq<TensorValue>,
    pub logits: Seq<TensorValue>,
}

/// The states, draws and actions of a rollout with draws.
pub struct SampledRollout {
    pub states: Seq<TensorValue>,
    pub draws: Seq<TensorValue>,
    pub actions: Seq<TensorValue>,
}

/// A batch of states once for each trajectory, trajectory by trajectory.
pub open spec fn repeated_states(z: TensorValue, trajectories: usize) -> TensorValue {
    let (b, l) = (z.dims[0], z.dims[1]);
    spread(z.shaped(seq![1usize, b, l]), seq![trajectories, b, l]).shaped(
        seq![(trajectories * b) as usize, l],
    )
}

/// The draws `[trajectories * batch, actions]` for one step.
pub open spec fn draws_at(noise: TensorValue, t: int, r: TensorValue) -> bool {
    exists|one: TensorValue|
        #[trigger] narrowed(noise, 2, t, 1, one) && r == one.shaped(
            seq![(noise.dims[0] * noise.dims[1]) as usize, noise.dims[3]],
        )
}

/// A tensor in another shape, for each of a list.
pub open spec fn all_shaped(vs: Seq<TensorValue>, dims: Seq<usize>) -> Seq<TensorValue> {
    vs.map_values(|v: TensorValue| v.shaped(dims))
}

impl TdMpc2 {
    /// Step by step the mean action is taken, from a first state on.
    pub open spec fn follows_mean(self, z: TensorValue, horizon: nat, t: MeanRollout) -> bool {
        &&& t.states.len() == horizon + 1
        &&& t.actions.len() == horizon
        &&& t.logits.len() == horizon
        &&& t.states[0] == z
        &&& forall|k: int|
            0 <= k < horizon ==> self.mean_action(t.states[k], #[trigger] t.actions[k])
                && self.stepped(t.states[k], t.actions[k], t.states[k + 1], t.logits[k])
    }

    /// The actions and reward logits of a rollout, with the steps along the
    /// second axis, and its last state.
    pub open spec fn mean_logits(
        self,
        z: TensorValue,
        horizon: nat,
        actions: TensorValue,
        logits: TensorValue,
        last: TensorValue,
    ) -> bool {
        exists|t: MeanRollout|
            #[trigger] self.follows_mean(z, horizon, t) && stacked(t.actions, 1, actions)
                && stacked(t.logits, 1, logits) && last == t.states.last()
    }

    /// What is said of a rollout that cannot be made.
    pub open spec fn rollout_complaint(self, horizon: nat, text: Seq<char>) -> bool {
        if horizon == 0 {
            text == "TD-MPC2 actor rollout horizon must be greater than zero"@
        } else {
            self.actor_complaint() == Some(text) || self.latent_complaint() == Some(text)
        }
    }

    /// Takes the mean action for a number of steps.
    pub fn rollout_actor_mean_logits(&self, z: &Tensor, horizon: usize) -> (r: Result<
        (Tensor, Tensor, Tensor),
    >)
        requires
            self.well_formed(),
        ensures
            horizon == 0 ==> r is Err,
            r matches Err(SwmError::Message(m)) ==> self.rollout_complaint(horizon as nat, m@),
            r matches Ok(o) ==> self.mean_logits(
                value(*z),
                horizon as nat,
                value(o.0),
                value(o.1),
                value(o.2),
            ) && tensor_dims(*z).len() >= 2 && tensor_dims(o.0) == self.action_dims(
                tensor_dims(*z),
            ).insert(1, horizon) && tensor_dims(o.1) == tensor_dims(*z).drop_last().push(
                self.cfg.num_bins,
            ).insert(1, horizon) && tensor_dims(o.2) == tensor_dims(*z),
            horizon > 0 && self.actor_complaint() is None && self.latent_complaint() is None
                && self.takes(value(*z), self.latent() as int) ==> r is Ok,
            r matches Ok(o) ==> tensor_element(o.1) == tensor_element(*z) && tensor_location(o.1)
                == tensor_location(*z),
            r matches Ok(o) ==> full(tensor_dims(o.1)) ==> laid_out(o.1),
            r matches Ok(o) ==> tensor_element(o.0) == tensor_element(*z) && tensor_location(o.0)
                    == tensor_location(*z),
    {
        if horizon == 0 {
            return Err(message("TD-MPC2 actor rollout horizon must be greater than zero"));
        }
        let ghost first = value(*z);
        let ghost mut states: Seq<TensorValue> = seq![first];
        let mut state = share(z);
        let mut actions: Vec<Tensor> = Vec::new();
        let mut logits: Vec<Tensor> = Vec::new();
        let mut k: usize = 0;
        while k < horizon
            invariant
                self.well_formed(),
                first == value(*z),
                k <= horizon,
                horizon > 0,
                states.len() == k + 1,
                states[0] == first,
                states.last() == value(state),
                actions@.len() == k,
                logits@.len() == k,
                k > 0 ==> first.dims.len() >= 2 && first.dims.last() == self.latent(),
                tensor_dims(state) == first.dims,
                tensor_element(state) == first.element,
                tensor_location(state) == first.location,
                forall|j: int|
                    0 <= j < k ==> tensor_element(#[trigger] actions@[j]) == first.element
                        && tensor_location(actions@[j]) == first.location,
                forall|j: int|
                    0 <= j < k ==> tensor_element(#[trigger] logits@[j]) == first.element
                        && tensor_location(logits@[j]) == first.location && (full(
                        tensor_dims(logits@[j]),
                    ) ==> laid_out(logits@[j])),
                forall|j: int|
                    0 <= j < k ==> self.mean_action(states[j], value(#[trigger] actions@[j]))
                        && self.stepped(
                        states[j],
                        value(actions@[j]),
                        states[j + 1],
                        value(logits@[j]),
                    ) && tensor_dims(actions@[j]) == self.action_dims(first.dims),
                forall|j: int|
                    0 <= j < k
                        ==> tensor_dims(#[trigger] logits@[j]) == first.dims.drop_last().push(
                        self.cfg.num_bins,
                    ),
            decreases horizon - k,
        {
            let ghost before = value(state);
            let action = self.actor_mean_action(&state)?;
            proof {
                assert(tensor_dims(action).drop_last() =~= first.dims.drop_last());
            }
            let wide = pair(&state, &action)?;
            let reward = self.reward_logits(&wide)?;
            let next = self.next_latent(&wide)?;
            proof {
                assert(paired(before, value(action), value(wide)));
                assert(self.stepped(before, value(action), value(next), value(reward)));
                assert(tensor_dims(wide).drop_last() =~= first.dims.drop_last());
                assert(tensor_dims(action).last() == self.cfg.action_dim);
                assert(tensor_dims(wide).last() == first.dims.last() + self.cfg.action_dim);
                assert(tensor_dims(next) =~= first.dims);
                states = states.push(value(next));
            }
            state = next;
            actions.push(action);
            logits.push(reward);
            k = k + 1;
        }
        let ghost acts = values(actions@);
        let ghost logs = values(logits@);
        let ghost trace = MeanRollout { states, actions: acts, logits: logs };
        proof {
            assert(acts.len() == horizon && logs.len() == horizon);
            assert forall|j: int| 0 <= j < horizon implies self.mean_action(
                trace.states[j],
                #[trigger] trace.actions[j],
            ) && self.stepped(
                trace.states[j],
                trace.actions[j],
                trace.states[j + 1],
                trace.logits[j],
            ) by {
                assert(acts[j] == value(actions@[j]) && logs[j] == value(logits@[j]));
            }
            assert(self.follows_mean(first, horizon as nat, trace));
            assert forall|j: int| 0 <= j < acts.len() implies (#[trigger] acts[j]).dims
                == self.action_dims(first.dims) by {
                assert(acts[j] == value(actions@[j]));
            }
            assert forall|j: int| 0 <= j < logs.len() implies (#[trigger] logs[j]).dims
                == first.dims.drop_last().push(self.cfg.num_bins) by {
                assert(logs[j] == value(logits@[j]));
            }
            let (a0, l0) = (acts[0].dims, logs[0].dims);
            if resident(first) {
                assert forall|j: int| 0 <= j < acts.len() implies resident(#[trigger] acts[j])
                    && acts[j].element == acts[0].element && acts[j].dims == acts[0].dims by {
                    assert(acts[j] == value(actions@[j]) && acts[0] == value(actions@[0]));
                }
                assert forall|j: int| 0 <= j < logs.len() implies resident(#[trigger] logs[j])
                    && logs[j].element == logs[0].element && logs[j].dims == logs[0].dims by {
                    assert(logs[j] == value(logits@[j]) && logs[0] == value(logits@[0]));
                }
                assert(alike(acts) && alike(logs));
            }
        }
        let all_actions = stack(actions.as_slice(), 1)?;
        let all_logits = stack(logits.as_slice(), 1)?;
        proof {
            lemma_stacked_shape(acts, 1, value(all_actions));
            lemma_stacked_shape(logs, 1, value(all_logits));
            let (d, whole) = (logs[0].dims, tensor_dims(all_logits));
            if full(whole) {
                assert forall|k: int| 0 <= k < d.len() implies #[trigger] d[k] > 0 by {
                    assert(d[k] == whole[if k < 1 { k } else { k + 1 }]);
                }
                assert(full(d));
            }
        }
        Ok((all_actions, all_logits, state))
    }

    /// Takes the mean action for a number of steps and reads the rewards.
    pub fn rollout_actor_mean(&self, z: &Tensor, horizon: usize) -> (r: Result<
        (Tensor, Tensor, Tensor),
    >)
        requires
            self.well_formed(),
        ensures
            horizon == 0 ==> r is Err,
            r matches Err(SwmError::Message(m)) ==> self.rollout_complaint(horizon as nat, m@)
                || two_hot_complaint(
                tensor_dims(*z).drop_last().push(self.cfg.num_bins).insert(1, horizon),
                self.cfg.num_bins,
            ) == Some(m@),
            r matches Ok(o) ==> (exists|logits: TensorValue| #[trigger]
                self.mean_logits(
                    value(*z),
                    horizon as nat,
                    value(o.0),
                    logits,
                    value(o.2),
                ) && two_hot_value(
                    logits,
                    self.cfg.vmin,
                    self.cfg.vmax,
                    self.cfg.num_bins,
                    value(o.1),
                )) && tensor_dims(*z).len() >= 2 && tensor_dims(o.0) == self.action_dims(
                tensor_dims(*z),
            ).insert(1, horizon) && tensor_dims(o.1) == tensor_dims(*z).drop_last().insert(
                1,
                horizon,
            ).push(1) && tensor_dims(o.2) == tensor_dims(*z),
            horizon > 0 && self.actor_complaint() is None && self.latent_complaint() is None
                && self.takes(value(*z), self.latent() as int) && two_hot_complaint(
                tensor_dims(*z).drop_last().push(self.cfg.num_bins).insert(1, horizon),
                self.cfg.num_bins,
            ) is None ==> r is Ok,
            r matches Ok(o) ==> tensor_element(o.0) == tensor_element(*z) && tensor_location(o.0)
                    == tensor_location(*z),
            r matches Ok(o) ==> tensor_element(o.1) == tensor_element(*z) && tensor_location(o.1)
                    == tensor_location(*z),
    {
        let (actions, logits, last) = self.rollout_actor_mean_logits(z, horizon)?;
        proof {
            if full(tensor_dims(*z)) && horizon > 0 && self.cfg.num_bins > 0 {
                assert(full(tensor_dims(logits)));
            }
        }
        let rewards = two_hot_inv(&logits, self.cfg.vmin, self.cfg.vmax, self.cfg.num_bins)?;
        proof {
            let d = tensor_dims(*z).drop_last();
            assert(d.push(self.cfg.num_bins).insert(1, horizon).drop_last() =~= d.insert(
                1,
                horizon,
            ));
            assert(self.mean_logits(
                value(*z),
                horizon as nat,
                value(actions),
                value(logits),
                value(last),
            ));
        }
        Ok((actions, rewards, last))
    }

    /// Step by step an action is drawn, from a first state on.
    pub open spec fn follows_draws(
        self,
        z: TensorValue,
        noise: TensorValue,
        t: SampledRollout,
    ) -> bool {
        let horizon = noise.dims[2] as nat;
        &&& t.states.len() == horizon + 1
        &&& t.draws.len() == horizon
        &&& t.actions.len() == horizon
        &&& t.states[0] == repeated_states(z, noise.dims[0])
        &&& forall|k: int|
            0 <= k < horizon ==> self.drew(
                noise,
                k,
                t.states[k],
                t.draws[k],
                #[trigger] t.actions[k],
                t.states[k + 1],
            )
    }

    /// The action and the next state of one step with draws.
    #[verifier::opaque]
    pub open spec fn drew(
        self,
        noise: TensorValue,
        k: int,
        z: TensorValue,
        draws: TensorValue,
        action: TensorValue,
        next: TensorValue,
    ) -> bool {
        draws_at(noise, k, draws) && self.sampled_action(z, draws, action) && self.moved(
            z,
            action,
            next,
        )
    }

    /// The next state that follows a state and an action.
    pub open spec fn moved(self, z: TensorValue, a: TensorValue, next: TensorValue) -> bool {
        exists|wide: TensorValue| #[trigger] paired(z, a, wide) && self.dynamics.of(wide, next)
    }

    /// The drawn actions, with the mean taken over the trajectories.
    pub open spec fn mean_of_draws(
        self,
        z: TensorValue,
        noise: TensorValue,
        r: TensorValue,
    ) -> bool {
        exists|draws: TensorValue, t: SampledRollout, all: TensorValue|
            #[trigger] placed(noise, z.element, z.location, draws) && #[trigger] self.follows_draws(
                z,
                draws,
                t,
            ) && stacked(
                all_shaped(t.actions, seq![noise.dims[0], noise.dims[1], noise.dims[3]]),
                2,
                all,
            ) && #[trigger] average_of(all, 0, r)
    }

    /// The first thing wrong with draws for states, as far as their shapes tell.
    pub open spec fn draws_complaint(self, z: Seq<usize>, noise: Seq<usize>) -> Option<Seq<char>> {
        if noise.len() != 4 {
            Some(rank_complaint(4, noise))
        } else if noise[0] == 0 {
            Some("TD-MPC2 sampled actor rollout requires at least one trajectory"@)
        } else if noise[2] == 0 {
            Some("TD-MPC2 sampled actor rollout horizon must be greater than zero"@)
        } else if noise[3] != self.cfg.action_dim {
            Some(
                "TD-MPC2 sampled actor noise action dim "@ + decimal(noise[3] as nat)
                    + " does not match action_dim "@ + decimal(self.cfg.action_dim as nat),
            )
        } else if z.len() != 2 {
            Some(rank_complaint(2, z))
        } else if z[0] != noise[1] {
            Some(
                "TD-MPC2 sampled actor noise batch "@ + decimal(noise[1] as nat)
                    + " does not match latent batch "@ + decimal(z[0] as nat),
            )
        } else if count(seq![noise[0], noise[1], z[1]]) > usize::MAX || noise[0] * noise[1]
            > usize::MAX {
            Some("TD-MPC2 sampled actor rollout shape overflowed"@)
        } else {
            None
        }
    }

    /// Draws an action for each trajectory, state and step, and takes the mean
    /// over the trajectories.
    pub fn rollout_actor_sampled_with_noise(
        &self,
        z: &Tensor,
        noise: &Tensor,
    ) -> (r: Result<Tensor>)
        requires
            self.well_formed(),
        ensures
            self.draws_complaint(tensor_dims(*z), tensor_dims(*noise)) matches Some(text)
                ==> r is Err && r->Err_0.says(text),
            r matches Err(SwmError::Message(m)) ==> self.draws_complaint(
                tensor_dims(*z),
                tensor_dims(*noise),
            ) == Some(m@) || self.actor_complaint() == Some(m@) || self.latent_complaint() == Some(
                m@,
            ),
            r matches Ok(o) ==> self.mean_of_draws(value(*z), value(*noise), value(o))
                && tensor_dims(o) == seq![
                tensor_dims(*noise)[1],
                tensor_dims(*noise)[2],
                self.cfg.action_dim,
            ],
            self.draws_complaint(tensor_dims(*z), tensor_dims(*noise)) is None && self.takes(
                value(*z),
                self.latent() as int,
            ) && resident(value(*noise)) && self.actor_complaint() is None
                && self.latent_complaint() is None ==> r is Ok,
            r matches Ok(o) ==> tensor_element(o) == tensor_element(*z) && tensor_location(o)
                    == tensor_location(*z),
    {
        let (trajectories, batch, horizon, action_dim) = dims4(noise)?;
        if trajectories == 0 {
            return Err(
                message("TD-MPC2 sampled actor rollout requires at least one trajectory"),
            );
        }
        if horizon == 0 {
            return Err(
                message("TD-MPC2 sampled actor rollout horizon must be greater than zero"),
            );
        }
        if action_dim != self.cfg.action_dim {
            let text = with_numbers(
                "TD-MPC2 sampled actor noise action dim ",
                action_dim,
                " does not match action_dim ",
                self.cfg.action_dim,
                "",
            );
            proof {
                reveal_strlit("");
                assert(text@ =~= self.draws_complaint(tensor_dims(*z), tensor_dims(*noise))->0);
            }
            return Err(SwmError::Message(text));
        }
        let (states, width) = dims2(z)?;
        if states != batch {
            let text = with_numbers(
                "TD-MPC2 sampled actor noise batch ",
                batch,
                " does not match latent batch ",
                states,
                "",
            );
            proof {
                reveal_strlit("");
                assert(text@ =~= self.draws_complaint(tensor_dims(*z), tensor_dims(*noise))->0);
            }
            return Err(SwmError::Message(text));
        }
        let wide_shape: [usize; 3] = [trajectories, batch, width];
        proof {
            assert(wide_shape@ =~= seq![trajectories, batch, width]);
        }
        if element_count(&wide_shape).is_none() {
            return Err(message("TD-MPC2 sampled actor rollout shape overflowed"));
        }
        let rows: usize = match trajectories.checked_mul(batch) {
            Some(n) => n,
            None => {
                return Err(message("TD-MPC2 sampled actor rollout shape overflowed"));
            },
        };
        let draws = {
            let there = lift(to_device(noise, device_of(z)))?;
            let near = lift(to_dtype(&there, dtype(z)))?;
            proof {
                assert(value(there) == (TensorValue {
                    location: value(*z).location,
                    ..value(*noise)
                }));
                assert(placed(value(*noise), value(*z).element, value(*z).location, value(near)));
            }
            near
        };
        let first = self.repeat_states(z, trajectories, batch, width, rows)?;
        proof {
            assert(tensor_dims(first) =~= seq![rows, width]);
            if full(tensor_dims(*z)) {
                assert(batch == tensor_dims(*z)[0] && width == tensor_dims(*z)[1]);
                vstd::arithmetic::mul::lemma_mul_strictly_positive(
                    trajectories as int,
                    batch as int,
                );
            }
        }
        let trace = self.follow_draws(z, &draws, &first, rows)?;
        proof {
            let t = trace.1@;
            let target = seq![trajectories, batch, action_dim];
            let acts = all_shaped(t.actions, target);
            assert(values(trace.0@) == acts);
            assert(acts.len() == horizon);
            assert forall|j: int| 0 <= j < acts.len() implies (#[trigger] acts[j]).dims == target by {
                assert(acts[j] == t.actions[j].shaped(target));
            }
            let d0 = acts[0].dims;
            if resident(value(*z)) {
                let made = values(trace.0@);
                assert forall|j: int| 0 <= j < made.len() implies resident(#[trigger] made[j])
                    && made[j].element == made[0].element && made[j].dims == made[0].dims by {
                    assert(made[j] == value(trace.0@[j]) && made[0] == value(trace.0@[0]));
                    assert(made[j] == acts[j] && made[0] == acts[0]);
                }
                assert(alike(made));
            }
        }
        let all = stack(trace.0.as_slice(), 2)?;
        proof {
            let t = trace.1@;
            let target = seq![trajectories, batch, action_dim];
            let acts = all_shaped(t.actions, target);
            lemma_stacked_shape(acts, 2, value(all));
            assert(target.insert(2, horizon) =~= seq![trajectories, batch, horizon, action_dim]);
            assert(tensor_dims(all).remove(0) =~= seq![batch, horizon, action_dim]);
        }
        let out = lift(mean(&all, 0))?;
        assert(average_of(value(all), 0, value(out)));
        Ok(out)
    }

    fn repeat_states(
        &self,
        z: &Tensor,
        trajectories: usize,
        batch: usize,
        width: usize,
        rows: usize,
    ) -> (r: Result<Tensor>)
        requires
            tensor_dims(*z) == seq![batch, width],
            rows == trajectories * batch,
            count(seq![trajectories, batch, width]) <= usize::MAX,
        ensures
            r matches Ok(o) ==> value(o) == repeated_states(value(*z), trajectories),
            r matches Err(e) ==> e is Backend,
            resident(value(*z)) ==> r is Ok,
    {
        let one = lift(unsqueeze(z, 0))?;
        let wide_shape: [usize; 3] = [trajectories, batch, width];
        let flat: [usize; 2] = [rows, width];
        proof {
            assert(wide_shape@ =~= seq![trajectories, batch, width]);
            assert(flat@ =~= seq![rows, width]);
            assert(tensor_dims(*z).insert(0, 1) =~= seq![1usize, batch, width]);
            assert(spreads(tensor_dims(one), wide_shape@));
            lemma_counts(trajectories, batch, width, 0);
            lemma_counts(rows, width, 0, 0);
            let (n, b, w) = (trajectories as int, batch as int, width as int);
            assert((n * b) * w == n * (b * w)) by (nonlinear_arith);
        }
        let wide = lift(broadcast_as(&one, &wide_shape))?;
        lift(reshape(&wide, &flat))
    }

    /// Draws an action for each step. The actions come back in the shape
    /// `[trajectories, batch, actions]`.
    fn follow_draws(&self, z: &Tensor, draws: &Tensor, first: &Tensor, rows: usize) -> (r: Result<
        (Vec<Tensor>, Ghost<SampledRollout>),
    >)
        requires
            self.well_formed(),
            tensor_dims(*draws).len() == 4,
            tensor_dims(*draws)[3] == self.cfg.action_dim,
            tensor_dims(*z).len() == 2,
            tensor_dims(*z)[0] == tensor_dims(*draws)[1],
            rows == tensor_dims(*draws)[0] * tensor_dims(*draws)[1],
            value(*first) == repeated_states(value(*z), tensor_dims(*draws)[0]),
        ensures
            r matches Ok(t) ==> self.follows_draws(value(*z), value(*draws), t.1@) && values(t.0@)
                == all_shaped(
                t.1@.actions,
                seq![tensor_dims(*draws)[0], tensor_dims(*draws)[1], self.cfg.action_dim],
            ),
            r matches Err(SwmError::Message(m)) ==> self.actor_complaint() == Some(m@)
                || self.latent_complaint() == Some(m@),
            self.takes(value(*first), self.latent() as int) && resident(value(*draws))
                && self.actor_complaint() is None && self.latent_complaint() is None ==> r is Ok,
            r matches Ok(t) ==> forall|k: int|
                0 <= k < t.0@.len() ==> tensor_element(#[trigger] t.0@[k]) == tensor_element(*first)
                    && tensor_location(t.0@[k]) == tensor_location(*first),
    {
        let d = dims(draws);
        let trajectories: usize = d[0];
        let batch: usize = d[1];
        let horizon: usize = d[2];
        let action_dim: usize = self.cfg.action_dim;
        let ghost v = value(*draws);
        let ghost target = seq![trajectories, batch, action_dim];
        let ghost mut states: Seq<TensorValue> = seq![value(*first)];
        let ghost mut used: Seq<TensorValue> = seq![];
        let ghost mut taken: Seq<TensorValue> = seq![];
        let mut state = share(first);
        let mut actions: Vec<Tensor> = Vec::new();
        let mut k: usize = 0;
        while k < horizon
            invariant
                self.well_formed(),
                v == value(*draws),
                v.dims == seq![trajectories, batch, horizon, action_dim],
                action_dim == self.cfg.action_dim,
                rows == trajectories * batch,
                target == seq![trajectories, batch, action_dim],
                k <= horizon,
                states.len() == k + 1,
                used.len() == k,
                taken.len() == k,
                states[0] == value(*first),
                states.last() == value(state),
                tensor_dims(state) == tensor_dims(*first),
                tensor_dims(*first).len() == 2,
                tensor_dims(*first)[0] == rows,
                tensor_element(state) == tensor_element(*first),
                tensor_location(state) == tensor_location(*first),
                forall|j: int|
                    0 <= j < k ==> tensor_element(#[trigger] actions@[j]) == tensor_element(*first)
                        && tensor_location(actions@[j]) == tensor_location(*first),
                actions@.len() == k,
                values(actions@) == all_shaped(taken, target),
                forall|j: int|
                    0 <= j < k ==> self.drew(
                        v,
                        j,
                        states[j],
                        used[j],
                        #[trigger] taken[j],
                        states[j + 1],
                    ),
            decreases horizon - k,
        {
            let ghost before = value(state);
            let now = step_draws(draws, k, rows)?;
            proof {
                assert(self.action_dims(tensor_dims(state)) =~= tensor_dims(now));
            }
            let action = self.actor_sample_action(&state, &now)?;
            proof {
                assert(tensor_dims(action).drop_last() =~= tensor_dims(state).drop_last());
            }
            let wide = pair(&state, &action)?;
            let next = self.next_latent(&wide)?;
            let shape: [usize; 3] = [trajectories, batch, action_dim];
            proof {
                assert(paired(before, value(action), value(wide)));
                assert(self.moved(before, value(action), value(next)));
                assert(tensor_dims(state).drop_last() =~= seq![rows]);
                assert(tensor_dims(wide).drop_last() =~= seq![rows]);
                assert(tensor_dims(action) =~= seq![rows, action_dim]);
                assert(tensor_dims(wide).last() == tensor_dims(state).last() + action_dim);
                assert(tensor_dims(next) =~= tensor_dims(*first));
                assert(shape@ =~= target);
                lemma_counts(rows, action_dim, 0, 0);
                lemma_counts(trajectories, batch, action_dim, 0);
                let (n, b, w) = (trajectories as int, batch as int, action_dim as int);
                assert((n * b) * w == n * (b * w)) by (nonlinear_arith);
            }
            let shaped = lift(reshape(&action, &shape))?;
            proof {
                states = states.push(value(next));
                used = used.push(value(now));
                taken = taken.push(value(action));
            }
            let ghost earlier = actions@;
            actions.push(shaped);
            proof {
                assert(values(actions@) =~= values(earlier).push(value(shaped)));
                assert(values(actions@) =~= all_shaped(taken, target));
            }
            proof {
                assert(self.drew(v, k as int, before, value(now), value(action), value(next))) by {
                    reveal(TdMpc2::drew);
                }
            }
            state = next;
            k = k + 1;
        }
        Ok((actions, Ghost(SampledRollout { states, draws: used, actions: taken })))
    }

    /// What is wrong with a request for sampled trajectories, if anything is.
    pub open spec fn sampling_complaint(
        self,
        z: Seq<usize>,
        horizon: usize,
        num_trajs: usize,
    ) -> Option<Seq<char>> {
        if horizon == 0 {
            Some("TD-MPC2 sampled actor rollout horizon must be greater than zero"@)
        } else if num_trajs == 0 {
            Some("TD-MPC2 sampled actor rollout requires at least one trajectory"@)
        } else if z.len() == 0 {
            Some("TD-MPC2 sampled actor rollout requires a batch of states"@)
        } else if count(seq![num_trajs, z[0], horizon, self.cfg.action_dim]) > usize::MAX {
            Some("TD-MPC2 sampled actor rollout shape overflowed"@)
        } else {
            self.draws_complaint(z, seq![num_trajs, z[0], horizon, self.cfg.action_dim])
        }
    }

    /// Draws actions as the policy does and takes the mean over the
    /// trajectories.
    pub fn rollout_actor_sampled(&self, z: &Tensor, horizon: usize, num_trajs: usize) -> (r: Result<
        Tensor,
    >)
        requires
            self.well_formed(),
        ensures
            horizon == 0 ==> r is Err && r->Err_0.says(
                "TD-MPC2 sampled actor rollout horizon must be greater than zero"@,
            ),
            horizon > 0 && num_trajs == 0 ==> r is Err && r->Err_0.says(
                "TD-MPC2 sampled actor rollout requires at least one trajectory"@,
            ),
            self.sampling_complaint(tensor_dims(*z), horizon, num_trajs) is Some ==> r is Err,
            r matches Err(SwmError::Message(m)) ==> match self.sampling_complaint(
                tensor_dims(*z),
                horizon,
                num_trajs,
            ) {
                Some(text) => m@ == text,
                None => self.actor_complaint() == Some(m@) || self.latent_complaint() == Some(m@),
            },
            r matches Ok(o) ==> exists|noise: TensorValue|
                noise.dims == seq![num_trajs, tensor_dims(*z)[0], horizon, self.cfg.action_dim]
                    && noise.element == tensor_element(*z) && noise.location == tensor_location(*z)
                    && #[trigger] self.mean_of_draws(value(*z), noise, value(o)),
            r matches Ok(o) ==> tensor_dims(o) == seq![
                tensor_dims(*z)[0],
                horizon,
                self.cfg.action_dim,
            ],
            self.sampling_complaint(tensor_dims(*z), horizon, num_trajs) is None && self.takes(
                value(*z),
                self.latent() as int,
            ) && self.actor_complaint() is None && self.latent_complaint() is None ==> r is Ok,
            r matches Ok(o) ==> tensor_element(o) == tensor_element(*z) && tensor_location(o)
                    == tensor_location(*z),
    {
        if horizon == 0 {
            return Err(
                message("TD-MPC2 sampled actor rollout horizon must be greater than zero"),
            );
        }
        if num_trajs == 0 {
            return Err(
                message("TD-MPC2 sampled actor rollout requires at least one trajectory"),
            );
        }
        let d = dims(z);
        if d.len() == 0 {
            return Err(message("TD-MPC2 sampled actor rollout requires a batch of states"));
        }
        let shape: [usize; 4] = [num_trajs, d[0], horizon, self.cfg.action_dim];
        proof {
            assert(shape@ =~= seq![num_trajs, d@[0], horizon, self.cfg.action_dim]);
        }
        if element_count(&shape).is_none() {
            return Err(message("TD-MPC2 sampled actor rollout shape overflowed"));
        }
        let blank = lift(zeros(&shape, dtype_of(ElementType::F32), device_of(z)))?;
        let drawn = lift(normal_like(&blank))?;
        let noise = lift(to_dtype(&drawn, dtype(z)))?;
        self.rollout_actor_sampled_with_noise(z, &noise)
    }
}

fn step_draws(draws: &Tensor, t: usize, rows: usize) -> (r: Result<Tensor>)
    requires
        tensor_dims(*draws).len() == 4,
        t < tensor_dims(*draws)[2],
        rows == tensor_dims(*draws)[0] * tensor_dims(*draws)[1],
    ensures
        r matches Ok(o) ==> draws_at(value(*draws), t as int, value(o)) && tensor_dims(o) == seq![
            rows,
            tensor_dims(*draws)[3],
        ],
        r matches Err(e) ==> e is Backend,
        resident(value(*draws)) ==> r is Ok,
        r matches Ok(o) ==> tensor_element(o) == tensor_element(*draws) && tensor_location(o)
            == tensor_location(*draws),
{
    let d = dims(draws);
    let one = lift(narrow(draws, 2, t, 1))?;
    let flat: [usize; 2] = [rows, d[3]];
    proof {
        assert(flat@ =~= seq![rows, d@[3]]);
        assert(tensor_dims(one) =~= seq![d@[0], d@[1], 1usize, d@[3]]);
        lemma_counts(d@[0], d@[1], 1, d@[3]);
        lemma_counts(rows, d@[3], 0, 0);
        let (n, b, w) = (d@[0] as int, d@[1] as int, d@[3] as int);
        assert((n * b) * w == n * (b * (1 * w))) by (nonlinear_arith);
    }
    lift(reshape(&one, &flat))
}

/// Where all draws are zero, so are those of one step.
proof fn lemma_no_draws(noise: TensorValue, t: int, r: TensorValue)
    requires
        draws_at(noise, t, r),
        noise.dims.len() == 4,
        noise.keys.len() == count(noise.dims),
        0 <= t < noise.dims[2],
        forall|k: int| 0 <= k < noise.keys.len() ==> #[trigger] noise.keys[k] == 0,
    ensures
        forall|k: int| 0 <= k < r.keys.len() ==> #[trigger] r.keys[k] == 0,
        r.element == noise.element,
{
    let one = choose|one: TensorValue|
        #[trigger] narrowed(noise, 2, t, 1, one) && r == one.shaped(
            seq![(noise.dims[0] * noise.dims[1]) as usize, noise.dims[3]],
        );
    assert(one.dims.take(2) =~= noise.dims.take(2));
    assert(one.dims.skip(3) =~= noise.dims.skip(3));
    assert forall|k: int| 0 <= k < r.keys.len() implies #[trigger] r.keys[k] == 0 by {
        let (o, m, i) = lemma_place(one.dims, 2, k);
        assert(one.at(2, o, m, i) == noise.at(2, o, t + m, i));
        lemma_position(noise.dims, 2, o, t + m, i);
    }
}

/// The states and actions of a rollout from a batch of states, once for each
/// trajectory, that takes the mean action of each state that it comes to.
pub open spec fn takes_mean_actions(
    model: TdMpc2,
    z: TensorValue,
    trajectories: usize,
    t: SampledRollout,
) -> bool {
    &&& t.states.len() == t.actions.len() + 1
    &&& t.states[0] == repeated_states(z, trajectories)
    &&& forall|k: int|
        0 <= k < t.actions.len() ==> model.mean_action(t.states[k], #[trigger] t.actions[k])
            && model.moved(t.states[k], t.actions[k], t.states[k + 1])
}

/// Whether the mean and the deviation of the policy are plain numbers in each state
/// that a rollout with draws takes an action in.
pub open spec fn plain_on_the_way(model: TdMpc2, t: SampledRollout) -> bool {
    forall|k: int| 0 <= k < t.actions.len() ==> model.plainly_spread(#[trigger] t.states[k])
}

/// A rollout with draws of zero takes the mean action of each state that it
/// comes to, where the mean and the deviation of the policy are plain numbers
/// there.
pub proof fn zero_draws_take_the_mean_actions(
    model: TdMpc2,
    z: TensorValue,
    noise: TensorValue,
    t: SampledRollout,
)
    requires
        model.follows_draws(z, noise, t),
        noise.dims.len() == 4,
        noise.keys.len() == count(noise.dims),
        noise.element is F32,
        forall|k: int| 0 <= k < noise.keys.len() ==> #[trigger] noise.keys[k] == 0,
        plain_on_the_way(model, t),
    ensures
        takes_mean_actions(model, z, noise.dims[0], t),
{
    assert forall|k: int| 0 <= k < t.actions.len() implies model.mean_action(
        t.states[k],
        #[trigger] t.actions[k],
    ) && model.moved(t.states[k], t.actions[k], t.states[k + 1]) by {
        reveal(TdMpc2::drew);
        assert(model.drew(
            noise,
            k,
            t.states[k],
            t.draws[k],
            t.actions[k],
            t.states[k + 1],
        ));
        lemma_no_draws(noise, k, t.draws[k]);
        zero_draws_give_the_mean_action(model, t.states[k], t.draws[k], t.actions[k]);
    }
}

/// What a sampled rollout gives for draws of zero is the mean, over its
/// trajectories, of actions that are the mean actions of the states on the way.
pub proof fn zero_draws_average_the_mean_actions(
    model: TdMpc2,
    z: TensorValue,
    noise: TensorValue,
    r: TensorValue,
)
    requires
        model.mean_of_draws(z, noise, r),
        noise.dims.len() == 4,
        noise.keys.len() == count(noise.dims),
        noise.element is F32,
        z.element is F32,
        forall|k: int| 0 <= k < noise.keys.len() ==> #[trigger] noise.keys[k] == 0,
        forall|draws: TensorValue, t: SampledRollout| #[trigger]
            model.follows_draws(z, draws, t) && draws.keys == noise.keys ==> plain_on_the_way(
                model,
                t,
            ),
    ensures
        exists|t: SampledRollout, all: TensorValue|
            #[trigger] takes_mean_actions(model, z, noise.dims[0], t) && stacked(
                all_shaped(t.actions, seq![noise.dims[0], noise.dims[1], noise.dims[3]]),
                2,
                all,
            ) && #[trigger] average_of(all, 0, r) && t.actions.len() == noise.dims[2],
{
    let (draws, t, all) = choose|draws: TensorValue, t: SampledRollout, all: TensorValue|
        #[trigger] placed(noise, z.element, z.location, draws) && #[trigger] model.follows_draws(
            z,
            draws,
            t,
        ) && stacked(
            all_shaped(t.actions, seq![noise.dims[0], noise.dims[1], noise.dims[3]]),
            2,
            all,
        ) && #[trigger] average_of(all, 0, r);
    zero_draws_take_the_mean_actions(model, z, draws, t);
    assert(takes_mean_actions(model, z, noise.dims[0], t));
    assert(average_of(all, 0, r));
}

} // verus!
