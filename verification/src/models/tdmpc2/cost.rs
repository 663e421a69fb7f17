//! Costs of action sequences under the TD-MPC2 model.

use candle_core::Tensor;
use vstd::prelude::*;

use crate::error::{lift, message, Result, SwmError};
use crate::models::tdmpc2::actor::{pair, paired};
use crate::models::tdmpc2::bins::{two_hot_complaint, two_hot_inv, two_hot_value, ONE};
use crate::models::tdmpc2::model::TdMpc2;
use crate::scalar::F64;
use crate::tensor::arithmetic::{
    absolute, affine, affine_of, average_of, difference_of, is_magnitude, is_negation, like, mean,
    multiply, negate, plus, product_of, root_of, square_root, subtract, sum_of, variance,
    variance_of,
};
use crate::tensor::facts::lemma_counts;
use crate::tensor::join::{alike, lemma_stacked_shape, stack, stacked};
use crate::tensor::layout::{
    broadcast_as, device_of, dims, dtype, laid_out, reshape, share, unsqueeze,
};
use crate::tensor::make::{double, filled, from_f64, zeros};
use crate::tensor::ranks::{dims4, element_count, rank_complaint, same_sizes};
use crate::tensor::select::{pick_step, step_of};
use crate::tensor::value::{
    count, hosted, is_double, plain, resident, spread, spreads, tensor_dims, tensor_element,
    tensor_keys, tensor_location, value, values, ElementType, Location, TensorValue,
};
use crate::text::{decimal, sizes_text, with_dims, with_numbers};
use crate::tensor::layers::{full, ready};
use crate::models::tdmpc2::encode::{embedding_width, one_observation};

verus! {

/// The states of a batch, once for each candidate: a state for each entry of
/// the batch is repeated, a state for each candidate is kept.
pub open spec fn candidate_states(z: TensorValue, b: usize, n: usize, width: usize) -> Option<
    TensorValue,
> {
    let rows = seq![(b * n) as usize, width];
    if z.dims == seq![b, width] {
        Some(spread(z.shaped(seq![b, 1usize, width]), seq![b, n, width]).shaped(rows))
    } else if z.dims == seq![b, n, width] {
        Some(z.shaped(rows))
    } else if z.dims == rows {
        Some(z)
    } else {
        None
    }
}

/// What is said of an encoding of another shape.
pub open spec fn encoding_complaint(dims: Seq<usize>) -> Seq<char> {
    "unexpected encoded observation shape "@ + sizes_text(dims)
}

/// The state, the return so far and the discount of a rollout.
pub struct Earned {
    pub state: TensorValue,
    pub total: TensorValue,
    pub discount: TensorValue,
}

impl TdMpc2 {
    /// One step of a rollout: the discounted reward of an action joins the
    /// return, and the discount shrinks.
    #[verifier::opaque]
    pub open spec fn earns(
        self,
        actions: TensorValue,
        k: int,
        before: Earned,
        after: Earned,
    ) -> bool {
        exists|
            action: TensorValue,
            wide: TensorValue,
            logits: TensorValue,
            reward: TensorValue,
            gain: TensorValue,
        |
            #[trigger] step_of(actions, k, action) && #[trigger] paired(before.state, action, wide)
                && #[trigger] self.reward.of(wide, logits) && #[trigger] two_hot_value(
                logits,
                self.cfg.vmin,
                self.cfg.vmax,
                self.cfg.num_bins,
                reward,
            ) && #[trigger] affine_of(reward, before.discount, double(F64 { bits: 0 }), gain)
                && self.dynamics.of(wide, after.state) && sum_of(before.total, gain, after.total)
                && product_of(before.discount, double(self.cfg.discount), after.discount)
    }

    /// The value that one head gives to a state and an action.
    pub open spec fn head_value(self, k: int, wide: TensorValue, r: TensorValue) -> bool {
        exists|logits: TensorValue|
            #[trigger] self.qs@[k].of(wide, logits) && two_hot_value(
                logits,
                self.cfg.vmin,
                self.cfg.vmax,
                self.cfg.num_bins,
                r,
            )
    }

    /// The mean of the values of all heads less a share of their spread.
    #[verifier::opaque]
    pub open spec fn careful_mean(self, all: TensorValue, r: TensorValue) -> bool {
        exists|
            mean: TensorValue,
            var: TensorValue,
            std: TensorValue,
            size: TensorValue,
            product: TensorValue,
            penalty: TensorValue,
        |
            #[trigger] average_of(all, 0, mean) && #[trigger] variance_of(all, 0, var)
                && #[trigger] root_of(var, std) && #[trigger] is_magnitude(mean, size)
                && #[trigger] product_of(size, std, product) && #[trigger] affine_of(
                product,
                double(self.cfg.uncertainty_penalty),
                double(F64 { bits: 0 }),
                penalty,
            ) && difference_of(mean, penalty, r)
    }

    /// The value of a last state under the mean action.
    #[verifier::opaque]
    pub open spec fn last_value(self, z: TensorValue, r: TensorValue) -> bool {
        exists|action: TensorValue, wide: TensorValue, qs: Seq<TensorValue>, all: TensorValue|
            #[trigger] self.mean_action(z, action) && #[trigger] paired(z, action, wide) && qs.len()
                == self.cfg.num_q && (forall|k: int|
                0 <= k < qs.len() ==> self.head_value(k, wide, #[trigger] qs[k]))
                && #[trigger] stacked(qs, 0, all) && self.careful_mean(all, r)
    }

    /// The states, returns and discounts of a rollout of given actions
    /// `[rows, time, actions]`.
    pub open spec fn collects(
        self,
        first: TensorValue,
        actions: TensorValue,
        t: Seq<Earned>,
    ) -> bool {
        &&& t.len() == actions.dims[1] + 1
        &&& t[0].state == first
        &&& t[0].discount == double(F64 { bits: ONE })
        &&& t[0].total == first.alongside(seq![first.dims[0], 1usize], t[0].total.keys)
        &&& plain(first.element) ==> t[0].total.keys == filled(t[0].total.dims, 0)
        &&& forall|k: int|
            0 <= k < actions.dims[1] ==> self.earns(actions, k, #[trigger] t[k], t[k + 1])
    }

    /// The costs `[batch, candidates]` of action candidates, from encoded
    /// observations: the negated return, with the value of the last state.
    pub open spec fn costs(self, z: TensorValue, candidates: TensorValue, r: TensorValue) -> bool {
        let (b, n, h, a) = (
            candidates.dims[0],
            candidates.dims[1],
            candidates.dims[2],
            candidates.dims[3],
        );
        exists|
            first: TensorValue,
            t: Seq<Earned>,
            worth: TensorValue,
            gain: TensorValue,
            total: TensorValue,
            cost: TensorValue,
        |
            candidate_states(z, b, n, self.latent() as usize) == Some(first)
                && #[trigger] self.collects(
                first,
                flat_candidates(candidates),
                t,
            ) && #[trigger] self.last_value(t.last().state, worth) && #[trigger] affine_of(
                worth,
                t.last().discount,
                double(F64 { bits: 0 }),
                gain,
            ) && #[trigger] sum_of(t.last().total, gain, total) && #[trigger] is_negation(
                total,
                cost,
            ) && r == cost.shaped(seq![b, n])
    }

    /// What is wrong with the shape of action candidates.
    pub open spec fn candidates_complaint(self, dims: Seq<usize>) -> Option<Seq<char>> {
        if dims.len() != 4 {
            Some(rank_complaint(4, dims))
        } else if dims[3] != self.cfg.action_dim {
            Some(
                "action candidates last dim "@ + decimal(dims[3] as nat)
                    + " does not match TD-MPC2 action_dim "@ + decimal(self.cfg.action_dim as nat),
            )
        } else {
            None
        }
    }

    /// Whether the states of all candidates are too many to count.
    pub open spec fn too_many(self, dims: Seq<usize>) -> bool {
        dims[0] * dims[1] > usize::MAX || count(seq![dims[0], dims[1], self.latent() as usize])
            > usize::MAX
    }

    /// What is wrong with encoded observations for candidates that have passed,
    /// if anything is.
    pub open spec fn states_complaint(self, z: TensorValue, dims: Seq<usize>) -> Option<Seq<char>> {
        if self.too_many(dims) {
            Some("TD-MPC2 plan shape overflowed"@)
        } else if candidate_states(z, dims[0], dims[1], self.latent() as usize) is None {
            Some(encoding_complaint(z.dims))
        } else {
            None
        }
    }

    /// Whether nothing can be said of `rows` states whose actions are scored.
    pub open spec fn scorable(self, rows: usize) -> bool {
        &&& self.actor_complaint() is None
        &&& self.latent_complaint() is None
        &&& two_hot_complaint(seq![rows, self.cfg.num_bins], self.cfg.num_bins) is None
        &&& self.cfg.num_q > 0
    }

    /// Whether candidates are scored on the processor, from encoded observations.
    pub open spec fn scores_here(self, z: TensorValue, c: TensorValue) -> bool {
        &&& ready(z)
        &&& self.home(z.element)
        &&& c.element == z.element
        &&& c.location is Cpu
        &&& full(c.dims)
        &&& self.candidates_complaint(c.dims) is None
        &&& self.states_complaint(z, c.dims) is None
        &&& self.scorable((c.dims[0] * c.dims[1]) as usize)
    }

    /// What can be said of candidates after their shape and the observations
    /// have passed.
    pub open spec fn scoring_says(self, z: TensorValue, dims: Seq<usize>, text: Seq<char>) -> bool {
        match self.states_complaint(z, dims) {
            Some(complaint) => text == complaint,
            None => {
                ||| self.actor_complaint() == Some(text)
                ||| self.latent_complaint() == Some(text)
                ||| two_hot_complaint(
                    seq![(dims[0] * dims[1]) as usize, self.cfg.num_bins],
                    self.cfg.num_bins,
                ) == Some(text)
                ||| self.cfg.num_q == 0 && text == "cannot stack an empty tensor list"@
            },
        }
    }
}

/// Action candidates with batch and candidates as one axis.
pub open spec fn flat_candidates(c: TensorValue) -> TensorValue {
    c.shaped(seq![(c.dims[0] * c.dims[1]) as usize, c.dims[2], c.dims[3]])
}

/// Puts encoded observations in the shape `[batch * candidates, width]`.
fn place_states(z: &Tensor, b: usize, n: usize, width: usize, rows: usize) -> (r: Result<Tensor>)
    requires
        rows == b * n,
        count(seq![b, n, width]) <= usize::MAX,
    ensures
        r matches Ok(o) ==> candidate_states(value(*z), b, n, width) == Some(value(o)),
        r matches Err(SwmError::Message(m)) ==> candidate_states(value(*z), b, n, width) is None
            && m@ == encoding_complaint(tensor_dims(*z)),
        candidate_states(value(*z), b, n, width) is None ==> r is Err,
        tensor_dims(*z) == seq![rows, width] && rows != b ==> r is Ok,
        candidate_states(value(*z), b, n, width) is Some && resident(value(*z)) ==> r is Ok,
{
    let shape = dims(z);
    let one: [usize; 2] = [b, width];
    let each: [usize; 3] = [b, n, width];
    let flat: [usize; 2] = [rows, width];
    proof {
        assert(one@ =~= seq![b, width]);
        assert(each@ =~= seq![b, n, width]);
        assert(flat@ =~= seq![rows, width]);
        lemma_counts(b, n, width, 0);
        lemma_counts(rows, width, 0, 0);
        let (x, y, w) = (b as int, n as int, width as int);
        assert((x * y) * w == x * (y * w)) by (nonlinear_arith);
    }
    if same_sizes(shape.as_slice(), &one) {
        let column = lift(unsqueeze(z, 1))?;
        proof {
            assert(tensor_dims(*z).insert(1, 1) =~= seq![b, 1usize, width]);
            assert(spreads(tensor_dims(column), each@));
        }
        let wide = lift(broadcast_as(&column, &each))?;
        lift(reshape(&wide, &flat))
    } else if same_sizes(shape.as_slice(), &each) {
        lift(reshape(z, &flat))
    } else if same_sizes(shape.as_slice(), &flat) {
        Ok(share(z))
    } else {
        Err(SwmError::Message(with_dims("unexpected encoded observation shape ", shape.as_slice())))
    }
}

impl TdMpc2 {
    /// Takes one step of a rollout: the next state, the return and the discount.
    fn earn(
        &self,
        actions: &Tensor,
        k: usize,
        state: &Tensor,
        total: &Tensor,
        discount: &Tensor,
    ) -> (r: Result<(Tensor, Tensor, Tensor)>)
        requires
            self.well_formed(),
            tensor_dims(*actions).len() == 3,
            k < tensor_dims(*actions)[1],
            tensor_dims(*actions)[2] == self.cfg.action_dim,
            tensor_dims(*state) == seq![tensor_dims(*actions)[0], self.latent() as usize],
        ensures
            r matches Ok(o) ==> self.earns(
                value(*actions),
                k as int,
                Earned { state: value(*state), total: value(*total), discount: value(*discount) },
                Earned { state: value(o.0), total: value(o.1), discount: value(o.2) },
            ) && tensor_dims(o.0) == tensor_dims(*state) && like(value(*total), value(o.1))
                && tensor_element(o.0) == tensor_element(*state) && tensor_location(o.0)
                == tensor_location(*state) && (is_double(value(*discount)) ==> is_double(
                value(o.2),
            )),
            r matches Err(SwmError::Message(m)) ==> self.latent_complaint() == Some(m@)
                || two_hot_complaint(
                seq![tensor_dims(*actions)[0], self.cfg.num_bins],
                self.cfg.num_bins,
            ) == Some(m@),
            self.takes(value(*state), self.latent() as int) && tensor_element(*actions) == tensor_element(
                *state,
            ) && tensor_location(*actions) is Cpu && tensor_dims(*total) == seq![
                tensor_dims(*actions)[0],
                1usize,
            ] && tensor_element(*total) == tensor_element(*state) && tensor_location(*total) is Cpu
                && is_double(value(*discount)) && self.latent_complaint() is None && two_hot_complaint(
                seq![tensor_dims(*actions)[0], self.cfg.num_bins],
                self.cfg.num_bins,
            ) is None ==> r is Ok,
    {
        let zero = lift(from_f64(F64::from_bits(0)))?;
        let shrink = lift(from_f64(self.cfg.discount))?;
        let action = pick_step(actions, k)?;
        proof {
            let rows = tensor_dims(*actions)[0];
            assert(tensor_dims(*state).drop_last() =~= seq![rows]);
            assert(tensor_dims(action).drop_last() =~= seq![rows]);
        }
        let wide = pair(state, &action)?;
        let logits = self.reward_logits(&wide)?;
        proof {
            assert(tensor_dims(*state).drop_last() =~= seq![tensor_dims(*actions)[0]]);
            assert(tensor_dims(wide).drop_last() =~= seq![tensor_dims(*actions)[0]]);
            assert(tensor_dims(logits) =~= seq![tensor_dims(*actions)[0], self.cfg.num_bins]);
        }
        let reward = two_hot_inv(&logits, self.cfg.vmin, self.cfg.vmax, self.cfg.num_bins)?;
        let next = self.next_latent(&wide)?;
        proof {
            assert(tensor_dims(reward) =~= seq![tensor_dims(*actions)[0], 1usize]);
        }
        let gain = lift(affine(&reward, discount, &zero))?;
        let sum = lift(plus(total, &gain))?;
        let smaller = lift(multiply(discount, &shrink))?;
        proof {
            assert(tensor_dims(next) =~= tensor_dims(*state));
            reveal(TdMpc2::earns);
            assert(step_of(value(*actions), k as int, value(action)));
            assert(paired(value(*state), value(action), value(wide)));
            assert(self.reward.of(value(wide), value(logits)));
            assert(two_hot_value(
                value(logits),
                self.cfg.vmin,
                self.cfg.vmax,
                self.cfg.num_bins,
                value(reward),
            ));
            assert(affine_of(value(reward), value(*discount), double(F64 { bits: 0 }), value(gain)));
        }
        Ok((next, sum, smaller))
    }

    /// The values that the heads give to a state and an action.
    fn head_values(&self, wide: &Tensor) -> (r: Result<Vec<Tensor>>)
        requires
            self.well_formed(),
            tensor_dims(*wide).len() == 2,
        ensures
            r matches Ok(v) ==> v@.len() == self.cfg.num_q && forall|k: int|
                0 <= k < v@.len() ==> self.head_value(
                    k,
                    value(*wide),
                    value(#[trigger] v@[k]),
                ) && tensor_dims(v@[k]) == seq![tensor_dims(*wide)[0], 1usize] && tensor_element(
                    v@[k],
                ) == tensor_element(*wide) && tensor_location(v@[k]) == tensor_location(*wide),
            r matches Err(SwmError::Message(m)) ==> two_hot_complaint(
                seq![tensor_dims(*wide)[0], self.cfg.num_bins],
                self.cfg.num_bins,
            ) == Some(m@),
            self.takes(value(*wide), self.latent() + self.cfg.action_dim) && two_hot_complaint(
                seq![tensor_dims(*wide)[0], self.cfg.num_bins],
                self.cfg.num_bins,
            ) is None ==> r is Ok,
    {
        let mut out: Vec<Tensor> = Vec::new();
        let mut k: usize = 0;
        while k < self.qs.len()
            invariant
                self.well_formed(),
                tensor_dims(*wide).len() == 2,
                k <= self.qs@.len(),
                out@.len() == k,
                forall|j: int|
                    0 <= j < k ==> self.head_value(j, value(*wide), value(#[trigger] out@[j]))
                        && tensor_dims(out@[j]) == seq![tensor_dims(*wide)[0], 1usize]
                        && tensor_element(out@[j]) == tensor_element(*wide) && tensor_location(
                        out@[j],
                    ) == tensor_location(*wide),
            decreases self.qs@.len() - k,
        {
            let head = &self.qs[k];
            proof {
                assert(self.qs@[k as int].sized(
                    (self.latent() + self.cfg.action_dim) as usize,
                    self.cfg.mlp_dim,
                    self.cfg.num_bins,
                ));
            }
            let logits = head.forward(wide)?;
            proof {
                assert(tensor_dims(*wide).drop_last() =~= seq![tensor_dims(*wide)[0]]);
                assert(tensor_dims(logits) =~= seq![tensor_dims(*wide)[0], self.cfg.num_bins]);
                assert(self.qs@[k as int].of(value(*wide), value(logits)));
            }
            let q = two_hot_inv(&logits, self.cfg.vmin, self.cfg.vmax, self.cfg.num_bins)?;
            proof {
                assert(tensor_dims(logits).drop_last().push(1) =~= seq![
                    tensor_dims(*wide)[0],
                    1usize,
                ]);
                assert(self.head_value(k as int, value(*wide), value(q)));
            }
            out.push(q);
            k = k + 1;
        }
        Ok(out)
    }

    /// The mean of the values of all heads less a share of their spread.
    fn be_careful(&self, all: &Tensor) -> (r: Result<Tensor>)
        requires
            tensor_dims(*all).len() > 0,
            tensor_dims(*all)[0] >= 1,
        ensures
            r matches Ok(o) ==> self.careful_mean(value(*all), value(o)) && tensor_dims(o)
                == tensor_dims(*all).remove(0) && tensor_element(o) == tensor_element(*all)
                && tensor_location(o) == tensor_location(*all),
            hosted(value(*all)) ==> r is Ok,
            r matches Err(e) ==> e is Backend,
    {
        let zero = lift(from_f64(F64::from_bits(0)))?;
        let weight = lift(from_f64(self.cfg.uncertainty_penalty))?;
        let average = lift(mean(all, 0))?;
        let var = lift(variance(all, 0))?;
        let std = lift(square_root(&var))?;
        let size = lift(absolute(&average))?;
        let product = lift(multiply(&size, &std))?;
        let penalty = lift(affine(&product, &weight, &zero))?;
        let out = lift(subtract(&average, &penalty))?;
        proof {
            reveal(TdMpc2::careful_mean);
            assert(average_of(value(*all), 0, value(average)));
            assert(variance_of(value(*all), 0, value(var)));
            assert(root_of(value(var), value(std)));
            assert(is_magnitude(value(average), value(size)));
            assert(product_of(value(size), value(std), value(product)));
            assert(affine_of(
                value(product),
                double(self.cfg.uncertainty_penalty),
                double(F64 { bits: 0 }),
                value(penalty),
            ));
        }
        Ok(out)
    }

    /// The value of a last state under the mean action.
    fn worth(&self, z: &Tensor) -> (r: Result<Tensor>)
        requires
            self.well_formed(),
            tensor_dims(*z).len() == 2,
        ensures
            r matches Ok(o) ==> self.last_value(value(*z), value(o)) && tensor_dims(o) == seq![
                tensor_dims(*z)[0],
                1usize,
            ] && tensor_element(o) == tensor_element(*z) && tensor_location(o) == tensor_location(
                *z,
            ),
            r matches Err(SwmError::Message(m)) ==> self.actor_complaint() == Some(m@)
                || two_hot_complaint(
                seq![tensor_dims(*z)[0], self.cfg.num_bins],
                self.cfg.num_bins,
            ) == Some(m@) || self.cfg.num_q == 0 && m@ == "cannot stack an empty tensor list"@,
            self.takes(value(*z), self.latent() as int) && self.scorable(tensor_dims(*z)[0]) ==> r is Ok,
    {
        let action = self.actor_mean_action(z)?;
        proof {
            assert(tensor_dims(action).drop_last() =~= tensor_dims(*z).drop_last());
        }
        let wide = pair(z, &action)?;
        let qs = self.head_values(&wide)?;
        let ghost vs = values(qs@);
        proof {
            assert(vs.len() == qs@.len());
            assert forall|k: int| 0 <= k < vs.len() implies self.head_value(
                k,
                value(wide),
                #[trigger] vs[k],
            ) && vs[k].dims == seq![tensor_dims(*z)[0], 1usize] && vs[k].element == tensor_element(
                *z,
            ) && vs[k].location == tensor_location(*z) by {
                assert(vs[k] == value(qs@[k]));
                assert(tensor_dims(wide)[0] == tensor_dims(*z)[0]);
            }
        }
        proof {
            if resident(value(*z)) {
                assert(alike(vs));
            }
        }
        let all = stack(qs.as_slice(), 0)?;
        proof {
            let first = vs[0].dims;
            lemma_stacked_shape(vs, 0, value(all));
            assert(first.insert(0, vs.len() as usize).remove(0) =~= first);
        }
        let out = self.be_careful(&all)?;
        proof {
            reveal(TdMpc2::last_value);
            assert(self.mean_action(value(*z), value(action)));
            assert(paired(value(*z), value(action), value(wide)));
            assert(stacked(vs, 0, value(all)));
        }
        Ok(out)
    }

    /// Whether action candidates have the shape that the model takes.
    fn check_candidates(&self, candidates: &Tensor) -> (r: Result<(usize, usize, usize, usize)>)
        ensures
            self.candidates_complaint(tensor_dims(*candidates)) matches Some(text) ==> r is Err
                && r->Err_0.says(text),
            self.candidates_complaint(tensor_dims(*candidates)) is None ==> r is Ok,
            r matches Ok(d) ==> tensor_dims(*candidates) == seq![d.0, d.1, d.2, d.3] && d.3
                == self.cfg.action_dim && count(tensor_dims(*candidates)) == tensor_keys(
                *candidates,
            ).len(),
    {
        let (b, n, horizon, action_dim) = dims4(candidates)?;
        if action_dim != self.cfg.action_dim {
            let text = with_numbers(
                "action candidates last dim ",
                action_dim,
                " does not match TD-MPC2 action_dim ",
                self.cfg.action_dim,
                "",
            );
            proof {
                reveal_strlit("");
                assert(text@ =~= self.candidates_complaint(tensor_dims(*candidates))->0);
            }
            return Err(SwmError::Message(text));
        }
        Ok((b, n, horizon, action_dim))
    }

    /// The costs of action candidates `[batch, candidates, time, actions]`,
    /// from encoded observations.
    pub fn cost_of_states(&self, z: &Tensor, action_candidates: &Tensor) -> (r: Result<Tensor>)
        requires
            self.well_formed(),
        ensures
            self.candidates_complaint(tensor_dims(*action_candidates)) matches Some(text)
                ==> r is Err && r->Err_0.says(text),
            r matches Err(SwmError::Message(m)) ==> match self.candidates_complaint(
                tensor_dims(*action_candidates),
            ) {
                Some(text) => m@ == text,
                None => self.scoring_says(value(*z), tensor_dims(*action_candidates), m@),
            },
            self.candidates_complaint(tensor_dims(*action_candidates)) is None
                && self.states_complaint(value(*z), tensor_dims(*action_candidates)) is Some
                ==> r is Err,
            r matches Ok(o) ==> self.costs(value(*z), value(*action_candidates), value(o))
                && tensor_dims(o) == seq![
                tensor_dims(*action_candidates)[0],
                tensor_dims(*action_candidates)[1],
            ] && tensor_keys(o).len() == count(tensor_dims(o)) && tensor_element(o)
                == tensor_element(*z) && tensor_location(o) == tensor_location(*z),
            self.scores_here(value(*z), value(*action_candidates)) ==> r is Ok,
            r matches Ok(o) ==> laid_out(o),
    {
        let (b, n, horizon, action_dim) = self.check_candidates(action_candidates)?;
        let ghost candidates = value(*action_candidates);
        let width: usize = self.cfg.latent_dim();
        let wide_shape: [usize; 3] = [b, n, width];
        proof {
            assert(wide_shape@ =~= seq![b, n, width]);
        }
        let rows: usize = match b.checked_mul(n) {
            Some(rows) => rows,
            None => {
                return Err(message("TD-MPC2 plan shape overflowed"));
            },
        };
        if element_count(&wide_shape).is_none() {
            return Err(message("TD-MPC2 plan shape overflowed"));
        }
        let mut state = place_states(z, b, n, width, rows)?;
        let ghost first = value(state);
        let flat: [usize; 3] = [rows, horizon, action_dim];
        let column: [usize; 2] = [rows, 1];
        let plan: [usize; 2] = [b, n];
        proof {
            assert(flat@ =~= seq![rows, horizon, action_dim]);
            assert(column@ =~= seq![rows, 1usize]);
            assert(plan@ =~= seq![b, n]);
            lemma_counts(b, n, horizon, action_dim);
            lemma_counts(rows, horizon, action_dim, 0);
            lemma_counts(rows, 1, 0, 0);
            lemma_counts(b, n, 0, 0);
            vstd::arithmetic::mul::lemma_mul_basics(rows as int);
            let (x, y, w) = (b as int, n as int, (horizon * action_dim) as int);
            assert((x * y) * w == x * (y * w)) by (nonlinear_arith);
        }
        proof {
            if full(candidates.dims) {
                assert(b > 0 && n > 0);
                vstd::arithmetic::mul::lemma_mul_strictly_positive(b as int, n as int);
            }
        }
        let actions = lift(reshape(action_candidates, &flat))?;
        let mut total = lift(zeros(&column, dtype(&state), device_of(&state)))?;
        let mut discount = lift(from_f64(F64::from_bits(ONE)))?;
        let ghost mut trace: Seq<Earned> = seq![
            Earned { state: first, total: value(total), discount: value(discount) },
        ];
        proof {
            assert(value(actions) == flat_candidates(candidates));
            assert(value(total).dims =~= seq![first.dims[0], 1usize]);
        }
        let mut k: usize = 0;
        while k < horizon
            invariant
                self.well_formed(),
                k <= horizon,
                tensor_dims(actions) == seq![rows, horizon, action_dim],
                action_dim == self.cfg.action_dim,
                rows == b * n,
                candidates.dims == seq![b, n, horizon, action_dim],
                candidates.dims == tensor_dims(*action_candidates),
                self.candidates_complaint(candidates.dims) is None,
                self.states_complaint(value(*z), candidates.dims) is None,
                tensor_dims(state) == seq![rows, self.latent() as usize],
                tensor_dims(total) == seq![rows, 1usize],
                tensor_element(total) == first.element,
                tensor_location(total) == first.location,
                tensor_element(state) == first.element,
                tensor_location(state) == first.location,
                first.element == tensor_element(*z),
                first.location == tensor_location(*z),
                is_double(value(discount)),
                tensor_element(actions) == candidates.element,
                tensor_location(actions) == candidates.location,
                candidates == value(*action_candidates),
                self.scores_here(value(*z), candidates) ==> rows > 0,
                trace.len() == k + 1,
                trace[0].state == first,
                trace[0].discount == double(F64 { bits: ONE }),
                trace[0].total == first.alongside(seq![first.dims[0], 1usize], trace[0].total.keys),
                plain(first.element) ==> trace[0].total.keys == filled(trace[0].total.dims, 0),
                trace.last() == (Earned {
                    state: value(state),
                    total: value(total),
                    discount: value(discount),
                }),
                forall|j: int|
                    0 <= j < k ==> self.earns(value(actions), j, #[trigger] trace[j], trace[j + 1]),
            decreases horizon - k,
        {
            let (next, sum, smaller) = self.earn(&actions, k, &state, &total, &discount)?;
            proof {
                trace = trace.push(
                    Earned { state: value(next), total: value(sum), discount: value(smaller) },
                );
            }
            state = next;
            total = sum;
            discount = smaller;
            k = k + 1;
        }
        let worth = self.worth(&state)?;
        let zero = lift(from_f64(F64::from_bits(0)))?;
        let gain = lift(affine(&worth, &discount, &zero))?;
        let sum = lift(plus(&total, &gain))?;
        let cost = lift(negate(&sum))?;
        proof {
            assert(self.collects(first, flat_candidates(candidates), trace));
            assert(self.last_value(trace.last().state, value(worth)));
            assert(affine_of(
                value(worth),
                trace.last().discount,
                double(F64 { bits: 0 }),
                value(gain),
            ));
            assert(sum_of(trace.last().total, value(gain), value(sum)));
            assert(is_negation(value(sum), value(cost)));
        }
        let out = lift(reshape(&cost, &plan))?;
        Ok(out)
    }

    /// What can be said of observations and candidates.
    pub open spec fn cost_says(
        self,
        obs: Seq<(&str, &Tensor)>,
        dims: Seq<usize>,
        text: Seq<char>,
    ) -> bool {
        if self.candidates_complaint(dims) is Some {
            self.candidates_complaint(dims) == Some(text)
        } else if self.encode_complaint(obs) is Some {
            self.encode_complaint(obs) == Some(text) || self.cannot_join(obs, text)
        } else {
            self.cannot_join(obs, text) || exists|z: TensorValue|
                #[trigger] self.encoded(obs, z) && self.scoring_says(z, dims, text)
        }
    }

    /// The costs of action candidates after observations.
    pub open spec fn cost_of(
        self,
        obs: Seq<(&str, &Tensor)>,
        candidates: TensorValue,
        r: TensorValue,
    ) -> bool {
        exists|z: TensorValue| #[trigger] self.encoded(obs, z) && self.costs(z, candidates, r)
    }

    /// Whether candidates are scored on the processor after observations.
    pub open spec fn costs_here(
        self,
        obs: Seq<(&str, &Tensor)>,
        e: ElementType,
        lead: Seq<usize>,
        c: TensorValue,
    ) -> bool {
        &&& self.sees(obs, e, lead)
        &&& self.scores_here(
            TensorValue {
                dims: lead.push(embedding_width(self.cfg.encodings@) as usize),
                keys: Seq::empty(),
                element: e,
                location: Location::Cpu,
            },
            c,
        )
    }

    /// The costs of action candidates `[batch, candidates, time, actions]` after
    /// named observations.
    pub fn get_cost(&self, observations: &[(&str, &Tensor)], action_candidates: &Tensor) -> (r:
        Result<Tensor>)
        requires
            self.well_formed(),
        ensures
            self.candidates_complaint(tensor_dims(*action_candidates)) matches Some(text)
                ==> r is Err && r->Err_0.says(text),
            self.encode_complaint(observations@) is Some ==> r is Err,
            r matches Err(SwmError::Message(m)) ==> self.cost_says(
                observations@,
                tensor_dims(*action_candidates),
                m@,
            ),
            r matches Ok(o) ==> self.cost_of(observations@, value(*action_candidates), value(o))
                && tensor_dims(o) == seq![
                tensor_dims(*action_candidates)[0],
                tensor_dims(*action_candidates)[1],
            ] && tensor_keys(o).len() == count(tensor_dims(o)),
            forall|e: ElementType, lead: Seq<usize>| #[trigger]
                self.costs_here(observations@, e, lead, value(*action_candidates)) ==> r is Ok,
            r matches Ok(o) ==> laid_out(o),
    {
        let _ = self.check_candidates(action_candidates)?;
        let z = self.encode(observations)?;
        proof {
            assert(self.encoded(observations@, value(z)));
        }
        self.cost_of_states(&z, action_candidates)
    }

    /// The costs of action candidates after an observation of the name `state`.
    pub fn get_cost_state(&self, state: &Tensor, action_candidates: &Tensor) -> (r: Result<Tensor>)
        requires
            self.well_formed(),
        ensures
            self.candidates_complaint(tensor_dims(*action_candidates)) matches Some(text)
                ==> r is Err && r->Err_0.says(text),
            self.encode_complaint(seq![("state", state)]) is Some ==> r is Err,
            r matches Err(SwmError::Message(m)) ==> self.cost_says(
                seq![("state", state)],
                tensor_dims(*action_candidates),
                m@,
            ),
            r matches Ok(o) ==> self.cost_of(
                seq![("state", state)],
                value(*action_candidates),
                value(o),
            ) && tensor_dims(o) == seq![
                tensor_dims(*action_candidates)[0],
                tensor_dims(*action_candidates)[1],
            ] && tensor_keys(o).len() == count(tensor_dims(o)),
            forall|e: ElementType, lead: Seq<usize>| #[trigger]
                self.costs_here(
                    one_observation("state", state),
                    e,
                    lead,
                    value(*action_candidates),
                ) ==> r is Ok,
            r matches Ok(o) ==> laid_out(o),
    {
        let obs: [(&str, &Tensor); 1] = [("state", state)];
        proof {
            assert(obs@ =~= seq![("state", state)]);
        }
        self.get_cost(&obs, action_candidates)
    }
}

} // verus!
