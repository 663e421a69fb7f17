//! The dynamics and the policy of the TD-MPC2 model.

use candle_core::Tensor;
use vstd::prelude::*;

use crate::error::{lift, message, Result, SwmError};
use crate::models::tdmpc2::model::TdMpc2;
use crate::models::tdmpc2::modules::{cat_complaint, cat_last, MlpOutput};
use crate::models::tdmpc2::simnorm::simnorm_complaint;
use crate::scalar::{finite_key, nan_key, F64};
use crate::tensor::arithmetic::{
    affine, affine_of, exponential, is_exponential, is_tangent, keeps, like, multiply, plus,
    product_of, sum_of, tanh, vanishes,
};
use crate::tensor::join::{lemma_join_two, lemma_two_line_up, lemma_two_places};
use crate::tensor::layout::{
    device_of, dims, dtype, followed, laid_out, narrow, narrowed, placed, share, to_device,
    to_dtype,
};
use crate::tensor::ranks::same_sizes;
use crate::tensor::make::{double, from_f64};
use crate::tensor::value::{
    count, matching, resident, tensor_dims, tensor_element, tensor_keys, tensor_location, value,
    values, TensorValue,
};
use crate::text::{sizes_text, with_dims};
use crate::tensor::layers::{full, ready};

verus! {

/// The bits of 6.0.
pub const SIX: u64 = 0x4018_0000_0000_0000;

/// The bits of -4.0.
pub const MINUS_FOUR: u64 = 0xc010_0000_0000_0000;

/// A state and an action side by side.
pub open spec fn paired(z: TensorValue, a: TensorValue, r: TensorValue) -> bool {
    z.dims.len() > 0 && followed(z, a, z.dims.len() - 1, r)
}

/// What is said of a state and an action that cannot stand side by side.
pub open spec fn pair_complaint(z: Seq<usize>, a: Seq<usize>) -> Option<Seq<char>> {
    if z.len() == 0 {
        Some("cannot concatenate tensors without axes"@)
    } else if a.len() >= z.len() && z.last() + a[z.len() - 1] > usize::MAX {
        Some("concatenated shape overflowed"@)
    } else {
        None
    }
}

/// Puts an action behind a state along the last axis.
pub fn pair(z: &Tensor, action: &Tensor) -> (r: Result<Tensor>)
    ensures
        pair_complaint(tensor_dims(*z), tensor_dims(*action)) matches Some(text) ==> r is Err
            && r->Err_0.says(text),
        pair_complaint(tensor_dims(*z), tensor_dims(*action)) is None ==> (r matches Err(e)
            ==> e is Backend),
        r matches Ok(o) ==> paired(value(*z), value(*action), value(o)) && tensor_dims(o)
            == tensor_dims(*z).drop_last().push(
            (tensor_dims(*z).last() + tensor_dims(*action).last()) as usize,
        ) && tensor_dims(*action).drop_last() == tensor_dims(*z).drop_last()
            && tensor_dims(*action).len() == tensor_dims(*z).len() && tensor_keys(o).len() == count(
            tensor_dims(o),
        ),
        pair_complaint(tensor_dims(*z), tensor_dims(*action)) is None && resident(value(*z))
            && resident(value(*action)) && tensor_element(*action) == tensor_element(*z)
            && tensor_dims(*action).len() == tensor_dims(*z).len() && tensor_dims(*action).drop_last()
            == tensor_dims(*z).drop_last() ==> r is Ok,
        r matches Ok(o) ==> tensor_element(o) == tensor_element(*z) && tensor_location(o)
            == tensor_location(*z),
{
    let parts = vec![share(z), share(action)];
    let ghost vs = values(parts@);
    proof {
        assert(vs.len() == 2 && vs[0] == value(*z) && vs[1] == value(*action));
        lemma_two_places(parts@, tensor_dims(*z).len() - 1);
        assert(cat_complaint(vs) == pair_complaint(tensor_dims(*z), tensor_dims(*action)));
        let (d, a) = (tensor_dims(*z), tensor_dims(*action));
        if resident(value(*z)) && resident(value(*action)) && tensor_element(*action)
            == tensor_element(*z) && d.len() > 0 && a.len() == d.len() && a.drop_last()
            == d.drop_last() {
            assert forall|k: int| 0 <= k < a.len() - 1 implies a[k] == d[k] by {
                assert(a[k] == a.drop_last()[k]);
                assert(d[k] == d.drop_last()[k]);
            }
            assert(a =~= d.update(d.len() - 1, a[d.len() - 1]));
            lemma_two_line_up(parts@, d.len() - 1);
        }
    }
    let out = cat_last(parts.as_slice())?;
    proof {
        let axis = tensor_dims(*z).len() - 1;
        lemma_join_two(parts@, axis, value(out));
        let (d, a) = (tensor_dims(*z), tensor_dims(*action));
        assert(a.drop_last() =~= d.drop_last());
        assert(tensor_dims(out) =~= d.drop_last().push((d.last() + a.last()) as usize));
    }
    Ok(out)
}

impl TdMpc2 {
    /// What is wrong with the width of a latent state.
    pub open spec fn latent_complaint(self) -> Option<Seq<char>> {
        simnorm_complaint(seq![self.latent() as usize], self.cfg.simnorm_dim)
    }

    /// What is said of a model without actions.
    pub open spec fn actor_complaint(self) -> Option<Seq<char>> {
        if self.cfg.action_dim == 0 {
            Some("TD-MPC2 actor requires at least one action"@)
        } else {
            None
        }
    }

    /// The next state and the reward logits that follow a state and an action.
    pub open spec fn stepped(
        self,
        z: TensorValue,
        a: TensorValue,
        next: TensorValue,
        logits: TensorValue,
    ) -> bool {
        exists|wide: TensorValue|
            #[trigger] paired(z, a, wide) && self.dynamics.of(wide, next) && self.reward.of(
                wide,
                logits,
            )
    }

    /// The raw mean of the policy.
    pub open spec fn raw_mean(self, z: TensorValue, mean: TensorValue) -> bool {
        exists|out: TensorValue|
            #[trigger] self.pi.of(z, out) && narrowed(
                out,
                out.dims.len() - 1,
                0,
                self.cfg.action_dim as int,
                mean,
            )
    }

    /// The raw mean and the logarithm of the deviation of the policy.
    pub open spec fn policy(self, z: TensorValue, mean: TensorValue, log_std: TensorValue) -> bool {
        exists|out: TensorValue, raw: TensorValue, bent: TensorValue|
            #[trigger] self.pi.of(z, out) && narrowed(
                out,
                out.dims.len() - 1,
                0,
                self.cfg.action_dim as int,
                mean,
            ) && narrowed(
                out,
                out.dims.len() - 1,
                self.cfg.action_dim as int,
                self.cfg.action_dim as int,
                raw,
            ) && #[trigger] is_tangent(raw, bent) && affine_of(
                bent,
                double(F64 { bits: SIX }),
                double(F64 { bits: MINUS_FOUR }),
                log_std,
            )
    }

    /// The mean action of the policy.
    pub open spec fn mean_action(self, z: TensorValue, r: TensorValue) -> bool {
        exists|raw: TensorValue| #[trigger] self.raw_mean(z, raw) && is_tangent(raw, r)
    }

    /// The action that the policy takes with these draws.
    pub open spec fn sampled_action(
        self,
        z: TensorValue,
        noise: TensorValue,
        r: TensorValue,
    ) -> bool {
        exists|
            mean: TensorValue,
            log_std: TensorValue,
            draws: TensorValue,
            std: TensorValue,
            shift: TensorValue,
            sum: TensorValue,
        |
            #[trigger] self.policy(z, mean, log_std) && #[trigger] placed(
                noise,
                mean.element,
                mean.location,
                draws,
            ) && #[trigger] is_exponential(log_std, std) && #[trigger] product_of(std, draws, shift)
                && #[trigger] sum_of(mean, shift, sum) && is_tangent(sum, r) && vanishes(
                std,
                draws,
                shift,
            ) && keeps(mean, shift, sum)
    }

    /// The raw mean of the policy holds numbers, and its deviation finite ones, in
    /// single precision on the processor.
    pub open spec fn plainly_spread(self, z: TensorValue) -> bool {
        forall|mean: TensorValue, log_std: TensorValue, std: TensorValue|
            #[trigger] self.policy(z, mean, log_std) && #[trigger] is_exponential(log_std, std)
                ==> {
                &&& mean.element is F32 && mean.location is Cpu
                &&& std.element is F32 && std.location is Cpu
                &&& forall|k: int| 0 <= k < mean.keys.len() ==> !nan_key(#[trigger] mean.keys[k])
                &&& forall|k: int| 0 <= k < std.keys.len() ==> finite_key(#[trigger] std.keys[k])
            }
    }

    /// The shape of an action for a state.
    pub open spec fn action_dims(self, z: Seq<usize>) -> Seq<usize> {
        z.drop_last().push(self.cfg.action_dim)
    }

    /// Whether a tensor of a width goes through the model on the processor.
    pub open spec fn takes(self, x: TensorValue, width: int) -> bool {
        &&& ready(x)
        &&& self.home(x.element)
        &&& 2 <= x.dims.len() <= 3
        &&& x.dims.last() == width
    }

    /// What is said of draws of the wrong shape.
    pub open spec fn noise_complaint(self, z: Seq<usize>, noise: Seq<usize>) -> Seq<char> {
        "TD-MPC2 actor noise shape "@ + sizes_text(noise) + " must match actor mean shape "@
            + sizes_text(self.action_dims(z))
    }

    /// The next state of a state and an action that stand side by side.
    pub fn next_latent(&self, wide: &Tensor) -> (r: Result<Tensor>)
        requires
            self.well_formed(),
        ensures
            r matches Ok(o) ==> self.dynamics.of(value(*wide), value(o)) && tensor_dims(*wide).len()
                >= 2 && tensor_dims(*wide).last() == self.latent() + self.cfg.action_dim && value(o)
                == value(*wide).alongside(
                tensor_dims(*wide).drop_last().push(self.latent() as usize),
                tensor_keys(o),
            ) && tensor_keys(o).len() == count(tensor_dims(o)),
            r matches Err(SwmError::Message(m)) ==> self.latent_complaint() == Some(m@),
            self.takes(value(*wide), self.latent() + self.cfg.action_dim)
                && self.latent_complaint() is None ==> r is Ok,
    {
        proof {
            let (i, o) = ((self.latent() + self.cfg.action_dim) as usize, self.latent() as usize);
            assert(self.dynamics.sized(i, self.cfg.mlp_dim, o));
            let w = seq![o];
            assert(w.last() == o);
            let d = tensor_dims(*wide).drop_last().push(o);
            assert(d.last() == o);
            assert forall|i2: usize, h2: usize, o2: usize| #[trigger]
                self.dynamics.sized(i2, h2, o2) implies o2 == o by {
                match self.dynamics.out {
                    MlpOutput::Plain(l) => {},
                    MlpOutput::Normed(l) => {
                        assert(seq![self.cfg.mlp_dim, o][1] == o);
                        assert(seq![h2, o2][1] == o2);
                    },
                }
            }
        }
        self.dynamics.forward(wide)
    }

    /// The reward logits of a state and an action that stand side by side.
    pub fn reward_logits(&self, wide: &Tensor) -> (r: Result<Tensor>)
        requires
            self.well_formed(),
        ensures
            r matches Ok(o) ==> self.reward.of(value(*wide), value(o)) && tensor_dims(*wide).len()
                >= 2 && value(o) == value(*wide).alongside(
                tensor_dims(*wide).drop_last().push(self.cfg.num_bins),
                tensor_keys(o),
            ) && tensor_keys(o).len() == count(tensor_dims(o)),
            r matches Err(e) ==> e is Backend,
            self.takes(value(*wide), self.latent() + self.cfg.action_dim) ==> r is Ok,
            r matches Ok(o) ==> full(tensor_dims(o)) ==> laid_out(o),
    {
        proof {
            assert(self.reward.sized(
                (self.latent() + self.cfg.action_dim) as usize,
                self.cfg.mlp_dim,
                self.cfg.num_bins,
            ));
        }
        self.reward.forward(wide)
    }

    /// What the policy head makes of a state.
    fn policy_head(&self, z: &Tensor) -> (r: Result<Tensor>)
        requires
            self.well_formed(),
        ensures
            r matches Ok(o) ==> self.pi.of(value(*z), value(o)) && tensor_dims(*z).len() >= 2
                && tensor_dims(*z).last() == self.latent() && value(o) == value(*z).alongside(
                tensor_dims(*z).drop_last().push((2 * self.cfg.action_dim) as usize),
                tensor_keys(o),
            ) && tensor_keys(o).len() == count(tensor_dims(o)),
            r matches Err(e) ==> e is Backend,
            self.takes(value(*z), self.latent() as int) ==> r is Ok,
    {
        proof {
            assert(self.pi.sized(
                self.latent() as usize,
                self.cfg.mlp_dim,
                (2 * self.cfg.action_dim) as usize,
            ));
        }
        self.pi.forward(z)
    }

    /// The next state and the reward logits that follow a state and an action.
    pub fn forward(&self, z: &Tensor, action: &Tensor) -> (r: Result<(Tensor, Tensor)>)
        requires
            self.well_formed(),
        ensures
            pair_complaint(tensor_dims(*z), tensor_dims(*action)) matches Some(text) ==> r is Err
                && r->Err_0.says(text),
            pair_complaint(tensor_dims(*z), tensor_dims(*action)) is None ==> (r matches Err(
                SwmError::Message(m),
            ) ==> self.latent_complaint() == Some(m@)),
            r matches Ok(o) ==> self.stepped(value(*z), value(*action), value(o.0), value(o.1))
                && tensor_dims(o.0) == tensor_dims(*z).drop_last().push(self.latent() as usize)
                && tensor_dims(o.1) == tensor_dims(*z).drop_last().push(self.cfg.num_bins),
            self.takes(value(*z), self.latent() as int) && self.latent_complaint() is None && matching(
                value(*z).shaped(self.action_dims(tensor_dims(*z))),
                value(*action),
            ) ==> r is Ok,
    {
        proof {
            let d = tensor_dims(*z);
            assert(self.action_dims(d).drop_last() =~= d.drop_last());
        }
        let wide = pair(z, action)?;
        let next = self.next_latent(&wide)?;
        let logits = self.reward_logits(&wide)?;
        proof {
            assert(paired(value(*z), value(*action), value(wide)));
            assert(tensor_dims(wide).drop_last() =~= tensor_dims(*z).drop_last());
        }
        Ok((next, logits))
    }

    /// The raw mean and the logarithm of the deviation of the policy.
    pub fn actor_mean_log_std(&self, z: &Tensor) -> (r: Result<(Tensor, Tensor)>)
        requires
            self.well_formed(),
        ensures
            self.actor_complaint() is Some ==> r is Err,
            r matches Err(SwmError::Message(m)) ==> self.actor_complaint() == Some(m@),
            r matches Ok(o) ==> self.policy(value(*z), value(o.0), value(o.1)) && tensor_dims(
                *z,
            ).len() >= 2 && tensor_dims(*z).last() == self.latent()
                && value(o.0) == value(*z).alongside(
                self.action_dims(tensor_dims(*z)),
                tensor_keys(o.0),
            ) && tensor_keys(o.0).len() == count(tensor_dims(o.0)) && like(value(o.0), value(o.1)),
            self.actor_complaint() is None && self.takes(value(*z), self.latent() as int) ==> r is Ok,
    {
        let out = self.policy_head(z)?;
        let d = dims(&out);
        if self.cfg.action_dim == 0 {
            return Err(message("TD-MPC2 actor requires at least one action"));
        }
        let axis: usize = d.len() - 1;
        let mean = lift(narrow(&out, axis, 0, self.cfg.action_dim))?;
        let raw = lift(narrow(&out, axis, self.cfg.action_dim, self.cfg.action_dim))?;
        let bent = lift(tanh(&raw))?;
        let six = lift(from_f64(F64::from_bits(SIX)))?;
        let minus_four = lift(from_f64(F64::from_bits(MINUS_FOUR)))?;
        let log_std = lift(affine(&bent, &six, &minus_four))?;
        proof {
            assert(self.pi.of(value(*z), value(out)));
            assert(is_tangent(value(raw), value(bent)));
            assert(tensor_dims(mean) =~= self.action_dims(tensor_dims(*z)));
            assert(tensor_dims(raw) =~= tensor_dims(mean));
        }
        Ok((mean, log_std))
    }

    /// The raw mean of the policy.
    pub fn actor_mean_raw(&self, z: &Tensor) -> (r: Result<Tensor>)
        requires
            self.well_formed(),
        ensures
            self.actor_complaint() is Some ==> r is Err,
            r matches Err(SwmError::Message(m)) ==> self.actor_complaint() == Some(m@),
            r matches Ok(o) ==> self.raw_mean(value(*z), value(o)) && tensor_dims(*z).len() >= 2
                && tensor_dims(*z).last() == self.latent()
                && value(o) == value(*z).alongside(
                self.action_dims(tensor_dims(*z)),
                tensor_keys(o),
            ) && tensor_keys(o).len() == count(tensor_dims(o)),
            self.actor_complaint() is None && self.takes(value(*z), self.latent() as int) ==> r is Ok,
    {
        let out = self.policy_head(z)?;
        let d = dims(&out);
        if self.cfg.action_dim == 0 {
            return Err(message("TD-MPC2 actor requires at least one action"));
        }
        let mean = lift(narrow(&out, d.len() - 1, 0, self.cfg.action_dim))?;
        proof {
            assert(self.pi.of(value(*z), value(out)));
            assert(tensor_dims(mean) =~= self.action_dims(tensor_dims(*z)));
        }
        Ok(mean)
    }

    /// The mean action of the policy.
    pub fn actor_mean_action(&self, z: &Tensor) -> (r: Result<Tensor>)
        requires
            self.well_formed(),
        ensures
            self.actor_complaint() is Some ==> r is Err,
            r matches Err(SwmError::Message(m)) ==> self.actor_complaint() == Some(m@),
            r matches Ok(o) ==> self.mean_action(value(*z), value(o)) && tensor_dims(*z).len() >= 2
                && tensor_dims(*z).last() == self.latent()
                && value(o) == value(*z).alongside(
                self.action_dims(tensor_dims(*z)),
                tensor_keys(o),
            ) && tensor_keys(o).len() == count(tensor_dims(o)),
            self.actor_complaint() is None && self.takes(value(*z), self.latent() as int) ==> r is Ok,
    {
        let raw = self.actor_mean_raw(z)?;
        let out = lift(tanh(&raw))?;
        proof {
            assert(self.raw_mean(value(*z), value(raw)));
        }
        Ok(out)
    }

    /// The action that the policy takes with given draws.
    pub fn actor_sample_action(&self, z: &Tensor, noise: &Tensor) -> (r: Result<Tensor>)
        requires
            self.well_formed(),
        ensures
            self.actor_complaint() is Some ==> r is Err,
            self.actor_complaint() is None && tensor_dims(*noise) != self.action_dims(
                tensor_dims(*z),
            ) ==> r is Err,
            r matches Err(SwmError::Message(m)) ==> self.actor_complaint() == Some(m@) || (
            self.actor_complaint() is None && tensor_dims(*noise) != self.action_dims(
                tensor_dims(*z),
            ) && m@ == self.noise_complaint(tensor_dims(*z), tensor_dims(*noise))),
            r matches Ok(o) ==> self.sampled_action(value(*z), value(*noise), value(o))
                && tensor_dims(*z).len() >= 2 && tensor_dims(*z).last() == self.latent() && value(o)
                == value(*z).alongside(
                self.action_dims(tensor_dims(*z)),
                tensor_keys(o),
            ) && tensor_keys(o).len() == count(tensor_dims(o)),
            self.actor_complaint() is None && self.takes(value(*z), self.latent() as int) && tensor_dims(
                *noise,
            ) == self.action_dims(tensor_dims(*z)) && resident(value(*noise)) ==> r is Ok,
    {
        let (mean, log_std) = self.actor_mean_log_std(z)?;
        let expected = dims(&mean);
        let got = dims(noise);
        if !same_sizes(got.as_slice(), expected.as_slice()) {
            let mut text = with_dims("TD-MPC2 actor noise shape ", got.as_slice());
            let tail = with_dims(" must match actor mean shape ", expected.as_slice());
            text.append(tail.as_str());
            proof {
                assert(text@ =~= self.noise_complaint(tensor_dims(*z), tensor_dims(*noise)));
            }
            return Err(SwmError::Message(text));
        }
        let there = lift(to_device(noise, device_of(&mean)))?;
        let draws = lift(to_dtype(&there, dtype(&mean)))?;
        let std = lift(exponential(&log_std))?;
        let shift = lift(multiply(&std, &draws))?;
        let sum = lift(plus(&mean, &shift))?;
        let out = lift(tanh(&sum))?;
        proof {
            assert(self.policy(value(*z), value(mean), value(log_std)));
            assert(value(there) == (TensorValue {
                location: value(mean).location,
                ..value(*noise)
            }));
            assert(placed(value(*noise), value(mean).element, value(mean).location, value(draws)));
            assert(is_exponential(value(log_std), value(std)));
            assert(product_of(value(std), value(draws), value(shift)));
            assert(sum_of(value(mean), value(shift), value(sum)));
        }
        Ok(out)
    }
}

/// The action that is sampled with draws of zero is the mean action, where the
/// policy's mean and deviation are plain numbers.
pub proof fn zero_draws_give_the_mean_action(
    model: TdMpc2,
    z: TensorValue,
    noise: TensorValue,
    r: TensorValue,
)
    requires
        model.sampled_action(z, noise, r),
        model.plainly_spread(z),
        noise.element is F32,
        forall|k: int| 0 <= k < noise.keys.len() ==> #[trigger] noise.keys[k] == 0,
    ensures
        model.mean_action(z, r),
{
    let (mean, log_std, draws, std, shift, sum) = choose|
        mean: TensorValue,
        log_std: TensorValue,
        draws: TensorValue,
        std: TensorValue,
        shift: TensorValue,
        sum: TensorValue,
    |
        #[trigger] model.policy(z, mean, log_std) && #[trigger] placed(
            noise,
            mean.element,
            mean.location,
            draws,
        ) && #[trigger] is_exponential(log_std, std) && #[trigger] product_of(std, draws, shift)
            && #[trigger] sum_of(mean, shift, sum) && is_tangent(sum, r) && vanishes(
            std,
            draws,
            shift,
        ) && keeps(mean, shift, sum);
    assert forall|k: int| 0 <= k < sum.keys.len() implies sum.keys[k] == mean.keys[k] by {
        assert(draws.keys[k] == noise.keys[k]);
        assert(finite_key(std.keys[k]));
        assert(shift.keys[k] == 0);
        assert(!nan_key(mean.keys[k]));
    }
    assert(sum.keys =~= mean.keys);
    assert(sum == mean);
    assert(model.raw_mean(z, mean));
}

} // verus!
