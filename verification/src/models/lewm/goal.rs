//! The distance of a rollout from a goal.

use candle_core::Tensor;
use vstd::prelude::*;

use crate::error::{lift, message, Result, SwmError};
use crate::models::lewm::model::LeWm;
use crate::tensor::arithmetic::{difference_of, square, square_of, subtract, sum, total_of};
use crate::tensor::layout::{
    broadcast_as, dims, laid_out, narrow, narrowed, share, squeeze, unsqueeze,
};
use crate::tensor::ranks::element_count;
use crate::tensor::select::{pick_step, step_of};
use crate::tensor::value::{
    count, hosted, spread, spreads, tensor_dims, tensor_element, tensor_keys, tensor_location,
    value, TensorValue,
};
use crate::text::{sizes_text, with_dims};

verus! {

/// The goal of each entry of a batch: an embedding, or the last of several.
pub open spec fn is_goal(goal: TensorValue, r: TensorValue) -> bool {
    if goal.dims.len() == 2 {
        r == goal
    } else {
        step_of(goal, goal.dims[1] - 1, r)
    }
}

/// The last frame of a rollout `[batch, samples, time, width]`.
pub open spec fn is_last_frame(v: TensorValue, r: TensorValue) -> bool {
    exists|one: TensorValue|
        #[trigger] narrowed(v, 2, v.dims[2] - 1, 1, one) && r == one.shaped(
            seq![v.dims[0], v.dims[1], v.dims[3]],
        )
}

/// The squared distance of the last frame of a rollout from the goal, for each
/// sample.
pub open spec fn is_goal_cost(predicted: TensorValue, goal: TensorValue, r: TensorValue) -> bool {
    let (b, s, d) = (predicted.dims[0], predicted.dims[1], predicted.dims[3]);
    exists|last: TensorValue, wanted: TensorValue, gap: TensorValue, squares: TensorValue|
        #[trigger] is_last_frame(predicted, last) && #[trigger] is_goal(goal, wanted)
            && #[trigger] difference_of(
            last,
            spread(wanted.shaped(one_sample(b, d)), last.dims),
            gap,
        ) && #[trigger] square_of(gap, squares) && total_of(squares, 2, r)
}

/// The shape of one sample for each entry of a batch.
pub open spec fn one_sample(b: usize, d: usize) -> Seq<usize> {
    seq![b, 1usize, d]
}

/// What is wrong with the shapes of a rollout and a goal.
pub open spec fn goal_complaint(predicted: Seq<usize>, goal: Seq<usize>) -> Option<Seq<char>> {
    if predicted.len() != 4 {
        Some(
            "predicted_emb expects [batch, samples, time, dim], got "@ + sizes_text(predicted),
        )
    } else if !(goal.len() == 2 && goal[0] == predicted[0] && goal[1] == predicted[3]) && !(
    goal.len() == 3 && goal[0] == predicted[0] && goal[2] == predicted[3] && goal[1] > 0) {
        Some("unsupported goal embedding shape "@ + sizes_text(goal))
    } else if predicted[2] == 0 {
        Some("predicted_emb has no frames"@)
    } else if count(seq![predicted[0], predicted[1], predicted[3]]) > usize::MAX {
        Some("LeWM rollout shape overflowed"@)
    } else {
        None
    }
}

fn last_frame(predicted: &Tensor) -> (r: Result<Tensor>)
    requires
        tensor_dims(*predicted).len() == 4,
        tensor_dims(*predicted)[2] > 0,
    ensures
        r matches Ok(o) ==> is_last_frame(value(*predicted), value(o)) && value(o) == value(
            *predicted,
        ).alongside(
            seq![tensor_dims(*predicted)[0], tensor_dims(*predicted)[1], tensor_dims(*predicted)[3]],
            tensor_keys(o),
        ),
        r matches Err(e) ==> e is Backend,
        r is Ok,
{
    let d = dims(predicted);
    let one = lift(narrow(predicted, 2, d[2] - 1, 1))?;
    proof {
        assert(tensor_dims(one).remove(2) =~= seq![d@[0], d@[1], d@[3]]);
    }
    let out = lift(squeeze(&one, 2))?;
    proof {
        assert(narrowed(value(*predicted), 2, d@[2] - 1, 1, value(one)));
    }
    Ok(out)
}

impl LeWm {
    /// The costs `[batch, samples]` of a rollout: how far its last frame is from
    /// the goal.
    pub fn goal_cost(&self, predicted_emb: &Tensor, goal_emb: &Tensor) -> (r: Result<Tensor>)
        ensures
            goal_complaint(tensor_dims(*predicted_emb), tensor_dims(*goal_emb)) matches Some(text)
                ==> r is Err && r->Err_0.says(text),
            goal_complaint(tensor_dims(*predicted_emb), tensor_dims(*goal_emb)) is None ==> (
            r matches Err(e) ==> e is Backend),
            r matches Ok(o) ==> is_goal_cost(value(*predicted_emb), value(*goal_emb), value(o))
                && value(o) == value(*predicted_emb).alongside(
                seq![tensor_dims(*predicted_emb)[0], tensor_dims(*predicted_emb)[1]],
                tensor_keys(o),
            ) && tensor_keys(o).len() == count(tensor_dims(o)),
            goal_complaint(tensor_dims(*predicted_emb), tensor_dims(*goal_emb)) is None && hosted(
                value(*predicted_emb),
            ) && tensor_element(*goal_emb) == tensor_element(*predicted_emb) && tensor_location(
                *goal_emb,
            ) is Cpu ==> r is Ok,
            r matches Ok(o) ==> laid_out(o),
    {
        let p = dims(predicted_emb);
        let g = dims(goal_emb);
        if p.len() != 4 {
            return Err(
                SwmError::Message(
                    with_dims(
                        "predicted_emb expects [batch, samples, time, dim], got ",
                        p.as_slice(),
                    ),
                ),
            );
        }
        let (b, s, t, d) = (p[0], p[1], p[2], p[3]);
        let single = g.len() == 2 && g[0] == b && g[1] == d;
        let several = g.len() == 3 && g[0] == b && g[2] == d && g[1] > 0;
        if !single && !several {
            return Err(
                SwmError::Message(with_dims("unsupported goal embedding shape ", g.as_slice())),
            );
        }
        if t == 0 {
            return Err(message("predicted_emb has no frames"));
        }
        let shape: [usize; 3] = [b, s, d];
        proof {
            assert(shape@ =~= seq![b, s, d]);
        }
        if element_count(&shape).is_none() {
            return Err(message("LeWM rollout shape overflowed"));
        }
        let wanted = if single {
            share(goal_emb)
        } else {
            pick_step(goal_emb, g[1] - 1)?
        };
        let last = last_frame(predicted_emb)?;
        let column = lift(unsqueeze(&wanted, 1))?;
        proof {
            assert(tensor_dims(wanted) =~= seq![b, d]);
            assert(tensor_dims(wanted).insert(1, 1) =~= one_sample(b, d));
            assert(spreads(one_sample(b, d), shape@));
        }
        let wide = lift(broadcast_as(&column, &shape))?;
        let gap = lift(subtract(&last, &wide))?;
        let squares = lift(square(&gap))?;
        let out = lift(sum(&squares, 2))?;
        proof {
            assert(is_last_frame(value(*predicted_emb), value(last)));
            assert(is_goal(value(*goal_emb), value(wanted)));
            assert(difference_of(
                value(last),
                spread(value(wanted).shaped(one_sample(b, d)), value(last).dims),
                value(gap),
            ));
            assert(square_of(value(gap), value(squares)));
            assert(shape@.remove(2) =~= seq![b, s]);
        }
        Ok(out)
    }

    /// The costs of actions, by rollout and distance from the goal.
    pub open spec fn costs(
        self,
        emb: TensorValue,
        goal: TensorValue,
        actions: TensorValue,
        r: TensorValue,
    ) -> bool {
        exists|rollout: TensorValue| #[trigger]
            self.rolls_out(emb, actions, self.cfg.history_size as int, rollout) && is_goal_cost(
                rollout,
                goal,
                r,
            )
    }

    /// What can be said of actions and a goal.
    pub open spec fn costs_say(
        self,
        emb: Seq<usize>,
        goal: Seq<usize>,
        act: Seq<usize>,
        text: Seq<char>,
    ) -> bool {
        ||| LeWm::rollout_complaint(emb, act) == Some(text)
        ||| self.rollout_says(emb, act, self.cfg.history_size as int, text)
        ||| goal_complaint(seq![emb[0], emb[1], (act[2] + 1) as usize, emb[3]], goal) == Some(text)
    }

    /// Rolls out under actions and measures the distance from the goal.
    pub fn cost_to_goal(&self, emb_init: &Tensor, goal_emb: &Tensor, actions: &Tensor) -> (r: Result<
        Tensor,
    >)
        requires
            self.well_formed(),
        ensures
            LeWm::rollout_complaint(tensor_dims(*emb_init), tensor_dims(*actions)) matches Some(text)
                ==> r is Err && r->Err_0.says(text),
            r matches Err(SwmError::Message(m)) ==> self.costs_say(
                tensor_dims(*emb_init),
                tensor_dims(*goal_emb),
                tensor_dims(*actions),
                m@,
            ),
            r matches Ok(o) ==> self.costs(
                value(*emb_init),
                value(*goal_emb),
                value(*actions),
                value(o),
            ) && tensor_dims(o) == seq![tensor_dims(*emb_init)[0], tensor_dims(*emb_init)[1]]
                && tensor_keys(o).len() == count(tensor_dims(o)),
            r matches Ok(o) ==> laid_out(o),
            LeWm::rollout_complaint(tensor_dims(*emb_init), tensor_dims(*actions)) is None
                    && self.rolls_here(
                    value(*emb_init),
                    value(*actions),
                    self.cfg.history_size as int,
                ) && goal_complaint(
                    seq![
                        tensor_dims(*emb_init)[0],
                        tensor_dims(*emb_init)[1],
                        (tensor_dims(*actions)[2] + 1) as usize,
                        tensor_dims(*emb_init)[3],
                    ],
                    tensor_dims(*goal_emb),
                ) is None && tensor_element(*goal_emb) is F32 && tensor_location(*goal_emb) is Cpu
                    ==> r is Ok,
    {
        let rollout = self.rollout_embeddings(emb_init, actions)?;
        let out = self.goal_cost(&rollout, goal_emb)?;
        proof {
            assert(self.rolls_out(
                value(*emb_init),
                value(*actions),
                self.cfg.history_size as int,
                value(rollout),
            ));
        }
        Ok(out)
    }
}

} // verus!
