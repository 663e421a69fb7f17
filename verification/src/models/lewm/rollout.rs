//! Rolling the LeWM model out, and the distance to a goal.

use candle_core::Tensor;
use vstd::prelude::*;
use vstd::slice::slice_subrange;

use crate::error::{lift, message, Result, SwmError};
use crate::models::lewm::model::LeWm;
use crate::tensor::facts::lemma_counts;
use crate::tensor::join::{lemma_stacked_parts, lemma_stacked_shape, stack, stacked};
use crate::tensor::layout::{dims, narrow, narrowed, reshape};
use crate::tensor::select::{pick_step, step_of};
use crate::tensor::value::{
    resident, tensor_dims, tensor_element, tensor_location, value, values, ElementType, TensorValue,
};
use crate::text::{decimal, sizes_text, with_dims, with_numbers};
use crate::models::lewm::predictor::has_widths;
use crate::tensor::layers::ready;

verus! {

/// Sequences with the two leading of four axes as one.
pub open spec fn all_sequences(x: TensorValue) -> TensorValue {
    x.shaped(seq![(x.dims[0] * x.dims[1]) as usize, x.dims[2], x.dims[3]])
}

/// The first frame that a prediction after `upper` frames looks at.
pub open spec fn window_start(upper: int, history: int) -> int {
    if upper <= history {
        0
    } else {
        upper - history
    }
}

/// The shape of a window of frames.
pub open spec fn window_dims(rows: usize, frames: usize, width: usize) -> Seq<usize> {
    seq![rows, frames, width]
}

/// Whether a prediction of a rollout looks at `w` frames: as many as there are
/// by then, but no more than the history.
pub open spec fn is_window(first: usize, last: usize, history: int, w: usize) -> bool {
    &&& 0 < w <= last
    &&& w <= history
    &&& first <= w || w == history
}

/// Frames of one shape, single-precision numbers in the memory of the processor.
pub open spec fn held_frames(frames: Seq<Tensor>, rows: usize, width: usize) -> bool {
    forall|k: int|
        0 <= k < frames.len() ==> tensor_dims(#[trigger] frames[k]) == seq![rows, width]
            && tensor_element(frames[k]) is F32 && tensor_location(frames[k]) is Cpu
}

impl LeWm {
    /// The frame that follows the last `history` of the first `upper` frames.
    #[verifier::opaque]
    pub open spec fn foresees(
        self,
        frames: Seq<TensorValue>,
        acts: TensorValue,
        history: int,
        upper: int,
        r: TensorValue,
    ) -> bool {
        let lo = window_start(upper, history);
        exists|seen: TensorValue, done: TensorValue, pred: TensorValue|
            #[trigger] stacked(frames.subrange(lo, upper), 1, seen) && #[trigger] narrowed(
                acts,
                1,
                lo,
                upper - lo,
                done,
            ) && #[trigger] self.predicts(seen, done, pred) && step_of(pred, pred.dims[1] - 1, r)
    }

    /// Frames that start with those of embeddings `[rows, history, width]`, each
    /// later one foreseen from those before it, until an action is left for none.
    pub open spec fn unfolds(
        self,
        emb: TensorValue,
        acts: TensorValue,
        history: int,
        frames: Seq<TensorValue>,
    ) -> bool {
        &&& frames.len() == acts.dims[1] + 1
        &&& forall|k: int|
            0 <= k < emb.dims[1] && k < frames.len() ==> step_of(emb, k, #[trigger] frames[k])
        &&& forall|k: int|
            emb.dims[1] <= k < frames.len() ==> self.foresees(
                frames,
                acts,
                history,
                k,
                #[trigger] frames[k],
            )
    }

    /// The frames of a rollout by way of the embedded actions and the frames one
    /// by one.
    #[verifier::opaque]
    pub open spec fn rolls_through(
        self,
        emb: TensorValue,
        actions: TensorValue,
        history: int,
        acts: TensorValue,
        frames: Seq<TensorValue>,
        all: TensorValue,
        r: TensorValue,
    ) -> bool {
        &&& self.action_encoder.of(all_sequences(actions), acts)
        &&& acts.dims[1] == actions.dims[2]
        &&& self.unfolds(all_sequences(emb), acts, history, frames)
        &&& stacked(frames, 1, all)
        &&& r == all.shaped(
            seq![emb.dims[0], emb.dims[1], (actions.dims[2] + 1) as usize, emb.dims[3]],
        )
    }

    /// The frames `[batch, samples, time + 1, width]` of a rollout.
    pub open spec fn rolls_out(
        self,
        emb: TensorValue,
        actions: TensorValue,
        history: int,
        r: TensorValue,
    ) -> bool {
        exists|acts: TensorValue, frames: Seq<TensorValue>, all: TensorValue|
            #[trigger] self.rolls_through(emb, actions, history, acts, frames, all, r)
    }

    /// What is wrong with the shapes of embeddings and actions.
    pub open spec fn rollout_complaint(emb: Seq<usize>, act: Seq<usize>) -> Option<Seq<char>> {
        if emb.len() != 4 {
            Some("emb_init expects [batch, samples, history, dim], got "@ + sizes_text(emb))
        } else if act.len() != 4 {
            Some("actions expects [batch, samples, horizon, action_dim], got "@ + sizes_text(act))
        } else if emb[0] != act[0] || emb[1] != act[1] {
            Some(
                "emb/action batch sample mismatch: "@ + sizes_text(emb) + " vs "@ + sizes_text(act),
            )
        } else if act[2] < emb[2] {
            Some(
                "action horizon "@ + decimal(act[2] as nat) + " is shorter than history "@
                    + decimal(emb[2] as nat),
            )
        } else if emb[0] * emb[1] > usize::MAX || act[2] == usize::MAX {
            Some("LeWM rollout shape overflowed"@)
        } else if emb[0] * emb[1] == 0 || emb[3] == 0 {
            Some("LeWM rollout needs at least one history"@)
        } else {
            None
        }
    }

    /// What can be said of a rollout after its shapes have passed.
    pub open spec fn rollout_says(
        self,
        emb: Seq<usize>,
        act: Seq<usize>,
        history: int,
        text: Seq<char>,
    ) -> bool {
        let rows = (emb[0] * emb[1]) as usize;
        ||| self.action_encoder.complaint(seq![rows, act[2], act[3]]) == Some(text)
        ||| (history == 0 || emb[2] == 0) && text == "cannot stack an empty tensor list"@
        ||| exists|w: usize|
            is_window(emb[2], act[2], history, w) && #[trigger] self.predict_complaint(
                window_dims(rows, w, emb[3]),
            ) == Some(text)
        ||| exists|w: usize|
            is_window(emb[2], act[2], history, w) && #[trigger] self.predict_complaint(
                window_dims(rows, w, self.cfg.pred_proj.output_dim),
            ) == Some(text)
    }

    /// Whether a frame can be foreseen on the processor.
    pub open spec fn foresees_here(
        self,
        frames: Seq<Tensor>,
        acts: TensorValue,
        history: usize,
        rows: usize,
        width: usize,
    ) -> bool {
        let w = if frames.len() <= history {
            frames.len() as usize
        } else {
            history
        };
        &&& w > 0 && rows > 0 && width > 0
        &&& held_frames(frames, rows, width)
        &&& acts.dims == seq![rows, acts.dims[1], width]
        &&& acts.element is F32 && acts.location is Cpu
        &&& self.predict_complaint(window_dims(rows, w, width)) is None
        &&& self.home(ElementType::F32) && has_widths(self.cfg.predictor) && self.projects()
    }

    /// Whether a rollout can be made on the processor: the frames are as wide as the
    /// embedded actions, and what is foreseen is as wide as what is seen.
    pub open spec fn rolls_here(self, emb: TensorValue, actions: TensorValue, history: int) -> bool {
        let rows = (emb.dims[0] * emb.dims[1]) as usize;
        &&& ready(emb) && emb.element is F32
        &&& self.action_encoder.takes(all_sequences(actions))
        &&& emb.dims[3] == self.cfg.action_encoder.emb_dim == self.cfg.pred_proj.output_dim
        &&& history > 0
        &&& forall|w: usize|
            is_window(emb.dims[2], actions.dims[2], history, w) ==> #[trigger] self.predict_complaint(
                window_dims(rows, w, emb.dims[3]),
            ) is None
        &&& self.home(ElementType::F32) && has_widths(self.cfg.predictor) && self.projects()
    }

    fn check_rollout(emb: &[usize], act: &[usize]) -> (r: Result<usize>)
        ensures
            Self::rollout_complaint(emb@, act@) matches Some(text) ==> r is Err && r->Err_0.says(
                text,
            ),
            Self::rollout_complaint(emb@, act@) is None ==> r is Ok && r->Ok_0 == emb@[0] * emb@[1],
    {
        if emb.len() != 4 {
            return Err(
                SwmError::Message(
                    with_dims("emb_init expects [batch, samples, history, dim], got ", emb),
                ),
            );
        }
        if act.len() != 4 {
            return Err(
                SwmError::Message(
                    with_dims("actions expects [batch, samples, horizon, action_dim], got ", act),
                ),
            );
        }
        if emb[0] != act[0] || emb[1] != act[1] {
            let mut text = with_dims("emb/action batch sample mismatch: ", emb);
            let tail = with_dims(" vs ", act);
            text.append(tail.as_str());
            proof {
                assert(text@ =~= Self::rollout_complaint(emb@, act@)->0);
            }
            return Err(SwmError::Message(text));
        }
        if act[2] < emb[2] {
            let text = with_numbers(
                "action horizon ",
                act[2],
                " is shorter than history ",
                emb[2],
                "",
            );
            proof {
                reveal_strlit("");
                assert(text@ =~= Self::rollout_complaint(emb@, act@)->0);
            }
            return Err(SwmError::Message(text));
        }
        let rows: usize = match emb[0].checked_mul(emb[1]) {
            Some(n) => n,
            None => {
                return Err(message("LeWM rollout shape overflowed"));
            },
        };
        if act[2] == usize::MAX {
            return Err(message("LeWM rollout shape overflowed"));
        }
        if rows == 0 || emb[3] == 0 {
            return Err(message("LeWM rollout needs at least one history"));
        }
        Ok(rows)
    }

    /// Foresees the frame after `upper` frames.
    fn foresee(&self, frames: &Vec<Tensor>, acts: &Tensor, history: usize, rows: usize, width: usize) -> (r:
        Result<Tensor>)
        requires
            self.well_formed(),
            tensor_dims(*acts).len() == 3,
            frames@.len() <= tensor_dims(*acts)[1],
            forall|k: int|
                0 <= k < frames@.len() ==> tensor_dims(#[trigger] frames@[k]) == seq![rows, width]
                    || tensor_dims(frames@[k]) == seq![rows, self.cfg.pred_proj.output_dim],
        ensures
            r matches Ok(o) ==> self.foresees(
                values(frames@),
                value(*acts),
                history as int,
                frames@.len() as int,
                value(o),
            ) && tensor_dims(o) == seq![rows, self.cfg.pred_proj.output_dim] && history > 0
                && frames@.len() > 0,
            r matches Err(SwmError::Message(m)) ==> {
                let w = if frames@.len() <= history {
                    frames@.len() as usize
                } else {
                    history
                };
                ||| (history == 0 || frames@.len() == 0)
                    && m@ == "cannot stack an empty tensor list"@
                ||| w > 0 && self.predict_complaint(window_dims(rows, w, width)) == Some(m@)
                ||| w > 0 && self.predict_complaint(
                    window_dims(rows, w, self.cfg.pred_proj.output_dim),
                ) == Some(m@)
            },
            self.foresees_here(frames@, value(*acts), history, rows, width) ==> r is Ok && tensor_element(
                    r->Ok_0,
                ) is F32 && tensor_location(r->Ok_0) is Cpu,
    {
        let upper: usize = frames.len();
        let lo: usize = if upper <= history {
            0
        } else {
            upper - history
        };
        let window = slice_subrange(frames.as_slice(), lo, upper);
        let ghost vs = values(window@);
        proof {
            assert(vs =~= values(frames@).subrange(lo as int, upper as int));
            assert forall|k: int| 0 <= k < vs.len() implies (#[trigger] vs[k]).dims == seq![
                rows,
                width,
            ] || vs[k].dims == seq![rows, self.cfg.pred_proj.output_dim] by {
                assert(vs[k] == value(frames@[lo + k]));
            }
        }
        proof {
            if held_frames(frames@, rows, width) {
                assert forall|k: int| 0 <= k < vs.len() implies resident(#[trigger] vs[k])
                    && vs[k].element == vs[0].element && vs[k].dims == vs[0].dims by {
                    assert(vs[k] == value(frames@[lo + k]));
                    assert(vs[0] == value(frames@[lo as int]));
                }
            }
        }
        let seen = stack(window, 1)?;
        let ghost w = (upper - lo) as usize;
        proof {
            assert forall|k: int| 0 <= k < vs.len() implies (#[trigger] vs[k]).dims == vs[0].dims by {
                lemma_stacked_parts(vs, 1, value(seen), k);
            }
            lemma_stacked_shape(vs, 1, value(seen));
            let d = vs[0].dims[1];
            assert(vs[0].dims.insert(1, w) =~= window_dims(rows, w, d));
        }
        let done = lift(narrow(acts, 1, lo, upper - lo))?;
        proof {
            if self.foresees_here(frames@, value(*acts), history, rows, width) {
                assert(vs[0] == value(frames@[lo as int]));
                assert(tensor_dims(done) =~= window_dims(rows, w, width));
            }
        }
        let pred = self.predict_from_action_embeddings(&seen, &done)?;
        let out = pick_step(&pred, upper - lo - 1)?;
        proof {
            reveal(LeWm::foresees);
            assert(stacked(values(frames@).subrange(lo as int, upper as int), 1, value(seen)));
            assert(narrowed(value(*acts), 1, lo as int, upper - lo, value(done)));
            assert(self.predicts(value(seen), value(done), value(pred)));
            assert(tensor_dims(pred)[1] == w);
            assert(step_of(value(pred), value(pred).dims[1] - 1, value(out)));
            assert(lo == window_start(upper as int, history as int));
            assert(tensor_dims(out) =~= seq![rows, self.cfg.pred_proj.output_dim]);
        }
        Ok(out)
    }

    /// Rolls frames out under actions, looking at `history_size` frames.
    pub fn rollout_embeddings_with_history(
        &self,
        emb_init: &Tensor,
        actions: &Tensor,
        history_size: usize,
    ) -> (r: Result<Tensor>)
        requires
            self.well_formed(),
        ensures
            Self::rollout_complaint(tensor_dims(*emb_init), tensor_dims(*actions)) matches Some(text)
                ==> r is Err && r->Err_0.says(text),
            r matches Err(SwmError::Message(m)) ==> Self::rollout_complaint(
                tensor_dims(*emb_init),
                tensor_dims(*actions),
            ) == Some(m@) || self.rollout_says(
                tensor_dims(*emb_init),
                tensor_dims(*actions),
                history_size as int,
                m@,
            ),
            history_size == 0 ==> r is Err,
            r matches Ok(o) ==> self.rolls_out(
                value(*emb_init),
                value(*actions),
                history_size as int,
                value(o),
            ) && tensor_dims(o) == seq![
                tensor_dims(*emb_init)[0],
                tensor_dims(*emb_init)[1],
                (tensor_dims(*actions)[2] + 1) as usize,
                tensor_dims(*emb_init)[3],
            ],
            r matches Ok(o) ==> tensor_element(o) == tensor_element(*emb_init) && tensor_location(o)
                    == tensor_location(*emb_init),
            Self::rollout_complaint(tensor_dims(*emb_init), tensor_dims(*actions)) is None
                    && self.rolls_here(value(*emb_init), value(*actions), history_size as int) ==> r is Ok,
    {
        let e = dims(emb_init);
        let a = dims(actions);
        let rows = Self::check_rollout(e.as_slice(), a.as_slice())?;
        let (b, s, h, d) = (e[0], e[1], e[2], e[3]);
        let (t, width) = (a[2], a[3]);
        let flat_emb: [usize; 3] = [rows, h, d];
        let flat_act: [usize; 3] = [rows, t, width];
        let ghost out_dim = self.cfg.pred_proj.output_dim;
        proof {
            assert(e@ =~= seq![b, s, h, d]);
            assert(a@ =~= seq![b, s, t, width]);
            assert(flat_emb@ =~= seq![rows, h, d]);
            assert(flat_act@ =~= seq![rows, t, width]);
            lemma_counts(b, s, h, d);
            lemma_counts(b, s, t, width);
            lemma_counts(rows, h, d, 0);
            lemma_counts(rows, t, width, 0);
            let (x, y, p, q) = (b as int, s as int, (h * d) as int, (t * width) as int);
            assert((x * y) * p == x * (y * p)) by (nonlinear_arith);
            assert((x * y) * q == x * (y * q)) by (nonlinear_arith);
        }
        let emb = lift(reshape(emb_init, &flat_emb))?;
        let acts_in = lift(reshape(actions, &flat_act))?;
        let acts = self.encode_actions(&acts_in)?;
        proof {
            assert(value(emb) == all_sequences(value(*emb_init)));
            assert(value(acts_in) == all_sequences(value(*actions)));
        }
        proof {
            if ready(value(*emb_init)) {
                assert(e@[0] > 0 && e@[1] > 0 && e@[2] > 0 && e@[3] > 0);
            }
        }
        let mut frames: Vec<Tensor> = Vec::new();
        let mut k: usize = 0;
        while k < h
            invariant
                k <= h,
                tensor_dims(emb) == seq![rows, h, d],
                frames@.len() == k,
                forall|j: int|
                    0 <= j < k ==> step_of(value(emb), j, value(#[trigger] frames@[j]))
                        && tensor_dims(frames@[j]) == seq![rows, d],
            decreases h - k,
        {
            let frame = pick_step(&emb, k)?;
            frames.push(frame);
            k = k + 1;
        }
        while k <= t
            invariant
                self.well_formed(),
                h <= k <= t + 1,
                h <= t < usize::MAX,
                e@ == seq![b, s, h, d],
                a@ == seq![b, s, t, width],
                rows == b * s,
                e@ == tensor_dims(*emb_init),
                a@ == tensor_dims(*actions),
                Self::rollout_complaint(e@, a@) is None,
                out_dim == self.cfg.pred_proj.output_dim,
                tensor_dims(emb) == seq![rows, h, d],
                tensor_dims(acts).len() == 3,
                tensor_dims(acts)[1] == t,
                frames@.len() == k,
                k > h ==> h > 0 && history_size > 0,
                tensor_element(emb) == tensor_element(*emb_init),
                tensor_location(emb) == tensor_location(*emb_init),
                self.rolls_here(value(*emb_init), value(*actions), history_size as int) ==> {
                    &&& value(acts).dims == seq![rows, t, d]
                    &&& value(acts).element is F32 && value(acts).location is Cpu
                    &&& held_frames(frames@, rows, d)
                    &&& rows > 0 && h > 0 && d > 0
                },
                forall|j: int|
                    0 <= j < h ==> step_of(value(emb), j, value(#[trigger] frames@[j]))
                        && tensor_dims(frames@[j]) == seq![rows, d],
                forall|j: int|
                    h <= j < k ==> self.foresees(
                        values(frames@).take(j),
                        value(acts),
                        history_size as int,
                        j,
                        value(#[trigger] frames@[j]),
                    ) && tensor_dims(frames@[j]) == seq![rows, out_dim],
            decreases t + 1 - k,
        {
            let ghost w = if k <= history_size {
                k
            } else {
                history_size
            };
            proof {
                if w > 0 {
                    assert(is_window(h, t, history_size as int, w));
                    if self.rolls_here(value(*emb_init), value(*actions), history_size as int) {
                        assert(self.predict_complaint(window_dims(rows, w, d)) is None);
                    }
                }
            }
            let next = self.foresee(&frames, &acts, history_size, rows, d)?;
            let ghost before = frames@;
            frames.push(next);
            proof {
                assert forall|j: int| h <= j < k + 1 implies self.foresees(
                    values(frames@).take(j),
                    value(acts),
                    history_size as int,
                    j,
                    value(#[trigger] frames@[j]),
                ) && tensor_dims(frames@[j]) == seq![rows, out_dim] by {
                    assert(values(frames@).take(j) =~= values(before).take(j));
                    if j == k {
                        assert(values(before).take(j) =~= values(before));
                    } else {
                        assert(frames@[j] == before[j]);
                    }
                }
            }
            k = k + 1;
        }
        let ghost vs = values(frames@);
        proof {
            assert(vs.len() == t + 1);
            assert forall|j: int| 0 <= j < h && j < vs.len() implies step_of(
                value(emb),
                j,
                #[trigger] vs[j],
            ) by {
                assert(vs[j] == value(frames@[j]));
            }
            assert forall|j: int| h <= j < vs.len() implies self.foresees(
                vs,
                value(acts),
                history_size as int,
                j,
                #[trigger] vs[j],
            ) by {
                assert(vs[j] == value(frames@[j]));
                reveal(LeWm::foresees);
                let lo = window_start(j, history_size as int);
                assert(vs.take(j).subrange(lo, j) =~= vs.subrange(lo, j));
            }
            assert(self.unfolds(value(emb), value(acts), history_size as int, vs));
            assert forall|j: int| 0 <= j < vs.len() implies (#[trigger] vs[j]).dims.len() == 2 by {
                assert(vs[j] == value(frames@[j]));
            }
        }
        proof {
            if self.rolls_here(value(*emb_init), value(*actions), history_size as int) {
                assert forall|j: int| 0 <= j < vs.len() implies resident(#[trigger] vs[j])
                    && vs[j].element == vs[0].element && vs[j].dims == vs[0].dims by {
                    assert(vs[j] == value(frames@[j]));
                    assert(vs[0] == value(frames@[0]));
                }
            }
        }
        let all = stack(frames.as_slice(), 1)?;
        let all_dims = dims(&all);
        let shape: [usize; 4] = [b, s, t + 1, d];
        proof {
            assert forall|j: int| 0 <= j < vs.len() implies (#[trigger] vs[j]).dims == vs[0].dims by {
                lemma_stacked_parts(vs, 1, value(all), j);
            }
            lemma_stacked_shape(vs, 1, value(all));
            assert(vs[0] == value(frames@[0]));
            let steps = (t + 1) as usize;
            assert(vs[0].dims.insert(1, steps) =~= seq![rows, steps, d]);
            assert(shape@ =~= seq![b, s, steps, d]);
            lemma_counts(b, s, steps, d);
            lemma_counts(rows, steps, d, 0);
            let (x, y, p) = (b as int, s as int, (steps * d) as int);
            assert((x * y) * p == x * (y * p)) by (nonlinear_arith);
        }
        let out = lift(reshape(&all, &shape))?;
        proof {
            assert(self.action_encoder.of(all_sequences(value(*actions)), value(acts)));
            assert(stacked(vs, 1, value(all)));
            assert(self.rolls_through(
                value(*emb_init),
                value(*actions),
                history_size as int,
                value(acts),
                vs,
                value(all),
                value(out),
            )) by {
                reveal(LeWm::rolls_through);
            }
        }
        Ok(out)
    }

    /// Rolls frames out under actions, looking at as many frames as the settings
    /// say.
    pub fn rollout_embeddings(&self, emb_init: &Tensor, actions: &Tensor) -> (r: Result<Tensor>)
        requires
            self.well_formed(),
        ensures
            Self::rollout_complaint(tensor_dims(*emb_init), tensor_dims(*actions)) matches Some(text)
                ==> r is Err && r->Err_0.says(text),
            r matches Err(SwmError::Message(m)) ==> Self::rollout_complaint(
                tensor_dims(*emb_init),
                tensor_dims(*actions),
            ) == Some(m@) || self.rollout_says(
                tensor_dims(*emb_init),
                tensor_dims(*actions),
                self.cfg.history_size as int,
                m@,
            ),
            r matches Ok(o) ==> self.rolls_out(
                value(*emb_init),
                value(*actions),
                self.cfg.history_size as int,
                value(o),
            ) && tensor_dims(o) == seq![
                tensor_dims(*emb_init)[0],
                tensor_dims(*emb_init)[1],
                (tensor_dims(*actions)[2] + 1) as usize,
                tensor_dims(*emb_init)[3],
            ],
            r matches Ok(o) ==> tensor_element(o) == tensor_element(*emb_init) && tensor_location(o)
                    == tensor_location(*emb_init),
            Self::rollout_complaint(tensor_dims(*emb_init), tensor_dims(*actions)) is None
                    && self.rolls_here(value(*emb_init), value(*actions), self.cfg.history_size as int) ==> r is Ok,
    {
        self.rollout_embeddings_with_history(emb_init, actions, self.cfg.history_size)
    }
}

} // verus!
