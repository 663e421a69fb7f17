//! What a rollout keeps of the frames that it was given.

use vstd::prelude::*;

use crate::models::lewm::model::LeWm;
use crate::models::lewm::rollout::{all_sequences, window_start};
use crate::tensor::facts::{lemma_counts, lemma_second_axis};
use crate::tensor::join::{lemma_stacked_parts, lemma_stacked_rows, lemma_stacked_shape, stacked};
use crate::tensor::select::step_of;
use crate::tensor::value::{in_range, inner, TensorValue};
use crate::tensor::layout::narrowed;

verus! {

/// What one step along the third of four axes passes over.
proof fn lemma_time_axis(b: usize, s: usize, t: usize, d: usize)
    ensures
        inner(seq![b, s, t, d], 2) == d,
{
    assert(seq![b, s, t, d].skip(3) =~= seq![d]);
    lemma_counts(d, d, d, d);
}

/// The frames of a rollout all have the shape of the first.
proof fn lemma_frames(
    model: LeWm,
    flat: TensorValue,
    acts: TensorValue,
    history: int,
    frames: Seq<TensorValue>,
    all: TensorValue,
)
    requires
        model.unfolds(flat, acts, history, frames),
        stacked(frames, 1, all),
        flat.dims.len() == 3,
        flat.dims[1] > 0,
    ensures
        forall|j: int|
            0 <= j < frames.len() ==> (#[trigger] frames[j]).dims == seq![
                flat.dims[0],
                flat.dims[2],
            ],
{
    assert(step_of(flat, 0, frames[0]));
    assert forall|j: int| 0 <= j < frames.len() implies (#[trigger] frames[j]).dims.len() == 2 by {
        if j < flat.dims[1] {
            assert(step_of(flat, j, frames[j]));
        } else {
            assert(model.foresees(frames, acts, history, j, frames[j]));
            reveal(LeWm::foresees);
        }
    }
    assert forall|j: int| 0 <= j < frames.len() implies (#[trigger] frames[j]).dims == seq![
        flat.dims[0],
        flat.dims[2],
    ] by {
        lemma_stacked_parts(frames, 1, all, j);
    }
}

/// One element of a frame that was given.
proof fn lemma_frame_kept(
    flat: TensorValue,
    frames: Seq<TensorValue>,
    all: TensorValue,
    k: int,
    row: int,
    i: int,
)
    requires
        stacked(frames, 1, all),
        0 < frames.len() <= usize::MAX,
        flat.dims.len() == 3,
        forall|j: int|
            0 <= j < frames.len() ==> (#[trigger] frames[j]).dims == seq![
                flat.dims[0],
                flat.dims[2],
            ],
        0 <= k < frames.len(),
        0 <= row < flat.dims[0],
        0 <= i < flat.dims[2],
        step_of(flat, k, frames[k]),
    ensures
        all.dims == seq![flat.dims[0], frames.len() as usize, flat.dims[2]],
        all.at(1, row, k, i) == flat.at(1, row, k, i),
{
    let (rows, d) = (flat.dims[0], flat.dims[2]);
    lemma_stacked_rows(frames, all, rows, d, k, row, i);
    lemma_second_axis(rows, d, 0, 0);
    assert(frames[k].dims == seq![rows, d]);
    assert(frames[k].at(1, row, i, 0) == flat.at(1, row, k, i));
    vstd::arithmetic::mul::lemma_mul_basics(row * d + i);
}

/// Joining the two leading of four axes moves no element.
proof fn lemma_same_element(
    v: TensorValue,
    flat: TensorValue,
    b: usize,
    s: usize,
    t: usize,
    d: usize,
    row: int,
    k: int,
    i: int,
)
    requires
        v.dims == seq![b, s, t, d],
        flat.dims.len() == 3,
        flat.dims[1] == t,
        flat.dims[2] == d,
        flat.keys == v.keys,
    ensures
        v.at(2, row, k, i) == flat.at(1, row, k, i),
{
    lemma_time_axis(b, s, t, d);
    assert(flat.dims =~= seq![flat.dims[0], t, d]);
    lemma_second_axis(flat.dims[0], t, 0, d);
}

/// The frames that were given, in the shape of the rollout.
proof fn lemma_kept(
    model: LeWm,
    emb: TensorValue,
    flat: TensorValue,
    acts: TensorValue,
    history: int,
    frames: Seq<TensorValue>,
    all: TensorValue,
    r: TensorValue,
    b: usize,
    s: usize,
    h: usize,
    steps: usize,
    d: usize,
)
    requires
        model.unfolds(flat, acts, history, frames),
        stacked(frames, 1, all),
        emb.dims == seq![b, s, h, d],
        flat.dims == seq![(b * s) as usize, h, d],
        flat.keys == emb.keys,
        b * s <= usize::MAX,
        r.dims == seq![b, s, steps, d],
        r.keys == all.keys,
        frames.len() == steps,
        0 < h < steps,
    ensures
        forall|row: int, k: int, i: int|
            0 <= row < b * s && 0 <= k < h && 0 <= i < d ==> #[trigger] r.at(2, row, k, i)
                == emb.at(2, row, k, i),
{
    lemma_frames(model, flat, acts, history, frames, all);
    assert forall|row: int, k: int, i: int|
        0 <= row < b * s && 0 <= k < h && 0 <= i < d implies #[trigger] r.at(2, row, k, i)
        == emb.at(2, row, k, i) by {
        assert(step_of(flat, k, frames[k]));
        lemma_frame_kept(flat, frames, all, k, row, i);
        lemma_same_element(emb, flat, b, s, h, d, row, k, i);
        lemma_same_element(r, all, b, s, steps, d, row, k, i);
    }
}

/// A rollout starts with the frames that it was given: its first places along
/// the time axis hold the embeddings of what was seen.
pub proof fn rollouts_start_with_what_was_seen(
    model: LeWm,
    emb: TensorValue,
    actions: TensorValue,
    history: int,
    r: TensorValue,
)
    requires
        LeWm::rollout_complaint(emb.dims, actions.dims) is None,
        model.rolls_out(emb, actions, history, r),
    ensures
        forall|row: int, k: int, i: int|
            0 <= row < emb.dims[0] * emb.dims[1] && 0 <= k < emb.dims[2] && 0 <= i < emb.dims[3]
                ==> #[trigger] r.at(2, row, k, i) == emb.at(2, row, k, i),
{
    let (acts, frames, all) = choose|acts: TensorValue, frames: Seq<TensorValue>, all: TensorValue|
        #[trigger] model.rolls_through(emb, actions, history, acts, frames, all, r);
    let (b, s, h, d) = (emb.dims[0], emb.dims[1], emb.dims[2], emb.dims[3]);
    let steps = (actions.dims[2] + 1) as usize;
    let flat = all_sequences(emb);
    assert(emb.dims =~= seq![b, s, h, d]);
    if h > 0 {
        lemma_through(model, emb, actions, history, acts, frames, all, r);
        lemma_kept(model, emb, flat, acts, history, frames, all, r, b, s, h, steps, d);
    }
}

/// What is used of the way that a rollout takes.
proof fn lemma_through(
    model: LeWm,
    emb: TensorValue,
    actions: TensorValue,
    history: int,
    acts: TensorValue,
    frames: Seq<TensorValue>,
    all: TensorValue,
    r: TensorValue,
)
    requires
        model.rolls_through(emb, actions, history, acts, frames, all, r),
    ensures
        model.unfolds(all_sequences(emb), acts, history, frames),
        stacked(frames, 1, all),
        frames.len() == actions.dims[2] + 1,
        r.dims == seq![emb.dims[0], emb.dims[1], (actions.dims[2] + 1) as usize, emb.dims[3]],
        r.keys == all.keys,
{
    reveal(LeWm::rolls_through);
}

/// How many frames the prediction of frame `k` looks at.
pub open spec fn looked_at(k: int, history: int) -> int {
    if k <= history {
        k
    } else {
        history
    }
}

/// Whether frame `k` of a rollout is what the model predicts to follow the newest of
/// the frames before it: the last step of a prediction from those frames and from the
/// actions taken in them.
pub open spec fn follows_the_newest(
    model: LeWm,
    acts: TensorValue,
    history: int,
    k: int,
    r: TensorValue,
) -> bool {
    let w = looked_at(k, history);
    let rows = r.dims[0] * r.dims[1];
    exists|seen: TensorValue, done: TensorValue, pred: TensorValue|
        {
            &&& #[trigger] model.predicts(seen, done, pred)
            &&& seen.dims == seq![rows as usize, w as usize, r.dims[3]]
            &&& done.dims == acts.dims.update(1, w as usize)
            &&& pred.dims == seen.dims
            &&& forall|row: int, j: int, i: int|
                0 <= row < rows && 0 <= j < w && 0 <= i < r.dims[3] ==> #[trigger] seen.at(
                    1,
                    row,
                    j,
                    i,
                ) == r.at(2, row, k - w + j, i)
            &&& forall|row: int, j: int, i: int|
                in_range(done.dims, 1, row, j, i) ==> #[trigger] done.at(1, row, j, i) == acts.at(
                    1,
                    row,
                    k - w + j,
                    i,
                )
            &&& forall|row: int, i: int|
                0 <= row < rows && 0 <= i < r.dims[3] ==> #[trigger] r.at(2, row, k, i) == pred.at(
                    1,
                    row,
                    w - 1,
                    i,
                )
        }
}

/// One frame of a rollout that was foreseen.
proof fn lemma_foreseen(
    model: LeWm,
    flat: TensorValue,
    acts: TensorValue,
    history: int,
    frames: Seq<TensorValue>,
    all: TensorValue,
    r: TensorValue,
    b: usize,
    s: usize,
    steps: usize,
    d: usize,
    k: int,
)
    requires
        model.unfolds(flat, acts, history, frames),
        stacked(frames, 1, all),
        flat.dims.len() == 3,
        flat.dims[0] == b * s,
        flat.dims[2] == d,
        0 < flat.dims[1] <= k < steps,
        b * s <= usize::MAX,
        r.dims == seq![b, s, steps, d],
        r.keys == all.keys,
        frames.len() == steps,
        0 < history,
    ensures
        follows_the_newest(model, acts, history, k, r),
{
    lemma_frames(model, flat, acts, history, frames, all);
    let rows = (b * s) as usize;
    let w = looked_at(k, history) as usize;
    let lo = window_start(k, history);
    assert(lo == k - w);
    assert(model.foresees(frames, acts, history, k, frames[k]));
    reveal(LeWm::foresees);
    let (seen, done, pred) = choose|seen: TensorValue, done: TensorValue, pred: TensorValue|
        #[trigger] stacked(frames.subrange(lo, k), 1, seen) && #[trigger] narrowed(
            acts,
            1,
            lo,
            k - lo,
            done,
        ) && #[trigger] model.predicts(seen, done, pred) && step_of(
            pred,
            pred.dims[1] - 1,
            frames[k],
        );
    let window = frames.subrange(lo, k);
    assert forall|j: int| 0 <= j < window.len() implies (#[trigger] window[j]).dims == seq![
        rows,
        d,
    ] by {
        assert(window[j] == frames[lo + j]);
    }
    lemma_stacked_shape(window, 1, seen);
    assert(window[0].dims.insert(1, w) =~= seq![rows, w, d]);
    assert(frames[k].dims == seq![rows, d]);
    lemma_stacked_shape(frames, 1, all);
    assert(frames[0].dims.insert(1, steps) =~= seq![rows, steps, d]);
    assert(pred.dims[0] == rows && pred.dims[1] == w && pred.dims.len() == 3);
    assert(frames[k].dims[1] == pred.dims[2]);
    assert(pred.dims =~= seen.dims);
    assert forall|row: int, j: int, i: int|
        0 <= row < rows && 0 <= j < w && 0 <= i < d implies #[trigger] seen.at(1, row, j, i)
        == r.at(2, row, k - w + j, i) by {
        lemma_stacked_rows(window, seen, rows, d, j, row, i);
        lemma_stacked_rows(frames, all, rows, d, lo + j, row, i);
        assert(window[j] == frames[lo + j]);
        lemma_same_element(r, all, b, s, steps, d, row, lo + j, i);
    }
    assert forall|row: int, i: int| 0 <= row < rows && 0 <= i < d implies #[trigger] r.at(
        2,
        row,
        k,
        i,
    ) == pred.at(1, row, w - 1, i) by {
        lemma_stacked_rows(frames, all, rows, d, k, row, i);
        lemma_same_element(r, all, b, s, steps, d, row, k, i);
        lemma_second_axis(rows, d, 0, 0);
        assert(frames[k].at(1, row, i, 0) == pred.at(1, row, w - 1, i));
        vstd::arithmetic::mul::lemma_mul_basics(row * d + i);
    }
    assert(model.predicts(seen, done, pred));
}

/// Each frame that a rollout adds is the prediction for the newest frame and action
/// of its window: the last step of what the model predicts from the frames before it,
/// as many as it looks back over, and from the embedded actions of the same steps.
pub proof fn rollouts_add_the_newest_prediction(
    model: LeWm,
    emb: TensorValue,
    actions: TensorValue,
    history: int,
    r: TensorValue,
)
    requires
        LeWm::rollout_complaint(emb.dims, actions.dims) is None,
        model.rolls_out(emb, actions, history, r),
        history > 0,
        emb.dims[2] > 0,
    ensures
        exists|acts: TensorValue| #[trigger]
            model.action_encoder.of(all_sequences(actions), acts) && forall|k: int|
                emb.dims[2] <= k <= actions.dims[2] ==> #[trigger] follows_the_newest(
                    model,
                    acts,
                    history,
                    k,
                    r,
                ),
{
    let (acts, frames, all) = choose|acts: TensorValue, frames: Seq<TensorValue>, all: TensorValue|
        #[trigger] model.rolls_through(emb, actions, history, acts, frames, all, r);
    let (b, s, h, d) = (emb.dims[0], emb.dims[1], emb.dims[2], emb.dims[3]);
    let steps = (actions.dims[2] + 1) as usize;
    let flat = all_sequences(emb);
    assert(emb.dims =~= seq![b, s, h, d]);
    lemma_through(model, emb, actions, history, acts, frames, all, r);
    assert(model.action_encoder.of(all_sequences(actions), acts)) by {
        reveal(LeWm::rolls_through);
    }
    assert forall|k: int| h <= k <= actions.dims[2] implies #[trigger] follows_the_newest(
        model,
        acts,
        history,
        k,
        r,
    ) by {
        lemma_foreseen(model, flat, acts, history, frames, all, r, b, s, steps, d, k);
    }
}

} // verus!
