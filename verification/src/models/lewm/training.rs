//! The training loss of the LeWM model on a batch.

use candle_core::Tensor;
use vstd::prelude::*;

use crate::error::{lift, message, Result, SwmError};
use crate::models::lewm::block::ONE;
use crate::models::lewm::loss::{
    is_alignment, is_mse, is_straightening, is_vc_reg, mse_loss, pldm_complaint, pldm_loss,
    straightening_complaint, sums_up, temporal_straightening_loss, VcRegOutput,
};
use crate::models::lewm::model::LeWm;
use crate::scalar::{F32, F64};
use crate::tensor::arithmetic::{affine, affine_of, plus, sum_of};
use crate::tensor::layout::{carries_gradient, detach, device_of, dims, narrow, narrowed, share};
use crate::tensor::make::{double, from_f32, from_f64};
use crate::tensor::value::{
    hosted, matching, tensor_dims, tensor_location, value, values, ElementType, Location,
    TensorValue,
};
use crate::text::{sizes_text, with_dims};
use crate::models::lewm::predictor::has_widths;

verus! {

/// How much each term of the loss counts.
#[derive(Debug, Clone, Copy)]
pub struct LeWmLossWeights {
    pub prediction: F64,
    pub temporal_alignment: F64,
    pub std: F64,
    pub std_t: F64,
    pub covariance: F64,
    pub covariance_t: F64,
    pub temporal_straightening: F64,
}

impl Default for LeWmLossWeights {
    /// Every term counts once.
    fn default() -> (r: Self)
        ensures
            r.prediction.bits == ONE,
            r.temporal_alignment.bits == ONE,
            r.std.bits == ONE,
            r.std_t.bits == ONE,
            r.covariance.bits == ONE,
            r.covariance_t.bits == ONE,
            r.temporal_straightening.bits == ONE,
    {
        let one = F64::from_bits(ONE);
        Self {
            prediction: one,
            temporal_alignment: one,
            std: one,
            std_t: one,
            covariance: one,
            covariance_t: one,
            temporal_straightening: one,
        }
    }
}

/// Whether a weight is finite and not negative.
pub open spec fn usable(weight: F64) -> bool {
    weight.finite() && weight.key() >= 0
}

/// What is said of a weight that is not usable.
pub open spec fn weight_complaint(name: Seq<char>) -> Seq<char> {
    "LeWM loss weight "@ + name + " must be finite and non-negative"@
}

impl LeWmLossWeights {
    /// The first weight that is not usable.
    pub open spec fn complaint(self) -> Option<Seq<char>> {
        if !usable(self.prediction) {
            Some(weight_complaint("prediction"@))
        } else if !usable(self.temporal_alignment) {
            Some(weight_complaint("temporal_alignment"@))
        } else if !usable(self.std) {
            Some(weight_complaint("std"@))
        } else if !usable(self.std_t) {
            Some(weight_complaint("std_t"@))
        } else if !usable(self.covariance) {
            Some(weight_complaint("covariance"@))
        } else if !usable(self.covariance_t) {
            Some(weight_complaint("covariance_t"@))
        } else if !usable(self.temporal_straightening) {
            Some(weight_complaint("temporal_straightening"@))
        } else {
            None
        }
    }

    /// The weights in the order of the terms.
    pub open spec fn listed(self) -> Seq<F64> {
        seq![
            self.prediction,
            self.temporal_alignment,
            self.std,
            self.std_t,
            self.covariance,
            self.covariance_t,
            self.temporal_straightening,
        ]
    }

    /// Whether every weight is usable.
    pub fn validate(self) -> (r: Result<()>)
        ensures
            r is Ok <==> self.complaint() is None,
            r matches Err(e) ==> e.says(self.complaint()->0),
    {
        check_weight("prediction", self.prediction)?;
        check_weight("temporal_alignment", self.temporal_alignment)?;
        check_weight("std", self.std)?;
        check_weight("std_t", self.std_t)?;
        check_weight("covariance", self.covariance)?;
        check_weight("covariance_t", self.covariance_t)?;
        check_weight("temporal_straightening", self.temporal_straightening)
    }
}

fn check_weight(name: &str, weight: F64) -> (r: Result<()>)
    ensures
        r is Ok <==> usable(weight),
        r matches Err(e) ==> e.says(weight_complaint(name@)),
{
    if !weight.is_finite() || weight.order_key() < 0 {
        let mut text = String::from_str("LeWM loss weight ");
        text.append(name);
        text.append(" must be finite and non-negative");
        return Err(SwmError::Message(text));
    }
    Ok(())
}

/// The loss of a batch and its terms.
#[derive(Debug)]
pub struct LeWmBatchLoss {
    pub total_loss: Tensor,
    pub prediction_loss: Tensor,
    pub temporal_alignment_loss: Tensor,
    pub std_loss: Tensor,
    pub std_t_loss: Tensor,
    pub covariance_loss: Tensor,
    pub covariance_t_loss: Tensor,
    pub temporal_straightening_loss: Tensor,
}

impl LeWmBatchLoss {
    /// The terms of the loss.
    pub open spec fn terms(self) -> Seq<TensorValue> {
        seq![
            value(self.prediction_loss),
            value(self.temporal_alignment_loss),
            value(self.std_loss),
            value(self.std_t_loss),
            value(self.covariance_loss),
            value(self.covariance_t_loss),
            value(self.temporal_straightening_loss),
        ]
    }
}

/// Zero in single precision.
pub open spec fn nothing(location: Location) -> TensorValue {
    TensorValue {
        dims: Seq::empty(),
        keys: seq![F32 { bits: 0 }.key()],
        element: ElementType::F32,
        location,
    }
}

/// One step of a weighted sum: a term whose weight is zero is left out.
pub open spec fn is_weighted(
    before: TensorValue,
    term: TensorValue,
    weight: F64,
    after: TensorValue,
) -> bool {
    if weight.key() == 0 {
        after == before
    } else {
        exists|part: TensorValue|
            #[trigger] affine_of(term, double(weight), double(F64 { bits: 0 }), part) && sum_of(
                before,
                part,
                after,
            )
    }
}

/// The partial sums of terms with weights.
pub open spec fn accumulates(
    terms: Seq<TensorValue>,
    weights: Seq<F64>,
    location: Location,
    sums: Seq<TensorValue>,
) -> bool {
    &&& sums.len() == terms.len() + 1
    &&& sums[0] == nothing(location)
    &&& forall|k: int|
        0 <= k < terms.len() ==> is_weighted(#[trigger] sums[k], terms[k], weights[k], sums[k + 1])
}

/// The weighted sum of terms.
pub open spec fn is_weighted_sum(
    terms: Seq<TensorValue>,
    weights: Seq<F64>,
    location: Location,
    r: TensorValue,
) -> bool {
    exists|sums: Seq<TensorValue>|
        #[trigger] accumulates(terms, weights, location, sums) && r == sums.last()
}

fn weighted_sum(terms: &[Tensor], weights: &[F64], like: &Tensor) -> (r: Result<Tensor>)
    requires
        terms@.len() == weights@.len(),
    ensures
        r matches Ok(o) ==> is_weighted_sum(
            values(terms@),
            weights@,
            tensor_location(*like),
            value(o),
        ),
        r matches Err(e) ==> e is Backend,
        (forall|k: int|
            0 <= k < terms@.len() ==> sums_up(nothing(Location::Cpu), value(#[trigger] terms@[k])))
            && tensor_location(*like) is Cpu ==> r is Ok,
{
    let zeros: [F32; 1] = [F32::from_bits(0)];
    let shape: [usize; 0] = [];
    proof {
        assert(shape@ =~= Seq::<usize>::empty());
        assert(zeros@.map_values(|x: F32| x.key()) =~= seq![F32 { bits: 0 }.key()]);
    }
    let zero = lift(from_f64(F64::from_bits(0)))?;
    let mut total = lift(from_f32(&zeros, &shape, device_of(like)))?;
    let ghost vs = values(terms@);
    let ghost mut sums: Seq<TensorValue> = seq![value(total)];
    let mut k: usize = 0;
    while k < terms.len()
        invariant
            k <= terms@.len(),
            terms@.len() == weights@.len(),
            vs == values(terms@),
            vs.len() == terms@.len(),
            value(zero) == double(F64 { bits: 0 }),
            sums.len() == k + 1,
            sums[0] == nothing(tensor_location(*like)),
            sums.last() == value(total),
            forall|j: int|
                0 <= j < k ==> is_weighted(#[trigger] sums[j], vs[j], weights@[j], sums[j + 1]),
            tensor_location(*like) is Cpu ==> sums_up(nothing(Location::Cpu), value(total)),
        decreases terms@.len() - k,
    {
        let ghost before = value(total);
        proof {
            assert(vs[k as int] == value(terms@[k as int]));
        }
        if weights[k].order_key() != 0 {
            let weight = lift(from_f64(weights[k]))?;
            let part = lift(affine(&terms[k], &weight, &zero))?;
            proof {
                if sums_up(nothing(Location::Cpu), value(terms@[k as int])) && tensor_location(*like) is Cpu {
                    assert(tensor_dims(part) =~= tensor_dims(total));
                }
            }
            total = lift(plus(&total, &part))?;
            proof {
                assert(affine_of(
                    vs[k as int],
                    double(weights@[k as int]),
                    double(F64 { bits: 0 }),
                    value(part),
                ));
            }
        }
        proof {
            assert(is_weighted(before, vs[k as int], weights@[k as int], value(total)));
            sums = sums.push(value(total));
        }
        k = k + 1;
    }
    proof {
        assert(accumulates(vs, weights@, tensor_location(*like), sums));
    }
    Ok(total)
}

/// What is wrong with the shapes of a batch.
pub open spec fn batch_complaint(pixels: Seq<usize>, actions: Seq<usize>) -> Option<Seq<char>> {
    if pixels.len() != 5 {
        Some(
            "LeWM training pixels expect [batch, time, channels, height, width], got "@
                + sizes_text(pixels),
        )
    } else if actions.len() != 3 {
        Some(
            "LeWM training actions expect [batch, time, action_dim], got "@ + sizes_text(actions),
        )
    } else if pixels[0] != actions[0] || pixels[1] != actions[1] {
        Some(
            "LeWM training pixels/actions batch-time mismatch: "@ + sizes_text(pixels) + " vs "@
                + sizes_text(actions),
        )
    } else if pixels[1] < 3 {
        Some("LeWM training batch loss requires at least three frames"@)
    } else {
        None
    }
}

fn check_batch(pixels: &[usize], actions: &[usize]) -> (r: Result<()>)
    ensures
        r is Ok <==> batch_complaint(pixels@, actions@) is None,
        r matches Err(e) ==> e.says(batch_complaint(pixels@, actions@)->0),
{
    if pixels.len() != 5 {
        return Err(
            SwmError::Message(
                with_dims(
                    "LeWM training pixels expect [batch, time, channels, height, width], got ",
                    pixels,
                ),
            ),
        );
    }
    if actions.len() != 3 {
        return Err(
            SwmError::Message(
                with_dims("LeWM training actions expect [batch, time, action_dim], got ", actions),
            ),
        );
    }
    if pixels[0] != actions[0] || pixels[1] != actions[1] {
        let mut text = with_dims("LeWM training pixels/actions batch-time mismatch: ", pixels);
        let tail = with_dims(" vs ", actions);
        text.append(tail.as_str());
        proof {
            assert(text@ =~= batch_complaint(pixels@, actions@)->0);
        }
        return Err(SwmError::Message(text));
    }
    if pixels[1] < 3 {
        return Err(message("LeWM training batch loss requires at least three frames"));
    }
    Ok(())
}

impl LeWm {
    /// The mean squared error of predictions `[batch, time, width]` against the
    /// embeddings that they are about, through which no gradient is carried.
    pub open spec fn misses(self, emb: TensorValue, pred: TensorValue, r: TensorValue) -> bool {
        exists|guess: TensorValue, truth: Tensor|
            #[trigger] narrowed(pred, 1, 0, emb.dims[1] - 1, guess) && narrowed(
                emb,
                1,
                1,
                emb.dims[1] - 1,
                value(truth),
            ) && #[trigger] is_mse(guess, value(truth), r) && !carries_gradient(truth)
    }

    /// The predictions that follow embeddings under actions.
    pub open spec fn answers(
        self,
        emb: TensorValue,
        actions: TensorValue,
        pred: TensorValue,
    ) -> bool {
        exists|act: TensorValue| #[trigger]
            self.action_encoder.of(actions, act) && self.predicts(emb, act, pred)
    }

    /// The loss of a batch.
    pub open spec fn loses(
        self,
        pixels: TensorValue,
        actions: TensorValue,
        weights: LeWmLossWeights,
        r: LeWmBatchLoss,
    ) -> bool {
        &&& exists|emb: TensorValue, pred: TensorValue, vc: VcRegOutput|
            #[trigger] self.encodes(pixels, emb) && #[trigger] self.answers(emb, actions, pred)
                && self.misses(emb, pred, value(r.prediction_loss)) && is_alignment(
                emb,
                value(r.temporal_alignment_loss),
            ) && #[trigger] is_vc_reg(emb, vc) && r.std_loss == vc.std_loss && r.std_t_loss
                == vc.std_t_loss && r.covariance_loss == vc.cov_loss && r.covariance_t_loss
                == vc.cov_t_loss && is_straightening(emb, value(r.temporal_straightening_loss))
        &&& is_weighted_sum(
            r.terms(),
            weights.listed(),
            tensor_location(r.prediction_loss),
            value(r.total_loss),
        )
    }
}

/// What can be said of a batch after its shapes have passed.
pub open spec fn loss_says(
    model: LeWm,
    pixels: TensorValue,
    actions: Seq<usize>,
    text: Seq<char>,
) -> bool {
    let emb = seq![pixels.dims[0], pixels.dims[1], model.cfg.projector.output_dim];
    ||| model.pixels_complaint(pixels.dims) == Some(text)
    ||| model.action_encoder.complaint(actions) == Some(text)
    ||| model.predict_complaint(emb) == Some(text)
    ||| pldm_complaint(pixels.shaped(emb)) == Some(text)
    ||| straightening_complaint(emb) == Some(text)
}

/// Whether the loss of a batch can be computed on the processor.
pub open spec fn learns_here(model: LeWm, pixels: TensorValue, actions: TensorValue) -> bool {
    let emb = pixels.shaped(seq![pixels.dims[0], pixels.dims[1], model.cfg.projector.output_dim]);
    &&& pixels.element is F32
    &&& model.pixels_complaint(pixels.dims) is None && model.sees(pixels)
    &&& model.predict_complaint(emb.dims) is None && model.action_encoder.takes(actions)
    &&& has_widths(model.cfg.predictor) && model.projects()
    &&& 0 < model.cfg.projector.output_dim == model.cfg.action_encoder.emb_dim
        == model.cfg.pred_proj.output_dim
    &&& pldm_complaint(emb) is None && straightening_complaint(emb.dims) is None
}

/// The mean squared error of predictions against targets that stay as they are.
fn error_of(guess: &Tensor, truth: &Tensor) -> (r: Result<Tensor>)
    requires
        !carries_gradient(*truth),
    ensures
        r matches Ok(o) ==> is_mse(value(*guess), value(*truth), value(o)),
        r matches Err(e) ==> e is Backend,
        r matches Ok(o) ==> sums_up(value(*guess), value(o)),
        hosted(value(*guess)) && matching(value(*guess), value(*truth)) ==> r is Ok,
{
    mse_loss(guess, truth)
}

/// The loss of a batch of images `[batch, time, channels, height, width]` and
/// actions `[batch, time, actions]`.
pub fn batch_loss(model: &LeWm, pixels: &Tensor, actions: &Tensor, weights: LeWmLossWeights) -> (r:
    Result<LeWmBatchLoss>)
    requires
        model.well_formed(),
    ensures
        weights.complaint() matches Some(text) ==> r is Err && r->Err_0.says(text),
        weights.complaint() is None ==> (batch_complaint(
            tensor_dims(*pixels),
            tensor_dims(*actions),
        ) matches Some(text) ==> r is Err && r->Err_0.says(text)),
        weights.complaint() is None && batch_complaint(
            tensor_dims(*pixels),
            tensor_dims(*actions),
        ) is None ==> (r matches Err(SwmError::Message(m)) ==> loss_says(
            *model,
            value(*pixels),
            tensor_dims(*actions),
            m@,
        )),
        r matches Ok(o) ==> model.loses(value(*pixels), value(*actions), weights, o),
        weights.complaint() is None && batch_complaint(tensor_dims(*pixels), tensor_dims(*actions)) is None
            && learns_here(*model, value(*pixels), value(*actions)) ==> r is Ok,
{
    weights.validate()?;
    let pixel_dims = dims(pixels);
    let action_dims = dims(actions);
    check_batch(pixel_dims.as_slice(), action_dims.as_slice())?;
    let emb = model.encode_pixels(pixels)?;
    let pred = model.predict(&emb, actions)?;
    let time: usize = pixel_dims[1];
    let guess = lift(narrow(&pred, 1, 0, time - 1))?;
    let fixed = detach(&emb);
    let truth = lift(narrow(&fixed, 1, 1, time - 1))?;
    let prediction_loss = error_of(&guess, &truth)?;
    let ghost width = model.cfg.projector.output_dim;
    proof {
        let shape = seq![pixel_dims@[0], pixel_dims@[1], width];
        assert(tensor_dims(emb) =~= shape);
        assert(pldm_complaint(value(emb)) == pldm_complaint(value(*pixels).shaped(shape)));
        assert(narrowed(value(pred), 1, 0, value(emb).dims[1] - 1, value(guess)));
        assert(narrowed(value(emb), 1, 1, value(emb).dims[1] - 1, value(truth)));
        assert(model.misses(value(emb), value(pred), value(prediction_loss)));
        assert(model.answers(value(emb), value(*actions), value(pred)));
    }
    let pldm = pldm_loss(&emb, None, None)?;
    let straightening = temporal_straightening_loss(&emb)?;
    let terms: [Tensor; 7] = [
        share(&prediction_loss),
        share(&pldm.temp_align_loss),
        share(&pldm.std_loss),
        share(&pldm.std_t_loss),
        share(&pldm.cov_loss),
        share(&pldm.cov_t_loss),
        share(&straightening),
    ];
    let listed: [F64; 7] = [
        weights.prediction,
        weights.temporal_alignment,
        weights.std,
        weights.std_t,
        weights.covariance,
        weights.covariance_t,
        weights.temporal_straightening,
    ];
    proof {
        assert(listed@ =~= weights.listed());
    }
    let total_loss = weighted_sum(&terms, &listed, &prediction_loss)?;
    let out = LeWmBatchLoss {
        total_loss,
        prediction_loss,
        temporal_alignment_loss: pldm.temp_align_loss,
        std_loss: pldm.std_loss,
        std_t_loss: pldm.std_t_loss,
        covariance_loss: pldm.cov_loss,
        covariance_t_loss: pldm.cov_t_loss,
        temporal_straightening_loss: straightening,
    };
    proof {
        assert(values(terms@) =~= out.terms());
        let vc = choose|vc: VcRegOutput|
            #[trigger] is_vc_reg(value(emb), vc) && pldm.std_loss == vc.std_loss && pldm.std_t_loss
                == vc.std_t_loss && pldm.cov_loss == vc.cov_loss
                    && pldm.cov_t_loss == vc.cov_t_loss;
        assert(is_vc_reg(value(emb), vc));
        assert(model.encodes(value(*pixels), value(emb)));
    }
    Ok(out)
}

} // verus!
