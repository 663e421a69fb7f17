//! The LeWM model: how it is put together, how it encodes and how it predicts.

use candle_core::Tensor;
use vstd::prelude::*;

use crate::error::{lift, message, Result, SwmError};
use crate::models::lewm::config::LeWmConfig;
use crate::models::lewm::embedder::ActionEmbedder;
use crate::models::lewm::perceptron::Mlp;
use crate::models::lewm::predictor::{has_widths, Predictor, Transformer};
use crate::models::lewm::vit::{patches_complaint, HfVitEncoder};
use crate::tensor::facts::{lemma_counts, lemma_five};
use crate::tensor::layers::{
    embeddings_patches, from_file, full, held_as, linear_sizes, ready, store_path, store_source,
    ParameterStore,
};
use crate::tensor::layout::{dims, reshape};
use crate::tensor::value::{
    count, tensor_dims, tensor_element, tensor_keys, tensor_location, value, ElementType,
    TensorValue,
};
use crate::text::{sizes_text, with_dims};

verus! {

/// A joint-embedding world model on images.
#[derive(Debug, Clone)]
pub struct LeWm {
    pub cfg: LeWmConfig,
    pub encoder: HfVitEncoder,
    pub predictor: Predictor,
    pub action_encoder: ActionEmbedder,
    pub projector: Mlp,
    pub pred_proj: Mlp,
}

impl LeWmConfig {
    /// What is wrong with settings.
    pub open spec fn complaint(self) -> Option<Seq<char>> {
        if self.encoder.complaint() is Some {
            self.encoder.complaint()
        } else if Transformer::complaint(self.predictor) is Some {
            Transformer::complaint(self.predictor)
        } else if self.action_encoder.mlp_scale * self.action_encoder.emb_dim > usize::MAX {
            Some("LeWM layer width overflowed"@)
        } else if (self.projector.norm is LayerNorm && self.projector.hidden_dim == 0) || (
        self.pred_proj.norm is LayerNorm && self.pred_proj.hidden_dim == 0) {
            Some("normalised width must be greater than zero"@)
        } else {
            None
        }
    }
}

/// What is wrong with the shape of images that a model with patches of a size
/// embeds.
pub open spec fn images_complaint(patch_size: usize, dims: Seq<usize>) -> Option<Seq<char>> {
    if dims.len() != 5 {
        Some(
            "encode_pixels expects [batch, time, channels, height, width], got "@ + sizes_text(
                dims,
            ),
        )
    } else if dims[0] * dims[1] > usize::MAX {
        Some("LeWM pixel shape overflowed"@)
    } else if dims[0] * dims[1] == 0 {
        Some("LeWM encoder needs at least one image"@)
    } else {
        patches_complaint(
            patch_size,
            seq![(dims[0] * dims[1]) as usize, dims[2], dims[3], dims[4]],
        )
    }
}

/// Images with batch and time as one axis.
pub open spec fn all_images(x: TensorValue) -> TensorValue {
    x.shaped(seq![(x.dims[0] * x.dims[1]) as usize, x.dims[2], x.dims[3], x.dims[4]])
}

/// Embeddings with batch and time as one axis.
pub open spec fn all_rows(x: TensorValue) -> TensorValue {
    x.shaped(seq![(x.dims[0] * x.dims[1]) as usize, x.dims[2]])
}

impl LeWm {
    pub open spec fn well_formed(self) -> bool {
        &&& self.encoder.fits(self.cfg.encoder)
        &&& self.predictor.well_formed()
        &&& self.predictor.cfg == self.cfg.predictor
        &&& self.action_encoder.fits(self.cfg.action_encoder)
        &&& self.projector.fits(self.cfg.projector)
        &&& self.pred_proj.fits(self.cfg.pred_proj)
    }

    /// Every parameter comes from its place in the tree of names.
    pub open spec fn loaded(self, source: int, path: Seq<Seq<char>>) -> bool {
        &&& self.encoder.loaded(source, path.push("encoder"@), self.cfg.encoder)
        &&& self.predictor.loaded(source, path.push("predictor"@))
        &&& self.action_encoder.loaded(source, path.push("action_encoder"@))
        &&& self.projector.loaded(source, path.push("projector"@), self.cfg.projector)
        &&& self.pred_proj.loaded(source, path.push("pred_proj"@), self.cfg.pred_proj)
    }

    /// The parameters have an element type in the memory of the processor. Actions
    /// are always embedded in single precision.
    pub open spec fn home(self, e: ElementType) -> bool {
        &&& self.encoder.home(e)
        &&& self.predictor.home(e)
        &&& e is F32 ==> self.action_encoder.home()
        &&& self.projector.home(e)
        &&& self.pred_proj.home(e)
    }

    /// Whether the model embeds images on the processor.
    pub open spec fn sees(self, x: TensorValue) -> bool {
        &&& self.home(x.element)
        &&& self.encoder.takes(all_images(x))
        &&& self.cfg.projector.input_dim == self.cfg.encoder.hidden_size
        &&& self.cfg.projector.hidden_dim > 0
    }

    /// Whether what the predictor gives fits what projects it.
    pub open spec fn projects(self) -> bool {
        &&& self.cfg.pred_proj.input_dim == self.cfg.predictor.output_dim > 0
        &&& self.cfg.pred_proj.hidden_dim > 0
    }

    /// Whether the model predicts on the processor from embeddings and embedded
    /// actions.
    pub open spec fn foretells(self, emb: TensorValue, act: TensorValue) -> bool {
        &&& self.home(emb.element)
        &&& self.predictor.takes(emb, act)
        &&& self.projects()
    }

    /// Whether a parameter file has every parameter of a model with these settings.
    pub open spec fn stored(
        source: int,
        path: Seq<Seq<char>>,
        cfg: LeWmConfig,
    ) -> bool {
        &&& HfVitEncoder::stored(source, path.push("encoder"@), cfg.encoder)
        &&& Predictor::stored(source, path.push("predictor"@), cfg.predictor)
        &&& ActionEmbedder::stored(source, path.push("action_encoder"@), cfg.action_encoder)
        &&& Mlp::stored(source, path.push("projector"@), cfg.projector)
        &&& Mlp::stored(source, path.push("pred_proj"@), cfg.pred_proj)
    }

    /// Puts a model together from its settings and parameters.
    pub fn new(cfg: LeWmConfig, store: &ParameterStore) -> (r: Result<Self>)
        ensures
            cfg.complaint() is Some ==> r is Err,
            r matches Err(SwmError::Message(m)) ==> cfg.complaint() == Some(m@),
            r matches Ok(m) ==> m.well_formed() && m.cfg == cfg && m.loaded(
                store_source(*store),
                store_path(*store),
            ),
            r matches Ok(m) ==> cfg.encoder.hidden_size % cfg.encoder.num_attention_heads == 0
                && cfg.encoder.intermediate_size > 0 ==> forall|e: ElementType| #[trigger]
                held_as(store_source(*store), e) ==> m.home(e),
            r matches Ok(m) ==> embeddings_patches(m.encoder.embeddings) == (cfg.encoder.image_size
                / cfg.encoder.patch_size) * (cfg.encoder.image_size / cfg.encoder.patch_size),
            from_file(store_source(*store)) && cfg.complaint() is None ==> (r is Ok <==> Self::stored(
                    store_source(*store),
                    store_path(*store),
                    cfg,
                )),
    {
        let encoder = HfVitEncoder::new(&cfg.encoder, &store.pp("encoder"))?;
        let predictor = Predictor::new(&cfg.predictor, &store.pp("predictor"))?;
        let action_encoder = ActionEmbedder::new(&cfg.action_encoder, &store.pp("action_encoder"))?;
        let projector = Mlp::new(&cfg.projector, &store.pp("projector"))?;
        let pred_proj = Mlp::new(&cfg.pred_proj, &store.pp("pred_proj"))?;
        let out = Self { cfg, encoder, predictor, action_encoder, projector, pred_proj };
        proof {
            assert forall|e: ElementType| #[trigger]
                held_as(store_source(*store), e) && e is F32 implies out.action_encoder.home() by {
                assert(e == ElementType::F32);
            }
        }
        Ok(out)
    }

    pub fn config(&self) -> (r: &LeWmConfig)
        ensures
            *r == self.cfg,
    {
        &self.cfg
    }

    /// The embeddings `[batch, time, width]` of images.
    pub open spec fn encodes(self, x: TensorValue, r: TensorValue) -> bool {
        exists|cls: TensorValue, emb: TensorValue|
            #[trigger] self.encoder.cls_of(all_images(x), cls) && #[trigger] self.projector.of(
                cls,
                emb,
            ) && r == emb.shaped(seq![x.dims[0], x.dims[1], self.cfg.projector.output_dim])
    }

    /// What is wrong with the shape of images.
    pub open spec fn pixels_complaint(self, dims: Seq<usize>) -> Option<Seq<char>> {
        images_complaint(self.encoder.patch_size, dims)
    }

    /// Embeds images `[batch, time, channels, height, width]`.
    pub fn encode_pixels(&self, pixels: &Tensor) -> (r: Result<Tensor>)
        requires
            self.well_formed(),
        ensures
            self.pixels_complaint(tensor_dims(*pixels)) is Some ==> r is Err,
            r matches Err(SwmError::Message(m)) ==> self.pixels_complaint(tensor_dims(*pixels))
                == Some(m@),
            tensor_dims(*pixels).len() != 5 ==> r->Err_0 is Message,
            r matches Ok(o) ==> self.encodes(value(*pixels), value(o)) && value(o) == value(
                *pixels,
            ).alongside(
                seq![
                    tensor_dims(*pixels)[0],
                    tensor_dims(*pixels)[1],
                    self.cfg.projector.output_dim,
                ],
                tensor_keys(o),
            ) && tensor_keys(o).len() == count(tensor_dims(o)),
            self.pixels_complaint(tensor_dims(*pixels)) is None && self.sees(value(*pixels)) ==> r is Ok,
    {
        let d = dims(pixels);
        if d.len() != 5 {
            return Err(
                SwmError::Message(
                    with_dims(
                        "encode_pixels expects [batch, time, channels, height, width], got ",
                        d.as_slice(),
                    ),
                ),
            );
        }
        let (b, t, c, h, w) = (d[0], d[1], d[2], d[3], d[4]);
        let images: usize = match b.checked_mul(t) {
            Some(n) => n,
            None => {
                return Err(message("LeWM pixel shape overflowed"));
            },
        };
        if images == 0 {
            return Err(message("LeWM encoder needs at least one image"));
        }
        let flat: [usize; 4] = [images, c, h, w];
        let width: usize = self.cfg.projector.output_dim;
        let out: [usize; 3] = [b, t, width];
        proof {
            assert(d@ =~= seq![b, t, c, h, w]);
            assert(flat@ =~= seq![images, c, h, w]);
            assert(out@ =~= seq![b, t, width]);
            lemma_five(b, t, c, h, w);
            lemma_counts(images, c, h, w);
            let (x, y, z) = (b as int, t as int, (c * (h * w)) as int);
            assert((x * y) * z == x * (y * z)) by (nonlinear_arith);
        }
        let all = lift(reshape(pixels, &flat))?;
        proof {
            assert(value(all) == all_images(value(*pixels)));
            assert(self.encoder.fits(self.cfg.encoder));
            assert(self.projector.fits(self.cfg.projector));
        }
        let cls = self.encoder.cls(&all)?;
        let emb = self.projector.forward(&cls)?;
        proof {
            assert(linear_sizes(self.projector.fc2)[1] == width);
            assert(tensor_dims(emb) =~= seq![images, width]);
            lemma_counts(images, width, 0, 0);
            lemma_counts(b, t, width, 0);
            let (x, y, z) = (b as int, t as int, width as int);
            assert((x * y) * z == x * (y * z)) by (nonlinear_arith);
            assert(self.encoder.cls_of(all_images(value(*pixels)), value(cls)));
            assert(self.projector.of(value(cls), value(emb)));
        }
        lift(reshape(&emb, &out))
    }

    /// Embeds actions `[batch, time, actions]`.
    pub fn encode_actions(&self, actions: &Tensor) -> (r: Result<Tensor>)
        requires
            self.well_formed(),
        ensures
            self.action_encoder.complaint(tensor_dims(*actions)) matches Some(text) ==> r is Err
                && r->Err_0.says(text),
            self.action_encoder.complaint(tensor_dims(*actions)) is None ==> (r matches Err(e)
                ==> e is Backend),
            r matches Ok(o) ==> self.action_encoder.of(value(*actions), value(o)) && tensor_dims(o)
                == seq![
                tensor_dims(*actions)[0],
                tensor_dims(*actions)[1],
                self.cfg.action_encoder.emb_dim,
            ] && tensor_keys(o).len() == count(tensor_dims(o)),
            r matches Ok(o) ==> tensor_element(o) is F32 && tensor_location(o) == tensor_location(
                    *actions,
                ),
            self.action_encoder.takes(value(*actions)) ==> r is Ok,
    {
        proof {
            assert(self.action_encoder.fits(self.cfg.action_encoder));
            assert(linear_sizes(self.action_encoder.fc2)[1] == self.cfg.action_encoder.emb_dim);
        }
        self.action_encoder.forward(actions)
    }

    /// The predicted embeddings that follow embeddings and embedded actions.
    pub open spec fn predicts(self, emb: TensorValue, act: TensorValue, r: TensorValue) -> bool {
        exists|p: TensorValue, y: TensorValue|
            #[trigger] self.predictor.of(emb, act, p) && #[trigger] self.pred_proj.of(
                all_rows(p),
                y,
            ) && r == y.shaped(seq![emb.dims[0], emb.dims[1], self.cfg.pred_proj.output_dim])
    }

    /// What is wrong with the shape of embeddings.
    pub open spec fn predict_complaint(self, dims: Seq<usize>) -> Option<Seq<char>> {
        if dims.len() != 3 {
            Some("predict expects [batch, time, dim], got "@ + sizes_text(dims))
        } else if dims[0] * dims[1] > usize::MAX {
            Some("LeWM embedding shape overflowed"@)
        } else if dims[0] == 0 {
            Some("LeWM predictor needs at least one history"@)
        } else {
            self.predictor.complaint(dims)
        }
    }

    /// Predicts from embeddings `[batch, time, width]` and embedded actions.
    pub fn predict_from_action_embeddings(&self, emb: &Tensor, act_emb: &Tensor) -> (r: Result<
        Tensor,
    >)
        requires
            self.well_formed(),
        ensures
            self.predict_complaint(tensor_dims(*emb)) matches Some(text) ==> r is Err
                && r->Err_0.says(text),
            self.predict_complaint(tensor_dims(*emb)) is None ==> (r matches Err(e)
                ==> e is Backend),
            r matches Ok(o) ==> self.predicts(value(*emb), value(*act_emb), value(o)) && value(o)
                == value(*emb).alongside(
                seq![tensor_dims(*emb)[0], tensor_dims(*emb)[1], self.cfg.pred_proj.output_dim],
                tensor_keys(o),
            ) && tensor_keys(o).len() == count(tensor_dims(o)),
            self.predict_complaint(tensor_dims(*emb)) is None && self.foretells(
                    value(*emb),
                    value(*act_emb),
                ) ==> r is Ok,
    {
        let d = dims(emb);
        if d.len() != 3 {
            return Err(
                SwmError::Message(with_dims("predict expects [batch, time, dim], got ", d.as_slice())),
            );
        }
        let (b, t) = (d[0], d[1]);
        let rows: usize = match b.checked_mul(t) {
            Some(n) => n,
            None => {
                return Err(message("LeWM embedding shape overflowed"));
            },
        };
        if b == 0 {
            return Err(message("LeWM predictor needs at least one history"));
        }
        let preds = self.predictor.forward(emb, act_emb)?;
        let shape = dims(&preds);
        let inside: usize = self.cfg.predictor.output_dim;
        let width: usize = self.cfg.pred_proj.output_dim;
        let flat: [usize; 2] = [rows, inside];
        let out: [usize; 3] = [b, t, width];
        proof {
            assert(shape@ =~= seq![b, t, inside]);
            assert(flat@ =~= seq![rows, inside]);
            assert(out@ =~= seq![b, t, width]);
            lemma_counts(b, t, inside, 0);
            lemma_counts(rows, inside, 0, 0);
            let (x, y, z) = (b as int, t as int, inside as int);
            assert((x * y) * z == x * (y * z)) by (nonlinear_arith);
        }
        let all = lift(reshape(&preds, &flat))?;
        proof {
            assert(value(all) == all_rows(value(preds)));
            assert(self.pred_proj.fits(self.cfg.pred_proj));
            if full(tensor_dims(*emb)) {
                assert(tensor_dims(*emb)[0] == b && tensor_dims(*emb)[1] == t);
                assert(rows > 0) by (nonlinear_arith)
                    requires
                        rows == b * t,
                        b > 0,
                        t > 0,
                ;
            }
        }
        let projected = self.pred_proj.forward(&all)?;
        proof {
            assert(linear_sizes(self.pred_proj.fc2)[1] == width);
            assert(tensor_dims(projected) =~= seq![rows, width]);
            lemma_counts(rows, width, 0, 0);
            lemma_counts(b, t, width, 0);
            let (x, y, z) = (b as int, t as int, width as int);
            assert((x * y) * z == x * (y * z)) by (nonlinear_arith);
            assert(self.predictor.of(value(*emb), value(*act_emb), value(preds)));
            assert(self.pred_proj.of(all_rows(value(preds)), value(projected)));
        }
        lift(reshape(&projected, &out))
    }

    /// Predicts from embeddings `[batch, time, width]` and actions
    /// `[batch, time, actions]`.
    pub fn predict(&self, emb: &Tensor, actions: &Tensor) -> (r: Result<Tensor>)
        requires
            self.well_formed(),
        ensures
            self.action_encoder.complaint(tensor_dims(*actions)) matches Some(text) ==> r is Err
                && r->Err_0.says(text),
            self.predict_complaint(tensor_dims(*emb)) is Some ==> r is Err,
            r matches Err(SwmError::Message(m)) ==> self.action_encoder.complaint(
                tensor_dims(*actions),
            ) == Some(m@) || self.predict_complaint(tensor_dims(*emb)) == Some(m@),
            r matches Ok(o) ==> (exists|act: TensorValue| #[trigger]
                self.action_encoder.of(value(*actions), act) && self.predicts(
                    value(*emb),
                    act,
                    value(o),
                )) && value(o) == value(*emb).alongside(
                seq![tensor_dims(*emb)[0], tensor_dims(*emb)[1], self.cfg.pred_proj.output_dim],
                tensor_keys(o),
            ) && tensor_keys(o).len() == count(tensor_dims(o)),
            self.predict_complaint(tensor_dims(*emb)) is None && self.action_encoder.takes(
                    value(*actions),
                ) && ready(value(*emb)) && tensor_element(*emb) is F32 && tensor_dims(*emb) == seq![
                    tensor_dims(*actions)[0],
                    tensor_dims(*actions)[1],
                    self.cfg.action_encoder.emb_dim,
                ] && self.home(ElementType::F32) && has_widths(self.cfg.predictor) && self.projects()
                    ==> r is Ok,
    {
        let act_emb = self.encode_actions(actions)?;
        let out = self.predict_from_action_embeddings(emb, &act_emb)?;
        proof {
            assert(self.action_encoder.of(value(*actions), value(act_emb)));
        }
        Ok(out)
    }
}

} // verus!
