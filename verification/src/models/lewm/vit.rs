//! The image encoder of the LeWM model.

use candle_core::Tensor;
use candle_nn::LayerNorm;
use candle_transformers::models::vit;
use vstd::prelude::*;

use crate::error::{lift, message, Result, SwmError};
use crate::models::lewm::config::VitEncoderConfig;
use crate::tensor::layers::{
    apply_norm, apply_vit_embeddings, apply_vit_encoder, embeddings_from, embeddings_home,
    embeddings_patches, embeddings_sizes, embeddings_stored, encoder_from, encoder_home,
    encoder_stored, encoder_width, from_file, held_as, is_embedded, is_encoded, is_normed,
    layer_norm, norm_from, norm_home, norm_size, norm_stored, ready, store_path, store_source,
    vit_embeddings, vit_encoder, ParameterStore,
};
use crate::tensor::layout::contiguous;
use crate::tensor::make::from_f64;
use crate::tensor::ranks::{dims4, rank_complaint};
use crate::tensor::select::{pick_step, step_of};
use crate::tensor::value::{count, tensor_dims, tensor_keys, value, ElementType, TensorValue};
use crate::text::{decimal, with_numbers};

verus! {

impl VitEncoderConfig {
    /// What is wrong with settings.
    pub open spec fn complaint(self) -> Option<Seq<char>> {
        if self.patch_size == 0 {
            Some("ViT patch size must be greater than zero"@)
        } else if self.num_attention_heads == 0 || self.hidden_size < self.num_attention_heads {
            Some("ViT hidden size must give every attention head a width"@)
        } else if self.num_hidden_layers > u16::MAX {
            Some("ViT has too many layers"@)
        } else if (self.image_size / self.patch_size) * (self.image_size / self.patch_size)
            >= usize::MAX {
            Some("ViT has too many patches"@)
        } else {
            None
        }
    }
}

/// What is wrong with the shape of images that are cut into patches.
pub open spec fn patches_complaint(patch_size: usize, dims: Seq<usize>) -> Option<Seq<char>> {
    if dims.len() != 4 {
        Some(rank_complaint(4, dims))
    } else if dims[2] < patch_size || dims[3] < patch_size {
        Some(
            "image of "@ + decimal(dims[2] as nat) + "x"@ + decimal(dims[3] as nat)
                + " pixels is smaller than a patch"@,
        )
    } else if (dims[2] / patch_size) * (dims[3] / patch_size) >= usize::MAX {
        Some("image shape overflowed"@)
    } else {
        None
    }
}

/// A vision transformer without a classifier.
#[derive(Debug, Clone)]
pub struct HfVitEncoder {
    pub embeddings: vit::Embeddings,
    pub encoder: vit::Encoder,
    pub layernorm: LayerNorm,
    pub patch_size: usize,
}

impl HfVitEncoder {
    pub open spec fn fits(self, cfg: VitEncoderConfig) -> bool {
        &&& cfg.complaint() is None
        &&& self.patch_size == cfg.patch_size
        &&& embeddings_sizes(self.embeddings) == seq![
            cfg.patch_size,
            cfg.num_channels,
            cfg.hidden_size,
        ]
        &&& encoder_width(self.encoder) == cfg.hidden_size
        &&& norm_size(self.layernorm) == cfg.hidden_size
    }

    pub open spec fn loaded(
        self,
        source: int,
        path: Seq<Seq<char>>,
        cfg: VitEncoderConfig,
    ) -> bool {
        &&& embeddings_from(source, path.push("embeddings"@), cfg, self.embeddings)
        &&& encoder_from(source, path.push("encoder"@), cfg, self.encoder)
        &&& norm_from(source, path.push("layernorm"@), cfg.layer_norm_eps.key(), self.layernorm)
    }

    /// The parameters of the encoder have an element type in the memory of the
    /// processor.
    pub open spec fn home(self, e: ElementType) -> bool {
        &&& embeddings_home(self.embeddings, e)
        &&& encoder_home(self.encoder, e)
        &&& norm_home(self.layernorm, e)
    }

    /// Whether the encoder takes images on the processor.
    pub open spec fn takes(self, x: TensorValue) -> bool {
        &&& ready(x)
        &&& !(x.element is BF16)
        &&& self.home(x.element)
        &&& x.dims[1] == embeddings_sizes(self.embeddings)[1]
        &&& embeddings_patches(self.embeddings) == (x.dims[2] / self.patch_size) * (x.dims[3]
            / self.patch_size)
    }

    /// What the encoder makes of images `[batch, channels, height, width]`.
    pub open spec fn of(self, x: TensorValue, r: TensorValue) -> bool {
        exists|patches: TensorValue, encoded: TensorValue|
            #[trigger] is_embedded(self.embeddings, x, patches) && #[trigger] is_encoded(
                self.encoder,
                patches,
                encoded,
            ) && is_normed(self.layernorm, encoded, r)
    }

    /// The first place of what the encoder makes of images.
    pub open spec fn cls_of(self, x: TensorValue, r: TensorValue) -> bool {
        exists|all: TensorValue| #[trigger] self.of(x, all) && step_of(all, 0, r)
    }

    /// What is wrong with the shape of images.
    pub open spec fn complaint(self, dims: Seq<usize>) -> Option<Seq<char>> {
        patches_complaint(self.patch_size, dims)
    }

    /// Whether a parameter file has every parameter of the encoder.
    pub open spec fn stored(
        source: int,
        path: Seq<Seq<char>>,
        cfg: VitEncoderConfig,
    ) -> bool {
        &&& embeddings_stored(source, path.push("embeddings"@), cfg)
        &&& encoder_stored(source, path.push("encoder"@), cfg)
        &&& norm_stored(source, path.push("layernorm"@), cfg.hidden_size)
    }

    pub fn new(cfg: &VitEncoderConfig, store: &ParameterStore) -> (r: Result<Self>)
        ensures
            cfg.complaint() matches Some(text) ==> r is Err && r->Err_0.says(text),
            cfg.complaint() is None ==> (r matches Err(e) ==> e is Backend),
            r matches Ok(v) ==> v.fits(*cfg) && v.loaded(
                store_source(*store),
                store_path(*store),
                *cfg,
            ),
            r matches Ok(v) ==> cfg.hidden_size % cfg.num_attention_heads == 0 && cfg.intermediate_size
                > 0 ==> forall|e: ElementType| #[trigger]
                held_as(store_source(*store), e) ==> v.home(e),
            r matches Ok(v) ==> embeddings_patches(v.embeddings) == (cfg.image_size / cfg.patch_size) * (
            cfg.image_size / cfg.patch_size),
            from_file(store_source(*store)) && cfg.complaint() is None ==> (r is Ok <==> Self::stored(
                    store_source(*store),
                    store_path(*store),
                    *cfg,
                )),
    {
        if cfg.patch_size == 0 {
            return Err(message("ViT patch size must be greater than zero"));
        }
        if cfg.num_attention_heads == 0 || cfg.hidden_size < cfg.num_attention_heads {
            return Err(message("ViT hidden size must give every attention head a width"));
        }
        if cfg.num_hidden_layers > u16::MAX as usize {
            return Err(message("ViT has too many layers"));
        }
        let side: usize = cfg.image_size / cfg.patch_size;
        match side.checked_mul(side) {
            Some(n) => {
                if n == usize::MAX {
                    return Err(message("ViT has too many patches"));
                }
            },
            None => {
                return Err(message("ViT has too many patches"));
            },
        }
        let epsilon = lift(from_f64(cfg.layer_norm_eps))?;
        let embeddings = lift(vit_embeddings(&store.pp("embeddings"), cfg, &epsilon))?;
        let encoder = lift(vit_encoder(&store.pp("encoder"), cfg, &epsilon))?;
        let layernorm = lift(layer_norm(&store.pp("layernorm"), cfg.hidden_size, &epsilon))?;
        Ok(Self { embeddings, encoder, layernorm, patch_size: cfg.patch_size })
    }

    /// Encodes images `[batch, channels, height, width]` as a place for each
    /// patch, after a place for the whole image.
    pub fn forward(&self, pixels: &Tensor) -> (r: Result<Tensor>)
        requires
            exists|cfg: VitEncoderConfig| self.fits(cfg),
        ensures
            self.complaint(tensor_dims(*pixels)) matches Some(text) ==> r is Err && r->Err_0.says(
                text,
            ),
            self.complaint(tensor_dims(*pixels)) is None ==> (r matches Err(e) ==> e is Backend),
            r matches Ok(o) ==> self.of(value(*pixels), value(o)) && value(o) == value(
                *pixels,
            ).alongside(
                seq![
                    tensor_dims(*pixels)[0],
                    ((tensor_dims(*pixels)[2] / self.patch_size) * (tensor_dims(*pixels)[3]
                        / self.patch_size) + 1) as usize,
                    encoder_width(self.encoder),
                ],
                tensor_keys(o),
            ),
            self.complaint(tensor_dims(*pixels)) is None && self.takes(value(*pixels)) ==> r is Ok,
    {
        let (b, c, h, w) = dims4(pixels)?;
        if h < self.patch_size || w < self.patch_size {
            let text = with_numbers("image of ", h, "x", w, " pixels is smaller than a patch");
            proof {
                assert(text@ =~= self.complaint(tensor_dims(*pixels))->0);
            }
            return Err(SwmError::Message(text));
        }
        let ghost cfg = choose|cfg: VitEncoderConfig| self.fits(cfg);
        proof {
            assert(embeddings_sizes(self.embeddings)[0] == self.patch_size);
            assert(embeddings_sizes(self.embeddings)[2] == cfg.hidden_size);
        }
        let rows: usize = h / self.patch_size;
        let columns: usize = w / self.patch_size;
        match rows.checked_mul(columns) {
            Some(n) => {
                if n == usize::MAX {
                    return Err(message("image shape overflowed"));
                }
            },
            None => {
                return Err(message("image shape overflowed"));
            },
        }
        let patches = lift(apply_vit_embeddings(&self.embeddings, pixels))?;
        let encoded = lift(apply_vit_encoder(&self.encoder, &patches))?;
        let out = lift(apply_norm(&self.layernorm, &encoded))?;
        proof {
            assert(is_embedded(self.embeddings, value(*pixels), value(patches)));
            assert(is_encoded(self.encoder, value(patches), value(encoded)));
        }
        Ok(out)
    }

    /// The place for the whole image, for each image.
    pub fn cls(&self, pixels: &Tensor) -> (r: Result<Tensor>)
        requires
            exists|cfg: VitEncoderConfig| self.fits(cfg),
        ensures
            self.complaint(tensor_dims(*pixels)) matches Some(text) ==> r is Err && r->Err_0.says(
                text,
            ),
            self.complaint(tensor_dims(*pixels)) is None ==> (r matches Err(e) ==> e is Backend),
            r matches Ok(o) ==> self.cls_of(value(*pixels), value(o)) && value(o) == value(
                *pixels,
            ).alongside(
                seq![tensor_dims(*pixels)[0], encoder_width(self.encoder)],
                tensor_keys(o),
            ) && tensor_keys(o).len() == count(tensor_dims(o)),
            self.complaint(tensor_dims(*pixels)) is None && self.takes(value(*pixels)) ==> r is Ok,
    {
        let all = self.forward(pixels)?;
        let first = pick_step(&all, 0)?;
        let out = lift(contiguous(&first))?;
        proof {
            assert(self.of(value(*pixels), value(all)));
            assert(step_of(value(all), 0, value(out)));
        }
        Ok(out)
    }
}

} // verus!
