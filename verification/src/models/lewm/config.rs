//! Settings of the LeWM model.

use vstd::prelude::*;

use crate::error::{Result, SwmError};
use crate::scalar::F64;
use crate::text::same_text;

verus! {

/// The bits of 1e-12.
pub const VIT_EPSILON: u64 = 0x3d71_9799_812d_ea11;

/// The normalisation between the layers of a perceptron.
#[derive(Debug, Clone, Copy, PartialEq, Eq, Structural)]
pub enum NormKind {
    BatchNorm1d,
    LayerNorm,
    NoNorm,
}

/// Settings of the image encoder.
#[derive(Debug, Clone)]
pub struct VitEncoderConfig {
    pub image_size: usize,
    pub patch_size: usize,
    pub hidden_size: usize,
    pub num_hidden_layers: usize,
    pub num_attention_heads: usize,
    pub intermediate_size: usize,
    pub layer_norm_eps: F64,
    pub num_channels: usize,
    pub qkv_bias: bool,
}

impl VitEncoderConfig {
    /// The tiny encoder, apart from the size of images and patches.
    pub open spec fn tiny(self) -> bool {
        &&& self.hidden_size == 192
        &&& self.num_hidden_layers == 12
        &&& self.num_attention_heads == 3
        &&& self.intermediate_size == 768
        &&& self.layer_norm_eps.bits == VIT_EPSILON
        &&& self.num_channels == 3
        &&& self.qkv_bias
    }

    /// The tiny encoder for images of 224 pixels in patches of 14.
    pub fn tiny_patch14_224() -> (r: Self)
        ensures
            r.tiny(),
            r.image_size == 224,
            r.patch_size == 14,
    {
        Self {
            image_size: 224,
            patch_size: 14,
            hidden_size: 192,
            num_hidden_layers: 12,
            num_attention_heads: 3,
            intermediate_size: 768,
            layer_norm_eps: F64::from_bits(VIT_EPSILON),
            num_channels: 3,
            qkv_bias: true,
        }
    }

    /// The settings that a published configuration stands for.
    pub fn from_stable(stable: StableVitEncoderConfig) -> (r: Result<Self>)
        ensures
            stable.complaint() matches Some(text) ==> r is Err && r->Err_0.says(text),
            stable.complaint() is None ==> r is Ok,
            r matches Ok(c) ==> c.tiny() && c.patch_size == stable.patch_size && c.image_size
                == stable.image_size,
    {
        if !same_text(stable.size.as_str(), "tiny") {
            let mut text = String::from_str("only LeWM ViT tiny is supported, got ");
            text.append(stable.size.as_str());
            return Err(SwmError::Message(text));
        }
        let mut cfg = Self::tiny_patch14_224();
        cfg.patch_size = stable.patch_size;
        cfg.image_size = stable.image_size;
        Ok(cfg)
    }
}

/// Settings of the predictor.
#[derive(Debug, Clone)]
pub struct PredictorConfig {
    pub num_frames: usize,
    pub input_dim: usize,
    pub hidden_dim: usize,
    pub output_dim: usize,
    pub depth: usize,
    pub heads: usize,
    pub dim_head: usize,
    pub mlp_dim: usize,
}

impl PredictorConfig {
    /// The predictor of the tiny model.
    pub fn lewm_tiny(embed_dim: usize, history_size: usize) -> (r: Self)
        ensures
            r == (Self {
                num_frames: history_size,
                input_dim: embed_dim,
                hidden_dim: embed_dim,
                output_dim: embed_dim,
                depth: 6,
                heads: 16,
                dim_head: 64,
                mlp_dim: 2048,
            }),
    {
        Self {
            num_frames: history_size,
            input_dim: embed_dim,
            hidden_dim: embed_dim,
            output_dim: embed_dim,
            depth: 6,
            heads: 16,
            dim_head: 64,
            mlp_dim: 2048,
        }
    }

    /// The settings that a published configuration stands for. An output width
    /// that is not given is the input width.
    pub fn from_stable(stable: StablePredictorConfig) -> (r: Self)
        ensures
            r == (Self {
                num_frames: stable.num_frames,
                input_dim: stable.input_dim,
                hidden_dim: stable.hidden_dim,
                output_dim: or_else(stable.output_dim, stable.input_dim),
                depth: stable.depth,
                heads: stable.heads,
                dim_head: stable.dim_head,
                mlp_dim: stable.mlp_dim,
            }),
    {
        Self {
            num_frames: stable.num_frames,
            input_dim: stable.input_dim,
            hidden_dim: stable.hidden_dim,
            output_dim: given_or(stable.output_dim, stable.input_dim),
            depth: stable.depth,
            heads: stable.heads,
            dim_head: stable.dim_head,
            mlp_dim: stable.mlp_dim,
        }
    }
}

/// A value, or another where it is not given.
pub open spec fn or_else(given: Option<usize>, other: usize) -> usize {
    match given {
        Some(n) => n,
        None => other,
    }
}

fn given_or(given: Option<usize>, other: usize) -> (r: usize)
    ensures
        r == or_else(given, other),
{
    match given {
        Some(n) => n,
        None => other,
    }
}

/// Settings of the action embedder.
#[derive(Debug, Clone)]
pub struct ActionEmbedderConfig {
    pub input_dim: usize,
    pub smoothed_dim: usize,
    pub emb_dim: usize,
    pub mlp_scale: usize,
}

impl ActionEmbedderConfig {
    pub fn new(input_dim: usize, emb_dim: usize) -> (r: Self)
        ensures
            r == (Self { input_dim, smoothed_dim: input_dim, emb_dim, mlp_scale: 4 }),
    {
        Self { input_dim, smoothed_dim: input_dim, emb_dim, mlp_scale: 4 }
    }

    /// The settings that a published configuration stands for. A smoothed width
    /// that is not given is the input width, a scale that is not given is four.
    pub fn from_stable(stable: StableActionEmbedderConfig) -> (r: Self)
        ensures
            r == (Self {
                input_dim: stable.input_dim,
                smoothed_dim: or_else(stable.smoothed_dim, stable.input_dim),
                emb_dim: stable.emb_dim,
                mlp_scale: or_else(stable.mlp_scale, 4),
            }),
    {
        Self {
            input_dim: stable.input_dim,
            smoothed_dim: given_or(stable.smoothed_dim, stable.input_dim),
            emb_dim: stable.emb_dim,
            mlp_scale: given_or(stable.mlp_scale, 4),
        }
    }
}

/// Settings of a perceptron.
#[derive(Debug, Clone)]
pub struct MlpConfig {
    pub input_dim: usize,
    pub hidden_dim: usize,
    pub output_dim: usize,
    pub norm: NormKind,
}

impl MlpConfig {
    /// A projector that keeps the width of embeddings.
    pub fn projector(embed_dim: usize) -> (r: Self)
        ensures
            r == (Self {
                input_dim: embed_dim,
                hidden_dim: 2048,
                output_dim: embed_dim,
                norm: NormKind::BatchNorm1d,
            }),
    {
        Self {
            input_dim: embed_dim,
            hidden_dim: 2048,
            output_dim: embed_dim,
            norm: NormKind::BatchNorm1d,
        }
    }

    /// The settings that a published configuration stands for. An output width
    /// that is not given is the input width.
    pub fn from_stable(stable: StableMlpConfig) -> (r: Result<Self>)
        ensures
            stable.complaint() matches Some(text) ==> r is Err && r->Err_0.says(text),
            stable.complaint() is None ==> r is Ok,
            r matches Ok(c) ==> c.input_dim == stable.input_dim && c.hidden_dim == stable.hidden_dim
                && c.output_dim == or_else(stable.output_dim, stable.input_dim) && named_norm(
                stable.target(),
            ) == Some(c.norm),
    {
        let norm = parse_norm_kind(&stable.norm_fn)?;
        Ok(
            Self {
                input_dim: stable.input_dim,
                hidden_dim: stable.hidden_dim,
                output_dim: given_or(stable.output_dim, stable.input_dim),
                norm,
            },
        )
    }
}

/// The normalisation of a name.
pub open spec fn named_norm(target: Option<Seq<char>>) -> Option<NormKind> {
    match target {
        None => Some(NormKind::NoNorm),
        Some(name) => if name == "torch.nn.BatchNorm1d"@ {
            Some(NormKind::BatchNorm1d)
        } else if name == "torch.nn.LayerNorm"@ {
            Some(NormKind::LayerNorm)
        } else {
            None
        },
    }
}

fn parse_norm_kind(norm: &Option<StableTarget>) -> (r: Result<NormKind>)
    ensures
        r is Ok <==> named_norm(named_target(*norm)) is Some,
        r matches Ok(k) ==> named_norm(named_target(*norm)) == Some(k),
        r matches Err(e) ==> e.says(unsupported_norm(named_target(*norm)->0)),
{
    match norm {
        None => Ok(NormKind::NoNorm),
        Some(target) => {
            if same_text(target.target.as_str(), "torch.nn.BatchNorm1d") {
                Ok(NormKind::BatchNorm1d)
            } else if same_text(target.target.as_str(), "torch.nn.LayerNorm") {
                Ok(NormKind::LayerNorm)
            } else {
                let mut text = String::from_str("unsupported LeWM MLP norm_fn target ");
                text.append(target.target.as_str());
                Err(SwmError::Message(text))
            }
        },
    }
}

/// What is said of a normalisation of another name.
pub open spec fn unsupported_norm(name: Seq<char>) -> Seq<char> {
    "unsupported LeWM MLP norm_fn target "@ + name
}

/// Settings of the model.
#[derive(Debug, Clone)]
pub struct LeWmConfig {
    pub encoder: VitEncoderConfig,
    pub predictor: PredictorConfig,
    pub action_encoder: ActionEmbedderConfig,
    pub projector: MlpConfig,
    pub pred_proj: MlpConfig,
    pub history_size: usize,
}

impl LeWmConfig {
    /// The settings of the tiny model for images of 224 pixels in patches of 14.
    pub open spec fn tiny_patch14(self, action_dim: usize) -> bool {
        &&& self.encoder.tiny()
        &&& self.encoder.image_size == 224
        &&& self.encoder.patch_size == 14
        &&& self.predictor == (PredictorConfig {
            num_frames: 3,
            input_dim: 192,
            hidden_dim: 192,
            output_dim: 192,
            depth: 6,
            heads: 16,
            dim_head: 64,
            mlp_dim: 2048,
        })
        &&& self.action_encoder == (ActionEmbedderConfig {
            input_dim: action_dim,
            smoothed_dim: action_dim,
            emb_dim: 192,
            mlp_scale: 4,
        })
        &&& self.projector == (MlpConfig {
            input_dim: 192,
            hidden_dim: 2048,
            output_dim: 192,
            norm: NormKind::BatchNorm1d,
        })
        &&& self.pred_proj == self.projector
        &&& self.history_size == 3
    }

    /// The tiny model for images of 224 pixels in patches of 14.
    pub fn tiny_patch14_224(action_dim: usize) -> (r: Self)
        ensures
            r.tiny_patch14(action_dim),
    {
        Self {
            encoder: VitEncoderConfig::tiny_patch14_224(),
            predictor: PredictorConfig::lewm_tiny(192, 3),
            action_encoder: ActionEmbedderConfig::new(action_dim, 192),
            projector: MlpConfig::projector(192),
            pred_proj: MlpConfig::projector(192),
            history_size: 3,
        }
    }

    /// The settings that a published configuration stands for. The history is
    /// as long as the frames of the predictor.
    pub fn from_stable(stable: StableLeWmConfig) -> (r: Result<Self>)
        ensures
            stable.complaint() matches Some(text) ==> r is Err && r->Err_0.says(text),
            stable.complaint() is None ==> r is Ok,
            r matches Ok(c) ==> {
                &&& c.encoder.tiny()
                &&& c.encoder.patch_size == stable.encoder.patch_size
                &&& c.encoder.image_size == stable.encoder.image_size
                &&& c.history_size == stable.predictor.num_frames
                &&& c.predictor == (PredictorConfig {
                    num_frames: stable.predictor.num_frames,
                    input_dim: stable.predictor.input_dim,
                    hidden_dim: stable.predictor.hidden_dim,
                    output_dim: or_else(stable.predictor.output_dim, stable.predictor.input_dim),
                    depth: stable.predictor.depth,
                    heads: stable.predictor.heads,
                    dim_head: stable.predictor.dim_head,
                    mlp_dim: stable.predictor.mlp_dim,
                })
                &&& c.action_encoder == (ActionEmbedderConfig {
                    input_dim: stable.action_encoder.input_dim,
                    smoothed_dim: or_else(
                        stable.action_encoder.smoothed_dim,
                        stable.action_encoder.input_dim,
                    ),
                    emb_dim: stable.action_encoder.emb_dim,
                    mlp_scale: or_else(stable.action_encoder.mlp_scale, 4),
                })
                &&& stands_for(c.projector, stable.projector)
                &&& stands_for(c.pred_proj, stable.pred_proj)
            },
    {
        let encoder = VitEncoderConfig::from_stable(stable.encoder)?;
        let predictor = PredictorConfig::from_stable(stable.predictor);
        let history_size: usize = predictor.num_frames;
        let action_encoder = ActionEmbedderConfig::from_stable(stable.action_encoder);
        let projector = MlpConfig::from_stable(stable.projector)?;
        let pred_proj = MlpConfig::from_stable(stable.pred_proj)?;
        Ok(Self { encoder, predictor, action_encoder, projector, pred_proj, history_size })
    }
}

/// Whether settings of a perceptron are those of a published configuration.
pub open spec fn stands_for(c: MlpConfig, stable: StableMlpConfig) -> bool {
    &&& c.input_dim == stable.input_dim
    &&& c.hidden_dim == stable.hidden_dim
    &&& c.output_dim == or_else(stable.output_dim, stable.input_dim)
    &&& named_norm(stable.target()) == Some(c.norm)
}

/// A configuration as it is published.
#[derive(Debug, Clone)]
pub struct StableLeWmConfig {
    pub encoder: StableVitEncoderConfig,
    pub predictor: StablePredictorConfig,
    pub action_encoder: StableActionEmbedderConfig,
    pub projector: StableMlpConfig,
    pub pred_proj: StableMlpConfig,
}

impl StableLeWmConfig {
    /// The first thing in it that the library does not support.
    pub open spec fn complaint(self) -> Option<Seq<char>> {
        if self.encoder.complaint() is Some {
            self.encoder.complaint()
        } else if self.projector.complaint() is Some {
            self.projector.complaint()
        } else {
            self.pred_proj.complaint()
        }
    }
}

/// The image encoder of a published configuration.
#[derive(Debug, Clone)]
pub struct StableVitEncoderConfig {
    pub size: String,
    pub patch_size: usize,
    pub image_size: usize,
}

impl StableVitEncoderConfig {
    pub open spec fn complaint(self) -> Option<Seq<char>> {
        if self.size@ == "tiny"@ {
            None
        } else {
            Some("only LeWM ViT tiny is supported, got "@ + self.size@)
        }
    }
}

/// The predictor of a published configuration.
#[derive(Debug, Clone)]
pub struct StablePredictorConfig {
    pub num_frames: usize,
    pub input_dim: usize,
    pub hidden_dim: usize,
    pub output_dim: Option<usize>,
    pub depth: usize,
    pub heads: usize,
    pub mlp_dim: usize,
    pub dim_head: usize,
}

/// The action embedder of a published configuration.
#[derive(Debug, Clone)]
pub struct StableActionEmbedderConfig {
    pub input_dim: usize,
    pub smoothed_dim: Option<usize>,
    pub emb_dim: usize,
    pub mlp_scale: Option<usize>,
}

/// A perceptron of a published configuration.
#[derive(Debug, Clone)]
pub struct StableMlpConfig {
    pub input_dim: usize,
    pub hidden_dim: usize,
    pub output_dim: Option<usize>,
    pub norm_fn: Option<StableTarget>,
}

impl StableMlpConfig {
    /// The name of the normalisation.
    pub open spec fn target(self) -> Option<Seq<char>> {
        named_target(self.norm_fn)
    }

    pub open spec fn complaint(self) -> Option<Seq<char>> {
        if named_norm(self.target()) is Some {
            None
        } else {
            Some(unsupported_norm(self.target()->0))
        }
    }
}

/// The name of something in a published configuration.
#[derive(Debug, Clone)]
pub struct StableTarget {
    pub target: String,
}

/// The name that an optional target holds.
pub open spec fn named_target(t: Option<StableTarget>) -> Option<Seq<char>> {
    match t {
        Some(t) => Some(t.target@),
        None => None,
    }
}

} // verus!
