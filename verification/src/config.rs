//! Settings of any of the models.

use vstd::prelude::*;

use crate::models::lewm::config::{ActionEmbedderConfig, LeWmConfig};
use crate::models::tdmpc2::config::{standard, TdMpc2Config};

verus! {

/// The models of the library.
#[derive(Debug, Clone, Copy, PartialEq, Eq, Structural)]
pub enum ModelKind {
    LeWm,
    TdMpc2,
}

/// Settings of one of the models.
#[derive(Debug, Clone)]
pub enum ModelConfig {
    LeWm(LeWmConfig),
    TdMpc2(TdMpc2Config),
}

impl ModelConfig {
    /// The model that the settings are for.
    pub fn kind(&self) -> (r: ModelKind)
        ensures
            r is LeWm <==> *self is LeWm,
            r is TdMpc2 <==> *self is TdMpc2,
    {
        match self {
            ModelConfig::LeWm(_) => ModelKind::LeWm,
            ModelConfig::TdMpc2(_) => ModelKind::TdMpc2,
        }
    }

    /// The tiny LeWM model for images of 224 pixels in patches of 14.
    pub fn lewm_tiny_patch14_224(action_dim: usize) -> (r: Self)
        ensures
            r matches ModelConfig::LeWm(c) && c.encoder.tiny() && c.encoder.image_size == 224
                && c.encoder.patch_size == 14 && c.history_size == 3 && c.predictor.num_frames == 3
                && c.action_encoder == (ActionEmbedderConfig {
                input_dim: action_dim,
                smoothed_dim: action_dim,
                emb_dim: 192,
                mlp_scale: 4,
            }),
    {
        ModelConfig::LeWm(LeWmConfig::tiny_patch14_224(action_dim))
    }

    /// A TD-MPC2 model that sees a state vector.
    pub fn tdmpc2_state_only(state_dim: usize, action_dim: usize) -> (r: Self)
        ensures
            r matches ModelConfig::TdMpc2(c) && standard(c) && c.action_dim == action_dim
                && c.image_size is None && c.encodings@.len() == 1 && c.encodings@[0].name@
                == "state"@ && c.encodings@[0].input_dim == state_dim && c.encodings@[0].output_dim
                == 128,
    {
        ModelConfig::TdMpc2(TdMpc2Config::state_only(state_dim, action_dim))
    }
}

} // verus!
