//! The LeWM world model.

pub mod attention;
pub mod block;
pub mod config;
pub mod counted;
pub mod distance;
pub mod embedder;
pub mod goal;
pub mod hinged;
pub mod loss;
pub mod missed;
pub mod model;
pub mod modulated;
pub mod perceptron;
pub mod predictor;
pub mod rollout;
pub mod seen;
pub mod straightened;
pub mod training;
pub mod vit;

pub use config::{
    ActionEmbedderConfig, LeWmConfig, MlpConfig, NormKind, PredictorConfig, VitEncoderConfig,
};
pub use loss::{pldm_loss, temporal_straightening_loss, vc_reg, PldmLossOutput, VcRegOutput};
pub use model::LeWm;
pub use training::{batch_loss, LeWmBatchLoss, LeWmLossWeights};
