//! The TD-MPC2 world model.

pub mod actor;
pub mod bins;
pub mod cautious;
pub mod config;
pub mod cost;
pub mod earnings;
pub mod encode;
pub mod model;
pub mod modules;
pub mod pixels;
pub mod policies;
pub mod rollout;
pub mod simnorm;
pub mod spaced;
pub mod state;

pub use config::{EncodingConfig, TdMpc2Config};
pub use model::TdMpc2;
pub use simnorm::SimNorm;
