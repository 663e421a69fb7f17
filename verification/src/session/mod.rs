//! Models at work on the observations of a step.

pub mod lewm;
pub mod tdmpc2;

pub use lewm::{LeWmGoalScorer, LeWmSession};
pub use tdmpc2::TdMpc2Session;
