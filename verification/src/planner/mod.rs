//! Sampling planners: cross-entropy search (CEM), its warm-started form (iCEM)
//! and path-integral averaging (MPPI).

pub mod cem;
pub mod clock;
pub mod config;
pub mod drawn;
pub mod fitted;
pub mod icem;
pub mod mppi;
pub mod noise;
pub mod outcome;
pub mod progress;
pub mod ranking;
pub mod refit;
pub mod result;
pub mod rng;
pub mod rounds;
pub mod sampling;
pub mod scorer;
pub mod selection;
pub mod sharpened;
pub mod within;
pub mod workspace;

pub use crate::session::lewm::LeWmGoalScorer;
pub use cem::CemPlanner;
pub use config::{ActionBounds, CemConfig, IcemConfig, MppiConfig};
pub use icem::IcemPlanner;
pub use mppi::MppiPlanner;
pub use noise::{DeviceNoise, NoiseSource};
pub use result::{PlanFallback, PlanResult};
pub use scorer::CandidateScorer;
