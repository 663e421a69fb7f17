//! World-model inference and planning: models, sessions, planners, media
//! geometry and the rules that connect them.

pub mod artifact;
pub mod checkpoint;
pub mod config;
pub mod error;
pub mod ffi;
pub mod hub;
pub mod media;
pub mod models;
pub mod planner;
pub mod preprocess;
pub mod reading;
pub mod rounding;
pub mod runtime;
pub mod scalar;
pub mod session;
pub mod tensor;
pub mod text;
pub mod tools;

use vstd::prelude::*;

verus! {

} // verus!
