//! World models.

pub mod lewm;
pub mod tdmpc2;
