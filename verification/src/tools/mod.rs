//! What the command-line tools decide and compute.

pub mod arguments;
pub mod bench;
pub mod bench_tdmpc2;
pub mod compare;
pub mod report;
pub mod scores;
pub mod search;
