//! Kinematic statistics of recorded train runs: distance bookkeeping, driving
//! time with and without standstill, and memoised aggregates over a group of runs.

pub mod timestamp;
pub mod run;
pub mod result_analyser;
pub mod result_analyser_group;
pub mod cli;
