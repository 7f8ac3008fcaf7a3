//! Benchmark orchestration and metric normalisation for containerised
//! "hello world" web servers.
//!
//! The library decides and computes; it does no input or output. A caller
//! starts containers, sends requests, runs the load generator and writes
//! tables, and asks the library what to do next and what the output means.
//!
//! - [`targets`], [`paths`]: what is benchmarked, and the names derived from
//!   it.
//! - [`grammar`], [`metrics`], [`decimal`], [`text`]: the summary that the load
//!   generator prints, and the numbers in it.
//! - [`token_laws`], [`line_laws`], [`block_laws`]: what holds of that grammar.
//! - [`lifecycle`], [`runner`]: the life of a container, and the carrying out
//!   of a mode's commands.
//! - [`single`], [`perf`], [`load`], [`warm_up`]: the four benchmark modes.
//! - [`docker`], [`wrk`]: how the container runtime and the load generator
//!   are called, and what their answers mean.
//! - [`writes`]: the rows of the result tables.
//! - [`cli`], [`error`]: what a run is asked to do, and how it can fail.

pub mod block_laws;
pub mod cli;
pub mod decimal;
pub mod docker;
pub mod error;
pub mod grammar;
pub mod lifecycle;
pub mod line_laws;
pub mod load;
pub mod metrics;
pub mod paths;
pub mod perf;
pub mod runner;
pub mod single;
pub mod targets;
pub mod text;
pub mod token_laws;
pub mod warm_up;
pub mod writes;
pub mod wrk;
