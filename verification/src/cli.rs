//! Command-line data model.
//!
//! The binary around this library parses its command line into these types.
//! Paths are carried as plain strings; the binary turns them into filesystem
//! paths at its edge.

use vstd::prelude::*;

verus! {

/// Default base seed for the random-restart sampler.
pub const DEFAULT_RAND_SEED: u64 = 1;
/// Default number of random-restart iterations.
pub const DEFAULT_RAND_ITERS: u64 = 1000;
/// Default wall-clock budget, in seconds, for the random-restart phase.
pub const DEFAULT_RAND_MAX_SECS: u64 = 1000;
/// Default number of gradient-descent sweeps.
pub const DEFAULT_DESCENT_ITERS: u64 = 1000;
/// Default wall-clock budget, in seconds, for the descent phase.
pub const DEFAULT_DESCENT_MAX_SECS: u64 = 1000;

/// The whole command line: one subcommand.
#[derive(Clone, Debug)]
pub struct Args {
    pub subcommand: CliCommand,
}

/// The two ways to run the solver: one problem file, or every problem of a
/// configured directory.
#[derive(Clone, Debug)]
pub enum CliCommand {
    Problem(ProblemArgs),
    Problems(ProblemsArgs),
}

/// Arguments for solving a single problem file.
#[derive(Clone, Debug)]
pub struct ProblemArgs {
    /// Path of the problem file to read.
    pub input: String,
    /// Path of the solution file to write.
    pub output: String,
    /// Path of the log file.
    pub log: String,
    /// Base seed of the sampler.
    pub rand_seed: u64,
    /// Random-restart iteration cap.
    pub rand_iters: u64,
    /// Random-restart wall-clock budget, in seconds.
    pub rand_max_secs: u64,
    /// Descent sweep cap.
    pub descent_iters: u64,
    /// Descent wall-clock budget, in seconds.
    pub descent_max_secs: u64,
}

/// Arguments for solving every problem of a configured directory: the path
/// of the configuration file.
#[derive(Clone, Debug)]
pub struct ProblemsArgs {
    pub config: String,
}

} // verus!
