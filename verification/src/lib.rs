//! Verified core of a stage-placement solver.
//!
//! The solver places point-like sound sources ("musicians") on a rectangular
//! stage to maximize a pairwise acoustic objective over fixed listeners.  The
//! numerical engine (geometry, scoring, gradient descent) works on `f64`
//! values and lives outside this library; what is verified here is the
//! discrete core that drives it:
//!
//! - [`config`]: the solver configuration file format and its parser,
//! - [`logger`]: the mapping from log severities to line tags,
//! - [`cli`]: the command-line data model,
//! - [`search`]: the search orchestration — task phases, loop decisions,
//!   the sampler's rejection budget, and the best-result reduction.

pub mod cli;
pub mod config;
pub mod logger;
pub mod search;
