//! Metropolis-Hastings sampling of the Buddhabrot: count grids, histogram
//! merging, configuration compatibility, the cooperative stop switch and the
//! decision core of each sampling worker.

/// Fixed-size counting grids and their exact normalisation
pub mod grid;

/// Sampling, view, drawing and mesh configurations, and their compatibility
pub mod config;

/// The library's error type
pub mod error;

/// The decision core of one sampling worker: initial-sample search, warm-up,
/// sampling and the recording of orbits
pub mod worker;

/// Merged histograms: the result of a run, and the merge of several runs
pub mod histogram;

/// The cooperative cancellation flag shared by the workers of a run
pub mod stop_switch;

/// Logging verbosity levels
pub mod types;

/// The command-line surface, as plain values
pub mod cli_options;
