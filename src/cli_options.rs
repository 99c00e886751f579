use vstd::prelude::*;
use crate::types::Verbosity;

verus! {

/// The program's commands.
#[derive(Clone, Debug)]
pub enum CliOptions {
    Sample(SampleOptions),
    Draw(DrawOptions),
    Merge(MergeOptions),
    Report(ReportOptions),
    Stl(StlOptions),
}

/// Sample the Buddhabrot and write a histogram result.
#[derive(Clone, Debug)]
pub struct SampleOptions {
    /// Path of the sample configuration.
    pub config: String,
    /// Number of sampling workers.
    pub workers: usize,
    /// Seconds after which the run stops, if any.
    pub duration: Option<u64>,
    /// Path of the histogram result to write.
    pub output: String,
    pub verbosity: Verbosity,
    pub pretty_logging: bool,
}

/// Render a histogram result to an image.
#[derive(Clone, Debug)]
pub struct DrawOptions {
    /// Path of the drawing configuration.
    pub config: String,
    /// Path of the histogram result.
    pub histogram: String,
    /// Path of the image to write.
    pub output: String,
    pub verbosity: Verbosity,
    pub pretty_logging: bool,
}

/// Combine compatible histogram results.
#[derive(Clone, Debug)]
pub struct MergeOptions {
    /// Paths of the histogram results.
    pub histograms: Vec<String>,
    /// Path of the merged result to write.
    pub output: String,
    /// Number of worker threads.
    pub workers: usize,
    pub verbosity: Verbosity,
    pub pretty_logging: bool,
}

/// Print statistics of a histogram result.
#[derive(Clone, Debug)]
pub struct ReportOptions {
    /// Path of the histogram result.
    pub histogram: String,
    pub verbosity: Verbosity,
    pub pretty_logging: bool,
}

/// Turn a histogram result into a relief mesh.
#[derive(Clone, Debug)]
pub struct StlOptions {
    /// Path of the mesh configuration.
    pub config: String,
    /// Path of the histogram result.
    pub histogram: String,
    /// Path of the mesh to write.
    pub output: String,
    pub verbosity: Verbosity,
    pub pretty_logging: bool,
}

} // verus!
