use vstd::prelude::*;

verus! {

/// The part of a drawing or mesh configuration that must hold one entry per
/// cutoff.
#[derive(Clone, Copy, Debug, PartialEq, Eq, Structural)]
pub enum ConfigPart {
    Colors,
    Contributions,
    Powers,
}

/// A configuration part whose length differs from the number of cutoffs.
#[derive(Clone, Copy, Debug, PartialEq, Eq, Structural)]
pub struct CountMismatch {
    /// How many cutoffs the sample configuration has.
    pub cutoffs: usize,
    /// Which part disagrees.
    pub part: ConfigPart,
    /// How many entries that part has.
    pub found: usize,
}

/// Failures that the library reports.
#[derive(Clone, Debug)]
pub enum EscapeError {
    /// A drawing configuration does not fit the sample configuration.
    IncompatibleDrawConfig(CountMismatch),
    /// A mesh configuration does not fit the sample configuration.
    IncompatibleStlConfig(CountMismatch),
    /// Histograms with different cutoff counts or view sizes cannot be merged.
    IncompatibleHistograms,
    /// A histogram's grids do not match its own configuration.
    MalformedHistogram,
    /// A merge was asked of no histogram at all.
    NoHistograms,
    /// A merged count does not fit in 64 bits.
    CountOverflow,
    /// The text names no verbosity level.
    VerbosityParse(String),
}

} // verus!
