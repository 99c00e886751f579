use vstd::prelude::*;
use crate::error::{ConfigPart, CountMismatch, EscapeError};

verus! {

/// An IEEE 754 binary64 value, carried by its bit pattern. The library only
/// stores and hands back such values; the arithmetic on them is done by the
/// caller.
#[derive(Clone, Copy, Debug, PartialEq, Eq, Structural)]
pub struct Binary64 {
    pub bits: u64,
}

/// An IEEE 754 binary32 value, carried by its bit pattern.
#[derive(Clone, Copy, Debug, PartialEq, Eq, Structural)]
pub struct Binary32 {
    pub bits: u32,
}

/// A complex number whose parts are binary64 values.
#[derive(Clone, Copy, Debug, PartialEq, Eq, Structural)]
pub struct Complex {
    pub re: Binary64,
    pub im: Binary64,
}

/// The region of the plane to render, and the pixel grid of the histograms.
#[derive(Clone, Copy, Debug, PartialEq, Eq, Structural)]
pub struct ViewConfig {
    pub center: Complex,
    pub zoom: Binary64,
    pub width: usize,
    pub height: usize,
}

impl ViewConfig {
    pub fn new(center: Complex, zoom: Binary64, width: usize, height: usize) -> (r: ViewConfig)
        ensures
            r == (ViewConfig { center, zoom, width, height }),
    {
        ViewConfig { center, zoom, width, height }
    }
}

/// One sampling run. The iteration is `f(z) = z² + (julia_set_param +
/// mandelbrot_param · seed)`; escaping orbits are counted in the histogram of
/// the smallest cutoff at least as long as the orbit.
#[derive(Clone, Debug)]
pub struct SampleConfig {
    /// Iteration-count boundaries of the histogram buckets, strictly ascending.
    pub cutoffs: Vec<usize>,
    pub view: ViewConfig,
    pub julia_set_param: Complex,
    pub mandelbrot_param: Complex,
    /// How many times the initial-sample search may halve its radius.
    pub initial_search_depth: usize,
    /// Proposals made before counting begins.
    pub warm_up_samples: usize,
    /// Probability of proposing a fresh point instead of a perturbation.
    pub random_sample_prob: Binary64,
    /// The escape radius.
    pub norm_cutoff: Binary64,
    /// Proposals counted after the warm-up.
    pub samples: usize,
    /// Consecutive proposals outside the view after which a chain is given up.
    pub outside_limit: usize,
}

/// `s` is strictly ascending.
pub open spec fn strictly_ascending(s: Seq<usize>) -> bool {
    forall|i: int, j: int| 0 <= i < j < s.len() ==> s[i] < s[j]
}

impl SampleConfig {
    /// At least one cutoff, cutoffs strictly ascending, and a pixel count that
    /// fits in memory indices.
    pub open spec fn valid(&self) -> bool {
        &&& self.cutoffs@.len() > 0
        &&& strictly_ascending(self.cutoffs@)
        &&& self.view.width * self.view.height <= usize::MAX
    }

    pub open spec fn spec_compatible(&self, other: &SampleConfig) -> bool {
        &&& self.cutoffs@.len() == other.cutoffs@.len()
        &&& self.view.width == other.view.width
        &&& self.view.height == other.view.height
    }

    /// Equal in every field.
    pub open spec fn same_as(&self, other: &SampleConfig) -> bool {
        &&& self.cutoffs@ == other.cutoffs@
        &&& self.view == other.view
        &&& self.julia_set_param == other.julia_set_param
        &&& self.mandelbrot_param == other.mandelbrot_param
        &&& self.initial_search_depth == other.initial_search_depth
        &&& self.warm_up_samples == other.warm_up_samples
        &&& self.random_sample_prob == other.random_sample_prob
        &&& self.norm_cutoff == other.norm_cutoff
        &&& self.samples == other.samples
        &&& self.outside_limit == other.outside_limit
    }

    /// A field-by-field copy.
    pub fn copied(&self) -> (r: SampleConfig)
        ensures
            r.same_as(self),
    {
        let n = self.cutoffs.len();
        let mut cutoffs: Vec<usize> = Vec::with_capacity(n);
        let mut i: usize = 0;
        while i < n
            invariant
                i <= n,
                n == self.cutoffs@.len(),
                cutoffs@ == self.cutoffs@.subrange(0, i as int),
            decreases n - i,
        {
            cutoffs.push(self.cutoffs[i]);
            i = i + 1;
        }
        assert(cutoffs@ =~= self.cutoffs@);
        SampleConfig {
            cutoffs,
            view: self.view,
            julia_set_param: self.julia_set_param,
            mandelbrot_param: self.mandelbrot_param,
            initial_search_depth: self.initial_search_depth,
            warm_up_samples: self.warm_up_samples,
            random_sample_prob: self.random_sample_prob,
            norm_cutoff: self.norm_cutoff,
            samples: self.samples,
            outside_limit: self.outside_limit,
        }
    }

    /// Whether the configuration can drive a sampler.
    pub fn is_valid(&self) -> (r: bool)
        ensures
            r == self.valid(),
    {
        let n = self.cutoffs.len();
        if n == 0 {
            return false;
        }
        let mut i: usize = 1;
        while i < n
            invariant
                1 <= i <= n,
                n == self.cutoffs@.len(),
                forall|a: int, b: int|
                    0 <= a < b < i ==> #[trigger] self.cutoffs@[a] < #[trigger] self.cutoffs@[b],
            decreases n - i,
        {
            if self.cutoffs[i - 1] >= self.cutoffs[i] {
                assert(self.cutoffs@[i - 1] >= self.cutoffs@[i as int]);
                return false;
            }
            assert forall|a: int, b: int| 0 <= a < b < i + 1 implies #[trigger] self.cutoffs@[a]
                < #[trigger] self.cutoffs@[b] by {
                if b == i && a < i - 1 {
                    assert(self.cutoffs@[a] < self.cutoffs@[i - 1]);
                }
            }
            i = i + 1;
        }
        self.view.width.checked_mul(self.view.height).is_some()
    }

    /// Whether histograms made with the two configurations can be merged: same
    /// number of cutoffs and same view size. The other fields do not matter.
    pub fn compatible(&self, other: &Self) -> (r: bool)
        ensures
            r == self.spec_compatible(other),
    {
        self.cutoffs.len() == other.cutoffs.len() && self.view.width == other.view.width
            && self.view.height == other.view.height
    }
}

/// Compatibility is symmetric, and holds exactly when the cutoff counts and
/// the view sizes agree, whatever the other fields hold.
pub proof fn lemma_compatible_symmetric(a: &SampleConfig, b: &SampleConfig)
    ensures
        a.spec_compatible(b) == b.spec_compatible(a),
        a.spec_compatible(b) <==> (a.cutoffs@.len() == b.cutoffs@.len() && a.view.width
            == b.view.width && a.view.height == b.view.height),
{
}

/// How one bucket of a histogram is coloured when drawn.
#[derive(Clone, Debug)]
pub struct DrawConfig {
    /// One colour per cutoff.
    pub colors: Vec<[i32; 3]>,
    /// One exponent per cutoff.
    pub powers: Vec<Binary64>,
    pub background_color: [Binary64; 3],
}

impl DrawConfig {
    /// Accepts the drawing configuration when it has one colour and one power
    /// per cutoff; colours are checked first.
    pub fn compatible(&self, sample_config: &SampleConfig) -> (r: Result<(), EscapeError>)
        ensures
            self.colors@.len() != sample_config.cutoffs@.len() ==> r == Err::<(), EscapeError>(
                EscapeError::IncompatibleDrawConfig(
                    CountMismatch {
                        cutoffs: sample_config.cutoffs@.len() as usize,
                        part: ConfigPart::Colors,
                        found: self.colors@.len() as usize,
                    },
                ),
            ),
            self.colors@.len() == sample_config.cutoffs@.len() && self.powers@.len()
                != sample_config.cutoffs@.len() ==> r == Err::<(), EscapeError>(
                EscapeError::IncompatibleDrawConfig(
                    CountMismatch {
                        cutoffs: sample_config.cutoffs@.len() as usize,
                        part: ConfigPart::Powers,
                        found: self.powers@.len() as usize,
                    },
                ),
            ),
            self.colors@.len() == sample_config.cutoffs@.len() && self.powers@.len()
                == sample_config.cutoffs@.len() ==> r is Ok,
    {
        let cutoff_count = sample_config.cutoffs.len();
        let colors_count = self.colors.len();
        let powers_count = self.powers.len();
        if colors_count != cutoff_count {
            return Err(
                EscapeError::IncompatibleDrawConfig(
                    CountMismatch { cutoffs: cutoff_count, part: ConfigPart::Colors, found: colors_count },
                ),
            );
        }
        if powers_count != cutoff_count {
            return Err(
                EscapeError::IncompatibleDrawConfig(
                    CountMismatch { cutoffs: cutoff_count, part: ConfigPart::Powers, found: powers_count },
                ),
            );
        }
        Ok(())
    }
}

/// How a histogram is turned into a relief mesh.
#[derive(Clone, Debug)]
pub struct StlConfig {
    /// Height contributed by each cutoff.
    pub contributions: Vec<Binary32>,
    /// One exponent per cutoff.
    pub powers: Vec<Binary64>,
    pub width: Binary32,
    pub height: Binary32,
    pub min_depth: Binary32,
    pub relief_height: Binary32,
}

impl StlConfig {
    /// Accepts the mesh configuration when it has one contribution and one
    /// power per cutoff; contributions are checked first.
    pub fn compatible(&self, sample_config: &SampleConfig) -> (r: Result<(), EscapeError>)
        ensures
            self.contributions@.len() != sample_config.cutoffs@.len() ==> r == Err::<
                (),
                EscapeError,
            >(
                EscapeError::IncompatibleStlConfig(
                    CountMismatch {
                        cutoffs: sample_config.cutoffs@.len() as usize,
                        part: ConfigPart::Contributions,
                        found: self.contributions@.len() as usize,
                    },
                ),
            ),
            self.contributions@.len() == sample_config.cutoffs@.len() && self.powers@.len()
                != sample_config.cutoffs@.len() ==> r == Err::<(), EscapeError>(
                EscapeError::IncompatibleStlConfig(
                    CountMismatch {
                        cutoffs: sample_config.cutoffs@.len() as usize,
                        part: ConfigPart::Powers,
                        found: self.powers@.len() as usize,
                    },
                ),
            ),
            self.contributions@.len() == sample_config.cutoffs@.len() && self.powers@.len()
                == sample_config.cutoffs@.len() ==> r is Ok,
    {
        let cutoff_count = sample_config.cutoffs.len();
        let contribution_count = self.contributions.len();
        let powers_count = self.powers.len();
        if contribution_count != cutoff_count {
            return Err(
                EscapeError::IncompatibleStlConfig(
                    CountMismatch {
                        cutoffs: cutoff_count,
                        part: ConfigPart::Contributions,
                        found: contribution_count,
                    },
                ),
            );
        }
        if powers_count != cutoff_count {
            return Err(
                EscapeError::IncompatibleStlConfig(
                    CountMismatch { cutoffs: cutoff_count, part: ConfigPart::Powers, found: powers_count },
                ),
            );
        }
        Ok(())
    }
}

} // verus!
