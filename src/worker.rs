use vstd::prelude::*;
use crate::config::{SampleConfig, strictly_ascending};
use crate::grid::{
    Grid,
    all_shaped,
    count_in_view,
    in_view_count,
    lemma_recording_total,
    total,
    with_pixels,
};

verus! {

/// Random perturbations tried at each radius of the initial-sample search.
pub const SEARCH_ATTEMPTS: usize = 200;

/// The stages of one Metropolis-Hastings chain.
#[derive(Clone, Copy, Debug, PartialEq, Eq, Structural)]
pub enum Phase {
    SearchingInitialSample,
    WarmingUp,
    Sampling,
    Done,
}

/// Why a chain stopped.
#[derive(Clone, Copy, Debug, PartialEq, Eq, Structural)]
pub enum Ending {
    /// Every warm-up and sampling proposal was made.
    Completed,
    /// The search went deeper than the configured depth without a seed.
    NoInitialSample,
    /// Too many proposals in a row missed the view.
    OutsideStreak,
    /// The stop switch was seen.
    Cancelled,
}

/// What the caller saw for one candidate of the initial-sample search.
#[derive(Clone, Copy, Debug, PartialEq, Eq, Structural)]
pub enum SearchEvent {
    /// The stop switch is set.
    Stopped,
    /// A candidate was evaluated: whether its orbit escaped, and how many of
    /// its points (conjugates included) fall inside the view.
    Candidate { escaped: bool, intersections: usize },
}

/// What the caller does after a search event.
#[derive(Clone, Copy, Debug, PartialEq, Eq, Structural)]
pub enum SearchAction {
    /// The candidate is the chain's first sample.
    Found,
    /// Try another candidate around the same seed and radius.
    Retry,
    /// Halve the radius and continue around the closest candidate seen.
    Narrow,
    /// The search failed; the chain is over.
    GiveUp,
}

/// One evaluated proposal of the warm-up or sampling stage.
#[derive(Clone, Debug)]
pub struct Proposal {
    /// Whether the orbit escaped within the largest cutoff.
    pub escaped: bool,
    /// The number of points of the orbit.
    pub orbit_len: usize,
    /// The pixels that the orbit's points and their conjugates project to.
    pub pixels: Vec<(usize, usize)>,
    /// The Metropolis-Hastings acceptance draw for this proposal.
    pub accepted: bool,
}

/// What the caller reports for one step of the chain.
#[derive(Clone, Debug)]
pub enum ProposalEvent {
    Stopped,
    Evaluated(Proposal),
}

/// What the caller does with its current sample after a step.
#[derive(Clone, Copy, Debug, PartialEq, Eq, Structural)]
pub enum StepAction {
    /// The chain moves to the proposal.
    Move,
    /// The chain keeps its current sample.
    Stay,
    /// The chain is over.
    End,
}

/// `i` is the bucket of an orbit of length `len`: the first cutoff that is
/// at least `len`.
pub open spec fn is_bucket(cutoffs: Seq<usize>, len: nat, i: int) -> bool {
    &&& 0 <= i < cutoffs.len()
    &&& len <= cutoffs[i]
    &&& forall|j: int| 0 <= j < i ==> cutoffs[j] < len
}

/// The bucket of an orbit of length `len`.
pub open spec fn bucket_of(cutoffs: Seq<usize>, len: nat) -> int {
    choose|i: int| is_bucket(cutoffs, len, i)
}

/// A bucket is unique.
pub proof fn lemma_bucket_unique(cutoffs: Seq<usize>, len: nat, i: int)
    requires
        is_bucket(cutoffs, len, i),
    ensures
        bucket_of(cutoffs, len) == i,
{
    let b = bucket_of(cutoffs, len);
    assert(is_bucket(cutoffs, len, b));
    if b < i {
        assert(cutoffs[b] < len);
    } else if i < b {
        assert(cutoffs[i] < len);
    }
}

/// The index of the first cutoff that is at least `len`.
pub fn bucket_index(cutoffs: &Vec<usize>, len: usize) -> (r: usize)
    requires
        cutoffs@.len() > 0,
        len <= cutoffs@.last(),
    ensures
        is_bucket(cutoffs@, len as nat, r as int),
        r == bucket_of(cutoffs@, len as nat),
{
    let n = cutoffs.len();
    let mut i: usize = 0;
    while i < n && cutoffs[i] < len
        invariant
            i <= n,
            n == cutoffs@.len(),
            n > 0,
            len <= cutoffs@[n - 1],
            forall|j: int| 0 <= j < i ==> cutoffs@[j] < len,
        decreases n - i,
    {
        i = i + 1;
    }
    proof {
        lemma_bucket_unique(cutoffs@, len as nat, i as int);
    }
    i
}

/// The phase that a chain enters once it has a first sample.
pub open spec fn chain_start(warm_up_samples: nat, samples: nat) -> Phase {
    if warm_up_samples > 0 {
        Phase::WarmingUp
    } else if samples > 0 {
        Phase::Sampling
    } else {
        Phase::Done
    }
}

/// The phase and the step count after one more step in `phase`.
pub open spec fn advance(phase: Phase, steps: nat, warm_up_samples: nat, samples: nat) -> (
    Phase,
    nat,
) {
    if phase == Phase::WarmingUp && steps + 1 >= warm_up_samples {
        (
            if samples > 0 {
                Phase::Sampling
            } else {
                Phase::Done
            },
            0,
        )
    } else if phase == Phase::Sampling && steps + 1 >= samples {
        (Phase::Done, 0)
    } else {
        (phase, steps + 1)
    }
}

/// The state of one sampling worker: its count grids, one per cutoff, and
/// the position of its current chain.
#[derive(Debug)]
pub struct WorkerState {
    cutoffs: Vec<usize>,
    width: usize,
    height: usize,
    initial_search_depth: usize,
    warm_up_samples: usize,
    samples: usize,
    outside_limit: usize,
    grids: Vec<Grid>,
    phase: Phase,
    ending: Ending,
    depth: usize,
    attempts: usize,
    steps: usize,
    outside_streak: usize,
}

impl WorkerState {
    pub closed spec fn spec_cutoffs(&self) -> Seq<usize> {
        self.cutoffs@
    }

    pub closed spec fn spec_width(&self) -> nat {
        self.width as nat
    }

    pub closed spec fn spec_height(&self) -> nat {
        self.height as nat
    }

    pub closed spec fn spec_search_depth(&self) -> nat {
        self.initial_search_depth as nat
    }

    pub closed spec fn spec_warm_up_samples(&self) -> nat {
        self.warm_up_samples as nat
    }

    pub closed spec fn spec_samples(&self) -> nat {
        self.samples as nat
    }

    pub closed spec fn spec_outside_limit(&self) -> nat {
        self.outside_limit as nat
    }

    /// The count grids, one per cutoff.
    pub closed spec fn spec_grids(&self) -> Seq<Grid> {
        self.grids@
    }

    pub closed spec fn spec_phase(&self) -> Phase {
        self.phase
    }

    /// Why the last chain ended; meaningful once the phase is `Done`.
    pub closed spec fn spec_ending(&self) -> Ending {
        self.ending
    }

    /// The number of radius halvings of the current search.
    pub closed spec fn spec_depth(&self) -> nat {
        self.depth as nat
    }

    /// Candidates tried at the current search radius.
    pub closed spec fn spec_attempts(&self) -> nat {
        self.attempts as nat
    }

    /// Proposals made in the current stage.
    pub closed spec fn spec_steps(&self) -> nat {
        self.steps as nat
    }

    /// Consecutive proposals that missed the view.
    pub closed spec fn spec_outside_streak(&self) -> nat {
        self.outside_streak as nat
    }

    /// The configuration that the worker was made from.
    pub open spec fn built_from(&self, config: &SampleConfig) -> bool {
        &&& self.spec_cutoffs() == config.cutoffs@
        &&& self.spec_width() == config.view.width
        &&& self.spec_height() == config.view.height
        &&& self.spec_search_depth() == config.initial_search_depth
        &&& self.spec_warm_up_samples() == config.warm_up_samples
        &&& self.spec_samples() == config.samples
        &&& self.spec_outside_limit() == config.outside_limit
    }

    /// The two states share their configuration.
    pub open spec fn same_setup(&self, other: &WorkerState) -> bool {
        &&& self.spec_cutoffs() == other.spec_cutoffs()
        &&& self.spec_width() == other.spec_width()
        &&& self.spec_height() == other.spec_height()
        &&& self.spec_search_depth() == other.spec_search_depth()
        &&& self.spec_warm_up_samples() == other.spec_warm_up_samples()
        &&& self.spec_samples() == other.spec_samples()
        &&& self.spec_outside_limit() == other.spec_outside_limit()
    }

    /// Ascending cutoffs, one grid of the view's size per cutoff, and step
    /// counts inside the current stage.
    pub open spec fn wf(&self) -> bool {
        &&& self.spec_cutoffs().len() > 0
        &&& strictly_ascending(self.spec_cutoffs())
        &&& self.spec_width() * self.spec_height() <= usize::MAX
        &&& self.spec_grids().len() == self.spec_cutoffs().len()
        &&& all_shaped(self.spec_grids(), self.spec_width(), self.spec_height())
        &&& self.spec_attempts() < SEARCH_ATTEMPTS
        &&& self.spec_depth() <= self.spec_search_depth()
        &&& self.spec_phase() == Phase::WarmingUp ==> self.spec_steps()
            < self.spec_warm_up_samples()
        &&& self.spec_phase() == Phase::Sampling ==> self.spec_steps() < self.spec_samples()
        &&& self.spec_phase() != Phase::Done ==> self.spec_outside_streak()
            <= self.spec_outside_limit()
    }

    /// The counting cells of every grid are all zero.
    pub open spec fn grids_zero(&self) -> bool {
        forall|c: int, i: int|
            0 <= c < self.spec_grids().len() && 0 <= i < self.spec_grids()[c].cells().len()
                ==> #[trigger] self.spec_grids()[c].cells()[i] == 0
    }

    /// A worker for `config` with all-zero grids and no chain running.
    pub fn new(config: &SampleConfig) -> (r: WorkerState)
        requires
            config.valid(),
        ensures
            r.wf(),
            r.built_from(config),
            r.grids_zero(),
            r.spec_phase() == Phase::Done,
            r.spec_ending() == Ending::Completed,
    {
        let n = config.cutoffs.len();
        let width = config.view.width;
        let height = config.view.height;
        let mut cutoffs: Vec<usize> = Vec::with_capacity(n);
        let mut grids: Vec<Grid> = Vec::with_capacity(n);
        let mut i: usize = 0;
        while i < n
            invariant
                i <= n,
                n == config.cutoffs@.len(),
                width == config.view.width,
                height == config.view.height,
                width * height <= usize::MAX,
                cutoffs@ == config.cutoffs@.subrange(0, i as int),
                grids@.len() == i,
                all_shaped(grids@, width as nat, height as nat),
                forall|c: int, j: int|
                    0 <= c < i && 0 <= j < grids@[c].cells().len() ==> #[trigger] grids@[c].cells()[j]
                        == 0,
            decreases n - i,
        {
            cutoffs.push(config.cutoffs[i]);
            grids.push(Grid::zero(width, height));
            i = i + 1;
        }
        assert(cutoffs@ =~= config.cutoffs@);
        WorkerState {
            cutoffs,
            width,
            height,
            initial_search_depth: config.initial_search_depth,
            warm_up_samples: config.warm_up_samples,
            samples: config.samples,
            outside_limit: config.outside_limit,
            grids,
            phase: Phase::Done,
            ending: Ending::Completed,
            depth: 0,
            attempts: 0,
            steps: 0,
            outside_streak: 0,
        }
    }

    pub fn phase(&self) -> (r: Phase)
        ensures
            r == self.spec_phase(),
    {
        self.phase
    }

    pub fn ending(&self) -> (r: Ending)
        ensures
            r == self.spec_ending(),
    {
        self.ending
    }

    /// The count grids, one per cutoff.
    pub fn grids(&self) -> (r: &Vec<Grid>)
        ensures
            r@ == self.spec_grids(),
    {
        &self.grids
    }

    /// Hands the count grids over, one per cutoff.
    pub fn into_grids(self) -> (r: Vec<Grid>)
        ensures
            r@ == self.spec_grids(),
    {
        self.grids
    }

    /// Begins a new chain with a fresh initial-sample search.
    pub fn start_instance(&mut self)
        requires
            old(self).wf(),
        ensures
            final(self).wf(),
            final(self).same_setup(old(self)),
            final(self).spec_grids() == old(self).spec_grids(),
            final(self).spec_phase() == Phase::SearchingInitialSample,
            final(self).spec_depth() == 0,
            final(self).spec_attempts() == 0,
            final(self).spec_steps() == 0,
            final(self).spec_outside_streak() == 0,
    {
        self.phase = Phase::SearchingInitialSample;
        self.depth = 0;
        self.attempts = 0;
        self.steps = 0;
        self.outside_streak = 0;
    }

    fn finish(&mut self, ending: Ending)
        ensures
            final(self).same_setup(old(self)),
            final(self).spec_grids() == old(self).spec_grids(),
            final(self).spec_phase() == Phase::Done,
            final(self).spec_ending() == ending,
            final(self).spec_depth() == old(self).spec_depth(),
            final(self).spec_attempts() == old(self).spec_attempts(),
            final(self).spec_steps() == 0,
            final(self).spec_outside_streak() == old(self).spec_outside_streak(),
    {
        self.phase = Phase::Done;
        self.ending = ending;
        self.steps = 0;
    }

    /// One step of the initial-sample search. A candidate whose orbit
    /// escapes and meets the view is the first sample; after
    /// `SEARCH_ATTEMPTS` failures at one radius the search narrows, and it
    /// gives up once it would go deeper than the configured depth. A set stop
    /// switch ends the chain at once.
    pub fn search_step(&mut self, event: SearchEvent) -> (r: SearchAction)
        requires
            old(self).wf(),
            old(self).spec_phase() == Phase::SearchingInitialSample,
        ensures
            final(self).wf(),
            final(self).same_setup(old(self)),
            final(self).spec_grids() == old(self).spec_grids(),
            final(self).spec_outside_streak() == old(self).spec_outside_streak(),
            event == SearchEvent::Stopped ==> r == SearchAction::GiveUp && final(self).spec_phase() == Phase::Done && final(self).spec_ending() == Ending::Cancelled,
            event matches SearchEvent::Candidate { escaped, intersections } ==> {
                let attempts = old(self).spec_attempts() + 1;
                let depth = old(self).spec_depth() + 1;
                if escaped && intersections > 0 {
                    &&& r == SearchAction::Found
                    &&& final(self).spec_phase() == chain_start(
                        old(self).spec_warm_up_samples(),
                        old(self).spec_samples(),
                    )
                    &&& final(self).spec_phase() == Phase::Done ==> final(self).spec_ending()
                        == Ending::Completed
                    &&& final(self).spec_steps() == 0
                } else if attempts < SEARCH_ATTEMPTS {
                    &&& r == SearchAction::Retry
                    &&& final(self).spec_phase() == Phase::SearchingInitialSample
                    &&& final(self).spec_attempts() == attempts
                    &&& final(self).spec_depth() == old(self).spec_depth()
                } else if depth > old(self).spec_search_depth() {
                    &&& r == SearchAction::GiveUp
                    &&& final(self).spec_phase() == Phase::Done
                    &&& final(self).spec_ending() == Ending::NoInitialSample
                } else {
                    &&& r == SearchAction::Narrow
                    &&& final(self).spec_phase() == Phase::SearchingInitialSample
                    &&& final(self).spec_attempts() == 0
                    &&& final(self).spec_depth() == depth
                }
            },
    {
        match event {
            SearchEvent::Stopped => {
                self.finish(Ending::Cancelled);
                SearchAction::GiveUp
            },
            SearchEvent::Candidate { escaped, intersections } => {
                if escaped && intersections > 0 {
                    self.steps = 0;
                    if self.warm_up_samples > 0 {
                        self.phase = Phase::WarmingUp;
                    } else if self.samples > 0 {
                        self.phase = Phase::Sampling;
                    } else {
                        self.finish(Ending::Completed);
                    }
                    SearchAction::Found
                } else if self.attempts + 1 < SEARCH_ATTEMPTS {
                    self.attempts = self.attempts + 1;
                    SearchAction::Retry
                } else if self.depth >= self.initial_search_depth {
                    self.finish(Ending::NoInitialSample);
                    SearchAction::GiveUp
                } else {
                    self.depth = self.depth + 1;
                    self.attempts = 0;
                    SearchAction::Narrow
                }
            },
        }
    }

    /// Adds an orbit to the grid of its bucket: one count at every pixel
    /// that lies in the view. Returns how many pixels did.
    pub fn record_orbit(&mut self, orbit_len: usize, pixels: &Vec<(usize, usize)>) -> (r: usize)
        requires
            old(self).wf(),
            orbit_len <= old(self).spec_cutoffs().last(),
        ensures
            final(self).wf(),
            final(self).same_setup(old(self)),
            final(self).spec_phase() == old(self).spec_phase(),
            final(self).spec_ending() == old(self).spec_ending(),
            final(self).spec_depth() == old(self).spec_depth(),
            final(self).spec_attempts() == old(self).spec_attempts(),
            final(self).spec_steps() == old(self).spec_steps(),
            final(self).spec_outside_streak() == old(self).spec_outside_streak(),
            r == in_view_count(pixels@, old(self).spec_width(), old(self).spec_height()),
            ({
                let b = bucket_of(old(self).spec_cutoffs(), orbit_len as nat);
                &&& final(self).spec_grids().len() == old(self).spec_grids().len()
                &&& forall|c: int|
                    0 <= c < old(self).spec_grids().len() && c != b ==> #[trigger] final(self).spec_grids()[c] == old(self).spec_grids()[c]
                &&& final(self).spec_grids()[b].cells() == with_pixels(
                    old(self).spec_grids()[b].cells(),
                    old(self).spec_width(),
                    old(self).spec_height(),
                    pixels@,
                )
                &&& (forall|i: int|
                    0 <= i < old(self).spec_grids()[b].cells().len() ==> #[trigger] old(
                        self,
                    ).spec_grids()[b].cells()[i] + pixels@.len() < u64::MAX) ==> total(
                    final(self).spec_grids()[b].cells(),
                ) == total(old(self).spec_grids()[b].cells()) + r
            }),
    {
        let b = bucket_index(&self.cutoffs, orbit_len);
        proof {
            let g = self.grids@[b as int];
            assert(g.wf());
            if forall|i: int| 0 <= i < g.cells().len() ==> #[trigger] g.cells()[i] + pixels@.len()
                < u64::MAX {
                lemma_recording_total(g.cells(), self.spec_width(), self.spec_height(), pixels@);
            }
        }
        assert(self.grids@[b as int].wf());
        let r = self.grids[b].record_pixels(pixels);
        proof {
            assert forall|k: int| 0 <= k < self.grids@.len() implies #[trigger] self.grids@[k].wf()
                && self.grids@[k].spec_width() == self.width && self.grids@[k].spec_height()
                == self.height by {
                if k != b {
                    assert(self.grids@[k] == old(self).grids@[k]);
                }
            }
        }
        r
    }

    /// One proposal of the warm-up or sampling stage. A proposal that did
    /// not escape, or whose orbit misses the view, is a dud: it lengthens the
    /// outside streak, and the chain ends once the streak exceeds the
    /// configured limit. Any other proposal resets the streak, and the chain
    /// moves to it exactly when its acceptance draw succeeded. While sampling,
    /// every escaping orbit is recorded before the decision. A set stop
    /// switch ends the chain at once, with the grids untouched.
    pub fn proposal_step(&mut self, event: ProposalEvent) -> (r: StepAction)
        requires
            old(self).wf(),
            old(self).spec_phase() == Phase::WarmingUp || old(self).spec_phase()
                == Phase::Sampling,
            event matches ProposalEvent::Evaluated(p) ==> p.orbit_len <= old(self).spec_cutoffs().last(),
        ensures
            final(self).wf(),
            final(self).same_setup(old(self)),
            final(self).spec_depth() == old(self).spec_depth(),
            final(self).spec_attempts() == old(self).spec_attempts(),
            event is Stopped ==> {
                &&& r == StepAction::End
                &&& final(self).spec_phase() == Phase::Done
                &&& final(self).spec_ending() == Ending::Cancelled
                &&& final(self).spec_grids() == old(self).spec_grids()
            },
            event matches ProposalEvent::Evaluated(p) ==> {
                let w = old(self).spec_width();
                let h = old(self).spec_height();
                let hits = if p.escaped {
                    in_view_count(p.pixels@, w, h)
                } else {
                    0
                };
                let b = bucket_of(old(self).spec_cutoffs(), p.orbit_len as nat);
                let next = advance(
                    old(self).spec_phase(),
                    old(self).spec_steps(),
                    old(self).spec_warm_up_samples(),
                    old(self).spec_samples(),
                );
                &&& (if old(self).spec_phase() == Phase::Sampling && p.escaped {
                    &&& final(self).spec_grids().len() == old(self).spec_grids().len()
                    &&& forall|c: int|
                        0 <= c < old(self).spec_grids().len() && c != b ==> #[trigger] final(self).spec_grids()[c] == old(self).spec_grids()[c]
                    &&& final(self).spec_grids()[b].cells() == with_pixels(
                        old(self).spec_grids()[b].cells(),
                        w,
                        h,
                        p.pixels@,
                    )
                    &&& (forall|i: int|
                        0 <= i < old(self).spec_grids()[b].cells().len() ==> #[trigger] old(
                            self,
                        ).spec_grids()[b].cells()[i] + p.pixels@.len() < u64::MAX) ==> total(
                        final(self).spec_grids()[b].cells(),
                    ) == total(old(self).spec_grids()[b].cells()) + hits
                } else {
                    final(self).spec_grids() == old(self).spec_grids()
                })
                &&& (if hits == 0 && old(self).spec_outside_streak() + 1 > old(self).spec_outside_limit() {
                    &&& r == StepAction::End
                    &&& final(self).spec_phase() == Phase::Done
                    &&& final(self).spec_ending() == Ending::OutsideStreak
                } else {
                    &&& r == (if hits > 0 && p.accepted {
                        StepAction::Move
                    } else {
                        StepAction::Stay
                    })
                    &&& final(self).spec_outside_streak() == (if hits == 0 {
                        old(self).spec_outside_streak() + 1
                    } else {
                        0
                    })
                    &&& (final(self).spec_phase(), final(self).spec_steps()) == next
                    &&& final(self).spec_phase() == Phase::Done ==> final(self).spec_ending()
                        == Ending::Completed
                })
            },
    {
        match event {
            ProposalEvent::Stopped => {
                self.finish(Ending::Cancelled);
                StepAction::End
            },
            ProposalEvent::Evaluated(p) => {
                let hits = if !p.escaped {
                    0
                } else if self.phase == Phase::Sampling {
                    self.record_orbit(p.orbit_len, &p.pixels)
                } else {
                    count_in_view(&p.pixels, self.width, self.height)
                };
                if hits == 0 {
                    if self.outside_streak >= self.outside_limit {
                        self.finish(Ending::OutsideStreak);
                        return StepAction::End;
                    }
                    self.outside_streak = self.outside_streak + 1;
                } else {
                    self.outside_streak = 0;
                }
                self.advance_step();
                if hits > 0 && p.accepted {
                    StepAction::Move
                } else {
                    StepAction::Stay
                }
            },
        }
    }

    fn advance_step(&mut self)
        requires
            old(self).spec_phase() == Phase::WarmingUp ==> old(self).spec_steps() < old(self).spec_warm_up_samples(),
            old(self).spec_phase() == Phase::Sampling ==> old(self).spec_steps() < old(self).spec_samples(),
            old(self).spec_phase() == Phase::WarmingUp || old(self).spec_phase()
                == Phase::Sampling,
        ensures
            final(self).same_setup(old(self)),
            final(self).spec_grids() == old(self).spec_grids(),
            final(self).spec_depth() == old(self).spec_depth(),
            final(self).spec_attempts() == old(self).spec_attempts(),
            final(self).spec_outside_streak() == old(self).spec_outside_streak(),
            (final(self).spec_phase(), final(self).spec_steps()) == advance(
                old(self).spec_phase(),
                old(self).spec_steps(),
                old(self).spec_warm_up_samples(),
                old(self).spec_samples(),
            ),
            final(self).spec_phase() == Phase::Done ==> final(self).spec_ending()
                == Ending::Completed,
            final(self).spec_phase() == Phase::WarmingUp ==> final(self).spec_steps()
                < final(self).spec_warm_up_samples(),
            final(self).spec_phase() == Phase::Sampling ==> final(self).spec_steps()
                < final(self).spec_samples(),
    {
        let steps = self.steps + 1;
        if self.phase == Phase::WarmingUp && steps >= self.warm_up_samples {
            if self.samples > 0 {
                self.phase = Phase::Sampling;
                self.steps = 0;
            } else {
                self.finish(Ending::Completed);
            }
        } else if self.phase == Phase::Sampling && steps >= self.samples {
            self.finish(Ending::Completed);
        } else {
            self.steps = steps;
        }
    }
}

} // verus!
