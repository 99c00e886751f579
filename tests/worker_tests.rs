use escape::config::{Binary64, Complex, SampleConfig, ViewConfig};
use escape::worker::{
    bucket_index, Ending, Phase, Proposal, ProposalEvent, SearchAction, SearchEvent, StepAction, WorkerState,
    SEARCH_ATTEMPTS,
};

fn b64(v: f64) -> Binary64 {
    Binary64 { bits: v.to_bits() }
}

fn sample_config(cutoffs: Vec<usize>, size: usize, warm_up: usize, samples: usize, depth: usize) -> SampleConfig {
    let zero = Complex { re: b64(0.0), im: b64(0.0) };
    SampleConfig {
        cutoffs,
        view: ViewConfig::new(zero, b64(1.0), size, size),
        julia_set_param: zero,
        mandelbrot_param: Complex { re: b64(1.0), im: b64(0.0) },
        initial_search_depth: depth,
        warm_up_samples: warm_up,
        random_sample_prob: b64(0.2),
        norm_cutoff: b64(2.0),
        samples,
        outside_limit: 5,
    }
}

fn hit(orbit_len: usize, pixels: Vec<(usize, usize)>, accepted: bool) -> ProposalEvent {
    ProposalEvent::Evaluated(Proposal { escaped: true, orbit_len, pixels, accepted })
}

fn found(w: &mut WorkerState) {
    w.start_instance();
    let a = w.search_step(SearchEvent::Candidate { escaped: true, intersections: 1 });
    assert_eq!(a, SearchAction::Found);
}

fn total(w: &WorkerState) -> u64 {
    w.grids().iter().map(|g| g.data().iter().sum::<u64>()).sum()
}

#[test]
fn bucket_is_the_first_cutoff_at_least_the_orbit_length() {
    let cutoffs = vec![10, 100, 1000];
    assert_eq!(bucket_index(&cutoffs, 0), 0);
    assert_eq!(bucket_index(&cutoffs, 10), 0);
    assert_eq!(bucket_index(&cutoffs, 11), 1);
    assert_eq!(bucket_index(&cutoffs, 1000), 2);
}

#[test]
fn new_worker_has_one_zero_grid_per_cutoff() {
    let w = WorkerState::new(&sample_config(vec![10, 20, 30], 4, 1, 1, 3));
    assert_eq!(w.grids().len(), 3);
    assert_eq!(w.phase(), Phase::Done);
    assert_eq!(total(&w), 0);
    assert!(w.grids().iter().all(|g| g.width() == 4 && g.height() == 4));
}

#[test]
fn end_to_end_run_fills_one_grid() {
    let config = sample_config(vec![100], 100, 100, 1000, 500);
    let mut w = WorkerState::new(&config);
    found(&mut w);
    assert_eq!(w.phase(), Phase::WarmingUp);
    for _ in 0..100 {
        assert_eq!(w.proposal_step(hit(10, vec![(50, 50), (50, 49)], true)), StepAction::Move);
    }
    assert_eq!(total(&w), 0);
    assert_eq!(w.phase(), Phase::Sampling);
    let mut steps = 0;
    while w.phase() == Phase::Sampling {
        w.proposal_step(hit(10, vec![(50, 50), (50, 49)], steps % 2 == 0));
        steps += 1;
    }
    assert_eq!(steps, 1000);
    assert_eq!(w.ending(), Ending::Completed);
    let grids = w.into_grids();
    assert_eq!(grids.len(), 1);
    assert_eq!((grids[0].width(), grids[0].height()), (100, 100));
    let sum: u64 = grids[0].data().iter().sum();
    assert_eq!(sum, 2000);
    assert!(sum <= 2 * 1000);
    assert_eq!(grids[0].value(50, 50), 1000);
}

#[test]
fn a_run_where_every_proposal_misses_leaves_the_grid_empty() {
    let mut w = WorkerState::new(&sample_config(vec![100], 100, 100, 1000, 500));
    found(&mut w);
    let mut steps = 0;
    while w.phase() != Phase::Done {
        let a = w.proposal_step(hit(10, vec![(100, 3), (7, 100)], true));
        assert_ne!(a, StepAction::Move);
        steps += 1;
    }
    assert_eq!(steps, 6);
    assert_eq!(w.ending(), Ending::OutsideStreak);
    assert_eq!(total(&w), 0);
}

#[test]
fn sampling_records_in_the_bucket_of_the_orbit_length() {
    let mut w = WorkerState::new(&sample_config(vec![10, 100], 4, 0, 3, 1));
    found(&mut w);
    assert_eq!(w.phase(), Phase::Sampling);
    w.proposal_step(hit(50, vec![(1, 1), (9, 9)], false));
    w.proposal_step(hit(10, vec![(0, 0)], true));
    assert_eq!(w.grids()[0].value(0, 0), 1);
    assert_eq!(w.grids()[1].value(1, 1), 1);
    assert_eq!(total(&w), 2);
    let direct = w.record_orbit(11, &vec![(2, 2)]);
    assert_eq!(direct, 1);
    assert_eq!(w.grids()[1].value(2, 2), 1);
}

#[test]
fn orbits_that_do_not_escape_are_not_recorded() {
    let mut w = WorkerState::new(&sample_config(vec![10], 4, 0, 5, 1));
    found(&mut w);
    let a = w.proposal_step(ProposalEvent::Evaluated(Proposal {
        escaped: false,
        orbit_len: 10,
        pixels: vec![(1, 1)],
        accepted: true,
    }));
    assert_eq!(a, StepAction::Stay);
    assert_eq!(total(&w), 0);
}

#[test]
fn rejected_proposals_keep_the_sample() {
    let mut w = WorkerState::new(&sample_config(vec![10], 4, 5, 5, 1));
    found(&mut w);
    assert_eq!(w.proposal_step(hit(3, vec![(1, 1)], false)), StepAction::Stay);
    assert_eq!(w.proposal_step(hit(3, vec![(1, 1)], true)), StepAction::Move);
}

#[test]
fn a_hit_resets_the_outside_streak() {
    let mut w = WorkerState::new(&sample_config(vec![10], 4, 100, 5, 1));
    found(&mut w);
    for _ in 0..5 {
        w.proposal_step(hit(3, vec![], true));
    }
    w.proposal_step(hit(3, vec![(0, 0)], true));
    for _ in 0..5 {
        assert_eq!(w.proposal_step(hit(3, vec![], true)), StepAction::Stay);
    }
    assert_eq!(w.proposal_step(hit(3, vec![], true)), StepAction::End);
    assert_eq!(w.ending(), Ending::OutsideStreak);
}

#[test]
fn stopping_ends_the_chain_without_recording() {
    let mut w = WorkerState::new(&sample_config(vec![10], 4, 0, 1000, 1));
    found(&mut w);
    w.proposal_step(hit(3, vec![(0, 0)], true));
    assert_eq!(w.proposal_step(ProposalEvent::Stopped), StepAction::End);
    assert_eq!(w.phase(), Phase::Done);
    assert_eq!(w.ending(), Ending::Cancelled);
    assert_eq!(total(&w), 1);
}

#[test]
fn search_narrows_after_every_failed_radius_then_gives_up() {
    let mut w = WorkerState::new(&sample_config(vec![10], 4, 1, 1, 2));
    w.start_instance();
    let miss = SearchEvent::Candidate { escaped: true, intersections: 0 };
    let mut narrows = 0;
    let mut tries = 0;
    loop {
        tries += 1;
        match w.search_step(miss) {
            SearchAction::Retry => {}
            SearchAction::Narrow => narrows += 1,
            SearchAction::GiveUp => break,
            SearchAction::Found => panic!("nothing was found"),
        }
    }
    assert_eq!(narrows, 2);
    assert_eq!(tries, 3 * SEARCH_ATTEMPTS);
    assert_eq!(w.ending(), Ending::NoInitialSample);
}

#[test]
fn search_needs_an_escaping_orbit_in_view() {
    let mut w = WorkerState::new(&sample_config(vec![10], 4, 1, 1, 0));
    w.start_instance();
    assert_eq!(w.search_step(SearchEvent::Candidate { escaped: false, intersections: 4 }), SearchAction::Retry);
    assert_eq!(w.search_step(SearchEvent::Candidate { escaped: true, intersections: 0 }), SearchAction::Retry);
    assert_eq!(w.search_step(SearchEvent::Candidate { escaped: true, intersections: 2 }), SearchAction::Found);
}

#[test]
fn stopping_ends_the_search() {
    let mut w = WorkerState::new(&sample_config(vec![10], 4, 1, 1, 3));
    w.start_instance();
    assert_eq!(w.search_step(SearchEvent::Stopped), SearchAction::GiveUp);
    assert_eq!(w.ending(), Ending::Cancelled);
}

#[test]
fn a_chain_without_proposals_is_done_once_found() {
    let mut w = WorkerState::new(&sample_config(vec![10], 4, 0, 0, 3));
    found(&mut w);
    assert_eq!(w.phase(), Phase::Done);
    assert_eq!(w.ending(), Ending::Completed);
}
