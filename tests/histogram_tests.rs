use escape::config::{Binary64, Complex, SampleConfig, ViewConfig};
use escape::error::EscapeError;
use escape::grid::Grid;
use escape::histogram::{merge_histograms, merge_results, HistogramResult};

fn b64(v: f64) -> Binary64 {
    Binary64 { bits: v.to_bits() }
}

fn sample_config(cutoffs: Vec<usize>, width: usize, height: usize) -> SampleConfig {
    let zero = Complex { re: b64(0.0), im: b64(0.0) };
    SampleConfig {
        cutoffs,
        view: ViewConfig::new(zero, b64(1.0), width, height),
        julia_set_param: zero,
        mandelbrot_param: Complex { re: b64(1.0), im: b64(0.0) },
        initial_search_depth: 500,
        warm_up_samples: 100,
        random_sample_prob: b64(0.2),
        norm_cutoff: b64(2.0),
        samples: 1000,
        outside_limit: 100,
    }
}

fn grid_of(width: usize, height: usize, cells: Vec<u64>) -> Grid {
    Grid::from_cells(width, height, cells).unwrap()
}

#[test]
fn merge_results_sums_each_bucket_separately() {
    let config = sample_config(vec![10, 100], 2, 1);
    let results = vec![
        vec![grid_of(2, 1, vec![1, 2]), grid_of(2, 1, vec![3, 4])],
        vec![grid_of(2, 1, vec![10, 20]), grid_of(2, 1, vec![30, 40])],
    ];
    let merged = merge_results(&config, &results).unwrap();
    assert_eq!(merged.len(), 2);
    assert_eq!(merged[0].data(), &[11, 22][..]);
    assert_eq!(merged[1].data(), &[33, 44][..]);
}

#[test]
fn merge_results_of_no_worker_is_all_zero() {
    let config = sample_config(vec![10, 100], 2, 2);
    let merged = merge_results(&config, &vec![]).unwrap();
    assert_eq!(merged.len(), 2);
    assert_eq!(merged[1].data(), &[0, 0, 0, 0][..]);
}

#[test]
fn merge_results_rejects_misshapen_lists() {
    let config = sample_config(vec![10, 100], 2, 1);
    let short = vec![vec![grid_of(2, 1, vec![1, 2])]];
    assert!(matches!(merge_results(&config, &short), Err(EscapeError::IncompatibleHistograms)));
    let wrong_size = vec![vec![grid_of(2, 1, vec![1, 2]), grid_of(1, 2, vec![3, 4])]];
    assert!(matches!(merge_results(&config, &wrong_size), Err(EscapeError::IncompatibleHistograms)));
}

#[test]
fn merge_results_reports_overflow() {
    let config = sample_config(vec![10], 1, 1);
    let results = vec![vec![grid_of(1, 1, vec![u64::MAX])], vec![grid_of(1, 1, vec![1])]];
    assert!(matches!(merge_results(&config, &results), Err(EscapeError::CountOverflow)));
}

#[test]
fn histogram_needs_one_grid_of_the_view_size_per_cutoff() {
    let config = sample_config(vec![10, 100], 2, 1);
    assert!(matches!(
        HistogramResult::new(config.clone(), vec![grid_of(2, 1, vec![0, 0])]),
        Err(EscapeError::MalformedHistogram)
    ));
    assert!(matches!(
        HistogramResult::new(config.clone(), vec![grid_of(2, 1, vec![0, 0]), grid_of(1, 2, vec![0, 0])]),
        Err(EscapeError::MalformedHistogram)
    ));
    let h = HistogramResult::new(config, vec![grid_of(2, 1, vec![1, 2]), grid_of(2, 1, vec![3, 4])]).unwrap();
    assert!(h.is_well_formed());
    assert_eq!(h.grids().len(), 2);
    assert_eq!(h.config().cutoffs, vec![10, 100]);
    let (c, g) = h.into_parts();
    assert_eq!(c.view.width, 2);
    assert_eq!(g[1].data(), &[3, 4][..]);
}

#[test]
fn merging_histograms_with_different_cutoff_counts_fails() {
    let one = HistogramResult::new(sample_config(vec![100], 2, 1), vec![grid_of(2, 1, vec![1, 1])]).unwrap();
    let two = HistogramResult::new(
        sample_config(vec![10, 100], 2, 1),
        vec![grid_of(2, 1, vec![1, 1]), grid_of(2, 1, vec![2, 2])],
    )
    .unwrap();
    assert!(matches!(merge_histograms(&vec![one.clone(), two.clone()]), Err(EscapeError::IncompatibleHistograms)));
    assert!(matches!(merge_histograms(&vec![two, one]), Err(EscapeError::IncompatibleHistograms)));
}

#[test]
fn merging_histograms_with_different_views_fails() {
    let a = HistogramResult::new(sample_config(vec![100], 2, 1), vec![grid_of(2, 1, vec![1, 1])]).unwrap();
    let b = HistogramResult::new(sample_config(vec![100], 1, 2), vec![grid_of(1, 2, vec![1, 1])]).unwrap();
    assert!(matches!(merge_histograms(&vec![a, b]), Err(EscapeError::IncompatibleHistograms)));
}

#[test]
fn merging_no_histogram_fails() {
    assert!(matches!(merge_histograms(&vec![]), Err(EscapeError::NoHistograms)));
}

#[test]
fn merging_histograms_sums_buckets_and_keeps_the_first_config() {
    let mut second_config = sample_config(vec![20, 200], 2, 1);
    second_config.samples = 5;
    let a = HistogramResult::new(
        sample_config(vec![10, 100], 2, 1),
        vec![grid_of(2, 1, vec![1, 2]), grid_of(2, 1, vec![3, 4])],
    )
    .unwrap();
    let b = HistogramResult::new(second_config, vec![grid_of(2, 1, vec![5, 6]), grid_of(2, 1, vec![7, 8])]).unwrap();
    let merged = merge_histograms(&vec![a, b]).unwrap();
    assert_eq!(merged.config().cutoffs, vec![10, 100]);
    assert_eq!(merged.config().samples, 1000);
    assert_eq!(merged.grids()[0].data(), &[6, 8][..]);
    assert_eq!(merged.grids()[1].data(), &[10, 12][..]);
}

#[test]
fn merging_histograms_reports_overflow() {
    let a = HistogramResult::new(sample_config(vec![100], 1, 1), vec![grid_of(1, 1, vec![u64::MAX])]).unwrap();
    let b = HistogramResult::new(sample_config(vec![100], 1, 1), vec![grid_of(1, 1, vec![2])]).unwrap();
    assert!(matches!(merge_histograms(&vec![a, b]), Err(EscapeError::CountOverflow)));
}
