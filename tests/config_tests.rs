use escape::config::{Binary32, Binary64, Complex, DrawConfig, SampleConfig, StlConfig, ViewConfig};
use escape::error::{ConfigPart, CountMismatch, EscapeError};

fn b64(v: f64) -> Binary64 {
    Binary64 { bits: v.to_bits() }
}

fn complex(re: f64, im: f64) -> Complex {
    Complex { re: b64(re), im: b64(im) }
}

fn sample_config(cutoffs: Vec<usize>, width: usize, height: usize) -> SampleConfig {
    SampleConfig {
        cutoffs,
        view: ViewConfig::new(complex(0.0, 0.0), b64(1.0), width, height),
        julia_set_param: complex(0.0, 0.0),
        mandelbrot_param: complex(1.0, 0.0),
        initial_search_depth: 500,
        warm_up_samples: 10000,
        random_sample_prob: b64(0.2),
        norm_cutoff: b64(2.0),
        samples: 100000,
        outside_limit: 100,
    }
}

#[test]
fn compatible_configs_match_in_cutoff_count_and_view_size() {
    let a = sample_config(vec![10, 100], 50, 40);
    let mut b = sample_config(vec![20, 200], 50, 40);
    b.samples = 7;
    b.norm_cutoff = b64(4.0);
    b.view.zoom = b64(3.0);
    assert!(a.compatible(&b));
    assert!(b.compatible(&a));
}

#[test]
fn incompatible_configs_differ_in_cutoff_count_or_view_size() {
    let a = sample_config(vec![10, 100], 50, 40);
    let fewer = sample_config(vec![10], 50, 40);
    let wider = sample_config(vec![10, 100], 51, 40);
    let taller = sample_config(vec![10, 100], 50, 41);
    for other in [&fewer, &wider, &taller] {
        assert!(!a.compatible(other));
        assert!(!other.compatible(&a));
    }
}

#[test]
fn validity_needs_ascending_cutoffs() {
    assert!(sample_config(vec![10, 100, 1000], 4, 4).is_valid());
    assert!(!sample_config(vec![], 4, 4).is_valid());
    assert!(!sample_config(vec![10, 10], 4, 4).is_valid());
    assert!(!sample_config(vec![100, 10], 4, 4).is_valid());
    assert!(!sample_config(vec![10], usize::MAX, 2).is_valid());
}

#[test]
fn copied_config_keeps_every_field() {
    let a = sample_config(vec![3, 9], 8, 6);
    let b = a.copied();
    assert_eq!(b.cutoffs, vec![3, 9]);
    assert_eq!(b.view, a.view);
    assert_eq!(b.samples, a.samples);
    assert_eq!(b.norm_cutoff, a.norm_cutoff);
}

#[test]
fn draw_config_needs_one_color_and_power_per_cutoff() {
    let config = sample_config(vec![10, 100], 4, 4);
    let ok = DrawConfig {
        colors: vec![[255, 0, 0], [0, 255, 0]],
        powers: vec![b64(0.5), b64(1.0)],
        background_color: [b64(0.0), b64(0.0), b64(0.0)],
    };
    assert!(ok.compatible(&config).is_ok());
    let mut few_colors = ok.clone();
    few_colors.colors.pop();
    few_colors.powers.pop();
    match few_colors.compatible(&config) {
        Err(EscapeError::IncompatibleDrawConfig(m)) => {
            assert_eq!(m, CountMismatch { cutoffs: 2, part: ConfigPart::Colors, found: 1 })
        }
        other => panic!("unexpected {:?}", other),
    }
    let mut many_powers = ok.clone();
    many_powers.powers.push(b64(2.0));
    match many_powers.compatible(&config) {
        Err(EscapeError::IncompatibleDrawConfig(m)) => {
            assert_eq!(m, CountMismatch { cutoffs: 2, part: ConfigPart::Powers, found: 3 })
        }
        other => panic!("unexpected {:?}", other),
    }
}

#[test]
fn stl_config_needs_one_contribution_and_power_per_cutoff() {
    let config = sample_config(vec![10], 4, 4);
    let f = |v: f32| Binary32 { bits: v.to_bits() };
    let ok = StlConfig {
        contributions: vec![f(1.0)],
        powers: vec![b64(1.0)],
        width: f(10.0),
        height: f(10.0),
        min_depth: f(1.0),
        relief_height: f(2.0),
    };
    assert!(ok.compatible(&config).is_ok());
    let mut none = ok.clone();
    none.contributions.clear();
    assert!(matches!(
        none.compatible(&config),
        Err(EscapeError::IncompatibleStlConfig(CountMismatch { cutoffs: 1, part: ConfigPart::Contributions, found: 0 }))
    ));
    let mut no_powers = ok.clone();
    no_powers.powers.clear();
    assert!(matches!(
        no_powers.compatible(&config),
        Err(EscapeError::IncompatibleStlConfig(CountMismatch { cutoffs: 1, part: ConfigPart::Powers, found: 0 }))
    ));
}
