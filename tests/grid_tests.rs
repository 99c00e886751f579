use escape::grid::{merge_grids, count_in_view, Grid};

fn grid_of(width: usize, height: usize, cells: Vec<u64>) -> Grid {
    Grid::from_cells(width, height, cells).unwrap()
}

#[test]
fn zero_grid_has_every_count_zero() {
    let g = Grid::zero(4, 3);
    assert_eq!(g.width(), 4);
    assert_eq!(g.height(), 3);
    assert_eq!(g.data(), &[0u64; 12][..]);
}

#[test]
fn increment_and_set_value_address_row_major_cells() {
    let mut g = Grid::zero(3, 2);
    g.increment(2, 1);
    g.increment(2, 1);
    g.set_value(7, 0, 1);
    assert_eq!(g.value(2, 1), 2);
    assert_eq!(g.value(0, 1), 7);
    assert_eq!(g.data(), &[0, 0, 0, 7, 0, 2][..]);
}

#[test]
fn from_cells_checks_the_cell_count() {
    assert!(Grid::from_cells(2, 2, vec![1, 2, 3]).is_none());
    assert!(Grid::from_cells(usize::MAX, 2, vec![]).is_none());
    let g = grid_of(2, 2, vec![1, 2, 3, 4]);
    assert_eq!(g.value(1, 1), 4);
}

#[test]
fn max_and_min_values() {
    let g = grid_of(3, 1, vec![5, 9, 2]);
    assert_eq!(g.max_value(), 9);
    assert_eq!(g.min_value(), Some(2));
    let empty = Grid::zero(0, 5);
    assert_eq!(empty.max_value(), 0);
    assert_eq!(empty.min_value(), None);
}

#[test]
fn normalizing_an_all_zero_grid_gives_zeros() {
    let n = Grid::zero(3, 3).to_normalized_grid();
    assert_eq!(n.scale(), 1);
    for x in 0..3 {
        for y in 0..3 {
            let (num, den) = n.value(x, y);
            assert_eq!(num, 0);
            let v = num as f64 / den as f64;
            assert!(v == 0.0 && v.is_finite());
        }
    }
}

#[test]
fn normalizing_divides_by_the_largest_count() {
    let n = grid_of(2, 2, vec![0, 2, 4, 8]).to_normalized_grid();
    assert_eq!(n.scale(), 8);
    assert_eq!(n.value(1, 0), (2, 8));
    assert_eq!(n.value(1, 1), (8, 8));
    assert_eq!(n.numerator_data(), &[0, 2, 4, 8][..]);
}

#[test]
fn merge_sums_pixel_by_pixel() {
    let grids = vec![grid_of(2, 1, vec![1, 2]), grid_of(2, 1, vec![10, 20]), grid_of(2, 1, vec![100, 200])];
    let m = merge_grids(2, 1, &grids).unwrap();
    assert_eq!(m.data(), &[111, 222][..]);
}

#[test]
fn merge_ignores_order_and_grouping() {
    let a = grid_of(2, 2, vec![1, 0, 3, 4]);
    let b = grid_of(2, 2, vec![5, 6, 0, 8]);
    let c = grid_of(2, 2, vec![9, 1, 2, 0]);
    let abc = merge_grids(2, 2, &vec![a.clone(), b.clone(), c.clone()]).unwrap();
    let cab = merge_grids(2, 2, &vec![c.clone(), a.clone(), b.clone()]).unwrap();
    let ab = merge_grids(2, 2, &vec![a, b]).unwrap();
    let ab_c = merge_grids(2, 2, &vec![ab, c]).unwrap();
    assert_eq!(abc.data(), cab.data());
    assert_eq!(abc.data(), ab_c.data());
    assert_eq!(abc.data(), &[15, 7, 5, 12][..]);
}

#[test]
fn merge_of_nothing_is_all_zero() {
    let m = merge_grids(2, 2, &vec![]).unwrap();
    assert_eq!(m.data(), &[0, 0, 0, 0][..]);
}

#[test]
fn merge_reports_an_overflowing_sum() {
    let grids = vec![grid_of(1, 1, vec![u64::MAX]), grid_of(1, 1, vec![1])];
    assert!(merge_grids(1, 1, &grids).is_none());
    let fits = vec![grid_of(1, 1, vec![u64::MAX - 1]), grid_of(1, 1, vec![1])];
    assert_eq!(merge_grids(1, 1, &fits).unwrap().value(0, 0), u64::MAX);
}

#[test]
fn record_pixels_counts_only_pixels_inside() {
    let mut g = Grid::zero(3, 2);
    let pixels = vec![(0, 0), (2, 1), (3, 0), (0, 2), (2, 1)];
    assert_eq!(g.record_pixels(&pixels), 3);
    assert_eq!(g.data(), &[1, 0, 0, 0, 0, 2][..]);
    assert_eq!(count_in_view(&pixels, 3, 2), 3);
}

#[test]
fn record_pixels_saturates_at_the_largest_count() {
    let mut g = grid_of(1, 1, vec![u64::MAX]);
    assert_eq!(g.record_pixels(&vec![(0, 0)]), 1);
    assert_eq!(g.value(0, 0), u64::MAX);
}

#[test]
fn recording_raises_the_total_by_the_pixels_inside() {
    let mut g = grid_of(2, 2, vec![3, 0, 1, 0]);
    let before: u64 = g.data().iter().sum();
    let inside = g.record_pixels(&vec![(1, 1), (5, 0), (0, 0), (1, 1)]);
    let after: u64 = g.data().iter().sum();
    assert_eq!(inside, 3);
    assert_eq!(after, before + 3);
    let unchanged = g.record_pixels(&vec![(2, 0), (0, 2)]);
    assert_eq!(unchanged, 0);
    assert_eq!(g.data().iter().sum::<u64>(), after);
}
