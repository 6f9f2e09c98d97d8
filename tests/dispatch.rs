use rust_geodistances::chunking::{chunk_bounds, chunk_size, concat_chunks};
use rust_geodistances::conversions::{indices_within, Array2ToVecVec};
use rust_geodistances::dispatch::{
    matrix_path, orient_result, point_chunks, point_path, stack_row_chunks,
    CalculationMethod, LatLngArraysCompare, MatrixPath, PointPath,
};
use rust_geodistances::grid::Grid;
use rust_geodistances::settings::{ExecutionSettings, LONG_1D_ARRAY};

/// A symmetric cell function on integer "points": their absolute difference.
fn gap(a: i64, b: i64) -> i64 {
    (a - b).abs()
}

fn brute_force(points: &[i64]) -> Vec<Vec<i64>> {
    points.iter().map(|&a| points.iter().map(|&b| gap(a, b)).collect()).collect()
}

fn symmetric_path(points: &[i64]) -> Vec<Vec<i64>> {
    let lower: Vec<Vec<i64>> = (0..points.len())
        .map(|i| points[..i].iter().map(|&b| gap(points[i], b)).collect())
        .collect();
    Grid::from_lower_triangle(lower, 0).to_vec()
}

fn points(n: usize) -> Vec<i64> {
    (0..n as i64).map(|k| (k * 37) % 101 - 50).collect()
}

#[test]
fn symmetric_path_matches_brute_force() {
    for n in [0usize, 1, 2, 50] {
        let p = points(n);
        assert_eq!(symmetric_path(&p), brute_force(&p), "n = {}", n);
    }
}

#[test]
fn boundary_shapes() {
    let empty = Grid::<i64>::from_lower_triangle(vec![], 0);
    assert_eq!(empty.shape(), (0, 0));
    let single = Grid::<i64>::from_lower_triangle(vec![vec![]], 0);
    assert_eq!(single.to_vec(), vec![vec![0]]);
    let stacked: Grid<i64> = stack_row_chunks(vec![], 4);
    assert_eq!(stacked.shape(), (0, 4));
    assert_eq!(chunk_bounds(0, 4), vec![]);
    assert_eq!(concat_chunks::<i64>(vec![]), Vec::<i64>::new());
}

fn serial(e: &[i64]) -> Vec<i64> {
    e.iter().map(|&x| x * 3 + 1).collect()
}

fn run(e: &[i64], settings: &ExecutionSettings) -> Vec<i64> {
    match point_path(e.len(), settings) {
        PointPath::Serial => serial(e),
        PointPath::Parallel => {
            let parts = point_chunks(e.len(), settings)
                .into_iter()
                .map(|(lo, hi)| serial(&e[lo..hi]))
                .collect();
            concat_chunks(parts)
        }
    }
}

#[test]
fn serial_and_parallel_paths_agree_around_the_threshold() {
    let settings = ExecutionSettings::new(None, None, Some(3), 8);
    for len in [LONG_1D_ARRAY - 1, LONG_1D_ARRAY, LONG_1D_ARRAY + 1] {
        let e: Vec<i64> = (0..len as i64).collect();
        let expected_path = if len >= LONG_1D_ARRAY { PointPath::Parallel } else { PointPath::Serial };
        assert_eq!(point_path(len, &settings), expected_path);
        assert_eq!(run(&e, &settings), serial(&e));
        let parts: Vec<Vec<i64>> = point_chunks(len, &settings)
            .into_iter()
            .map(|(lo, hi)| serial(&e[lo..hi]))
            .collect();
        assert_eq!(concat_chunks(parts), serial(&e));
    }
}

#[test]
fn chunk_size_rounds_up() {
    assert_eq!(chunk_size(10, 4), 3);
    assert_eq!(chunk_size(12, 4), 3);
    assert_eq!(chunk_size(0, 4), 0);
    assert_eq!(chunk_size(3, 8), 1);
    assert_eq!(chunk_size(usize::MAX, 2), usize::MAX / 2 + 1);
}

#[test]
fn chunk_bounds_are_contiguous_and_ordered() {
    assert_eq!(chunk_bounds(10, 4), vec![(0, 3), (3, 6), (6, 9), (9, 10)]);
    assert_eq!(chunk_bounds(8193, 4), vec![(0, 2049), (2049, 4098), (4098, 6147), (6147, 8193)]);
    assert_eq!(chunk_bounds(3, 8), vec![(0, 1), (1, 2), (2, 3)]);
    assert_eq!(chunk_bounds(5, 1), vec![(0, 5)]);
}

#[test]
fn concat_keeps_chunk_order() {
    assert_eq!(concat_chunks(vec![vec![1, 2], vec![], vec![3], vec![4, 5]]), vec![1, 2, 3, 4, 5]);
}

#[test]
fn stack_row_chunks_keeps_order() {
    let a = Grid::full((2, 2), 1);
    let b = Grid::full((1, 2), 2);
    let g = stack_row_chunks(vec![a, b], 2);
    assert_eq!(g.to_vec(), vec![vec![1, 1], vec![1, 1], vec![2, 2]]);
}

#[test]
fn point_path_switches_at_threshold() {
    let settings = ExecutionSettings::new(None, Some(100), None, 4);
    assert_eq!(point_path(99, &settings), PointPath::Serial);
    assert_eq!(point_path(100, &settings), PointPath::Parallel);
    assert_eq!(point_path(101, &settings), PointPath::Parallel);
}

#[test]
fn matrix_path_picks_orientation() {
    assert_eq!(matrix_path(5, 5, true), MatrixPath::Symmetric);
    assert_eq!(matrix_path(6, 5, false), MatrixPath::Direct);
    assert_eq!(matrix_path(5, 5, false), MatrixPath::Transposed);
    assert_eq!(matrix_path(2, 9, false), MatrixPath::Transposed);
}

#[test]
fn transposed_computation_is_returned_in_caller_orientation() {
    let s = [1i64, 2];
    let e = [10i64, 20, 30];
    // Computed with the destinations as rows.
    let computed = Grid::from_rows(
        e.iter().map(|&b| s.iter().map(|&a| a * 100 + b).collect()).collect(),
        s.len(),
    )
    .unwrap();
    let path = matrix_path(s.len(), e.len(), false);
    assert_eq!(path, MatrixPath::Transposed);
    let r = orient_result(computed, path);
    assert_eq!(r.to_vec(), vec![vec![110, 120, 130], vec![210, 220, 230]]);
    let direct = Grid::full((2, 1), 5);
    assert_eq!(orient_result(direct, MatrixPath::Direct).to_vec(), vec![vec![5], vec![5]]);
}

#[test]
fn indices_within_lists_true_positions() {
    assert_eq!(indices_within(&vec![false, true, true, false, true]), vec![1, 2, 4]);
    assert_eq!(indices_within(&vec![]), Vec::<usize>::new());
    assert_eq!(indices_within(&vec![false, false]), Vec::<usize>::new());
}

#[test]
fn default_method_is_haversine() {
    assert_eq!(CalculationMethod::default(), CalculationMethod::HAVERSINE);
}

#[test]
fn arrays_compare_with_one_or_two_arrays() {
    let one = LatLngArraysCompare::new(vec![1, 2, 3], None);
    assert_eq!(one.unique_array_count(), 1);
    let (s, e) = one.arrays();
    assert_eq!(s, e);
    assert_eq!(one.path(), MatrixPath::Symmetric);
    let two = LatLngArraysCompare::new(vec![1, 2, 3], Some(vec![4]));
    assert_eq!(two.unique_array_count(), 2);
    assert_eq!(two.arrays().1, &vec![4]);
    assert_eq!(two.path(), MatrixPath::Direct);
}
