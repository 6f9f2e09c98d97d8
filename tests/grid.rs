use rust_geodistances::conversions::{Array2ToVecVec, BoolArrayToVecIndex};
use rust_geodistances::grid::Grid;
use rust_geodistances::slicing::Slicable;

fn numbered(rows: usize, cols: usize) -> Grid<f64> {
    let mut data = Vec::new();
    for row in 0..rows {
        let mut r = Vec::new();
        for col in 0..cols {
            r.push((row * 10 + col) as f64);
        }
        data.push(r);
    }
    Grid::from_rows(data, cols).unwrap()
}

#[test]
fn test_unknown() {
    let shape: (usize, usize) = (10, 10);
    let array_outputs = numbered(shape.0, shape.1);
    let sector = array_outputs.sector((2, 4), (3, 20));
    println!("{:?}", sector.to_vec());
    assert_eq!(Slicable::shape(&sector), (3, 6));
    assert_eq!(sector.get(0, 0), 24.0);
    assert_eq!(sector.get(2, 5), 49.0);
}

#[test]
fn sector_outside_the_grid_is_empty() {
    let g = numbered(4, 4);
    let s = g.sector((5, 1), (2, 2));
    assert_eq!(Slicable::shape(&s), (0, 2));
    let s = g.sector((1, 7), (2, 2));
    assert_eq!(Slicable::shape(&s), (2, 0));
}

#[test]
fn sector_replace_writes_and_clips() {
    let mut g = Grid::full((3, 3), 0i32);
    let patch = Grid::full((2, 5), 7i32);
    g.sector_replace((2, 1), &patch);
    assert_eq!(
        g.to_vec(),
        vec![vec![0, 0, 0], vec![0, 0, 0], vec![0, 7, 7]]
    );
}

#[test]
fn chunks_split_rows() {
    let g = Grid::full((10, 2), 1u8);
    assert_eq!(g.chunks(4), vec![(0, 3), (3, 6), (6, 9), (9, 10)]);
    assert_eq!(g.chunks(1), vec![(0, 10)]);
    let e: Grid<u8> = Grid::empty(3);
    assert_eq!(e.chunks(4), vec![]);
}

#[test]
fn from_rows_rejects_ragged_rows() {
    assert!(Grid::from_rows(vec![vec![1, 2], vec![3]], 2).is_none());
    assert!(Grid::from_rows(vec![vec![1, 2], vec![3, 4]], 2).is_some());
    let g: Grid<i32> = Grid::from_rows(vec![], 5).unwrap();
    assert_eq!(g.shape(), (0, 5));
}

#[test]
fn transpose_swaps_rows_and_columns() {
    let g = Grid::from_rows(vec![vec![1, 2, 3], vec![4, 5, 6]], 3).unwrap();
    let t = g.transpose();
    assert_eq!(t.shape(), (3, 2));
    assert_eq!(t.to_vec(), vec![vec![1, 4], vec![2, 5], vec![3, 6]]);
}

#[test]
fn mirror_fill_copies_lower_half_up() {
    let mut g = Grid::from_rows(vec![vec![9, 9, 9], vec![1, 9, 9], vec![2, 3, 9]], 3).unwrap();
    g.mirror_fill(0);
    assert_eq!(g.to_vec(), vec![vec![0, 1, 2], vec![1, 0, 3], vec![2, 3, 0]]);
}

#[test]
fn mirror_fill_on_a_wide_grid_keeps_extra_columns() {
    let mut g = Grid::from_rows(vec![vec![9, 9, 5], vec![1, 9, 6]], 3).unwrap();
    g.mirror_fill(0);
    assert_eq!(g.to_vec(), vec![vec![0, 1, 5], vec![1, 0, 6]]);
}

#[test]
fn from_lower_triangle_builds_symmetric_grid() {
    let g = Grid::from_lower_triangle(vec![vec![], vec![4], vec![5, 6]], 0);
    assert_eq!(g.to_vec(), vec![vec![0, 4, 5], vec![4, 0, 6], vec![5, 6, 0]]);
}

#[test]
fn append_and_push_row_stack_rows() {
    let mut g = Grid::full((1, 2), 1);
    g.push_row(vec![2, 2]);
    g.append(Grid::full((2, 2), 3));
    assert_eq!(g.shape(), (4, 2));
    assert_eq!(g.into_rows(), vec![vec![1, 1], vec![2, 2], vec![3, 3], vec![3, 3]]);
}

#[test]
fn bool_grid_gives_indices_per_row() {
    let g = Grid::from_rows(
        vec![vec![true, false, true], vec![false, false, false], vec![false, true, true]],
        3,
    )
    .unwrap();
    assert_eq!(g.to_vec_of_indices(), vec![vec![0, 2], vec![], vec![1, 2]]);
}
