use matrix::Matrix;
use matrix::Mul;

fn from_grid(grid: Vec<Vec<i64>>) -> Matrix<i64> {
    let rows = grid.len();
    let cols = grid[0].len();
    Matrix::new(rows, cols, 0i64).set_state(grid, rows, cols).unwrap()
}

#[test]
fn transpose_exact_values() {
    let a = from_grid(vec![vec![1i64, 2, 3], vec![4, 5, 6]]);
    let t = a.transpose();
    assert_eq!(t.get_row(), 3);
    assert_eq!(t.get_col(), 2);
    assert_eq!(t.get_state(), &vec![vec![1i64, 4], vec![2, 5], vec![3, 6]]);
}

#[test]
fn transpose_twice_is_identity() {
    let a = from_grid(vec![vec![1i64, 2, 3], vec![4, 5, 6]]);
    let expected = a.get_state().clone();
    let t = a.transpose().transpose();
    assert_eq!(t.get_row(), 2);
    assert_eq!(t.get_col(), 3);
    assert_eq!(t.get_state(), &expected);
}

#[test]
fn tensor_of_column_ones() {
    let a = Matrix::new(2, 1, 1i64);
    let b = Matrix::new(2, 1, 1i64);
    let c = a.tensor(&b);
    assert_eq!(c.get_row(), 4);
    assert_eq!(c.get_col(), 1);
    assert_eq!(c.get_state(), &vec![vec![1i64], vec![1], vec![1], vec![1]]);
}

#[test]
fn tensor_exact_values() {
    let a = from_grid(vec![vec![1i64, 2]]);
    let b = from_grid(vec![vec![3i64], vec![4]]);
    let c = a.tensor(&b);
    assert_eq!(c.get_row(), 2);
    assert_eq!(c.get_col(), 2);
    assert_eq!(c.get_state(), &vec![vec![3i64, 6], vec![4, 8]]);
}

#[test]
fn tensor_block_layout() {
    let a = from_grid(vec![vec![1i64, 2], vec![3, 4]]);
    let b = from_grid(vec![vec![0i64, 5], vec![6, 7]]);
    let c = a.tensor(&b);
    assert_eq!(c.get_row(), 4);
    assert_eq!(c.get_col(), 4);
    let expected = vec![
        vec![0i64, 5, 0, 10],
        vec![6, 7, 12, 14],
        vec![0, 15, 0, 20],
        vec![18, 21, 24, 28],
    ];
    assert_eq!(c.get_state(), &expected);
}

#[test]
fn set_state_replaces_contents() {
    let m = Matrix::new(2, 2, 0i64);
    let m = m.set_state(vec![vec![1i64, 2], vec![3, 4]], 2, 2).unwrap();
    assert_eq!(m.get_row(), 2);
    assert_eq!(m.get_col(), 2);
    assert_eq!(m.get_state(), &vec![vec![1i64, 2], vec![3, 4]]);
}

#[test]
fn set_state_rejects_wrong_grid() {
    let m = Matrix::new(2, 2, 0i64);
    let e = m.set_state(vec![vec![1i64, 2, 3]], 2, 2).unwrap_err();
    assert_eq!(e, "The value of col or row and the size of state are different");
}

#[test]
fn set_state_rejects_ragged_grid() {
    let m = Matrix::new(2, 2, 0i64);
    let e = m.set_state(vec![vec![1i64, 2], vec![3]], 2, 2).unwrap_err();
    assert_eq!(e, "The value of col or row and the size of state are different");
}

#[test]
fn set_state_rejects_other_shape() {
    let m = Matrix::new(2, 2, 0i64);
    let grid = vec![vec![1i64, 2, 3], vec![4, 5, 6], vec![7, 8, 9]];
    let e = m.set_state(grid, 3, 3).unwrap_err();
    assert_eq!(e, "Both the matrix and the state are not the same size");
}

#[test]
fn scalar_then_matrix_mul() {
    let a = from_grid(vec![vec![1i64, 0], vec![0, 1]]);
    let b = from_grid(vec![vec![2i64, 3], vec![4, 5]]);
    let scaled = a.Mul(2i64);
    let c = scaled.Mul(b);
    assert_eq!(c.get_state(), &vec![vec![4i64, 6], vec![8, 10]]);
}
