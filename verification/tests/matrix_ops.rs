use matrix::Add;
use matrix::Matrix;
use matrix::Mul;
use matrix::Sub;

fn from_grid(grid: Vec<Vec<i64>>) -> Matrix<i64> {
    let rows = grid.len();
    let cols = grid[0].len();
    Matrix::new(rows, cols, 0i64).set_state(grid, rows, cols).unwrap()
}

#[test]
fn new_fills_grid() {
    let m = Matrix::new(2, 3, 5i64);
    assert_eq!(m.get_row(), 2);
    assert_eq!(m.get_col(), 3);
    assert_eq!(m.get_state(), &vec![vec![5i64, 5, 5], vec![5, 5, 5]]);
}

#[test]
fn new_zero_sized() {
    let m = Matrix::new(0, 0, 1i64);
    assert_eq!(m.get_row(), 0);
    assert_eq!(m.get_col(), 0);
    assert!(m.get_state().is_empty());
}

#[test]
fn add_ones_and_twos() {
    let a = Matrix::new(2, 2, 1i64);
    let b = Matrix::new(2, 2, 2i64);
    let c = a.Add(b);
    assert_eq!(c.get_row(), 2);
    assert_eq!(c.get_col(), 2);
    assert_eq!(c.get_state(), &vec![vec![3i64, 3], vec![3, 3]]);
}

#[test]
fn add_exact_values() {
    let a = from_grid(vec![vec![1i64, 2], vec![3, 4]]);
    let b = from_grid(vec![vec![10i64, 20], vec![30, 40]]);
    let c = a.Add(b);
    assert_eq!(c.get_state(), &vec![vec![11i64, 22], vec![33, 44]]);
}

#[test]
fn sub_exact_values() {
    let a = from_grid(vec![vec![11i64, 22], vec![33, 44]]);
    let b = from_grid(vec![vec![1i64, 2], vec![3, 4]]);
    let c = a.Sub(b);
    assert_eq!(c.get_state(), &vec![vec![10i64, 20], vec![30, 40]]);
}

#[test]
fn add_sub_round_trip() {
    let a = from_grid(vec![vec![1i64, 2, 3], vec![4, 5, 6]]);
    let b = from_grid(vec![vec![7i64, 8, 9], vec![10, 11, 12]]);
    let expected = a.get_state().clone();
    let c = a.Add(b);
    let b_again = from_grid(vec![vec![7i64, 8, 9], vec![10, 11, 12]]);
    let d = c.Sub(b_again);
    assert_eq!(d.get_row(), 2);
    assert_eq!(d.get_col(), 3);
    assert_eq!(d.get_state(), &expected);
}

#[test]
fn scalar_mul_exact_values() {
    let a = from_grid(vec![vec![1i64, 2], vec![3, 4]]);
    let c = a.Mul(5i64);
    assert_eq!(c.get_row(), 2);
    assert_eq!(c.get_col(), 2);
    assert_eq!(c.get_state(), &vec![vec![5i64, 10], vec![15, 20]]);
}

#[test]
fn scalar_mul_identity() {
    let a = from_grid(vec![vec![1i64, -2], vec![3, 4]]);
    let expected = a.get_state().clone();
    let c = a.Mul(1i64);
    assert_eq!(c.get_state(), &expected);
}

#[test]
fn matrix_mul_exact_values() {
    let a = from_grid(vec![vec![1i64, 2], vec![3, 4]]);
    let b = from_grid(vec![vec![5i64, 6], vec![7, 8]]);
    let c = a.Mul(b);
    assert_eq!(c.get_row(), 2);
    assert_eq!(c.get_col(), 2);
    assert_eq!(c.get_state(), &vec![vec![19i64, 22], vec![43, 50]]);
}

#[test]
fn matrix_mul_rectangular() {
    let a = from_grid(vec![vec![1i64, 1, 1], vec![1, 1, 1]]);
    let b = from_grid(vec![vec![1i64, 1], vec![1, 1], vec![1, 1]]);
    let c = a.Mul(b);
    assert_eq!(c.get_row(), 2);
    assert_eq!(c.get_col(), 2);
    assert_eq!(c.get_state(), &vec![vec![3i64, 3], vec![3, 3]]);
}

#[test]
fn zero_keeps_shape() {
    let a = Matrix::new(2, 3, 7i64);
    let z = a.zero();
    assert_eq!(z.get_row(), 2);
    assert_eq!(z.get_col(), 3);
    assert_eq!(z.get_state(), &vec![vec![0i64, 0, 0], vec![0, 0, 0]]);
}
