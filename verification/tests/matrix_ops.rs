use matrix::Matrix;

#[test]
fn basic_matrix_transpose() {
    let mut m = Matrix::from(vec![vec![3, 5, 1], vec![2, 9, -1], vec![3, -1, -2]]);
    m.transpose();

    let n = Matrix::from(vec![vec![3, 2, 3], vec![5, 9, -1], vec![1, -1, -2]]);

    assert_eq!(m, n);
}

#[test]
fn basic_matrix_add() {
    let m = Matrix::from(vec![vec![1, 2, 3], vec![4, 5, 6], vec![7, 8, 9]]);
    let n = Matrix::from(vec![vec![-1, -2, -3], vec![4, -5, -6], vec![-7, 0, -9]]);
    let r = Matrix::from(vec![vec![0, 0, 0], vec![8, 0, 0], vec![0, 8, 0]]);

    assert_eq!(m.add_owned(n), r);
}

#[test]
fn basic_matrix_multiply() {
    let m = Matrix::from(vec![vec![2, 1], vec![-1, 1]]);
    let n = Matrix::from(vec![vec![-1, 3], vec![2, 2]]);
    let r = Matrix::from(vec![vec![0, 8], vec![3, -1]]);

    assert_eq!(m.mul_owned(n), r);
}

#[test]
fn basic_matrix_index_access() {
    let m = Matrix::from(vec![vec![3, 5, 9], vec![2, 2, 7], vec![3, 5, 5]]);

    assert_eq!(m.at(1, 2), 7);
    assert_eq!(m.at(0, 1), 5);
}

#[test]
fn basic_matrix_row_slice() {
    let m = Matrix::from(vec![vec![1, 1, 2, 2], vec![3, 3, 4, 4], vec![5, 5, 6, 6], vec![
        7, 7, 9, 10,
    ]]);
    let n = m.slice(&vec![1, 2]);
    let p = Matrix::from(vec![vec![3, 3, 4, 4], vec![5, 5, 6, 6]]);

    assert_eq!(n, p);
}

#[test]
fn transpose_twice_gives_original() {
    let mut m = Matrix::from(vec![vec![1, 2, 3], vec![4, 5, 6]]);
    m.transpose();
    m.transpose();

    assert_eq!(m, Matrix::from(vec![vec![1, 2, 3], vec![4, 5, 6]]));
}

#[test]
fn transpose_swaps_shape() {
    let mut m = Matrix::from(vec![vec![1, 2, 3], vec![4, 5, 6]]);
    assert_eq!(m.rows(), 2);
    assert_eq!(m.cols(), 3);
    m.transpose();
    assert_eq!(m.rows(), 3);
    assert_eq!(m.cols(), 2);
}

#[test]
fn add_commutes() {
    let a = Matrix::from(vec![vec![1, -2], vec![30, 4]]);
    let b = Matrix::from(vec![vec![5, 6], vec![-70, 8]]);

    assert_eq!(a.add(&b), b.add(&a));
}

#[test]
fn add_zero_is_identity() {
    let a = Matrix::from(vec![vec![9, -3, 0], vec![2, 11, -5]]);
    let z = Matrix::new(2, 3);

    assert_eq!(a.add(&z), a);
}

#[test]
fn mul_is_associative() {
    let a = Matrix::from(vec![vec![1, 2], vec![3, 4], vec![-1, 0]]);
    let b = Matrix::from(vec![vec![2, 0, 1], vec![-1, 3, 2]]);
    let c = Matrix::from(vec![vec![1, -1], vec![0, 2], vec![3, 1]]);

    let left = a.mul(&b).mul(&c);
    let right = a.mul(&b.mul(&c));

    assert_eq!(left, right);
}

#[test]
fn slice_keeps_order_and_repetition() {
    let m = Matrix::from(vec![vec![0, 1], vec![10, 11], vec![20, 21]]);
    let s = m.slice(&vec![2, 0, 2]);
    let expected = Matrix::from(vec![vec![20, 21], vec![0, 1], vec![20, 21]]);

    assert_eq!(s, expected);
}

#[test]
fn slice_of_nothing_is_empty() {
    let m = Matrix::from(vec![vec![1, 2], vec![3, 4]]);
    let s = m.slice(&vec![]);

    assert_eq!(s.rows(), 0);
    assert_eq!(s.cols(), 0);
}

#[test]
fn new_is_zero_filled() {
    let m = Matrix::new(2, 3);

    assert_eq!(m.rows(), 2);
    assert_eq!(m.cols(), 3);
    for i in 0..2 {
        for j in 0..3 {
            assert_eq!(m.at(i, j), 0);
        }
    }
}

#[test]
fn from_empty_gives_empty_matrix() {
    let m = Matrix::from(Vec::<Vec<i64>>::new());

    assert_eq!(m.rows(), 0);
    assert_eq!(m.cols(), 0);
}

#[test]
fn into_rows_returns_storage() {
    let m = Matrix::from(vec![vec![1, 2], vec![3, 4]]);

    assert_eq!(m.into_rows(), vec![vec![1, 2], vec![3, 4]]);
}

#[test]
fn checked_add_matches_add() {
    let a = Matrix::from(vec![vec![1, 2], vec![3, 4]]);
    let b = Matrix::from(vec![vec![10, 20], vec![30, 40]]);

    assert_eq!(a.checked_add(&b).unwrap(), a.add(&b));
}

#[test]
fn checked_add_rejects_shape_mismatch() {
    let a = Matrix::from(vec![vec![1, 2], vec![3, 4]]);
    let b = Matrix::from(vec![vec![1, 2, 3], vec![4, 5, 6]]);

    assert!(a.checked_add(&b).is_none());
}

#[test]
fn checked_mul_rejects_shape_mismatch() {
    let a = Matrix::from(vec![vec![1, 2], vec![3, 4]]);
    let b = Matrix::from(vec![vec![1, 2], vec![3, 4], vec![5, 6]]);

    assert!(a.checked_mul(&b).is_none());
}

#[test]
fn checked_add_rejects_overflow() {
    let a = Matrix::from(vec![vec![i64::MAX]]);
    let b = Matrix::from(vec![vec![1]]);

    assert!(a.checked_add(&b).is_none());
}

#[test]
fn checked_mul_rejects_overflow() {
    let a = Matrix::from(vec![vec![i64::MAX]]);
    let b = Matrix::from(vec![vec![2]]);

    assert!(a.checked_mul(&b).is_none());
}

#[test]
fn checked_mul_matches_mul() {
    let a = Matrix::from(vec![vec![2, 1], vec![-1, 1]]);
    let b = Matrix::from(vec![vec![-1, 3], vec![2, 2]]);

    assert_eq!(a.checked_mul(&b).unwrap(), a.mul(&b));
}
