use train_trm::Matrix;

fn sample() -> Matrix<i32> {
    Matrix::from_rows(vec![vec![1, 2, 3], vec![4, 5, 6]], 3).unwrap()
}

#[test]
fn filled_matrix_has_shape_and_value() {
    let m = Matrix::filled(2, 3, 7u8);
    assert_eq!(m.num_rows(), 2);
    assert_eq!(m.num_cols(), 3);
    assert_eq!(m.into_rows(), vec![vec![7, 7, 7], vec![7, 7, 7]]);
}

#[test]
fn empty_matrix_keeps_its_width() {
    let m: Matrix<i32> = Matrix::filled(0, 4, 0);
    assert_eq!(m.num_rows(), 0);
    assert_eq!(m.num_cols(), 4);
}

#[test]
fn ragged_rows_are_refused() {
    assert!(Matrix::from_rows(vec![vec![1, 2], vec![3]], 2).is_none());
    assert!(Matrix::from_rows(vec![vec![1, 2]], 3).is_none());
}

#[test]
fn entries_and_rows_are_read_back() {
    let m = sample();
    assert_eq!(m.get(1, 2), 6);
    assert_eq!(m.row(0), &vec![1, 2, 3]);
}

#[test]
fn take_columns_keeps_leading_entries() {
    let m = sample().take_columns(2);
    assert_eq!(m.num_cols(), 2);
    assert_eq!(m.into_rows(), vec![vec![1, 2], vec![4, 5]]);
}

#[test]
fn pad_columns_fills_to_width() {
    let m = sample().pad_columns(5, 0);
    assert_eq!(m.num_cols(), 5);
    assert_eq!(m.into_rows(), vec![vec![1, 2, 3, 0, 0], vec![4, 5, 6, 0, 0]]);
}

#[test]
fn concat_columns_joins_rows() {
    let right = Matrix::from_rows(vec![vec![9], vec![8]], 1).unwrap();
    let m = sample().concat_columns(&right);
    assert_eq!(m.num_cols(), 4);
    assert_eq!(m.into_rows(), vec![vec![1, 2, 3, 9], vec![4, 5, 6, 8]]);
}
