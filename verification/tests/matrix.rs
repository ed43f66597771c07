use concurrency::{multiply, Matrix, MatrixError};

#[test]
fn test_matrix_multiply() {
    let a = Matrix::new(vec![1, 2, 3, 4], 2, 2);
    let b = Matrix::new(vec![5, 6, 7, 8], 2, 2);
    let result = multiply(&a, &b).unwrap();
    assert_eq!(result.cols(), 2);
    assert_eq!(result.rows(), 2);
    assert_eq!(result.debug_string(), "Matrix(row=2, col=2, {19 22, 43 50})");
}

#[test]
fn test_matrix_display() {
    let a = Matrix::new(vec![1, 2, 3, 4, 5, 6], 3, 2);
    assert_eq!(a.debug_string(), "Matrix(row=3, col=2, {1 2, 3 4, 5 6})");
}

#[test]
fn test_matrix_can_not_multiply() {
    let a = Matrix::new(vec![1, 2, 3, 4, 5, 6], 2, 3);
    let b = Matrix::new(vec![1, 2, 3, 4, 5, 6], 2, 3);
    let ret = multiply(&a, &b);
    assert!(ret.is_err());
}

#[test]
fn test_mismatch_error_kind() {
    let a = Matrix::new(vec![1, 2, 3, 4, 5, 6], 2, 3);
    let b = Matrix::new(vec![1, 2, 3, 4, 5, 6], 2, 3);
    assert!(matches!(multiply(&a, &b), Err(MatrixError::DimensionMismatch)));
}

#[test]
fn test_three_by_two_times_two_by_two() {
    let a = Matrix::new(vec![1, 2, 3, 4, 5, 6], 3, 2);
    let b = Matrix::new(vec![7, 8, 9, 10], 2, 2);
    let m = multiply(&a, &b).unwrap();
    assert_eq!(m.rows(), 3);
    assert_eq!(m.cols(), 2);
    assert_eq!(m.display_string(), "{25 28, 57 64, 89 100}");
}

#[test]
fn test_display_negative_values() {
    let a = Matrix::new(vec![-1, 5, 0, -30], 2, 2);
    assert_eq!(a.display_string(), "{-1 5, 0 -30}");
    assert_eq!(a.debug_string(), "Matrix(row=2, col=2, {-1 5, 0 -30})");
}

#[test]
fn test_one_by_one() {
    let a = Matrix::new(vec![3], 1, 1);
    let b = Matrix::new(vec![-4], 1, 1);
    let m = multiply(&a, &b).unwrap();
    assert_eq!(m.display_string(), "{-12}");
}

#[test]
fn test_multiply_deterministic() {
    let a = Matrix::new(vec![2, -7, 11, 0, 5, 9], 2, 3);
    let b = Matrix::new(vec![1, 0, -2, 4, 6, -3], 3, 2);
    let first = multiply(&a, &b).unwrap().debug_string();
    for _ in 0..8 {
        let again = multiply(&a, &b).unwrap().debug_string();
        assert_eq!(first, again);
    }
}

#[test]
fn test_multiply_in_range_rejects_overflow() {
    let a = Matrix::new(vec![i64::MAX], 1, 1);
    let b = Matrix::new(vec![2], 1, 1);
    assert!(!concurrency::matrix::multiply_in_range(&a, &b));
    let c = Matrix::new(vec![2, 2, 3, 4], 2, 2);
    let d = Matrix::new(vec![5, 6, 7, 8], 2, 2);
    assert!(concurrency::matrix::multiply_in_range(&c, &d));
}
