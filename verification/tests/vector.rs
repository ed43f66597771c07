use concurrency::{dot_product, MatrixError, Vector};

#[test]
fn test_dot_product() {
    let a = Vector::new(vec![1, 2, 3]);
    let b = Vector::new(vec![4, 5, 6]);
    assert_eq!(dot_product(a, b).unwrap(), 32);
}

#[test]
fn test_dot_product_length_mismatch() {
    let a = Vector::new(vec![1, 2, 3]);
    let b = Vector::new(vec![4, 5]);
    assert_eq!(dot_product(a, b), Err(MatrixError::DimensionMismatch));
}

#[test]
fn test_dot_product_empty() {
    let a = Vector::new(vec![]);
    let b = Vector::new(vec![]);
    assert_eq!(dot_product(a, b).unwrap(), 0);
}

#[test]
fn test_dot_in_range() {
    let a = Vector::new(vec![i64::MAX, 1]);
    let b = Vector::new(vec![2, 1]);
    assert!(!concurrency::vector::dot_in_range(&a, &b));
    let c = Vector::new(vec![1, -2, 3]);
    let d = Vector::new(vec![-4, 5, 6]);
    assert!(concurrency::vector::dot_in_range(&c, &d));
    let e = Vector::new(vec![1, -2, 3]);
    let f = Vector::new(vec![-4, 5, 6]);
    assert_eq!(dot_product(e, f).unwrap(), 4);
}
