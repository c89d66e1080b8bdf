use infera::engine::{blob_input_shape, input_cols_fit, known_elements, shape_rows_cols};
use infera::error::InferaError;

#[test]
fn test_shape_rows_cols() {
    assert_eq!(shape_rows_cols(&[]), (1, 1));
    assert_eq!(shape_rows_cols(&[5]), (5, 1));
    assert_eq!(shape_rows_cols(&[2, 3]), (2, 3));
    assert_eq!(shape_rows_cols(&[2, 3, 4]), (2, 12));
    assert_eq!(shape_rows_cols(&[1, 1, 1, 1]), (1, 1));
}

#[test]
fn zero_dimension_gives_one_column() {
    assert_eq!(shape_rows_cols(&[4, 0, 7]), (4, 1));
    assert_eq!(shape_rows_cols(&[3, 1 << 40, 1 << 40, 0]), (3, 1));
}

#[test]
fn input_columns() {
    assert!(input_cols_fit(&[-1, 3], 3));
    assert!(!input_cols_fit(&[-1, 3], 2));
    assert!(input_cols_fit(&[1, 2, 3], 6));
    assert!(input_cols_fit(&[1, -1], 17));
    assert!(input_cols_fit(&[], 4));
    assert!(!input_cols_fit(&[1, i64::MAX, i64::MAX], 5));
}

#[test]
fn element_counts() {
    assert_eq!(known_elements(&[-1, 3, 4]), Some(12));
    assert_eq!(known_elements(&[]), Some(1));
    assert_eq!(known_elements(&[i64::MAX, i64::MAX]), None);
}

#[test]
fn blob_shapes() {
    assert_eq!(blob_input_shape(&[-1, 3], 5), Err(InferaError::InvalidBlobSize));
    assert_eq!(
        blob_input_shape(&[-1, 3], 16),
        Err(InferaError::BlobShapeMismatch { expected: 3, actual: 4 })
    );
    assert_eq!(blob_input_shape(&[-1, 3], 24), Ok(vec![2, 3]));
    assert_eq!(blob_input_shape(&[1, 3], 12), Ok(vec![1, 3]));
    assert_eq!(blob_input_shape(&[-1, 2, -1], 32), Ok(vec![4, 2, 4]));
}
