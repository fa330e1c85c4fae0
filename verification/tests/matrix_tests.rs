use matrix_operations::matrix::Matrix;
use matrix_operations::matrix::MatrixError;
use matrix_operations::scalar::Scalar;

/// An `f32` scalar for tests: plain IEEE arithmetic, with `0.0` as the
/// additive identity.
#[derive(Debug, Clone, Copy, PartialEq)]
struct F32(f32);

impl Scalar for F32 {
    fn spec_add(self, rhs: Self) -> Self {
        F32(self.0 + rhs.0)
    }

    fn spec_sub(self, rhs: Self) -> Self {
        F32(self.0 - rhs.0)
    }

    fn spec_mul(self, rhs: Self) -> Self {
        F32(self.0 * rhs.0)
    }

    fn spec_zero() -> Self {
        F32(0.0)
    }

    fn law_zero_identity(_x: Self) {}

    fn law_sub_self(_x: Self) {}

    fn scalar_add(self, rhs: Self) -> Self {
        F32(self.0 + rhs.0)
    }

    fn scalar_sub(self, rhs: Self) -> Self {
        F32(self.0 - rhs.0)
    }

    fn scalar_mul(self, rhs: Self) -> Self {
        F32(self.0 * rhs.0)
    }

    fn scalar_zero() -> Self {
        F32(0.0)
    }

    fn duplicate(&self) -> Self {
        F32(self.0)
    }
}

#[test]
fn test_addition() {
    let mat_ones: Matrix<i32> = Matrix::from_constant((3, 3), 1);
    assert_eq!(
        mat_ones.clone().add(mat_ones).unwrap(),
        Matrix::from_constant((3, 3), 2)
    );
}

#[test]
fn test_multiplication() {
    let mat_tens: Matrix<i32> = Matrix::from_constant((5, 5), 10);
    let mat_ones: Matrix<i32> = Matrix::from_constant((5, 5), 1);

    let product: Matrix<i32> = mat_tens.mul(mat_ones).unwrap();

    assert_eq!(product, Matrix::from_constant((5, 5), 50));
}

#[test]
fn test_subtraction() {
    let mat_ones: Matrix<i32> = Matrix::from_constant((3, 3), 1);
    assert_eq!(
        mat_ones.clone().sub(mat_ones).unwrap(),
        Matrix::default_from_dimension((3, 3))
    );
}

#[test]
fn test_diagonal_matrix_initialization() {
    let unit_matrix: Matrix<F32> = Matrix::diagonal_from_constant((5, 5), F32(1.0));
    let mat_tens: Matrix<F32> = Matrix::from_constant((5, 5), F32(10.0));

    assert_eq!(mat_tens.clone().mul(unit_matrix).unwrap(), mat_tens);
}

#[test]
fn test_diagonal_identity_integers() {
    let mat: Matrix<i32> = Matrix::from_constant((4, 4), 7);
    let unit: Matrix<i32> = Matrix::diagonal_from_constant((4, 4), 1);
    assert_eq!(mat.clone().mul(unit).unwrap(), mat);
}

#[test]
fn test_addition_dimension_mismatch() {
    let a: Matrix<i32> = Matrix::from_constant((2, 3), 1);
    let b: Matrix<i32> = Matrix::from_constant((3, 2), 1);
    assert_eq!(a.add(b), Err(MatrixError::DimensionMismatch));
}

#[test]
fn test_subtraction_dimension_mismatch() {
    let a: Matrix<i32> = Matrix::from_constant((2, 2), 1);
    let b: Matrix<i32> = Matrix::from_constant((2, 3), 1);
    assert_eq!(a.sub(b), Err(MatrixError::DimensionMismatch));
}

#[test]
fn test_multiplication_dimension_mismatch() {
    let a: Matrix<i32> = Matrix::from_constant((2, 3), 1);
    let b: Matrix<i32> = Matrix::from_constant((2, 3), 1);
    assert_eq!(a.mul(b), Err(MatrixError::DimensionMismatch));
}

#[test]
fn test_from_data_empty() {
    let data: Vec<Vec<i32>> = Vec::new();
    assert_eq!(Matrix::from_data(data), Err(MatrixError::MalformedInput));
}

#[test]
fn test_from_data_ragged() {
    let data: Vec<Vec<i32>> = vec![vec![1, 2, 3], vec![4, 5]];
    assert_eq!(Matrix::from_data(data), Err(MatrixError::MalformedInput));
}

#[test]
fn test_from_data_and_transpose() {
    let m: Matrix<i32> = Matrix::from_data(vec![vec![1, 2, 3], vec![4, 5, 6]]).unwrap();
    let expected: Matrix<i32> =
        Matrix::from_data(vec![vec![1, 4], vec![2, 5], vec![3, 6]]).unwrap();
    assert_eq!(m.transpose(), expected);
}

#[test]
fn test_transpose_involution() {
    let m: Matrix<i32> = Matrix::from_data(vec![vec![1, 2, 3], vec![4, 5, 6]]).unwrap();
    assert_eq!(m.clone().transpose().transpose(), m);
}

#[test]
fn test_diagonal_non_square() {
    let m: Matrix<i32> = Matrix::diagonal_from_constant((2, 3), 5);
    let expected: Matrix<i32> =
        Matrix::from_data(vec![vec![5, 0, 0], vec![0, 5, 0]]).unwrap();
    assert_eq!(m, expected);
}

#[test]
fn test_default_diagonal_is_zero_filled() {
    let m: Matrix<i32> = Matrix::default_diagonal((3, 3));
    assert_eq!(m, Matrix::default_from_dimension((3, 3)));
}

#[test]
fn test_default_from_rows_and_columns() {
    let m: Matrix<i32> = Matrix::default_from_rows_and_columns(2, 4);
    assert_eq!(m, Matrix::default_from_dimension((2, 4)));
}

#[test]
fn test_default_instance() {
    let m: Matrix<i32> = Matrix::default();
    assert_eq!(m, Matrix::default_from_dimension((3, 3)));
}

#[test]
fn test_rectangular_multiplication() {
    let a: Matrix<i32> = Matrix::from_constant((2, 3), 2);
    let b: Matrix<i32> = Matrix::from_constant((3, 2), 3);
    assert_eq!(a.mul(b).unwrap(), Matrix::from_constant((2, 2), 18));
}

#[test]
fn test_addition_wraps() {
    let a: Matrix<i32> = Matrix::from_constant((1, 1), i32::MAX);
    let b: Matrix<i32> = Matrix::from_constant((1, 1), 1);
    assert_eq!(a.add(b).unwrap(), Matrix::from_constant((1, 1), i32::MIN));
}

#[test]
fn test_single_cell_from_data() {
    let m: Matrix<i32> = Matrix::from_data(vec![vec![9]]).unwrap();
    assert_eq!(m, Matrix::from_constant((1, 1), 9));
}
