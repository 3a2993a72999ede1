use matrixkit::error::MatrixError;
use matrixkit::matrix::Matrix;
use matrixkit::scalar::Scalar;

#[derive(Clone, Copy, PartialEq, Eq, Debug)]
struct I64v(i64);

impl Scalar for I64v {
    fn zero_spec() -> Self {
        I64v(0)
    }

    fn one_spec() -> Self {
        I64v(1)
    }

    fn add_spec(self, rhs: Self) -> Self {
        I64v(self.0.wrapping_add(rhs.0))
    }

    fn mul_spec(self, rhs: Self) -> Self {
        I64v(self.0.wrapping_mul(rhs.0))
    }

    fn div_spec(self, rhs: Self) -> Self {
        if rhs.0 == 0 {
            I64v(0)
        } else {
            I64v(self.0.wrapping_div(rhs.0))
        }
    }

    fn exp_spec(self) -> Self {
        self
    }

    fn zero() -> Self {
        I64v(0)
    }

    fn one() -> Self {
        I64v(1)
    }

    fn add_val(self, rhs: Self) -> Self {
        I64v(self.0.wrapping_add(rhs.0))
    }

    fn mul_val(self, rhs: Self) -> Self {
        I64v(self.0.wrapping_mul(rhs.0))
    }

    fn div_val(self, rhs: Self) -> Self {
        if rhs.0 == 0 {
            I64v(0)
        } else {
            I64v(self.0.wrapping_div(rhs.0))
        }
    }

    fn exp_val(self) -> Self {
        self
    }
}

fn int_rows(rows: Vec<Vec<i64>>) -> Vec<Vec<I64v>> {
    rows.into_iter()
        .map(|row| row.into_iter().map(I64v).collect())
        .collect()
}

#[test]
fn identity_has_ones_on_diagonal_only() {
    let mat: Matrix<I64v> = Matrix::identity(3);
    let flat: Vec<i64> = mat.data().iter().map(|x| x.0).collect();
    assert_eq!(flat, vec![1, 0, 0, 0, 1, 0, 0, 0, 1]);
    assert_eq!(mat.n, 3);
    assert_eq!(mat.m, 3);
}

#[test]
fn new_fills_every_entry() {
    let mat: Matrix<i64> = Matrix::new(7, 2, 3);
    assert_eq!(mat.data(), &vec![7, 7, 7, 7, 7, 7]);
}

#[test]
fn add_rejects_mismatched_shapes() {
    let a: Matrix<I64v> = Matrix::from_rows(int_rows(vec![vec![1, 2], vec![3, 4]])).unwrap();
    let b: Matrix<I64v> =
        Matrix::from_rows(int_rows(vec![vec![1, 2, 3], vec![4, 5, 6]])).unwrap();
    assert!(matches!(a.add(&b), Err(MatrixError::DimensionMismatch)));
}

#[test]
fn matmul_rejects_mismatched_inner_dimensions() {
    let a: Matrix<I64v> =
        Matrix::from_rows(int_rows(vec![vec![1, 2], vec![3, 4], vec![5, 6]])).unwrap();
    let b: Matrix<I64v> =
        Matrix::from_rows(int_rows(vec![vec![1, 2], vec![3, 4], vec![5, 6]])).unwrap();
    assert!(matches!(a.matmul(&b), Err(MatrixError::DimensionMismatch)));
}

#[test]
fn matmul_exact_integer_product() {
    let a: Matrix<I64v> = Matrix::from_rows(int_rows(vec![vec![2, 0], vec![0, 2]])).unwrap();
    let b: Matrix<I64v> = Matrix::from_rows(int_rows(vec![vec![5, 6], vec![7, 8]])).unwrap();
    let p = a.matmul(&b).unwrap();
    let flat: Vec<i64> = p.data().iter().map(|x| x.0).collect();
    assert_eq!(flat, vec![10, 12, 14, 16]);
}

#[test]
fn from_rows_rejects_no_rows() {
    let rows: Vec<Vec<f32>> = Vec::new();
    let r: Result<Matrix<f32>, MatrixError> = Matrix::from_rows(rows);
    assert!(matches!(r, Err(MatrixError::EmptyInput)));
}

#[test]
fn from_rows_rejects_empty_first_row() {
    let rows: Vec<Vec<f32>> = vec![Vec::new(), vec![1.0_f32]];
    let r: Result<Matrix<f32>, MatrixError> = Matrix::from_rows(rows);
    assert!(matches!(r, Err(MatrixError::EmptyInput)));
}

#[test]
fn from_rows_rejects_ragged_rows() {
    let rows: Vec<Vec<f32>> = vec![vec![1.0, 2.0], vec![3.0]];
    let r: Result<Matrix<f32>, MatrixError> = Matrix::from_rows(rows);
    assert!(matches!(r, Err(MatrixError::RowLengthMismatch)));
}

#[test]
fn from_row_slices_rejects_ragged_rows() {
    let data: &[&[f32]] = &[&[1.0, 2.0], &[3.0, 4.0, 5.0]];
    let r: Result<Matrix<f32>, MatrixError> = Matrix::from_row_slices(data);
    assert!(matches!(r, Err(MatrixError::RowLengthMismatch)));
}

#[test]
fn get_row_rejects_out_of_range_index() {
    let mat: Matrix<f32> = Matrix::new(0.5_f32, 2, 2);
    assert!(matches!(mat.get_row(2), Err(MatrixError::IndexOutOfBounds)));
}

#[test]
fn get_col_rejects_out_of_range_index() {
    let mat: Matrix<f32> = Matrix::new(0.5_f32, 2, 2);
    assert!(matches!(mat.get_col(5), Err(MatrixError::IndexOutOfBounds)));
}

#[test]
fn transpose_twice_restores_the_matrix() {
    let rows: Vec<Vec<f32>> = vec![vec![1.0, 2.0, 3.0], vec![4.0, 5.0, 6.0]];
    let mat: Matrix<f32> = Matrix::from_rows(rows).unwrap();
    let back = mat.transpose().transpose();
    assert_eq!(back.n, mat.n);
    assert_eq!(back.m, mat.m);
    assert_eq!(back.data(), mat.data());
}

#[test]
fn transpose_swaps_shape() {
    let mat: Matrix<f32> = Matrix::new(1.5_f32, 4, 3);
    let t = mat.transpose();
    assert_eq!(t.n, 3);
    assert_eq!(t.m, 4);
}

#[test]
fn error_descriptions_are_stable() {
    assert_eq!(MatrixError::DimensionMismatch.describe(), "dimension mismatch");
    assert_eq!(MatrixError::IndexOutOfBounds.describe(), "index out of bounds");
    assert_eq!(MatrixError::EmptyInput.describe(), "empty input");
    assert_eq!(MatrixError::RowLengthMismatch.describe(), "row length mismatch");
}

#[test]
fn layout_places_tabs_and_newlines() {
    let cells: Vec<String> = vec![
        "1".to_string(),
        "2".to_string(),
        "3".to_string(),
        "4".to_string(),
    ];
    assert_eq!(matrixkit::render::layout_grid(&cells, 2), "\n1\t2\t\n3\t4\t");
}
