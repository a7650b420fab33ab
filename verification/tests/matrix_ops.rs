use matrix::error::MatrixError;
use matrix::matrix::Matrix;

#[test]
fn create_matrix() {
    let matrix = Matrix::create(2, 3, vec![1i64, 2, 3, 4, 5, 6]).unwrap();
    assert_eq!(matrix.get_row(), 2);
    assert_eq!(matrix.get_column(), 3);
    assert_eq!(matrix.get_value(2, 1), 4);
}

#[test]
fn invalid_length() {
    let err = match Matrix::create(1, 1, vec![2, 3]) {
        Ok(_) => panic!("wtf"),
        Err(err) => err,
    };
    let message = MatrixError::InvalidLength {
        expected: 1,
        found: 2,
    }
    .message();
    assert_eq!(message, err.message());
}

#[test]
fn add_two_matrix() {
    let x_matrix = Matrix::create(2, 3, vec![1i64, 2, 3, 4, 5, 6]).unwrap();
    let y_matrix = Matrix::create(2, 3, vec![2i64, 3, 4, 5, 6, 7]).unwrap();
    let new_matrix = x_matrix.add(&y_matrix).unwrap();

    assert_eq!(new_matrix.get_value(1, 1), 3);
    assert_eq!(new_matrix.get_value(1, 2), 5);
    assert_eq!(new_matrix.get_value(1, 3), 7);
    assert_eq!(new_matrix.get_value(2, 1), 9);
    assert_eq!(new_matrix.get_value(2, 2), 11);
    assert_eq!(new_matrix.get_value(2, 3), 13);
}

#[test]
fn failed_calculate_add() {
    let x_matrix = Matrix::create(2, 2, vec![1i64, 2, 3, 4]).unwrap();
    let y_matrix = Matrix::create(2, 3, vec![2i64, 3, 4, 5, 6, 7]).unwrap();
    let error = x_matrix.add(&y_matrix).err().unwrap();

    assert_eq!(
        MatrixError::CannotCalculate {
            x_row: 2,
            x_column: 2,
            y_row: 2,
            y_column: 3
        },
        error
    );
}

#[test]
fn cross_two_matrix() {
    let x_matrix = Matrix::create(2, 2, vec![1i64, 2, 3, 4]).unwrap();
    let y_matrix = Matrix::create(2, 3, vec![2i64, 3, 4, 5, 6, 7]).unwrap();
    let new_matrix = x_matrix.cross(&y_matrix).unwrap();
    assert_eq!(new_matrix.get_value(1, 1), 12);
    assert_eq!(new_matrix.get_value(1, 2), 15);
    assert_eq!(new_matrix.get_value(1, 3), 18);
    assert_eq!(new_matrix.get_value(2, 1), 26);
    assert_eq!(new_matrix.get_value(2, 2), 33);
    assert_eq!(new_matrix.get_value(2, 3), 40);
}

#[test]
fn failed_calculate_cross() {
    let x_matrix = Matrix::create(2, 3, vec![2i64, 3, 4, 5, 6, 7]).unwrap();
    let y_matrix = Matrix::create(2, 3, vec![2i64, 3, 4, 5, 6, 7]).unwrap();
    let error = x_matrix.cross(&y_matrix);
    assert_eq!(
        MatrixError::CannotCalculate {
            x_row: 2,
            x_column: 3,
            y_row: 2,
            y_column: 3
        },
        error.err().unwrap()
    );
}

#[test]
fn create_unit_matrix() {
    let unit: Matrix<i64> = Matrix::create_unit_matrix(2);
    let sample = Matrix::create(2, 2, vec![1i64, 0, 0, 1]).unwrap();
    assert_eq!(unit.get_value(1, 1), sample.get_value(1, 1));
    assert_eq!(unit.get_value(1, 2), sample.get_value(1, 2));
    assert_eq!(unit.get_value(2, 1), sample.get_value(2, 1));
    assert_eq!(unit.get_value(2, 2), sample.get_value(2, 2));
}

#[test]
fn check_regular() {
    let regular_matrix = Matrix::create(2, 2, vec![1, 2, 3, 1]).unwrap();
    let non_regular_matrix = Matrix::create(2, 2, vec![1, 2, 3, 6]).unwrap();
    assert_eq!(regular_matrix.check_regular().unwrap(), true);
    assert_eq!(non_regular_matrix.check_regular().unwrap(), false);
}

#[test]
fn failed_check_regular() {
    let invalid_shape_matrix = Matrix::create(1, 1, vec![1]).unwrap();
    assert_eq!(
        invalid_shape_matrix.check_regular().err().unwrap(),
        MatrixError::NonSupportedMatrixShape { row: 1, column: 1 }
    );
}

#[test]
fn inverse_matrix() {
    let matrix = Matrix::create(2, 2, vec![9, 2, 4, 1]).unwrap();
    let inverse = matrix.inverse_matrix().unwrap();
    assert_eq!(inverse.get_value(1, 1), 1);
    assert_eq!(inverse.get_value(1, 2), -4);
    assert_eq!(inverse.get_value(2, 1), -2);
    assert_eq!(inverse.get_value(2, 2), 9);
}

#[test]
fn failed_calculate_inverse() {
    let matrix = Matrix::create(2, 2, vec![1, 2, 3, 6]).unwrap();
    let error = matrix.inverse_matrix().err().unwrap();
    assert_eq!(MatrixError::ZeroDeterminant, error);

    let matrix = Matrix::create(1, 2, vec![1, 1]).unwrap();
    assert_eq!(
        matrix.inverse_matrix().err().unwrap(),
        MatrixError::NonSupportedMatrixShape { row: 1, column: 2 }
    );
}
