use matrix::error::MatrixError;

#[test]
fn check_invalid_length() {
    let invalid_length = MatrixError::InvalidLength {
        expected: 3,
        found: 4,
    };
    let message = invalid_length.message();
    assert_eq!(message, "invalid row_matrix length. expected: 3 found: 4");
}

#[test]
fn check_cannot_calculate() {
    let cannot_calculate = MatrixError::CannotCalculate {
        x_row: 3,
        x_column: 4,
        y_row: 5,
        y_column: 6,
    };
    let message = cannot_calculate.message();
    assert_eq!(message, "cannot calculate 3 X 4 and 5 X 6");
}

#[test]
fn check_non_supported_matrix_shape() {
    let non_supported = MatrixError::NonSupportedMatrixShape { row: 1, column: 2 };
    let message = non_supported.message();
    assert_eq!(
        message,
        "non-supported matrix shape in this function. 1 X 2"
    );
}

#[test]
fn check_zero_determinant() {
    let zero_determinant = MatrixError::ZeroDeterminant;
    assert_eq!(zero_determinant.message(), "determinant is zero.");
}

#[test]
fn check_multi_digit_numbers() {
    let invalid_length = MatrixError::InvalidLength {
        expected: 12034,
        found: 0,
    };
    let message = invalid_length.message();
    assert_eq!(message, "invalid row_matrix length. expected: 12034 found: 0");
}
