use matrix::matrix::Matrix;

#[test]
fn unit_matrix_diagonal() {
    let unit: Matrix<i64> = Matrix::create_unit_matrix(3);
    assert_eq!(unit.get_row(), 3);
    assert_eq!(unit.get_column(), 3);
    for i in 1..=3 {
        for j in 1..=3 {
            let expected = if i == j { 1 } else { 0 };
            assert_eq!(unit.get_value(i, j), expected);
        }
    }
}

#[test]
fn add_commutes_values() {
    let x = Matrix::create(2, 2, vec![1i64, -2, 30, 4]).unwrap();
    let y = Matrix::create(2, 2, vec![5i64, 6, -7, 8]).unwrap();
    let xy = x.add(&y).unwrap();
    let yx = y.add(&x).unwrap();
    for i in 1..=2 {
        for j in 1..=2 {
            assert_eq!(xy.get_value(i, j), yx.get_value(i, j));
        }
    }
}

#[test]
fn cross_unit_identity_values() {
    let x = Matrix::create(3, 2, vec![1i64, 2, 3, 4, 5, 6]).unwrap();
    let unit: Matrix<i64> = Matrix::create_unit_matrix(2);
    let p = x.cross(&unit).unwrap();
    assert_eq!(p.get_row(), 3);
    assert_eq!(p.get_column(), 2);
    for i in 1..=3 {
        for j in 1..=2 {
            assert_eq!(p.get_value(i, j), x.get_value(i, j));
        }
    }
}

#[test]
fn unit_cross_identity_values() {
    let x = Matrix::create(3, 2, vec![7i64, -8, 9, 10, -11, 12]).unwrap();
    let unit: Matrix<i64> = Matrix::create_unit_matrix(3);
    let p = unit.cross(&x).unwrap();
    assert_eq!(p.get_row(), 3);
    assert_eq!(p.get_column(), 2);
    for i in 1..=3 {
        for j in 1..=2 {
            assert_eq!(p.get_value(i, j), x.get_value(i, j));
        }
    }
}

#[test]
fn inverse_round_trip_values() {
    let x = Matrix::create(2, 2, vec![2i64, 1, 1, 1]).unwrap();
    let inverse = x.inverse_matrix().unwrap();
    assert_eq!(inverse.get_value(1, 1), 1);
    assert_eq!(inverse.get_value(1, 2), -1);
    assert_eq!(inverse.get_value(2, 1), -1);
    assert_eq!(inverse.get_value(2, 2), 2);
    let p = x.cross(&inverse).unwrap();
    assert_eq!(p.get_value(1, 1), 1);
    assert_eq!(p.get_value(1, 2), 0);
    assert_eq!(p.get_value(2, 1), 0);
    assert_eq!(p.get_value(2, 2), 1);
}

#[test]
fn create_zero_rows() {
    let empty = Matrix::create(0, 5, Vec::<i64>::new()).unwrap();
    assert_eq!(empty.get_row(), 0);
    assert_eq!(empty.get_column(), 0);
}

#[test]
fn create_zero_columns() {
    let thin = Matrix::create(3, 0, Vec::<i64>::new()).unwrap();
    assert_eq!(thin.get_row(), 3);
    assert_eq!(thin.get_column(), 0);
}

#[test]
fn small_element_types() {
    let x = Matrix::create(2, 2, vec![2i8, 1, 1, 1]).unwrap();
    let inverse = x.inverse_matrix().unwrap();
    assert_eq!(inverse.get_value(1, 1), 1);
    assert_eq!(inverse.get_value(2, 2), 2);

    let y = Matrix::create(2, 2, vec![100i16, -200, 300, -400]).unwrap();
    let sum = y.add(&y).unwrap();
    assert_eq!(sum.get_value(1, 2), -400);
}

#[test]
fn wide_element_type() {
    let huge: i128 = 1 << 100;
    let x = Matrix::create(1, 2, vec![huge, 2]).unwrap();
    let y = Matrix::create(2, 1, vec![3i128, 4]).unwrap();
    let p = x.cross(&y).unwrap();
    assert_eq!(p.get_value(1, 1), 3 * huge + 8);
}
