//! The matrix entity and its arithmetic operations.

use vstd::prelude::*;

use crate::error::MatrixError;
use crate::number::MatrixNumber;
use crate::number::lemma_trunc_div_exact;
use crate::number::trunc_div;

verus! {

/// A rectangular grid of numeric values: an ordered sequence of rows, each an
/// ordered sequence of elements of the numeric capability type. Every row has
/// the same length, a matrix is immutable after construction, and each
/// operation builds a new value rather than changing an old one.
pub struct Matrix<T: MatrixNumber> {
    matrix: Vec<Vec<T>>,
}

/// Row-major indexing stays within a grid of `r` rows and `c` columns.
proof fn lemma_flat_index_bounds(i: int, j: int, r: int, c: int)
    requires
        0 <= i < r,
        0 <= j < c,
    ensures
        0 <= i * c + j < r * c,
{
    assert(i * c + j < r * c) by (nonlinear_arith)
        requires
            0 <= i < r,
            0 <= j < c,
    ;
    assert(0 <= i * c + j) by (nonlinear_arith)
        requires
            0 <= i,
            0 <= j,
            0 < c,
    ;
}

impl<T: MatrixNumber> Matrix<T> {
    /// The number of rows.
    pub closed spec fn rows(self) -> nat {
        self.matrix@.len()
    }

    /// The number of columns, read from the first row; a matrix without rows
    /// has no columns.
    pub closed spec fn cols(self) -> nat {
        if self.matrix@.len() == 0 {
            0
        } else {
            self.matrix@[0]@.len()
        }
    }

    /// Well-formedness: every row holds exactly one value per column.
    pub closed spec fn wf(self) -> bool {
        forall|i: int|
            0 <= i < self.matrix@.len() ==> (#[trigger] self.matrix@[i])@.len() == self.cols()
    }

    /// The integer standing at 0-indexed position (i, j).
    pub closed spec fn at(self, i: int, j: int) -> int {
        self.matrix@[i]@[j].as_int()
    }

    /// Both matrices have the same shape and stand for the same integers at
    /// every position.
    pub open spec fn same_grid(self, other: Matrix<T>) -> bool {
        &&& self.rows() == other.rows()
        &&& self.cols() == other.cols()
        &&& forall|i: int, j: int|
            0 <= i < self.rows() && 0 <= j < self.cols() ==> self.at(i, j) == #[trigger] other.at(
                i,
                j,
            )
    }

    /// The matrix is the elementwise sum of x and y: it has their (equal)
    /// shape and stands for the sum of their integers at every position.
    pub open spec fn sum_of(self, x: Matrix<T>, y: Matrix<T>) -> bool {
        &&& self.rows() == x.rows()
        &&& self.cols() == x.cols()
        &&& forall|i: int, j: int|
            0 <= i < x.rows() && 0 <= j < x.cols() ==> #[trigger] self.at(i, j) == x.at(i, j)
                + y.at(i, j)
    }

    /// The sum of the first k products pairing row i of this matrix with
    /// column j of y, accumulated from zero in ascending order.
    pub open spec fn dot_prefix(self, y: Matrix<T>, i: int, j: int, k: int) -> int
        decreases k,
    {
        if k <= 0 {
            0
        } else {
            self.dot_prefix(y, i, j, k - 1) + self.at(i, k - 1) * y.at(k - 1, j)
        }
    }

    /// The matrix is the cross product of x and y: it has x's row count and
    /// y's column count, and each position sums, in ascending order, the
    /// products that pair a row of x with a column of y.
    pub open spec fn product_of(self, x: Matrix<T>, y: Matrix<T>) -> bool {
        &&& self.rows() == x.rows()
        &&& (x.rows() > 0 ==> self.cols() == y.cols())
        &&& forall|i: int, j: int|
            0 <= i < x.rows() && 0 <= j < y.cols() ==> #[trigger] self.at(i, j) == x.dot_prefix(
                y,
                i,
                j,
                x.cols() as int,
            )
    }

    /// Every intermediate product and running sum of the cross product of
    /// this matrix and y fits the element type's range: what machine
    /// arithmetic demands of a multiplication.
    pub open spec fn cross_fits(self, y: Matrix<T>) -> bool {
        &&& forall|i: int, j: int, k: int|
            #![trigger self.at(i, k), y.at(k, j)]
            0 <= i < self.rows() && 0 <= j < y.cols() && 0 <= k < self.cols() ==> T::min_int()
                <= self.at(i, k) * y.at(k, j) <= T::max_int()
        &&& forall|i: int, j: int, k: int|
            0 <= i < self.rows() && 0 <= j < y.cols() && 1 <= k <= self.cols() ==> T::min_int()
                <= #[trigger] self.dot_prefix(y, i, j, k) <= T::max_int()
    }

    /// The matrix is the n-by-n unit (identity) matrix: it stands for one()
    /// on the diagonal and zero() everywhere else.
    pub open spec fn is_unit(self, n: int) -> bool {
        &&& self.rows() == n
        &&& self.cols() == n
        &&& forall|i: int, j: int|
            0 <= i < n && 0 <= j < n ==> #[trigger] self.at(i, j) == if i == j {
                1int
            } else {
                0int
            }
    }

    /// The determinant of a 2x2 matrix: the product of the main diagonal
    /// minus the product of the other diagonal.
    pub open spec fn det2(self) -> int {
        self.at(0, 0) * self.at(1, 1) - self.at(0, 1) * self.at(1, 0)
    }

    /// Both diagonal products and their difference fit the element type's
    /// range: what machine arithmetic demands of the 2x2 determinant.
    pub open spec fn det2_fits(self) -> bool {
        &&& T::min_int() <= self.at(0, 0) * self.at(1, 1) <= T::max_int()
        &&& T::min_int() <= self.at(0, 1) * self.at(1, 0) <= T::max_int()
        &&& T::min_int() <= self.det2() <= T::max_int()
    }

    /// The matrix holds what inversion computes for the 2x2 matrix x: x's
    /// diagonal swapped and divided by the determinant on the diagonal, and
    /// x's other two entries divided by the determinant and negated, each
    /// staying on its own side of the diagonal.
    pub open spec fn inverse_of(self, x: Matrix<T>) -> bool {
        &&& self.rows() == 2
        &&& self.cols() == 2
        &&& self.at(0, 0) == trunc_div(x.at(1, 1), x.det2())
        &&& self.at(0, 1) == -trunc_div(x.at(1, 0), x.det2())
        &&& self.at(1, 0) == -trunc_div(x.at(0, 1), x.det2())
        &&& self.at(1, 1) == trunc_div(x.at(0, 0), x.det2())
    }

    /// The four quotients of the inverse and their negations fit the element
    /// type's range: what machine arithmetic demands of the division.
    pub open spec fn inverse_fits(self) -> bool {
        &&& T::min_int() <= trunc_div(self.at(1, 1), self.det2()) <= T::max_int()
        &&& T::min_int() <= trunc_div(self.at(0, 0), self.det2()) <= T::max_int()
        &&& T::min_int() <= trunc_div(self.at(1, 0), self.det2()) <= T::max_int()
        &&& T::min_int() <= -trunc_div(self.at(1, 0), self.det2()) <= T::max_int()
        &&& T::min_int() <= trunc_div(self.at(0, 1), self.det2()) <= T::max_int()
        &&& T::min_int() <= -trunc_div(self.at(0, 1), self.det2()) <= T::max_int()
    }

    /// Every elementwise sum of this matrix and y fits the element type's
    /// range: what machine arithmetic demands of an addition.
    pub open spec fn add_fits(self, y: Matrix<T>) -> bool {
        forall|i: int, j: int|
            0 <= i < self.rows() && 0 <= j < self.cols() ==> T::min_int() <= (#[trigger] self.at(
                i,
                j,
            )) + y.at(i, j) <= T::max_int()
    }

    /// Builds a matrix of the given shape from flat data in row-major order:
    /// flat element i lands at row i / column, column i % column. Fails with
    /// `InvalidLength` unless the data holds exactly one value per cell.
    /// Either dimension may be zero, yielding an empty grid.
    pub fn create(row: usize, column: usize, row_matrix: Vec<T>) -> (r: Result<Self, MatrixError>)
        requires
            row * column <= usize::MAX,
        ensures
            row_matrix@.len() == row * column <==> r is Ok,
            r matches Ok(m) ==> {
                &&& m.wf()
                &&& m.rows() == row
                &&& (row > 0 ==> m.cols() == column)
                &&& forall|i: int, j: int|
                    0 <= i < row && 0 <= j < column ==> #[trigger] m.at(i, j) == row_matrix@[i
                        * column + j].as_int()
            },
            r matches Err(e) ==> e == (MatrixError::InvalidLength {
                expected: (row * column) as usize,
                found: row_matrix@.len() as usize,
            }),
    {
        let length: usize = row * column;
        if length != row_matrix.len() {
            return Err(MatrixError::InvalidLength { expected: length, found: row_matrix.len() });
        }
        let mut matrix: Vec<Vec<T>> = Vec::new();
        let mut m: usize = 0;
        while m < row
            invariant
                row * column <= usize::MAX,
                row_matrix@.len() == row * column,
                m <= row,
                matrix@.len() == m,
                forall|i: int| 0 <= i < m ==> (#[trigger] matrix@[i])@.len() == column,
                forall|i: int, j: int|
                    0 <= i < m && 0 <= j < column ==> (#[trigger] matrix@[i]@[j]).as_int()
                        == row_matrix@[i * column + j].as_int(),
            decreases row - m,
        {
            let mut row_values: Vec<T> = Vec::new();
            let mut n: usize = 0;
            while n < column
                invariant
                    row * column <= usize::MAX,
                    row_matrix@.len() == row * column,
                    m < row,
                    n <= column,
                    row_values@.len() == n,
                    forall|j: int|
                        0 <= j < n ==> (#[trigger] row_values@[j]).as_int() == row_matrix@[m as int
                            * column + j].as_int(),
                decreases column - n,
            {
                proof {
                    lemma_flat_index_bounds(m as int, n as int, row as int, column as int);
                }
                let idx: usize = m * column + n;
                row_values.push(row_matrix[idx]);
                n = n + 1;
            }
            matrix.push(row_values);
            m = m + 1;
        }
        Ok(Matrix { matrix })
    }

    /// The row count.
    pub fn get_row(&self) -> (r: usize)
        ensures
            r == self.rows(),
    {
        self.matrix.len()
    }

    /// The column count, read from the first row; a matrix without rows
    /// reports no columns.
    pub fn get_column(&self) -> (r: usize)
        ensures
            r == self.cols(),
    {
        if self.matrix.len() == 0 {
            0
        } else {
            self.matrix[0].len()
        }
    }

    /// Builds the n-by-n unit (identity) matrix: one() on the diagonal,
    /// zero() everywhere else. Never fails; n = 0 yields an empty matrix.
    pub fn create_unit_matrix(n: usize) -> (r: Self)
        ensures
            r.wf(),
            r.is_unit(n as int),
    {
        let mut matrix: Vec<Vec<T>> = Vec::new();
        let mut m: usize = 0;
        while m < n
            invariant
                m <= n,
                matrix@.len() == m,
                forall|i: int| 0 <= i < m ==> (#[trigger] matrix@[i])@.len() == n,
                forall|i: int, j: int|
                    0 <= i < m && 0 <= j < n ==> (#[trigger] matrix@[i]@[j]).as_int() == if i == j {
                        1int
                    } else {
                        0int
                    },
            decreases n - m,
        {
            let mut row_values: Vec<T> = Vec::new();
            let mut l: usize = 0;
            while l < n
                invariant
                    m < n,
                    l <= n,
                    row_values@.len() == l,
                    forall|j: int|
                        0 <= j < l ==> (#[trigger] row_values@[j]).as_int() == if m == j {
                            1int
                        } else {
                            0int
                        },
                decreases n - l,
            {
                if m == l {
                    row_values.push(T::one());
                } else {
                    row_values.push(T::zero());
                }
                l = l + 1;
            }
            matrix.push(row_values);
            m = m + 1;
        }
        Matrix { matrix }
    }

    /// The value at 1-indexed position (row, column): the first row and
    /// column carry index 1. An out-of-range position is a caller contract
    /// violation, not a reported error — the position must exist.
    pub fn get_value(&self, row: usize, column: usize) -> (r: T)
        requires
            self.wf(),
            1 <= row <= self.rows(),
            1 <= column <= self.cols(),
        ensures
            r.as_int() == self.at(row - 1, column - 1),
    {
        self.matrix[row - 1][column - 1]
    }

    /// The elementwise sum of the two operands. Both must have the same
    /// shape; otherwise the operation fails with `CannotCalculate` carrying
    /// both operands' shapes.
    pub fn add(&self, y: &Self) -> (r: Result<Self, MatrixError>)
        requires
            self.wf(),
            y.wf(),
            self.rows() == y.rows() && self.cols() == y.cols() ==> self.add_fits(*y),
        ensures
            self.rows() == y.rows() && self.cols() == y.cols() <==> r is Ok,
            r matches Ok(m) ==> m.wf() && m.sum_of(*self, *y),
            r matches Err(e) ==> e == (MatrixError::CannotCalculate {
                x_row: self.rows() as usize,
                x_column: self.cols() as usize,
                y_row: y.rows() as usize,
                y_column: y.cols() as usize,
            }),
    {
        let row: usize = self.get_row();
        let column: usize = self.get_column();
        if row != y.get_row() || column != y.get_column() {
            return Err(
                MatrixError::CannotCalculate {
                    x_row: row,
                    x_column: column,
                    y_row: y.get_row(),
                    y_column: y.get_column(),
                },
            );
        }
        let mut matrix: Vec<Vec<T>> = Vec::new();
        let mut m: usize = 0;
        while m < row
            invariant
                self.wf(),
                y.wf(),
                self.rows() == row,
                self.cols() == column,
                y.rows() == row,
                y.cols() == column,
                self.add_fits(*y),
                m <= row,
                matrix@.len() == m,
                forall|i: int| 0 <= i < m ==> (#[trigger] matrix@[i])@.len() == column,
                forall|i: int, j: int|
                    0 <= i < m && 0 <= j < column ==> (#[trigger] matrix@[i]@[j]).as_int()
                        == self.at(i, j) + y.at(i, j),
            decreases row - m,
        {
            let mut row_values: Vec<T> = Vec::new();
            let mut n: usize = 0;
            while n < column
                invariant
                    self.wf(),
                    y.wf(),
                    self.rows() == row,
                    self.cols() == column,
                    y.rows() == row,
                    y.cols() == column,
                    self.add_fits(*y),
                    m < row,
                    n <= column,
                    row_values@.len() == n,
                    forall|j: int|
                        0 <= j < n ==> (#[trigger] row_values@[j]).as_int() == self.at(m as int, j)
                            + y.at(m as int, j),
                decreases column - n,
            {
                let v = self.get_value(m + 1, n + 1).add_val(y.get_value(m + 1, n + 1));
                row_values.push(v);
                n = n + 1;
            }
            matrix.push(row_values);
            m = m + 1;
        }
        Ok(Matrix { matrix })
    }

    /// The matrix product ("cross") of the two operands. The left operand's
    /// column count must equal the right operand's row count; otherwise the
    /// operation fails with `CannotCalculate` carrying both shapes. Each
    /// result position accumulates its products from zero() in strictly
    /// ascending order of the paired index.
    pub fn cross(&self, y: &Self) -> (r: Result<Self, MatrixError>)
        requires
            self.wf(),
            y.wf(),
            self.cols() == y.rows() ==> self.cross_fits(*y),
        ensures
            self.cols() == y.rows() <==> r is Ok,
            r matches Ok(m) ==> m.wf() && m.product_of(*self, *y),
            r matches Err(e) ==> e == (MatrixError::CannotCalculate {
                x_row: self.rows() as usize,
                x_column: self.cols() as usize,
                y_row: y.rows() as usize,
                y_column: y.cols() as usize,
            }),
    {
        let row: usize = self.get_row();
        let column: usize = y.get_column();
        if self.get_column() != y.get_row() {
            return Err(
                MatrixError::CannotCalculate {
                    x_row: self.get_row(),
                    x_column: self.get_column(),
                    y_row: y.get_row(),
                    y_column: y.get_column(),
                },
            );
        }
        let z: usize = self.get_column();
        let mut matrix: Vec<Vec<T>> = Vec::new();
        let mut m: usize = 0;
        while m < row
            invariant
                self.wf(),
                y.wf(),
                self.rows() == row,
                self.cols() == z,
                y.rows() == z,
                y.cols() == column,
                self.cross_fits(*y),
                m <= row,
                matrix@.len() == m,
                forall|i: int| 0 <= i < m ==> (#[trigger] matrix@[i])@.len() == column,
                forall|i: int, j: int|
                    0 <= i < m && 0 <= j < column ==> (#[trigger] matrix@[i]@[j]).as_int()
                        == self.dot_prefix(*y, i, j, z as int),
            decreases row - m,
        {
            let mut row_values: Vec<T> = Vec::new();
            let mut n: usize = 0;
            while n < column
                invariant
                    self.wf(),
                    y.wf(),
                    self.rows() == row,
                    self.cols() == z,
                    y.rows() == z,
                    y.cols() == column,
                    self.cross_fits(*y),
                    m < row,
                    n <= column,
                    row_values@.len() == n,
                    forall|j: int|
                        0 <= j < n ==> (#[trigger] row_values@[j]).as_int() == self.dot_prefix(
                            *y,
                            m as int,
                            j,
                            z as int,
                        ),
                decreases column - n,
            {
                let mut ans = T::zero();
                let mut l: usize = 0;
                while l < z
                    invariant
                        self.wf(),
                        y.wf(),
                        self.rows() == row,
                        self.cols() == z,
                        y.rows() == z,
                        y.cols() == column,
                        self.cross_fits(*y),
                        m < row,
                        n < column,
                        l <= z,
                        ans.as_int() == self.dot_prefix(*y, m as int, n as int, l as int),
                    decreases z - l,
                {
                    let p = self.get_value(m + 1, l + 1).mul_val(y.get_value(l + 1, n + 1));
                    proof {
                        assert(self.dot_prefix(*y, m as int, n as int, l + 1) == self.dot_prefix(
                            *y,
                            m as int,
                            n as int,
                            l as int,
                        ) + self.at(m as int, l as int) * y.at(l as int, n as int));
                    }
                    ans = ans.add_val(p);
                    l = l + 1;
                }
                row_values.push(ans);
                n = n + 1;
            }
            matrix.push(row_values);
            m = m + 1;
        }
        Ok(Matrix { matrix })
    }

    /// Whether the matrix is regular (invertible): its determinant is not
    /// zero. Only the exact 2x2 shape is supported; any other shape fails
    /// with `NonSupportedMatrixShape`.
    pub fn check_regular(&self) -> (r: Result<bool, MatrixError>)
        requires
            self.wf(),
            self.rows() == 2 && self.cols() == 2 ==> self.det2_fits(),
        ensures
            self.rows() == 2 && self.cols() == 2 <==> r is Ok,
            r matches Ok(b) ==> b == (self.det2() != 0),
            r matches Err(e) ==> e == (MatrixError::NonSupportedMatrixShape {
                row: self.rows() as usize,
                column: self.cols() as usize,
            }),
    {
        if self.get_row() != 2 || self.get_column() != 2 {
            Err(
                MatrixError::NonSupportedMatrixShape {
                    row: self.get_row(),
                    column: self.get_column(),
                },
            )
        } else {
            let d = self.get_value(1, 1).mul_val(self.get_value(2, 2)).sub_val(
                self.get_value(1, 2).mul_val(self.get_value(2, 1)),
            );
            Ok(!d.eq_val(T::zero()))
        }
    }

    /// The inverse of a regular 2x2 matrix, computed from the determinant
    /// with the element type's own division. A shape other than 2x2 fails
    /// with `NonSupportedMatrixShape`, exactly as `check_regular` reports it;
    /// a zero determinant fails with `ZeroDeterminant`.
    pub fn inverse_matrix(&self) -> (r: Result<Self, MatrixError>)
        requires
            self.wf(),
            self.rows() == 2 && self.cols() == 2 ==> self.det2_fits(),
            self.rows() == 2 && self.cols() == 2 && self.det2() != 0 ==> self.inverse_fits(),
        ensures
            self.rows() == 2 && self.cols() == 2 && self.det2() != 0 <==> r is Ok,
            r matches Ok(m) ==> m.wf() && m.inverse_of(*self),
            !(self.rows() == 2 && self.cols() == 2) ==> (r matches Err(e) && e
                == (MatrixError::NonSupportedMatrixShape {
                row: self.rows() as usize,
                column: self.cols() as usize,
            })),
            self.rows() == 2 && self.cols() == 2 && self.det2() == 0 ==> (r matches Err(e) && e
                == MatrixError::ZeroDeterminant),
    {
        match self.check_regular() {
            Ok(status) => {
                if !status {
                    Err(MatrixError::ZeroDeterminant)
                } else {
                    let determinant = self.get_value(1, 1).mul_val(self.get_value(2, 2)).sub_val(
                        self.get_value(1, 2).mul_val(self.get_value(2, 1)),
                    );
                    proof {
                        T::lemma_range_has_units();
                    }
                    let neg_one = T::one().neg_val();
                    let v00 = self.get_value(2, 2).div_val(determinant);
                    let v01 = self.get_value(2, 1).div_val(determinant).mul_val(neg_one);
                    let v10 = self.get_value(1, 2).div_val(determinant).mul_val(neg_one);
                    let v11 = self.get_value(1, 1).div_val(determinant);
                    let mut row0: Vec<T> = Vec::new();
                    row0.push(v00);
                    row0.push(v01);
                    let mut row1: Vec<T> = Vec::new();
                    row1.push(v10);
                    row1.push(v11);
                    let mut matrix: Vec<Vec<T>> = Vec::new();
                    matrix.push(row0);
                    matrix.push(row1);
                    Ok(Matrix { matrix })
                }
            },
            Err(err) => Err(err),
        }
    }
}

/// Addition is commutative: two sums that pair the same equal-shaped operands
/// in either order have the same shape and the same values everywhere.
pub proof fn lemma_add_commutative<T: MatrixNumber>(
    x: Matrix<T>,
    y: Matrix<T>,
    xy: Matrix<T>,
    yx: Matrix<T>,
)
    requires
        x.rows() == y.rows(),
        x.cols() == y.cols(),
        xy.sum_of(x, y),
        yx.sum_of(y, x),
    ensures
        xy.same_grid(yx),
{
}

/// In a product with a unit matrix, the first k paired products at position
/// (i, j) sum to the original entry once the pairing has passed the diagonal,
/// and to zero before that.
proof fn lemma_dot_prefix_unit<T: MatrixNumber>(
    x: Matrix<T>,
    u: Matrix<T>,
    i: int,
    j: int,
    k: int,
)
    requires
        u.is_unit(x.cols() as int),
        0 <= i < x.rows(),
        0 <= j < x.cols(),
        0 <= k <= x.cols(),
    ensures
        x.dot_prefix(u, i, j, k) == if j < k {
            x.at(i, j)
        } else {
            0int
        },
    decreases k,
{
    if k > 0 {
        lemma_dot_prefix_unit(x, u, i, j, k - 1);
        if k - 1 == j {
            assert(u.at(k - 1, j) == 1);
        } else {
            assert(u.at(k - 1, j) == 0);
        }
    }
}

/// Identity law: the cross product of a matrix with the unit matrix of its
/// own column count has the original's shape and values everywhere.
pub proof fn lemma_cross_unit_identity<T: MatrixNumber>(x: Matrix<T>, u: Matrix<T>, p: Matrix<T>)
    requires
        x.wf(),
        u.is_unit(x.cols() as int),
        p.product_of(x, u),
    ensures
        p.same_grid(x),
{
    assert forall|i: int, j: int|
        0 <= i < p.rows() && 0 <= j < p.cols() implies p.at(i, j) == #[trigger] x.at(i, j) by {
        lemma_dot_prefix_unit(x, u, i, j, x.cols() as int);
    }
}

/// In a product of a unit matrix with x, the first k paired products at
/// position (i, j) sum to x's entry once the pairing has passed the diagonal,
/// and to zero before that.
proof fn lemma_unit_dot_prefix<T: MatrixNumber>(
    u: Matrix<T>,
    x: Matrix<T>,
    i: int,
    j: int,
    k: int,
)
    requires
        u.is_unit(x.rows() as int),
        0 <= i < x.rows(),
        0 <= j < x.cols(),
        0 <= k <= x.rows(),
    ensures
        u.dot_prefix(x, i, j, k) == if i < k {
            x.at(i, j)
        } else {
            0int
        },
    decreases k,
{
    if k > 0 {
        lemma_unit_dot_prefix(u, x, i, j, k - 1);
        if k - 1 == i {
            assert(u.at(i, k - 1) == 1);
        } else {
            assert(u.at(i, k - 1) == 0);
        }
    }
}

/// Identity law, from the left: the cross product of the unit matrix of x's
/// row count with x has x's shape and values everywhere.
pub proof fn lemma_unit_cross_identity<T: MatrixNumber>(u: Matrix<T>, x: Matrix<T>, p: Matrix<T>)
    requires
        x.wf(),
        u.is_unit(x.rows() as int),
        p.product_of(u, x),
    ensures
        p.same_grid(x),
{
    assert forall|i: int, j: int|
        0 <= i < p.rows() && 0 <= j < p.cols() implies p.at(i, j) == #[trigger] x.at(i, j) by {
        lemma_unit_dot_prefix(u, x, i, j, x.rows() as int);
    }
}

/// The sum of the first two paired products, written out.
proof fn lemma_dot_prefix_two<T: MatrixNumber>(x: Matrix<T>, y: Matrix<T>, i: int, j: int)
    ensures
        x.dot_prefix(y, i, j, 2) == x.at(i, 0) * y.at(0, j) + x.at(i, 1) * y.at(1, j),
{
    assert(x.dot_prefix(y, i, j, 0) == 0);
    assert(x.dot_prefix(y, i, j, 1) == 0 + x.at(i, 0) * y.at(0, j));
}

/// Inversion round trip: a regular symmetric 2x2 matrix whose entries its
/// determinant divides evenly, crossed with its inverse, gives the 2x2 unit
/// matrix. Symmetry and even division are needed: a matrix whose two
/// off-diagonal entries differ, or whose entries divide with a remainder, may
/// fail the round trip.
pub proof fn lemma_inverse_round_trip<T: MatrixNumber>(
    x: Matrix<T>,
    inv: Matrix<T>,
    p: Matrix<T>,
)
    requires
        x.wf(),
        x.rows() == 2,
        x.cols() == 2,
        x.at(0, 1) == x.at(1, 0),
        x.det2() != 0,
        x.at(0, 0) % x.det2() == 0,
        x.at(0, 1) % x.det2() == 0,
        x.at(1, 1) % x.det2() == 0,
        inv.inverse_of(x),
        p.product_of(x, inv),
    ensures
        p.is_unit(2),
{
    let a = x.at(0, 0);
    let b = x.at(0, 1);
    let d = x.at(1, 1);
    let det = x.det2();
    lemma_trunc_div_exact(a, det);
    lemma_trunc_div_exact(b, det);
    lemma_trunc_div_exact(d, det);
    let qa = trunc_div(a, det);
    let qb = trunc_div(b, det);
    let qd = trunc_div(d, det);
    lemma_dot_prefix_two(x, inv, 0, 0);
    lemma_dot_prefix_two(x, inv, 0, 1);
    lemma_dot_prefix_two(x, inv, 1, 0);
    lemma_dot_prefix_two(x, inv, 1, 1);
    assert(a * qd + b * (-qb) == 1) by (nonlinear_arith)
        requires
            det * qa == a,
            det * qb == b,
            det * qd == d,
            a * d - b * b == det,
            det != 0,
    ;
    assert(a * (-qb) + b * qa == 0) by (nonlinear_arith)
        requires
            det * qa == a,
            det * qb == b,
            det != 0,
    ;
    assert(b * qd + d * (-qb) == 0) by (nonlinear_arith)
        requires
            det * qb == b,
            det * qd == d,
            det != 0,
    ;
    assert(b * (-qb) + d * qa == 1) by (nonlinear_arith)
        requires
            det * qa == a,
            det * qb == b,
            det * qd == d,
            a * d - b * b == det,
            det != 0,
    ;
    assert(p.at(0, 0) == 1);
    assert(p.at(0, 1) == 0);
    assert(p.at(1, 0) == 0);
    assert(p.at(1, 1) == 1);
    assert forall|i: int, j: int|
        0 <= i < 2 && 0 <= j < 2 implies #[trigger] p.at(i, j) == if i == j {
        1int
    } else {
        0int
    } by {
    }
}

} // verus!
