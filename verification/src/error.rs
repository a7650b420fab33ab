//! The failure conditions matrix constructors and operations may report.

use vstd::prelude::*;
use vstd::string::StringExecFns;

verus! {

/// The decimal digit character standing for d, which must lie below ten.
pub open spec fn dec_digit(d: int) -> char {
    if d == 0 {
        '0'
    } else if d == 1 {
        '1'
    } else if d == 2 {
        '2'
    } else if d == 3 {
        '3'
    } else if d == 4 {
        '4'
    } else if d == 5 {
        '5'
    } else if d == 6 {
        '6'
    } else if d == 7 {
        '7'
    } else if d == 8 {
        '8'
    } else {
        '9'
    }
}

/// The decimal rendering of n: its digits, most significant first, without
/// sign or padding.
pub open spec fn dec_str(n: nat) -> Seq<char>
    decreases n,
{
    if n < 10 {
        seq![dec_digit(n as int)]
    } else {
        dec_str(n / 10) + seq![dec_digit((n % 10) as int)]
    }
}

/// Appends the single decimal digit d, which must lie below ten.
fn push_digit(s: &mut String, d: usize)
    requires
        d < 10,
    ensures
        final(s)@ == old(s)@ + seq![dec_digit(d as int)],
{
    if d == 0 {
        s.append("0");
        proof {
            reveal_strlit("0");
            assert(s@ =~= old(s)@ + seq![dec_digit(d as int)]);
        }
    } else if d == 1 {
        s.append("1");
        proof {
            reveal_strlit("1");
            assert(s@ =~= old(s)@ + seq![dec_digit(d as int)]);
        }
    } else if d == 2 {
        s.append("2");
        proof {
            reveal_strlit("2");
            assert(s@ =~= old(s)@ + seq![dec_digit(d as int)]);
        }
    } else if d == 3 {
        s.append("3");
        proof {
            reveal_strlit("3");
            assert(s@ =~= old(s)@ + seq![dec_digit(d as int)]);
        }
    } else if d == 4 {
        s.append("4");
        proof {
            reveal_strlit("4");
            assert(s@ =~= old(s)@ + seq![dec_digit(d as int)]);
        }
    } else if d == 5 {
        s.append("5");
        proof {
            reveal_strlit("5");
            assert(s@ =~= old(s)@ + seq![dec_digit(d as int)]);
        }
    } else if d == 6 {
        s.append("6");
        proof {
            reveal_strlit("6");
            assert(s@ =~= old(s)@ + seq![dec_digit(d as int)]);
        }
    } else if d == 7 {
        s.append("7");
        proof {
            reveal_strlit("7");
            assert(s@ =~= old(s)@ + seq![dec_digit(d as int)]);
        }
    } else if d == 8 {
        s.append("8");
        proof {
            reveal_strlit("8");
            assert(s@ =~= old(s)@ + seq![dec_digit(d as int)]);
        }
    } else {
        s.append("9");
        proof {
            reveal_strlit("9");
            assert(s@ =~= old(s)@ + seq![dec_digit(d as int)]);
        }
    }
}

/// Appends the decimal rendering of n, digit by digit from the most
/// significant end.
fn push_dec(s: &mut String, n: usize)
    ensures
        final(s)@ == old(s)@ + dec_str(n as nat),
    decreases n,
{
    if n < 10 {
        push_digit(s, n);
    } else {
        push_dec(s, n / 10);
        push_digit(s, n % 10);
        proof {
            assert(s@ =~= old(s)@ + dec_str(n as nat));
        }
    }
}

/// The closed set of failure reasons, each carrying the data needed to render
/// an exact diagnostic message. All four are recoverable and deterministic
/// given the inputs; out-of-bounds element access is not among them, being a
/// caller contract violation rather than a reported error.
#[derive(Debug, PartialEq, Eq, Structural)]
pub enum MatrixError {
    /// The flat data handed to the constructor does not hold exactly one
    /// value per cell of the requested shape.
    InvalidLength { expected: usize, found: usize },
    /// A binary operation was asked of two matrices whose shapes do not fit
    /// it; both operands' shapes are carried.
    CannotCalculate { x_row: usize, x_column: usize, y_row: usize, y_column: usize },
    /// An operation restricted to one shape was asked of a matrix of another.
    NonSupportedMatrixShape { row: usize, column: usize },
    /// Inversion was asked of a singular matrix.
    ZeroDeterminant,
}

impl MatrixError {
    /// The exact diagnostic line each failure renders, character by
    /// character.
    pub open spec fn message_view(self) -> Seq<char> {
        match self {
            MatrixError::InvalidLength { expected, found } => "invalid row_matrix length. expected: "@
                + dec_str(expected as nat) + " found: "@ + dec_str(found as nat),
            MatrixError::CannotCalculate { x_row, x_column, y_row, y_column } => "cannot calculate "@
                + dec_str(x_row as nat) + " X "@ + dec_str(x_column as nat) + " and "@ + dec_str(
                y_row as nat,
            ) + " X "@ + dec_str(y_column as nat),
            MatrixError::NonSupportedMatrixShape { row, column } => "non-supported matrix shape in this function. "@
                + dec_str(row as nat) + " X "@ + dec_str(column as nat),
            MatrixError::ZeroDeterminant => "determinant is zero."@,
        }
    }

    /// Renders the diagnostic message for this failure.
    pub fn message(&self) -> (r: String)
        ensures
            r@ == self.message_view(),
    {
        let mut s = String::new();
        match self {
            MatrixError::InvalidLength { expected, found } => {
                s.append("invalid row_matrix length. expected: ");
                push_dec(&mut s, *expected);
                s.append(" found: ");
                push_dec(&mut s, *found);
            },
            MatrixError::CannotCalculate { x_row, x_column, y_row, y_column } => {
                s.append("cannot calculate ");
                push_dec(&mut s, *x_row);
                s.append(" X ");
                push_dec(&mut s, *x_column);
                s.append(" and ");
                push_dec(&mut s, *y_row);
                s.append(" X ");
                push_dec(&mut s, *y_column);
            },
            MatrixError::NonSupportedMatrixShape { row, column } => {
                s.append("non-supported matrix shape in this function. ");
                push_dec(&mut s, *row);
                s.append(" X ");
                push_dec(&mut s, *column);
            },
            MatrixError::ZeroDeterminant => {
                s.append("determinant is zero.");
            },
        }
        proof {
            assert(s@ =~= self.message_view());
        }
        s
    }
}

} // verus!
