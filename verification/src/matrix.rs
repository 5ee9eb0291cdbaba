//! Dense matrices of interval bounds, one interval to a row.

use vstd::prelude::*;
use crate::interval::Interval;

verus! {

/// Why a matrix is not a sequence of intervals.
#[derive(Clone, Copy, Debug, PartialEq, Eq, Structural)]
pub enum ShapeError {
    /// The matrix does not have exactly two columns.
    ColumnCount,
    /// The values do not fill a whole number of rows.
    Ragged,
}

/// A dense matrix of binary64 bit patterns in row-major order.
#[derive(Debug)]
pub struct Matrix {
    pub columns: usize,
    pub values: Vec<u64>,
}

impl Matrix {
    /// What is wrong with the shape of the matrix, if anything. The number of
    /// columns is looked at first.
    pub open spec fn fault(&self) -> Option<ShapeError> {
        if self.columns != 2 {
            Some(ShapeError::ColumnCount)
        } else if self.values@.len() % 2 != 0 {
            Some(ShapeError::Ragged)
        } else {
            None
        }
    }

    /// The rows of a two-column matrix as intervals: the first column holds the
    /// lower bounds, the second the upper bounds.
    pub open spec fn rows(&self) -> Seq<Interval> {
        Seq::new(
            self.values@.len() / 2,
            |row: int| Interval { from: self.values@[2 * row], to: self.values@[2 * row + 1] },
        )
    }

    /// The matrix of the given values, `columns` to a row.
    pub fn new(columns: usize, values: Vec<u64>) -> (matrix: Matrix)
        ensures
            matrix.columns == columns,
            matrix.values@ == values@,
    {
        Matrix { columns, values }
    }

    /// The rows as intervals, copied out in order, or what is wrong with the
    /// shape of the matrix.
    pub fn intervals(&self) -> (r: Result<Vec<Interval>, ShapeError>)
        ensures
            match r {
                Ok(intervals) => self.fault() is None && intervals@ == self.rows(),
                Err(error) => self.fault() == Some(error),
            },
    {
        if self.columns != 2 {
            return Err(ShapeError::ColumnCount);
        }
        if self.values.len() % 2 != 0 {
            return Err(ShapeError::Ragged);
        }
        let length: usize = self.values.len();
        let count: usize = length / 2;
        let mut intervals: Vec<Interval> = Vec::new();
        let mut row: usize = 0;
        while row < count
            invariant
                row <= count,
                length == self.values@.len(),
                length == 2 * count,
                intervals@ == self.rows().take(row as int),
            decreases count - row,
        {
            intervals.push(Interval { from: self.values[2 * row], to: self.values[2 * row + 1] });
            row += 1;
        }
        Ok(intervals)
    }
}

} // verus!
