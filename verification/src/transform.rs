//! Homogeneous 4 by 4 matrices that place and size a model.
use vstd::prelude::*;
use crate::scalar::{Scalar, ONE_BITS};

verus! {

/// A 4 by 4 matrix, row by row: `rows[i][j]` stands in row `i`, column `j`.
#[derive(Clone, Copy, Debug, PartialEq, Eq)]
pub struct Matrix4 {
    pub rows: [[Scalar; 4]; 4],
}

impl Matrix4 {
    pub open spec fn entry(self, row: int, column: int) -> Scalar {
        self.rows[row][column]
    }

    /// Ones on the diagonal, zeros elsewhere.
    pub open spec fn is_identity(self) -> bool {
        forall|i: int, j: int|
            0 <= i < 4 && 0 <= j < 4 ==> #[trigger] self.entry(i, j) == if i == j {
                Scalar::one()
            } else {
                Scalar::zero()
            }
    }

    pub fn identity() -> (r: Matrix4)
        ensures
            r.is_identity(),
    {
        let o = Scalar { bits: 0 };
        let l = Scalar { bits: ONE_BITS };
        Matrix4 { rows: [[l, o, o, o], [o, l, o, o], [o, o, l, o], [o, o, o, l]] }
    }

    pub fn get(&self, row: usize, column: usize) -> (r: Scalar)
        requires
            row < 4,
            column < 4,
        ensures
            r == self.entry(row as int, column as int),
    {
        self.rows[row][column]
    }
}

/// Builders of model matrices.
pub struct Transform;

impl Transform {
    /// The matrix that moves every point by `(x, y, z)`: the identity with
    /// the three numbers in its last column.
    pub fn translation_matrix(x: Scalar, y: Scalar, z: Scalar) -> (r: Matrix4)
        ensures
            forall|i: int, j: int|
                0 <= i < 4 && 0 <= j < 4 ==> #[trigger] r.entry(i, j) == if j == 3 && i == 0 {
                    x
                } else if j == 3 && i == 1 {
                    y
                } else if j == 3 && i == 2 {
                    z
                } else if i == j {
                    Scalar::one()
                } else {
                    Scalar::zero()
                },
    {
        let o = Scalar { bits: 0 };
        let l = Scalar { bits: ONE_BITS };
        Matrix4 { rows: [[l, o, o, x], [o, l, o, y], [o, o, l, z], [o, o, o, l]] }
    }

    /// The matrix that stretches the three axes by `sx`, `sy` and `sz`: the
    /// factors on the diagonal, then a one, zeros elsewhere.
    pub fn scale_matrix(sx: Scalar, sy: Scalar, sz: Scalar) -> (r: Matrix4)
        ensures
            forall|i: int, j: int|
                0 <= i < 4 && 0 <= j < 4 ==> #[trigger] r.entry(i, j) == if i != j {
                    Scalar::zero()
                } else if i == 0 {
                    sx
                } else if i == 1 {
                    sy
                } else if i == 2 {
                    sz
                } else {
                    Scalar::one()
                },
    {
        let o = Scalar { bits: 0 };
        let l = Scalar { bits: ONE_BITS };
        Matrix4 { rows: [[sx, o, o, o], [o, sy, o, o], [o, o, sz, o], [o, o, o, l]] }
    }
}

} // verus!
