use vstd::prelude::*;

verus! {

/// Index in the full matrix of the `i`-th row (or column) that is kept when
/// row (or column) `removed` is taken out.
pub open spec fn kept_index(i: int, removed: int) -> int {
    if i < removed {
        i
    } else {
        i + 1
    }
}

fn kept_source(i: usize, removed: usize) -> (r: usize)
    requires
        i < 3,
        removed < 4,
    ensures
        r == kept_index(i as int, removed as int),
        r < 4,
        r != removed,
{
    if i < removed {
        i
    } else {
        i + 1
    }
}

/// Whether the cofactor at (`row`, `col`) is the negated minor: the sign of a
/// cofactor is `(-1)^(row + col)`.
pub fn cofactor_negates(row: usize, col: usize) -> (r: bool)
    requires
        row < 4,
        col < 4,
    ensures
        r == ((row + col) % 2 == 1),
{
    (row + col) % 2 == 1
}

/// A 4x4 matrix in row-major order. The scalar type is a parameter: this
/// module holds the operations that only move entries around.
#[derive(Clone, Copy, PartialEq, Debug)]
pub struct Matrix4x4<T> {
    pub data: [[T; 4]; 4],
}

/// A 3x3 matrix in row-major order.
#[derive(Clone, Copy, PartialEq, Debug)]
pub struct Matrix3x3<T> {
    pub data: [[T; 3]; 3],
}

/// A 2x2 matrix in row-major order.
#[derive(Clone, Copy, PartialEq, Debug)]
pub struct Matrix2x2<T> {
    pub data: [[T; 2]; 2],
}

impl<T: Copy> Matrix4x4<T> {
    pub fn new(data: [[T; 4]; 4]) -> (r: Self)
        ensures
            r.data == data,
    {
        Matrix4x4 { data }
    }

    /// The matrix with rows and columns swapped.
    pub fn transpose(&self) -> (r: Self)
        ensures
            forall|i: int, j: int|
                0 <= i < 4 && 0 <= j < 4 ==> #[trigger] r.data[i][j] == self.data[j][i],
    {
        let d = &self.data;
        Matrix4x4 {
            data: [
                [d[0][0], d[1][0], d[2][0], d[3][0]],
                [d[0][1], d[1][1], d[2][1], d[3][1]],
                [d[0][2], d[1][2], d[2][2], d[3][2]],
                [d[0][3], d[1][3], d[2][3], d[3][3]],
            ],
        }
    }

    /// The 3x3 matrix left after removing row `row` and column `col`; the
    /// remaining rows and columns keep their relative order.
    pub fn submatrix(&self, row: usize, col: usize) -> (r: Matrix3x3<T>)
        requires
            row < 4,
            col < 4,
        ensures
            forall|i: int, j: int|
                0 <= i < 3 && 0 <= j < 3 ==> #[trigger] r.data[i][j] == self.data[kept_index(
                    i,
                    row as int,
                )][kept_index(j, col as int)],
    {
        let d = &self.data;
        let (r0, r1, r2) = (kept_source(0, row), kept_source(1, row), kept_source(2, row));
        let (c0, c1, c2) = (kept_source(0, col), kept_source(1, col), kept_source(2, col));
        Matrix3x3 {
            data: [
                [d[r0][c0], d[r0][c1], d[r0][c2]],
                [d[r1][c0], d[r1][c1], d[r1][c2]],
                [d[r2][c0], d[r2][c1], d[r2][c2]],
            ],
        }
    }
}

impl<T: Copy> Matrix3x3<T> {
    pub fn new(data: [[T; 3]; 3]) -> (r: Self)
        ensures
            r.data == data,
    {
        Matrix3x3 { data }
    }

    /// The 2x2 matrix left after removing row `row` and column `col`; the
    /// remaining rows and columns keep their relative order.
    pub fn submatrix(&self, row: usize, col: usize) -> (r: Matrix2x2<T>)
        requires
            row < 3,
            col < 3,
        ensures
            forall|i: int, j: int|
                0 <= i < 2 && 0 <= j < 2 ==> #[trigger] r.data[i][j] == self.data[kept_index(
                    i,
                    row as int,
                )][kept_index(j, col as int)],
    {
        let d = &self.data;
        let (r0, r1) = (kept_source(0, row), kept_source(1, row));
        let (c0, c1) = (kept_source(0, col), kept_source(1, col));
        Matrix2x2 { data: [[d[r0][c0], d[r0][c1]], [d[r1][c0], d[r1][c1]]] }
    }
}

impl<T: Copy> Matrix2x2<T> {
    pub fn new(data: [[T; 2]; 2]) -> (r: Self)
        ensures
            r.data == data,
    {
        Matrix2x2 { data }
    }
}

} // verus!
