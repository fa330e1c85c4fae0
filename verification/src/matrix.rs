//! The dense, row-major `Matrix<T>` type: construction, transpose, and
//! element-wise addition, subtraction, and matrix multiplication.

use crate::scalar::Scalar;
use vstd::prelude::*;

verus! {

/// A rectangular grid is a sequence of `r` rows, each of length `c`.
pub open spec fn is_grid<T>(g: Seq<Seq<T>>, r: nat, c: nat) -> bool {
    g.len() == r && (forall|i: int| 0 <= i < r ==> (#[trigger] g[i]).len() == c)
}

/// The grid held by a row-major nested vector.
pub open spec fn grid_of<T>(d: Seq<Vec<T>>) -> Seq<Seq<T>> {
    Seq::new(d.len(), |i: int| d[i]@)
}

/// An `r` by `c` grid with every cell equal to `v`.
pub open spec fn const_grid<T>(r: nat, c: nat, v: T) -> Seq<Seq<T>> {
    Seq::new(r, |i: int| Seq::new(c, |j: int| v))
}

/// An `r` by `c` grid holding `d` on the principal diagonal and `off`
/// everywhere else.
pub open spec fn diag_grid<T>(r: nat, c: nat, d: T, off: T) -> Seq<Seq<T>> {
    Seq::new(r, |i: int| Seq::new(c, |j: int| if i == j { d } else { off }))
}

/// The element-wise sum of two grids of equal shape.
pub open spec fn add_grid<T: Scalar>(a: Seq<Seq<T>>, b: Seq<Seq<T>>) -> Seq<Seq<T>> {
    Seq::new(a.len(), |i: int| Seq::new(a[i].len(), |j: int| a[i][j].spec_add(b[i][j])))
}

/// The element-wise difference of two grids of equal shape.
pub open spec fn sub_grid<T: Scalar>(a: Seq<Seq<T>>, b: Seq<Seq<T>>) -> Seq<Seq<T>> {
    Seq::new(a.len(), |i: int| Seq::new(a[i].len(), |j: int| a[i][j].spec_sub(b[i][j])))
}

/// The transpose of an `r` by `c` grid: cell `(j, i)` of the result is
/// cell `(i, j)` of `g`.
pub open spec fn transpose_grid<T>(g: Seq<Seq<T>>, r: nat, c: nat) -> Seq<Seq<T>> {
    Seq::new(c, |j: int| Seq::new(r, |i: int| g[i][j]))
}

/// The first `k` terms of the product cell `(i, j)`, accumulated left to
/// right starting from the additive identity:
/// `zero + a[i][0]*b[0][j] + ... + a[i][k-1]*b[k-1][j]`.
pub open spec fn dot_prefix<T: Scalar>(
    a: Seq<Seq<T>>,
    b: Seq<Seq<T>>,
    i: int,
    j: int,
    k: nat,
) -> T
    decreases k,
{
    if k == 0 {
        T::spec_zero()
    } else {
        dot_prefix(a, b, i, j, (k - 1) as nat).spec_add(
            a[i][k - 1].spec_mul(b[k - 1][j]),
        )
    }
}

/// The matrix product of an `r` by `n` grid `a` and an `n` by `c` grid `b`:
/// cell `(i, j)` accumulates `a[i][k] * b[k][j]` over `k` in `0 .. n`.
pub open spec fn mul_grid<T: Scalar>(
    a: Seq<Seq<T>>,
    b: Seq<Seq<T>>,
    r: nat,
    c: nat,
    n: nat,
) -> Seq<Seq<T>> {
    Seq::new(r, |i: int| Seq::new(c, |j: int| dot_prefix(a, b, i, j, n)))
}

/// Why an operation refused its input.
#[derive(Debug, Clone, Copy, PartialEq, Eq, Structural)]
pub enum MatrixError {
    /// Two matrices were combined whose shapes do not fit the operation.
    DimensionMismatch,
    /// A nested vector handed to `from_data` was empty or ragged.
    MalformedInput,
}

/// A nested vector is acceptable matrix data when it is non-empty and
/// rectangular.
pub open spec fn valid_data<T>(d: Seq<Vec<T>>) -> bool {
    d.len() > 0 && (forall|i: int| 0 <= i < d.len() ==> (#[trigger] d[i])@.len() == d[0]@.len())
}

/// A dense, row-major matrix over a scalar type `T`.
///
/// `dimension` caches `(rows, columns)`; every constructor keeps the three
/// fields and the backing storage consistent, which `wf` records.
#[derive(Debug, PartialEq)]
pub struct Matrix<T> {
    rows: u32,
    columns: u32,
    dimension: (u32, u32),
    data: Vec<Vec<T>>,
}

impl<T> Matrix<T> {
    /// The cells of this matrix, row by row.
    pub closed spec fn grid(self) -> Seq<Seq<T>> {
        grid_of(self.data@)
    }

    /// The cached row count.
    pub closed spec fn spec_rows(self) -> u32 {
        self.rows
    }

    /// The cached column count.
    pub closed spec fn spec_columns(self) -> u32 {
        self.columns
    }

    /// The cached `(rows, columns)` pair.
    pub closed spec fn spec_dimension(self) -> (u32, u32) {
        self.dimension
    }

    /// Well-formedness: the cached dimension agrees with the row and column
    /// counts, and the storage is rectangular with exactly that shape.
    pub open spec fn wf(self) -> bool {
        self.spec_dimension() == (self.spec_rows(), self.spec_columns())
            && is_grid(self.grid(), self.spec_rows() as nat, self.spec_columns() as nat)
    }
}

impl<T: Scalar> Clone for Matrix<T> {
    /// The copy carries the same shape fields and the same cells.
    fn clone(&self) -> (r: Self)
        ensures
            r.spec_rows() == self.spec_rows(),
            r.spec_columns() == self.spec_columns(),
            r.spec_dimension() == self.spec_dimension(),
            r.grid() == self.grid(),
    {
        let mut d: Vec<Vec<T>> = Vec::new();
        let mut i: usize = 0;
        while i < self.data.len()
            invariant
                i <= self.data@.len(),
                d@.len() == i as nat,
                forall|ii: int| 0 <= ii < i ==> (#[trigger] d@[ii])@ =~= self.data@[ii]@,
            decreases self.data@.len() - i,
        {
            let row = &self.data[i];
            let mut new_row: Vec<T> = Vec::new();
            let mut j: usize = 0;
            while j < row.len()
                invariant
                    j <= row@.len(),
                    new_row@.len() == j as nat,
                    forall|jj: int| 0 <= jj < j ==> new_row@[jj] == row@[jj],
                decreases row@.len() - j,
            {
                new_row.push(row[j].duplicate());
                j = j + 1;
            }
            d.push(new_row);
            i = i + 1;
        }
        let r = Matrix {
            rows: self.rows,
            columns: self.columns,
            dimension: (self.dimension.0, self.dimension.1),
            data: d,
        };
        proof {
            assert forall|ii: int| 0 <= ii < r.grid().len() implies r.grid()[ii]
                =~= self.grid()[ii] by {
            }
            assert(r.grid() =~~= self.grid());
        }
        r
    }
}

impl<T: Scalar> Matrix<T> {
    /// One row of `c` cells, each equal to `v`.
    fn row_from_constant(c: u32, v: &T) -> (row: Vec<T>)
        ensures
            row@.len() == c as nat,
            forall|j: int| 0 <= j < c ==> row@[j] == *v,
    {
        let mut row: Vec<T> = Vec::new();
        let mut j: u32 = 0;
        while j < c
            invariant
                j <= c,
                row@.len() == j as nat,
                forall|jj: int| 0 <= jj < j ==> row@[jj] == *v,
            decreases c - j,
        {
            row.push(v.duplicate());
            j = j + 1;
        }
        row
    }

    /// Row-major storage for an `r` by `c` matrix with every cell equal
    /// to `v`.
    fn data_from_constant(r: u32, c: u32, v: &T) -> (d: Vec<Vec<T>>)
        ensures
            grid_of(d@) == const_grid(r as nat, c as nat, *v),
    {
        let mut d: Vec<Vec<T>> = Vec::new();
        let mut i: u32 = 0;
        while i < r
            invariant
                i <= r,
                d@.len() == i as nat,
                forall|ii: int| 0 <= ii < i ==> (#[trigger] d@[ii])@.len() == c as nat,
                forall|ii: int, jj: int|
                    0 <= ii < i && 0 <= jj < c ==> d@[ii]@[jj] == *v,
            decreases r - i,
        {
            d.push(Self::row_from_constant(c, v));
            i = i + 1;
        }
        proof {
            assert forall|ii: int| 0 <= ii < r implies grid_of(d@)[ii] =~= const_grid(
                r as nat,
                c as nat,
                *v,
            )[ii] by {
            }
            assert(grid_of(d@) =~~= const_grid(r as nat, c as nat, *v));
        }
        d
    }

    /// Row-major storage for an `r` by `c` matrix with every cell equal to
    /// the additive identity.
    fn data_from_zeroes(r: u32, c: u32) -> (d: Vec<Vec<T>>)
        ensures
            grid_of(d@) == const_grid(r as nat, c as nat, T::spec_zero()),
    {
        let zero = T::scalar_zero();
        Self::data_from_constant(r, c, &zero)
    }

    /// Build a matrix from a nested row-major vector, inferring the shape
    /// from the data. The data must be non-empty and rectangular; otherwise
    /// `MalformedInput` is returned and no matrix is produced.
    pub fn from_data(data: Vec<Vec<T>>) -> (r: Result<Self, MatrixError>)
        requires
            data@.len() <= u32::MAX,
            forall|i: int| 0 <= i < data@.len() ==> (#[trigger] data@[i])@.len() <= u32::MAX,
        ensures
            match r {
                Ok(m) => {
                    &&& valid_data(data@)
                    &&& m.wf()
                    &&& m.spec_rows() as nat == data@.len()
                    &&& m.spec_columns() as nat == data@[0]@.len()
                    &&& m.grid() == grid_of(data@)
                },
                Err(e) => {
                    &&& !valid_data(data@)
                    &&& e == MatrixError::MalformedInput
                },
            },
    {
        if data.len() == 0 {
            return Err(MatrixError::MalformedInput);
        }
        let rows: u32 = data.len() as u32;
        let columns: u32 = data[0].len() as u32;
        let mut i: usize = 0;
        while i < data.len()
            invariant
                data@.len() <= u32::MAX,
                forall|ii: int|
                    0 <= ii < data@.len() ==> (#[trigger] data@[ii])@.len() <= u32::MAX,
                data@.len() > 0,
                rows as nat == data@.len(),
                columns as nat == data@[0]@.len(),
                i <= data@.len(),
                forall|ii: int| 0 <= ii < i ==> (#[trigger] data@[ii])@.len() == data@[0]@.len(),
            decreases data@.len() - i,
        {
            if data[i].len() != columns as usize {
                return Err(MatrixError::MalformedInput);
            }
            i = i + 1;
        }
        let m = Matrix {
            rows: rows,
            columns: columns,
            dimension: (rows, columns),
            data: data,
        };
        Ok(m)
    }

    /// An `NxM` matrix where every cell holds a copy of `constant`.
    pub fn from_constant(dimension: (u32, u32), constant: T) -> (m: Self)
        ensures
            m.wf(),
            m.spec_dimension() == dimension,
            m.grid() == const_grid(dimension.0 as nat, dimension.1 as nat, constant),
    {
        let data = Self::data_from_constant(dimension.0, dimension.1, &constant);
        Matrix {
            rows: dimension.0,
            columns: dimension.1,
            dimension: dimension,
            data: data,
        }
    }

    /// An `NxM` matrix holding copies of `constant` on the principal
    /// diagonal (up to the shorter side) and the additive identity
    /// everywhere else.
    pub fn diagonal_from_constant(dimension: (u32, u32), constant: T) -> (m: Self)
        ensures
            m.wf(),
            m.spec_dimension() == dimension,
            m.grid() == diag_grid(
                dimension.0 as nat,
                dimension.1 as nat,
                constant,
                T::spec_zero(),
            ),
    {
        let rows: u32 = dimension.0;
        let columns: u32 = dimension.1;
        let mut d: Vec<Vec<T>> = Vec::new();
        let mut i: u32 = 0;
        while i < rows
            invariant
                i <= rows,
                d@.len() == i as nat,
                forall|ii: int| 0 <= ii < i ==> (#[trigger] d@[ii])@.len() == columns as nat,
                forall|ii: int, jj: int|
                    0 <= ii < i && 0 <= jj < columns ==> d@[ii]@[jj] == (if ii == jj {
                        constant
                    } else {
                        T::spec_zero()
                    }),
            decreases rows - i,
        {
            let mut row: Vec<T> = Vec::new();
            let mut j: u32 = 0;
            while j < columns
                invariant
                    j <= columns,
                    row@.len() == j as nat,
                    forall|jj: int|
                        0 <= jj < j ==> row@[jj] == (if i == jj {
                            constant
                        } else {
                            T::spec_zero()
                        }),
                decreases columns - j,
            {
                if i == j {
                    row.push(constant.duplicate());
                } else {
                    row.push(T::scalar_zero());
                }
                j = j + 1;
            }
            d.push(row);
            i = i + 1;
        }
        let m = Matrix {
            rows: rows,
            columns: columns,
            dimension: dimension,
            data: d,
        };
        proof {
            assert forall|ii: int| 0 <= ii < rows implies m.grid()[ii] =~= diag_grid(
                rows as nat,
                columns as nat,
                constant,
                T::spec_zero(),
            )[ii] by {
            }
            assert(m.grid() =~~= diag_grid(rows as nat, columns as nat, constant, T::spec_zero()));
        }
        m
    }

    /// An `NxM` matrix with the additive identity on the diagonal — since
    /// the diagonal value is the same as the off-diagonal fill, this is a
    /// zero-filled matrix, not a multiplicative-identity matrix.
    pub fn default_diagonal(dimension: (u32, u32)) -> (m: Self)
        ensures
            m.wf(),
            m.spec_dimension() == dimension,
            m.grid() == diag_grid(
                dimension.0 as nat,
                dimension.1 as nat,
                T::spec_zero(),
                T::spec_zero(),
            ),
    {
        let zero = T::scalar_zero();
        Self::diagonal_from_constant(dimension, zero)
    }

    /// An `NxM` matrix, given as a dimension pair, with every cell equal to
    /// the additive identity.
    pub fn default_from_dimension(dimension: (u32, u32)) -> (m: Self)
        ensures
            m.wf(),
            m.spec_dimension() == dimension,
            m.grid() == const_grid(dimension.0 as nat, dimension.1 as nat, T::spec_zero()),
    {
        let data = Self::data_from_zeroes(dimension.0, dimension.1);
        Matrix {
            rows: dimension.0,
            columns: dimension.1,
            dimension: dimension,
            data: data,
        }
    }

    /// An `NxM` matrix, given as separate row and column counts, with every
    /// cell equal to the additive identity.
    pub fn default_from_rows_and_columns(rows: u32, columns: u32) -> (m: Self)
        ensures
            m.wf(),
            m.spec_dimension() == (rows, columns),
            m.grid() == const_grid(rows as nat, columns as nat, T::spec_zero()),
    {
        let data = Self::data_from_zeroes(rows, columns);
        Matrix {
            rows: rows,
            columns: columns,
            dimension: (rows, columns),
            data: data,
        }
    }

    /// Consume the matrix and return its transpose: cell `(j, i)` of the
    /// result equals cell `(i, j)` of the input.
    pub fn transpose(self) -> (m: Matrix<T>)
        requires
            self.wf(),
        ensures
            m.wf(),
            m.spec_dimension() == (self.spec_columns(), self.spec_rows()),
            m.grid() == transpose_grid(
                self.grid(),
                self.spec_rows() as nat,
                self.spec_columns() as nat,
            ),
    {
        let rows: u32 = self.rows;
        let columns: u32 = self.columns;
        let mut d: Vec<Vec<T>> = Vec::new();
        let mut j: u32 = 0;
        while j < columns
            invariant
                self.wf(),
                rows == self.spec_rows(),
                columns == self.spec_columns(),
                j <= columns,
                d@.len() == j as nat,
                forall|jj: int| 0 <= jj < j ==> (#[trigger] d@[jj])@.len() == rows as nat,
                forall|jj: int, ii: int|
                    0 <= jj < j && 0 <= ii < rows ==> d@[jj]@[ii] == self.grid()[ii][jj],
            decreases columns - j,
        {
            let mut row: Vec<T> = Vec::new();
            let mut i: u32 = 0;
            while i < rows
                invariant
                    self.wf(),
                    rows == self.spec_rows(),
                    columns == self.spec_columns(),
                    j < columns,
                    i <= rows,
                    row@.len() == i as nat,
                    forall|ii: int| 0 <= ii < i ==> row@[ii] == self.grid()[ii][j as int],
                decreases rows - i,
            {
                proof {
                    assert(self.grid()[i as int] == self.data@[i as int]@);
                }
                row.push(self.data[i as usize][j as usize].duplicate());
                i = i + 1;
            }
            d.push(row);
            j = j + 1;
        }
        let m = Matrix {
            rows: columns,
            columns: rows,
            dimension: (columns, rows),
            data: d,
        };
        proof {
            let t = transpose_grid(self.grid(), rows as nat, columns as nat);
            assert forall|jj: int| 0 <= jj < columns implies m.grid()[jj] =~= t[jj] by {
            }
            assert(m.grid() =~~= t);
        }
        m
    }

    /// Element-wise sum. Both operands are consumed; matrices whose
    /// dimensions differ are rejected with `DimensionMismatch`.
    pub fn add(self, rhs: Self) -> (r: Result<Self, MatrixError>)
        requires
            self.wf(),
            rhs.wf(),
        ensures
            match r {
                Ok(m) => {
                    &&& self.spec_dimension() == rhs.spec_dimension()
                    &&& m.wf()
                    &&& m.spec_dimension() == self.spec_dimension()
                    &&& m.grid() == add_grid(self.grid(), rhs.grid())
                },
                Err(e) => {
                    &&& self.spec_dimension() != rhs.spec_dimension()
                    &&& e == MatrixError::DimensionMismatch
                },
            },
    {
        if !(self.dimension.0 == rhs.dimension.0 && self.dimension.1 == rhs.dimension.1) {
            return Err(MatrixError::DimensionMismatch);
        }
        let rows: u32 = self.rows;
        let columns: u32 = self.columns;
        let mut d: Vec<Vec<T>> = Vec::new();
        let mut i: u32 = 0;
        while i < rows
            invariant
                self.wf(),
                rhs.wf(),
                rows == self.spec_rows(),
                columns == self.spec_columns(),
                rhs.spec_rows() == rows,
                rhs.spec_columns() == columns,
                i <= rows,
                d@.len() == i as nat,
                forall|ii: int| 0 <= ii < i ==> (#[trigger] d@[ii])@.len() == columns as nat,
                forall|ii: int, jj: int|
                    0 <= ii < i && 0 <= jj < columns ==> d@[ii]@[jj] == self.grid()[ii][jj]
                        .spec_add(rhs.grid()[ii][jj]),
            decreases rows - i,
        {
            let mut row: Vec<T> = Vec::new();
            let mut j: u32 = 0;
            while j < columns
                invariant
                    self.wf(),
                    rhs.wf(),
                    rows == self.spec_rows(),
                    columns == self.spec_columns(),
                    rhs.spec_rows() == rows,
                    rhs.spec_columns() == columns,
                    i < rows,
                    j <= columns,
                    row@.len() == j as nat,
                    forall|jj: int|
                        0 <= jj < j ==> row@[jj] == self.grid()[i as int][jj].spec_add(
                            rhs.grid()[i as int][jj],
                        ),
                decreases columns - j,
            {
                proof {
                    assert(self.grid()[i as int] == self.data@[i as int]@);
                    assert(rhs.grid()[i as int] == rhs.data@[i as int]@);
                }
                let a = self.data[i as usize][j as usize].duplicate();
                let b = rhs.data[i as usize][j as usize].duplicate();
                row.push(a.scalar_add(b));
                j = j + 1;
            }
            d.push(row);
            i = i + 1;
        }
        let m = Matrix {
            rows: rows,
            columns: columns,
            dimension: (rows, columns),
            data: d,
        };
        proof {
            let s = add_grid(self.grid(), rhs.grid());
            assert forall|ii: int| 0 <= ii < rows implies m.grid()[ii] =~= s[ii] by {
            }
            assert(m.grid() =~~= s);
        }
        Ok(m)
    }

    /// Element-wise difference. Both operands are consumed; matrices whose
    /// dimensions differ are rejected with `DimensionMismatch`.
    pub fn sub(self, rhs: Self) -> (r: Result<Self, MatrixError>)
        requires
            self.wf(),
            rhs.wf(),
        ensures
            match r {
                Ok(m) => {
                    &&& self.spec_dimension() == rhs.spec_dimension()
                    &&& m.wf()
                    &&& m.spec_dimension() == self.spec_dimension()
                    &&& m.grid() == sub_grid(self.grid(), rhs.grid())
                },
                Err(e) => {
                    &&& self.spec_dimension() != rhs.spec_dimension()
                    &&& e == MatrixError::DimensionMismatch
                },
            },
    {
        if !(self.dimension.0 == rhs.dimension.0 && self.dimension.1 == rhs.dimension.1) {
            return Err(MatrixError::DimensionMismatch);
        }
        let rows: u32 = self.rows;
        let columns: u32 = self.columns;
        let mut d: Vec<Vec<T>> = Vec::new();
        let mut i: u32 = 0;
        while i < rows
            invariant
                self.wf(),
                rhs.wf(),
                rows == self.spec_rows(),
                columns == self.spec_columns(),
                rhs.spec_rows() == rows,
                rhs.spec_columns() == columns,
                i <= rows,
                d@.len() == i as nat,
                forall|ii: int| 0 <= ii < i ==> (#[trigger] d@[ii])@.len() == columns as nat,
                forall|ii: int, jj: int|
                    0 <= ii < i && 0 <= jj < columns ==> d@[ii]@[jj] == self.grid()[ii][jj]
                        .spec_sub(rhs.grid()[ii][jj]),
            decreases rows - i,
        {
            let mut row: Vec<T> = Vec::new();
            let mut j: u32 = 0;
            while j < columns
                invariant
                    self.wf(),
                    rhs.wf(),
                    rows == self.spec_rows(),
                    columns == self.spec_columns(),
                    rhs.spec_rows() == rows,
                    rhs.spec_columns() == columns,
                    i < rows,
                    j <= columns,
                    row@.len() == j as nat,
                    forall|jj: int|
                        0 <= jj < j ==> row@[jj] == self.grid()[i as int][jj].spec_sub(
                            rhs.grid()[i as int][jj],
                        ),
                decreases columns - j,
            {
                proof {
                    assert(self.grid()[i as int] == self.data@[i as int]@);
                    assert(rhs.grid()[i as int] == rhs.data@[i as int]@);
                }
                let a = self.data[i as usize][j as usize].duplicate();
                let b = rhs.data[i as usize][j as usize].duplicate();
                row.push(a.scalar_sub(b));
                j = j + 1;
            }
            d.push(row);
            i = i + 1;
        }
        let m = Matrix {
            rows: rows,
            columns: columns,
            dimension: (rows, columns),
            data: d,
        };
        proof {
            let s = sub_grid(self.grid(), rhs.grid());
            assert forall|ii: int| 0 <= ii < rows implies m.grid()[ii] =~= s[ii] by {
            }
            assert(m.grid() =~~= s);
        }
        Ok(m)
    }

    /// Matrix product by the naive triple loop, accumulating each cell left
    /// to right from the additive identity. Both operands are consumed;
    /// operands whose inner dimensions differ are rejected with
    /// `DimensionMismatch`.
    pub fn mul(self, rhs: Self) -> (r: Result<Self, MatrixError>)
        requires
            self.wf(),
            rhs.wf(),
        ensures
            match r {
                Ok(m) => {
                    &&& self.spec_columns() == rhs.spec_rows()
                    &&& m.wf()
                    &&& m.spec_dimension() == (self.spec_rows(), rhs.spec_columns())
                    &&& m.grid() == mul_grid(
                        self.grid(),
                        rhs.grid(),
                        self.spec_rows() as nat,
                        rhs.spec_columns() as nat,
                        self.spec_columns() as nat,
                    )
                },
                Err(e) => {
                    &&& self.spec_columns() != rhs.spec_rows()
                    &&& e == MatrixError::DimensionMismatch
                },
            },
    {
        if self.columns != rhs.rows {
            return Err(MatrixError::DimensionMismatch);
        }
        let rows: u32 = self.rows;
        let columns: u32 = rhs.columns;
        let inner: u32 = self.columns;
        let mut d: Vec<Vec<T>> = Vec::new();
        let mut i: u32 = 0;
        while i < rows
            invariant
                self.wf(),
                rhs.wf(),
                rows == self.spec_rows(),
                columns == rhs.spec_columns(),
                inner == self.spec_columns(),
                inner == rhs.spec_rows(),
                i <= rows,
                d@.len() == i as nat,
                forall|ii: int| 0 <= ii < i ==> (#[trigger] d@[ii])@.len() == columns as nat,
                forall|ii: int, jj: int|
                    0 <= ii < i && 0 <= jj < columns ==> d@[ii]@[jj] == dot_prefix(
                        self.grid(),
                        rhs.grid(),
                        ii,
                        jj,
                        inner as nat,
                    ),
            decreases rows - i,
        {
            let mut row: Vec<T> = Vec::new();
            let mut j: u32 = 0;
            while j < columns
                invariant
                    self.wf(),
                    rhs.wf(),
                    rows == self.spec_rows(),
                    columns == rhs.spec_columns(),
                    inner == self.spec_columns(),
                    inner == rhs.spec_rows(),
                    i < rows,
                    j <= columns,
                    row@.len() == j as nat,
                    forall|jj: int|
                        0 <= jj < j ==> row@[jj] == dot_prefix(
                            self.grid(),
                            rhs.grid(),
                            i as int,
                            jj,
                            inner as nat,
                        ),
                decreases columns - j,
            {
                let mut acc: T = T::scalar_zero();
                let mut k: u32 = 0;
                while k < inner
                    invariant
                        self.wf(),
                        rhs.wf(),
                        rows == self.spec_rows(),
                        columns == rhs.spec_columns(),
                        inner == self.spec_columns(),
                        inner == rhs.spec_rows(),
                        i < rows,
                        j < columns,
                        k <= inner,
                        acc == dot_prefix(self.grid(), rhs.grid(), i as int, j as int, k as nat),
                    decreases inner - k,
                {
                    proof {
                        assert(self.grid()[i as int] == self.data@[i as int]@);
                        assert(rhs.grid()[k as int] == rhs.data@[k as int]@);
                    }
                    let a = self.data[i as usize][k as usize].duplicate();
                    let b = rhs.data[k as usize][j as usize].duplicate();
                    acc = acc.scalar_add(a.scalar_mul(b));
                    k = k + 1;
                }
                row.push(acc);
                j = j + 1;
            }
            d.push(row);
            i = i + 1;
        }
        let m = Matrix {
            rows: rows,
            columns: columns,
            dimension: (rows, columns),
            data: d,
        };
        proof {
            let p = mul_grid(
                self.grid(),
                rhs.grid(),
                rows as nat,
                columns as nat,
                inner as nat,
            );
            assert forall|ii: int| 0 <= ii < rows implies m.grid()[ii] =~= p[ii] by {
            }
            assert(m.grid() =~~= p);
        }
        Ok(m)
    }
}

/// The fallback instance: a fixed 3x3 matrix filled with the additive
/// identity, not parameterized by any caller-supplied dimension.
impl<T: Scalar> Default for Matrix<T> {
    fn default() -> (m: Self)
        ensures
            m.wf(),
            m.spec_dimension() == (3u32, 3u32),
            m.grid() == const_grid(3, 3, T::spec_zero()),
    {
        Matrix::default_from_rows_and_columns(3, 3)
    }
}

} // verus!
