//! Algebraic laws the matrix operations satisfy, stated over the grid-level
//! specification functions that the operations' contracts use.

use crate::matrix::Matrix;
use crate::matrix::add_grid;
use crate::matrix::const_grid;
use crate::matrix::diag_grid;
use crate::matrix::dot_prefix;
use crate::matrix::is_grid;
use crate::matrix::mul_grid;
use crate::matrix::sub_grid;
use crate::matrix::transpose_grid;
use crate::scalar::Scalar;
use vstd::prelude::*;

verus! {

/// Adding a constant matrix to itself gives the constant matrix of the
/// doubled value: for every dimension `d` and scalar `v`, the sum of two
/// copies of `from_constant(d, v)` has the same cells as
/// `from_constant(d, v.spec_add(v))`.
pub proof fn lemma_add_from_constant<T: Scalar>(d: (u32, u32), v: T)
    ensures
        add_grid(
            const_grid(d.0 as nat, d.1 as nat, v),
            const_grid(d.0 as nat, d.1 as nat, v),
        ) == const_grid(d.0 as nat, d.1 as nat, v.spec_add(v)),
{
    let a = const_grid(d.0 as nat, d.1 as nat, v);
    let s = add_grid(a, a);
    let t = const_grid(d.0 as nat, d.1 as nat, v.spec_add(v));
    assert forall|i: int| 0 <= i < s.len() implies s[i] =~= t[i] by {
    }
    assert(s =~~= t);
}

/// One accumulation step at a time: multiplying a row of `v`s into a column
/// of a diagonal matrix accumulates to `v` once the diagonal entry has been
/// passed, and to the additive identity before that.
proof fn lemma_dot_prefix_diag<T: Scalar>(n: nat, v: T, one: T, i: int, j: int, k: nat)
    requires
        0 <= i < n,
        0 <= j < n,
        k <= n,
        forall|x: T| #[trigger] x.spec_mul(one) == x,
        forall|x: T| #[trigger] x.spec_mul(T::spec_zero()) == T::spec_zero(),
    ensures
        dot_prefix(
            const_grid(n, n, v),
            diag_grid(n, n, one, T::spec_zero()),
            i,
            j,
            k,
        ) == (if j < k {
            v
        } else {
            T::spec_zero()
        }),
    decreases k,
{
    let a = const_grid(n, n, v);
    let b = diag_grid(n, n, one, T::spec_zero());
    if k > 0 {
        lemma_dot_prefix_diag(n, v, one, i, j, (k - 1) as nat);
        assert(a[i][k - 1] == v);
        if k - 1 == j {
            assert(b[k - 1][j] == one);
            T::law_zero_identity(v);
        } else {
            assert(b[k - 1][j] == T::spec_zero());
            T::law_zero_identity(dot_prefix(a, b, i, j, (k - 1) as nat));
        }
    }
}

/// Multiplying a constant matrix by a diagonal matrix whose diagonal value
/// is a multiplicative identity gives the constant matrix back: for a square
/// dimension `d` and any scalar `v`, the product of `from_constant(d, v)`
/// and `diagonal_from_constant(d, one)` has the same cells as
/// `from_constant(d, v)`. The scalar type must also send every value to the
/// additive identity when multiplied by it.
pub proof fn lemma_mul_diagonal_identity<T: Scalar>(d: (u32, u32), v: T, one: T)
    requires
        d.0 == d.1,
        forall|x: T| #[trigger] x.spec_mul(one) == x,
        forall|x: T| #[trigger] x.spec_mul(T::spec_zero()) == T::spec_zero(),
    ensures
        mul_grid(
            const_grid(d.0 as nat, d.0 as nat, v),
            diag_grid(d.0 as nat, d.0 as nat, one, T::spec_zero()),
            d.0 as nat,
            d.0 as nat,
            d.0 as nat,
        ) == const_grid(d.0 as nat, d.0 as nat, v),
{
    let n = d.0 as nat;
    let a = const_grid(n, n, v);
    let b = diag_grid(n, n, one, T::spec_zero());
    let p = mul_grid(a, b, n, n, n);
    let t = const_grid(n, n, v);
    assert forall|i: int| 0 <= i < p.len() implies p[i] =~= t[i] by {
        assert forall|j: int| 0 <= j < n implies p[i][j] == t[i][j] by {
            lemma_dot_prefix_diag(n, v, one, i, j, n);
        }
    }
    assert(p =~~= t);
}

/// Subtracting a matrix from itself gives the zero-filled matrix of the
/// same dimension: the difference has the same cells as
/// `default_from_dimension(m.dimension)`.
pub proof fn lemma_sub_self<T: Scalar>(m: Matrix<T>)
    requires
        m.wf(),
    ensures
        sub_grid(m.grid(), m.grid()) == const_grid(
            m.spec_rows() as nat,
            m.spec_columns() as nat,
            T::spec_zero(),
        ),
{
    let s = sub_grid(m.grid(), m.grid());
    let t = const_grid(m.spec_rows() as nat, m.spec_columns() as nat, T::spec_zero());
    assert forall|i: int| 0 <= i < s.len() implies s[i] =~= t[i] by {
        assert forall|j: int| 0 <= j < m.spec_columns() implies s[i][j] == t[i][j] by {
            T::law_sub_self(m.grid()[i][j]);
        }
    }
    assert(s =~~= t);
}

/// Transposing twice gives the original cells back, for every well-formed
/// matrix.
pub proof fn lemma_transpose_involution<T>(m: Matrix<T>)
    requires
        m.wf(),
    ensures
        transpose_grid(
            transpose_grid(m.grid(), m.spec_rows() as nat, m.spec_columns() as nat),
            m.spec_columns() as nat,
            m.spec_rows() as nat,
        ) == m.grid(),
{
    let r = m.spec_rows() as nat;
    let c = m.spec_columns() as nat;
    let t = transpose_grid(m.grid(), r, c);
    let tt = transpose_grid(t, c, r);
    assert(is_grid(m.grid(), r, c));
    assert forall|i: int| 0 <= i < tt.len() implies tt[i] =~= m.grid()[i] by {
    }
    assert(tt =~~= m.grid());
}

/// The transpose swaps the two components of the dimension; on grids, an
/// `r` by `c` grid transposes to a `c` by `r` grid.
pub proof fn lemma_transpose_shape<T>(m: Matrix<T>)
    requires
        m.wf(),
    ensures
        is_grid(
            transpose_grid(m.grid(), m.spec_rows() as nat, m.spec_columns() as nat),
            m.spec_columns() as nat,
            m.spec_rows() as nat,
        ),
{
}

} // verus!
