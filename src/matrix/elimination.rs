//! Square matrices: identity, and Gaussian elimination for the determinant
//! and the inverse.
use vstd::prelude::*;
use std::ops::{Div, Mul, Neg, Sub};
use vstd::std_specs::cmp::{PartialOrdIs, PartialOrdSpec};
use vstd::std_specs::convert::FromSpec;
use vstd::std_specs::ops::{DivSpec, MulSpec, NegSpec, SubSpec};

use super::{grid_rows, Matrix};
use crate::scalar::{one, zero};

verus! {

/// Scalars whose arithmetic, comparison and conversions are specified, and
/// whose subtraction, multiplication, division and negation are defined on
/// every pair of values (as for floating-point numbers). Elimination works
/// over such scalars only.
pub open spec fn field_ops<T>() -> bool where
    T: Copy + From<u8> + From<u32> + Sub<Output = T> + Mul<Output = T> + Div<Output = T> + Neg<Output = T>
        + PartialOrd,
 {
    &&& T::obeys_sub_spec()
    &&& T::obeys_mul_spec()
    &&& T::obeys_div_spec()
    &&& T::obeys_neg_spec()
    &&& T::obeys_partial_cmp_spec()
    &&& <T as FromSpec<u8>>::obeys_from_spec()
    &&& <T as FromSpec<u32>>::obeys_from_spec()
    &&& forall|x: T, y: T| #[trigger] x.sub_req(y)
    &&& forall|x: T, y: T| #[trigger] x.mul_req(y)
    &&& forall|x: T, y: T| #[trigger] x.div_req(y)
    &&& forall|x: T| #[trigger] x.neg_req()
}

/// The singularity threshold, one billionth: `1 / 1_000_000_000`.
pub open spec fn tolerance<T>() -> T where T: From<u8> + From<u32> + Div<Output = T> {
    <T as FromSpec<u8>>::from_spec(1u8).div_spec(<T as FromSpec<u32>>::from_spec(1_000_000_000u32))
}

/// `x` is above the tolerance in magnitude: `x > tol` or `x < -tol`.
pub open spec fn exceeds_tolerance<T>(x: T) -> bool where
    T: From<u8> + From<u32> + Div<Output = T> + Neg<Output = T> + PartialOrd,
 {
    x.is_gt(&tolerance::<T>()) || x.is_lt(&tolerance::<T>().neg_spec())
}

/// The first row `r` in `j..m.len()` whose entry in column `c` exceeds the tolerance.
pub open spec fn first_pivot<T>(m: Seq<Seq<T>>, c: int, j: int) -> Option<int> where
    T: From<u8> + From<u32> + Div<Output = T> + Neg<Output = T> + PartialOrd,
    decreases m.len() - j,
{
    if j < 0 || j >= m.len() {
        None
    } else if exceeds_tolerance(m[j][c]) {
        Some(j)
    } else {
        first_pivot(m, c, j + 1)
    }
}

/// `m` with rows `a` and `b` exchanged.
pub open spec fn swap_rows<T>(m: Seq<Seq<T>>, a: int, b: int) -> Seq<Seq<T>> {
    Seq::new(m.len(), |r: int| if r == a { m[b] } else if r == b { m[a] } else { m[r] })
}

/// `row` minus `factor` times `piv`, in the columns from `from` on; the
/// columns before `from` are kept.
pub open spec fn reduce_row<T>(row: Seq<T>, piv: Seq<T>, from: int, factor: T) -> Seq<T> where
    T: Sub<Output = T> + Mul<Output = T>,
 {
    Seq::new(row.len(), |k: int| if k < from { row[k] } else { row[k].sub_spec(factor.mul_spec(piv[k])) })
}

/// Each row below `c` reduced by row `c`, with factor `m[j][c] / m[c][c]`,
/// in the columns from `c` on.
pub open spec fn eliminate_below<T>(m: Seq<Seq<T>>, c: int) -> Seq<Seq<T>> where
    T: Sub<Output = T> + Mul<Output = T> + Div<Output = T>,
 {
    Seq::new(
        m.len(),
        |j: int|
            if j <= c {
                m[j]
            } else {
                reduce_row(m[j], m[c], c, m[j][c].div_spec(m[c][c]))
            },
    )
}

/// Determinant elimination from pivot column `c` on, with running product
/// `det` and sign `sign`.
pub open spec fn det_from<T>(m: Seq<Seq<T>>, c: int, det: T, sign: T) -> T where
    T: From<u8> + From<u32> + Sub<Output = T> + Mul<Output = T> + Div<Output = T> + Neg<Output = T>
        + PartialOrd,
    decreases m.len() - c,
{
    if c < 0 || c >= m.len() {
        det.mul_spec(sign)
    } else {
        match first_pivot(m, c, c) {
            None => zero::<T>(),
            Some(p) => {
                let m1 = if p != c { swap_rows(m, c, p) } else { m };
                let s1 = if p != c { sign.neg_spec() } else { sign };
                det_from(eliminate_below(m1, c), c + 1, det.mul_spec(m1[c][c]), s1)
            },
        }
    }
}

/// `m` with row `r` multiplied entrywise by `f`.
pub open spec fn scale_row<T>(m: Seq<Seq<T>>, r: int, f: T) -> Seq<Seq<T>> where
    T: Mul<Output = T>,
 {
    Seq::new(
        m.len(),
        |j: int| if j == r { Seq::new(m[r].len(), |k: int| m[r][k].mul_spec(f)) } else { m[j] },
    )
}

/// Each row of `x` but row `c` reduced by row `c` of `x`, over all columns,
/// with factor `m[j][c]`.
pub open spec fn clear_column<T>(m: Seq<Seq<T>>, x: Seq<Seq<T>>, c: int) -> Seq<Seq<T>> where
    T: Sub<Output = T> + Mul<Output = T>,
 {
    Seq::new(x.len(), |j: int| if j == c { x[j] } else { reduce_row(x[j], x[c], 0, m[j][c]) })
}

/// Gauss-Jordan elimination from pivot column `c` on, of the working rows `m`
/// and the accumulated rows `v`; `None` when a column has no pivot.
pub open spec fn inv_from<T>(m: Seq<Seq<T>>, v: Seq<Seq<T>>, c: int) -> Option<Seq<Seq<T>>> where
    T: From<u8> + From<u32> + Sub<Output = T> + Mul<Output = T> + Div<Output = T> + Neg<Output = T>
        + PartialOrd,
    decreases m.len() - c,
{
    if c < 0 || c >= m.len() {
        Some(v)
    } else {
        match first_pivot(m, c, c) {
            None => None,
            Some(p) => {
                let m1 = if p != c { swap_rows(m, c, p) } else { m };
                let v1 = if p != c { swap_rows(v, c, p) } else { v };
                let f = one::<T>().div_spec(m1[c][c]);
                let m2 = scale_row(m1, c, f);
                let v2 = scale_row(v1, c, f);
                inv_from(clear_column(m2, m2, c), clear_column(m2, v2, c), c + 1)
            },
        }
    }
}

impl<T: Copy + From<u8>, const M: usize> Matrix<T, M, M> {
    /// The square matrix with one on the diagonal and zero elsewhere.
    pub open spec fn spec_identity() -> Self {
        Self::tabulate(|i: int, j: int| if i == j { one::<T>() } else { zero::<T>() })
    }

    /// Creates the identity matrix: `T::from(1)` on the diagonal, `T::from(0)` elsewhere.
    pub fn identity() -> (r: Self)
        ensures
            <T as FromSpec<u8>>::obeys_from_spec() ==> r == Self::spec_identity(),
    {
        let nought = T::from(0u8);
        let unit = T::from(1u8);
        let mut data = [[nought; M]; M];
        let mut i: usize = 0;
        while i < M
            invariant
                0 <= i <= M,
                <T as FromSpec<u8>>::obeys_from_spec() ==> unit == one::<T>() && nought == zero::<T>(),
                forall|a: int, b: int|
                    0 <= a < M && 0 <= b < M ==> #[trigger] data[a][b] == if a == b && a < i {
                        unit
                    } else {
                        nought
                    },
            decreases M - i,
        {
            let mut row = data[i];
            row[i] = unit;
            data[i] = row;
            i += 1;
        }
        let r = Matrix { data };
        proof {
            if <T as FromSpec<u8>>::obeys_from_spec() {
                Self::lemma_tabulate_unique(
                    r,
                    |i: int, j: int| if i == j { one::<T>() } else { zero::<T>() },
                );
            }
        }
        r
    }
}

/// A pivot row, when there is one, lies in `j..m.len()`.
pub proof fn lemma_first_pivot_range<T>(m: Seq<Seq<T>>, c: int, j: int) where
    T: From<u8> + From<u32> + Div<Output = T> + Neg<Output = T> + PartialOrd,

    ensures
        first_pivot(m, c, j) matches Some(p) ==> j <= p < m.len(),
    decreases m.len() - j,
{
    if 0 <= j < m.len() && !exceeds_tolerance(m[j][c]) {
        lemma_first_pivot_range(m, c, j + 1);
    }
}

/// The first row from `i` on whose entry in column `i` exceeds the tolerance.
fn find_pivot<T, const M: usize>(mat: &[[T; M]; M], i: usize, tol: T, neg_tol: T) -> (r: Option<usize>) where
    T: Copy + From<u8> + From<u32> + Sub<Output = T> + Mul<Output = T> + Div<Output = T> + Neg<Output = T>
        + PartialOrd,

    requires
        field_ops::<T>(),
        tol == tolerance::<T>(),
        neg_tol == tol.neg_spec(),
        i < M,
    ensures
        r is Some <==> first_pivot(grid_rows(*mat), i as int, i as int) is Some,
        r matches Some(p) ==> first_pivot(grid_rows(*mat), i as int, i as int) == Some(p as int),
        r matches Some(p) ==> i <= p < M,
{
    let ghost rows = grid_rows(*mat);
    let mut j: usize = i;
    let mut found: Option<usize> = None;
    while j < M && found.is_none()
        invariant
            field_ops::<T>(),
            tol == tolerance::<T>(),
            neg_tol == tol.neg_spec(),
            i <= j <= M,
            rows == grid_rows(*mat),
            found matches Some(p) ==> i <= p < M,
            first_pivot(rows, i as int, i as int) == match found {
                Some(p) => Some(p as int),
                None => first_pivot(rows, i as int, j as int),
            },
        decreases M - j + if found is None { 1int } else { 0int },
    {
        let x = mat[j][i];
        assert(rows[j as int][i as int] == x);
        if x.gt(&tol) || x.lt(&neg_tol) {
            found = Some(j);
        } else {
            j += 1;
        }
    }
    found
}

/// Exchanges rows `a` and `b` of a square grid.
fn swap_grid_rows<T: Copy, const M: usize>(mat: &mut [[T; M]; M], a: usize, b: usize)
    requires
        a < M,
        b < M,
    ensures
        grid_rows(*final(mat)) == swap_rows(grid_rows(*old(mat)), a as int, b as int),
{
    let ra = mat[a];
    let rb = mat[b];
    mat[a] = rb;
    mat[b] = ra;
    assert(grid_rows(*mat) =~= swap_rows(grid_rows(*old(mat)), a as int, b as int));
}

/// `row` minus `factor` times `piv`, in the columns from `from` on.
fn reduce<T, const M: usize>(row: [T; M], piv: [T; M], from: usize, factor: T) -> (r: [T; M]) where
    T: Copy + From<u8> + From<u32> + Sub<Output = T> + Mul<Output = T> + Div<Output = T> + Neg<Output = T>
        + PartialOrd,

    requires
        field_ops::<T>(),
    ensures
        r@ == reduce_row(row@, piv@, from as int, factor),
{
    let mut r = row;
    let mut k: usize = from;
    while k < M
        invariant
            field_ops::<T>(),
            from <= k,
            forall|x: int|
                0 <= x < M ==> #[trigger] r[x] == if from <= x < k {
                    row[x].sub_spec(factor.mul_spec(piv[x]))
                } else {
                    row[x]
                },
        decreases M - k,
    {
        r[k] = r[k] - factor * piv[k];
        k += 1;
    }
    assert(r@ =~= reduce_row(row@, piv@, from as int, factor));
    r
}

/// `row` multiplied entrywise by `f`.
fn scale<T, const M: usize>(row: [T; M], f: T) -> (r: [T; M]) where
    T: Copy + From<u8> + From<u32> + Sub<Output = T> + Mul<Output = T> + Div<Output = T> + Neg<Output = T>
        + PartialOrd,

    requires
        field_ops::<T>(),
    ensures
        r@ == Seq::new(M as nat, |k: int| row[k].mul_spec(f)),
{
    let mut r = row;
    let mut k: usize = 0;
    while k < M
        invariant
            field_ops::<T>(),
            forall|x: int|
                0 <= x < M ==> #[trigger] r[x] == if x < k {
                    row[x].mul_spec(f)
                } else {
                    row[x]
                },
        decreases M - k,
    {
        r[k] = r[k] * f;
        k += 1;
    }
    assert(r@ =~= Seq::new(M as nat, |k: int| row[k].mul_spec(f)));
    r
}

impl<T, const M: usize> Matrix<T, M, M> where
    T: Copy + From<u8> + From<u32> + Sub<Output = T> + Mul<Output = T> + Div<Output = T> + Neg<Output = T>
        + PartialOrd,
 {
    /// The determinant as elimination with first-found pivots computes it.
    pub open spec fn spec_determinant(self) -> T {
        det_from(self@, 0, one::<T>(), one::<T>())
    }

    /// The determinant, by Gaussian elimination with partial pivoting: the
    /// pivot of each column is the first row from the diagonal down whose
    /// entry exceeds one billionth in magnitude; zero when a column has none.
    pub fn determinant(&self) -> (r: T)
        requires
            field_ops::<T>(),
        ensures
            r == self.spec_determinant(),
    {
        let unit = T::from(1u8);
        let tol = T::from(1u8) / T::from(1_000_000_000u32);
        let neg_tol = tol.neg();
        let mut mat = self.data;
        let mut det = unit;
        let mut sign = unit;
        let mut i: usize = 0;
        while i < M
            invariant
                field_ops::<T>(),
                tol == tolerance::<T>(),
                neg_tol == tol.neg_spec(),
                0 <= i <= M,
                det_from(grid_rows(mat), i as int, det, sign) == self.spec_determinant(),
            decreases M - i,
        {
            let ghost before = grid_rows(mat);
            let found = find_pivot(&mat, i, tol, neg_tol);
            let pivot = match found {
                None => {
                    return T::from(0u8);
                },
                Some(p) => p,
            };
            if pivot != i {
                swap_grid_rows(&mut mat, i, pivot);
                sign = sign.neg();
            }
            let ghost start = grid_rows(mat);
            let pivot_val = mat[i][i];
            let piv_row = mat[i];
            assert(start[i as int] == piv_row@);
            let mut j: usize = i + 1;
            while j < M
                invariant
                    field_ops::<T>(),
                    i < M,
                    i + 1 <= j <= M,
                    start.len() == M,
                    piv_row@ == start[i as int],
                    pivot_val == start[i as int][i as int],
                    forall|r: int|
                        0 <= r < M ==> #[trigger] mat[r]@ == if i < r < j {
                            reduce_row(
                                start[r],
                                start[i as int],
                                i as int,
                                start[r][i as int].div_spec(start[i as int][i as int]),
                            )
                        } else {
                            start[r]
                        },
                decreases M - j,
            {
                let factor = mat[j][i] / pivot_val;
                mat[j] = reduce(mat[j], piv_row, i, factor);
                j += 1;
            }
            assert(grid_rows(mat) =~= eliminate_below(start, i as int));
            det = det * pivot_val;
            i += 1;
        }
        det * sign
    }

    /// The inverse as Gauss-Jordan elimination with first-found pivots computes it.
    pub open spec fn spec_inverse(self) -> Option<Seq<Seq<T>>> {
        inv_from(self@, Self::spec_identity()@, 0)
    }

    /// The inverse, by Gauss-Jordan elimination with the same pivot rule as
    /// `determinant`; `None` when a column has no pivot (a singular matrix).
    pub fn inverse(&self) -> (r: Option<Self>)
        requires
            field_ops::<T>(),
        ensures
            r.is_some() == self.spec_inverse().is_some(),
            r matches Some(x) ==> x@ == self.spec_inverse().unwrap(),
    {
        let unit = T::from(1u8);
        let tol = T::from(1u8) / T::from(1_000_000_000u32);
        let neg_tol = tol.neg();
        let mut mat = self.data;
        let mut inv = Self::identity().data;
        let mut i: usize = 0;
        while i < M
            invariant
                field_ops::<T>(),
                unit == one::<T>(),
                tol == tolerance::<T>(),
                neg_tol == tol.neg_spec(),
                0 <= i <= M,
                inv_from(grid_rows(mat), grid_rows(inv), i as int) == self.spec_inverse(),
            decreases M - i,
        {
            let found = find_pivot(&mat, i, tol, neg_tol);
            let pivot = match found {
                None => {
                    return None;
                },
                Some(p) => p,
            };
            if pivot != i {
                swap_grid_rows(&mut mat, i, pivot);
                swap_grid_rows(&mut inv, i, pivot);
            }
            let ghost m1 = grid_rows(mat);
            let ghost v1 = grid_rows(inv);
            let f = unit / mat[i][i];
            mat[i] = scale(mat[i], f);
            inv[i] = scale(inv[i], f);
            let ghost m2 = grid_rows(mat);
            let ghost v2 = grid_rows(inv);
            assert(m2 =~= scale_row(m1, i as int, f));
            assert(v2 =~= scale_row(v1, i as int, f));
            let mrow = mat[i];
            let irow = inv[i];
            let mut j: usize = 0;
            while j < M
                invariant
                    field_ops::<T>(),
                    i < M,
                    0 <= j <= M,
                    m2.len() == M,
                    v2.len() == M,
                    mrow@ == m2[i as int],
                    irow@ == v2[i as int],
                    forall|r: int|
                        0 <= r < M ==> #[trigger] mat[r]@ == if r < j && r != i {
                            reduce_row(m2[r], m2[i as int], 0, m2[r][i as int])
                        } else {
                            m2[r]
                        },
                    forall|r: int|
                        0 <= r < M ==> #[trigger] inv[r]@ == if r < j && r != i {
                            reduce_row(v2[r], v2[i as int], 0, m2[r][i as int])
                        } else {
                            v2[r]
                        },
                decreases M - j,
            {
                if j != i {
                    let factor = mat[j][i];
                    mat[j] = reduce(mat[j], mrow, 0, factor);
                    inv[j] = reduce(inv[j], irow, 0, factor);
                }
                j += 1;
            }
            assert(grid_rows(mat) =~= clear_column(m2, m2, i as int));
            assert(grid_rows(inv) =~= clear_column(m2, v2, i as int));
            i += 1;
        }
        Some(Matrix { data: inv })
    }
}

} // verus!
