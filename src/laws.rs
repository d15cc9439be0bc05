//! Algebraic laws of the operations. Those that need exact arithmetic are
//! stated for `u64` entries, whose operations are exact wherever they are
//! defined.
use vstd::prelude::*;
use vstd::std_specs::ops::{AddSpec, MulSpec};

use crate::matrix::Matrix;
use crate::scalar::{one, zero};
use crate::sums::{int_products, isum, lemma_isum_ext, lemma_isum_scale, lemma_isum_swap, lemma_u64_sum_products};
use crate::vector::arithmetic::{product_step_defined, sum_products, sum_products_defined};
use crate::vector::Vector;

verus! {

/// Transposing twice gives back the matrix.
pub proof fn lemma_transpose_involutive<T: Copy + Default, const M: usize, const N: usize>(a: Matrix<T, M, N>)
    ensures
        a.spec_transpose().spec_transpose() == a,
{
    let t = a.spec_transpose();
    assert forall|i: int, j: int| 0 <= i < M && 0 <= j < N implies #[trigger] t.spec_transpose().data[i][j]
        == a.data[i][j] by {
        t.lemma_transpose_entry(i, j);
        a.lemma_transpose_entry(j, i);
    }
    Matrix::lemma_ext(t.spec_transpose(), a);
}

/// Over `u64`, a sum of products does not depend on the order of the factors.
proof fn lemma_sum_products_commute(s: u64, x: Seq<u64>, y: Seq<u64>, n: int)
    ensures
        sum_products(s, x, y, n) == sum_products(s, y, x, n),
    decreases n,
{
    if n > 0 {
        lemma_sum_products_commute(s, x, y, n - 1);
        assert(x[n - 1] * y[n - 1] == y[n - 1] * x[n - 1]) by (nonlinear_arith);
    }
}

/// The transpose of a product is the product of the transposes in reverse
/// order: `(A * B)^T == B^T * A^T`.
pub proof fn lemma_transpose_of_product<const M: usize, const K: usize, const N: usize>(
    a: Matrix<u64, M, K>,
    b: Matrix<u64, K, N>,
)
    ensures
        a.spec_product(b).spec_transpose() == b.spec_transpose().spec_product(a.spec_transpose()),
{
    let lhs = a.spec_product(b).spec_transpose();
    let rhs = b.spec_transpose().spec_product(a.spec_transpose());
    assert forall|j: int, i: int| 0 <= j < N && 0 <= i < M implies #[trigger] lhs.data[j][i] == rhs.data[j][i] by {
        a.spec_product(b).lemma_transpose_entry(j, i);
        a.lemma_product_entry(b, i, j);
        b.spec_transpose().lemma_product_entry(a.spec_transpose(), j, i);
        assert(b.spec_transpose().row(j) =~= b.col(j)) by {
            assert forall|k: int| 0 <= k < K implies #[trigger] b.spec_transpose().data[j][k] == b.data[k][j] by {
                b.lemma_transpose_entry(j, k);
            }
        }
        assert(a.spec_transpose().col(i) =~= a.row(i)) by {
            assert forall|k: int| 0 <= k < K implies #[trigger] a.spec_transpose().data[k][i] == a.data[i][k] by {
                a.lemma_transpose_entry(k, i);
            }
        }
        lemma_sum_products_commute(zero::<u64>(), a.row(i), b.col(j), K as int);
    }
    Matrix::lemma_ext(lhs, rhs);
}

/// An entry of a `u64` product whose every step is defined, as an integer sum.
proof fn lemma_product_entry_int<const M: usize, const K: usize, const N: usize>(
    a: Matrix<u64, M, K>,
    b: Matrix<u64, K, N>,
    i: int,
    j: int,
)
    requires
        a.product_defined(b),
        0 <= i < M,
        0 <= j < N,
    ensures
        a.spec_product(b).data[i][j] as int == isum(int_products(a.row(i), b.col(j)), K as int),
{
    a.lemma_product_entry(b, i, j);
    assert(sum_products_defined(zero::<u64>(), a.row(i), b.col(j), K as int));
    lemma_u64_sum_products(a.row(i), b.col(j), K as int);
}

proof fn lemma_mul3(x: int, y: int, z: int)
    ensures
        z * (x * y) == x * y * z,
        x * (y * z) == x * y * z,
{
    assert(z * (x * y) == x * y * z) by (nonlinear_arith);
    assert(x * (y * z) == x * y * z) by (nonlinear_arith);
}

/// Matrix multiplication is associative: `(A * B) * C == A * (B * C)`,
/// wherever both sides can be computed without overflow.
pub proof fn lemma_product_associative<const M: usize, const K: usize, const N: usize, const P: usize>(
    a: Matrix<u64, M, K>,
    b: Matrix<u64, K, N>,
    c: Matrix<u64, N, P>,
)
    requires
        a.product_defined(b),
        a.spec_product(b).product_defined(c),
        b.product_defined(c),
        a.product_defined(b.spec_product(c)),
    ensures
        a.spec_product(b).spec_product(c) == a.spec_product(b.spec_product(c)),
{
    let ab = a.spec_product(b);
    let bc = b.spec_product(c);
    let lhs = ab.spec_product(c);
    let rhs = a.spec_product(bc);
    assert forall|i: int, j: int| 0 <= i < M && 0 <= j < P implies #[trigger] lhs.data[i][j] == rhs.data[i][j] by {
        let g = |k: int, l: int| a.data[i][k] as int * b.data[k][l] as int * c.data[l][j] as int;
        // left side: sum over l of (sum over k of a b) c
        lemma_product_entry_int(ab, c, i, j);
        assert forall|l: int| 0 <= l < N implies #[trigger] int_products(ab.row(i), c.col(j))(l) == isum(
            |k: int| g(k, l),
            K as int,
        ) by {
            lemma_product_entry_int(a, b, i, l);
            let cl = c.data[l][j] as int;
            let sl = isum(int_products(a.row(i), b.col(l)), K as int);
            assert(sl * cl == cl * sl) by (nonlinear_arith);
            assert(int_products(ab.row(i), c.col(j))(l) == sl * cl);
            lemma_isum_scale(cl, int_products(a.row(i), b.col(l)), K as int);
            assert forall|k: int| 0 <= k < K implies #[trigger] (cl * int_products(a.row(i), b.col(l))(k)) == g(k, l) by {
                lemma_mul3(a.data[i][k] as int, b.data[k][l] as int, cl);
            }
            lemma_isum_ext(|k: int| cl * int_products(a.row(i), b.col(l))(k), |k: int| g(k, l), K as int);
        }
        lemma_isum_ext(int_products(ab.row(i), c.col(j)), |l: int| isum(|k: int| g(k, l), K as int), N as int);
        // right side: sum over k of a (sum over l of b c)
        lemma_product_entry_int(a, bc, i, j);
        assert forall|k: int| 0 <= k < K implies #[trigger] int_products(a.row(i), bc.col(j))(k) == isum(
            |l: int| g(k, l),
            N as int,
        ) by {
            lemma_product_entry_int(b, c, k, j);
            let ak = a.data[i][k] as int;
            assert(int_products(a.row(i), bc.col(j))(k) == ak * isum(int_products(b.row(k), c.col(j)), N as int));
            lemma_isum_scale(ak, int_products(b.row(k), c.col(j)), N as int);
            assert forall|l: int| 0 <= l < N implies #[trigger] (ak * int_products(b.row(k), c.col(j))(l)) == g(k, l) by {
                lemma_mul3(ak, b.data[k][l] as int, c.data[l][j] as int);
            }
            lemma_isum_ext(|l: int| ak * int_products(b.row(k), c.col(j))(l), |l: int| g(k, l), N as int);
        }
        lemma_isum_ext(int_products(a.row(i), bc.col(j)), |k: int| isum(|l: int| g(k, l), N as int), K as int);
        lemma_isum_swap(g, K as int, N as int);
    }
    Matrix::lemma_ext(lhs, rhs);
}

/// Over `u64`, a sum of products against a unit sequence (one at `j`, zero
/// elsewhere), on either side, picks out position `j`; every step is defined.
proof fn lemma_sum_products_unit(x: Seq<u64>, e: Seq<u64>, j: int, n: int)
    requires
        forall|k: int| 0 <= k < n ==> #[trigger] e[k] == if k == j { 1u64 } else { 0u64 },
    ensures
        sum_products(0u64, x, e, n) == if 0 <= j < n { x[j] } else { 0u64 },
        sum_products(0u64, e, x, n) == if 0 <= j < n { x[j] } else { 0u64 },
        sum_products_defined(0u64, x, e, n),
        sum_products_defined(0u64, e, x, n),
    decreases n,
{
    if n > 0 {
        lemma_sum_products_unit(x, e, j, n - 1);
        assert(product_step_defined(0u64, x, e, n - 1));
        assert(product_step_defined(0u64, e, x, n - 1));
        assert forall|k: int| 0 <= k < n implies #[trigger] product_step_defined(0u64, x, e, k) by {
            if k < n - 1 {
                assert(sum_products_defined(0u64, x, e, n - 1));
            }
        }
        assert forall|k: int| 0 <= k < n implies #[trigger] product_step_defined(0u64, e, x, k) by {
            if k < n - 1 {
                assert(sum_products_defined(0u64, e, x, n - 1));
            }
        }
    }
}

/// Over `u64`, a sum of products in which every pair holds a zero is zero; every step is defined.
proof fn lemma_sum_products_zero(x: Seq<u64>, y: Seq<u64>, n: int)
    requires
        forall|k: int| 0 <= k < n ==> #[trigger] x[k] == 0 || y[k] == 0,
    ensures
        sum_products(0u64, x, y, n) == 0,
        sum_products_defined(0u64, x, y, n),
    decreases n,
{
    if n > 0 {
        lemma_sum_products_zero(x, y, n - 1);
        assert(product_step_defined(0u64, x, y, n - 1));
        assert forall|k: int| 0 <= k < n implies #[trigger] product_step_defined(0u64, x, y, k) by {
            if k < n - 1 {
                assert(sum_products_defined(0u64, x, y, n - 1));
            }
        }
    }
}

/// The identity is neutral for multiplication on both sides, `A * I == A`
/// and `I * A == A`, and both products can be computed.
pub proof fn lemma_identity_neutral<const M: usize, const N: usize>(a: Matrix<u64, M, N>)
    ensures
        a.product_defined(Matrix::<u64, N, N>::spec_identity()),
        a.spec_product(Matrix::<u64, N, N>::spec_identity()) == a,
        Matrix::<u64, M, M>::spec_identity().product_defined(a),
        Matrix::<u64, M, M>::spec_identity().spec_product(a) == a,
{
    let id_n = Matrix::<u64, N, N>::spec_identity();
    let id_m = Matrix::<u64, M, M>::spec_identity();
    Matrix::<u64, N, N>::lemma_tabulate(|i: int, j: int| if i == j { one::<u64>() } else { zero::<u64>() });
    Matrix::<u64, M, M>::lemma_tabulate(|i: int, j: int| if i == j { one::<u64>() } else { zero::<u64>() });
    assert forall|i: int, j: int| 0 <= i < M && 0 <= j < N implies #[trigger] sum_products_defined(
        zero::<u64>(),
        a.row(i),
        id_n.col(j),
        N as int,
    ) by {
        lemma_sum_products_unit(a.row(i), id_n.col(j), j, N as int);
    }
    assert forall|i: int, j: int| 0 <= i < M && 0 <= j < N implies #[trigger] a.spec_product(id_n).data[i][j] == a.data[i][j] by {
        lemma_sum_products_unit(a.row(i), id_n.col(j), j, N as int);
        a.lemma_product_entry(id_n, i, j);
    }
    Matrix::lemma_ext(a.spec_product(id_n), a);
    assert forall|i: int, j: int| 0 <= i < M && 0 <= j < N implies #[trigger] sum_products_defined(
        zero::<u64>(),
        id_m.row(i),
        a.col(j),
        M as int,
    ) by {
        lemma_sum_products_unit(a.col(j), id_m.row(i), i, M as int);
    }
    assert forall|i: int, j: int| 0 <= i < M && 0 <= j < N implies #[trigger] id_m.spec_product(a).data[i][j] == a.data[i][j] by {
        lemma_sum_products_unit(a.col(j), id_m.row(i), i, M as int);
        id_m.lemma_product_entry(a, i, j);
    }
    Matrix::lemma_ext(id_m.spec_product(a), a);
}

/// Multiplying by a zero matrix gives the zero matrix, `A * 0 == 0`, and so
/// does multiplying a zero matrix, `0 * A == 0`; both products can be computed.
pub proof fn lemma_product_with_zero<const L: usize, const M: usize, const K: usize, const N: usize>(
    a: Matrix<u64, M, K>,
    z_right: Matrix<u64, K, N>,
    z_left: Matrix<u64, L, M>,
    z_mn: Matrix<u64, M, N>,
    z_lk: Matrix<u64, L, K>,
)
    requires
        forall|i: int, j: int| 0 <= i < K && 0 <= j < N ==> #[trigger] z_right.data[i][j] == 0,
        forall|i: int, j: int| 0 <= i < L && 0 <= j < M ==> #[trigger] z_left.data[i][j] == 0,
        forall|i: int, j: int| 0 <= i < M && 0 <= j < N ==> #[trigger] z_mn.data[i][j] == 0,
        forall|i: int, j: int| 0 <= i < L && 0 <= j < K ==> #[trigger] z_lk.data[i][j] == 0,
    ensures
        a.product_defined(z_right),
        a.spec_product(z_right) == z_mn,
        z_left.product_defined(a),
        z_left.spec_product(a) == z_lk,
{
    assert forall|i: int, j: int| 0 <= i < M && 0 <= j < N implies #[trigger] sum_products_defined(
        zero::<u64>(),
        a.row(i),
        z_right.col(j),
        K as int,
    ) by {
        lemma_sum_products_zero(a.row(i), z_right.col(j), K as int);
    }
    assert forall|i: int, j: int| 0 <= i < M && 0 <= j < N implies #[trigger] a.spec_product(z_right).data[i][j] == z_mn.data[i][j] by {
        lemma_sum_products_zero(a.row(i), z_right.col(j), K as int);
        a.lemma_product_entry(z_right, i, j);
    }
    Matrix::lemma_ext(a.spec_product(z_right), z_mn);
    assert forall|i: int, j: int| 0 <= i < L && 0 <= j < K implies #[trigger] sum_products_defined(
        zero::<u64>(),
        z_left.row(i),
        a.col(j),
        M as int,
    ) by {
        lemma_sum_products_zero(z_left.row(i), a.col(j), M as int);
    }
    assert forall|i: int, j: int| 0 <= i < L && 0 <= j < K implies #[trigger] z_left.spec_product(a).data[i][j] == z_lk.data[i][j] by {
        lemma_sum_products_zero(z_left.row(i), a.col(j), M as int);
        z_left.lemma_product_entry(a, i, j);
    }
    Matrix::lemma_ext(z_left.spec_product(a), z_lk);
}

/// Scaling by `d` and then by `c` is scaling by `c * d`: `c * (d * v) == (c * d) * v`.
pub proof fn lemma_scale_twice<const N: usize>(v: Vector<u64, N>, c: u64, d: u64)
    requires
        v.mul_req(d),
        v.mul_spec(d).mul_req(c),
        c.mul_req(d),
        v.mul_req(c.mul_spec(d)),
    ensures
        v.mul_spec(d).mul_spec(c) == v.mul_spec(c.mul_spec(d)),
{
    let vd = v.mul_spec(d);
    Vector::<u64, N>::lemma_tabulate(|b: int| v.data[b].mul_spec(d));
    Vector::<u64, N>::lemma_tabulate(|b: int| vd.data[b].mul_spec(c));
    Vector::<u64, N>::lemma_tabulate(|b: int| v.data[b].mul_spec(c.mul_spec(d)));
    assert forall|b: int| 0 <= b < N implies #[trigger] vd.mul_spec(c).data[b] == v.mul_spec(c.mul_spec(d)).data[b] by {
        assert(v.data[b].mul_req(d) && vd.data[b].mul_req(c) && v.data[b].mul_req(c.mul_spec(d)));
        assert(v.data[b] * d * c == v.data[b] * (c * d)) by (nonlinear_arith);
    }
    Vector::lemma_ext(vd.mul_spec(c), v.mul_spec(c.mul_spec(d)));
}

/// Scaling distributes over a sum of scalars: `(c + d) * v == c * v + d * v`.
pub proof fn lemma_scale_sum_of_scalars<const N: usize>(v: Vector<u64, N>, c: u64, d: u64)
    requires
        c.add_req(d),
        v.mul_req(c.add_spec(d)),
        v.mul_req(c),
        v.mul_req(d),
        v.mul_spec(c).add_req(v.mul_spec(d)),
    ensures
        v.mul_spec(c.add_spec(d)) == v.mul_spec(c).add_spec(v.mul_spec(d)),
{
    let vc = v.mul_spec(c);
    let vd = v.mul_spec(d);
    Vector::<u64, N>::lemma_tabulate(|b: int| v.data[b].mul_spec(c.add_spec(d)));
    Vector::<u64, N>::lemma_tabulate(|b: int| v.data[b].mul_spec(c));
    Vector::<u64, N>::lemma_tabulate(|b: int| v.data[b].mul_spec(d));
    Vector::<u64, N>::lemma_tabulate(|b: int| vc.data[b].add_spec(vd.data[b]));
    assert forall|b: int| 0 <= b < N implies #[trigger] v.mul_spec(c.add_spec(d)).data[b] == vc.add_spec(vd).data[b] by {
        assert(v.data[b].mul_req(c.add_spec(d)) && v.data[b].mul_req(c) && v.data[b].mul_req(d));
        assert(vc.data[b].add_req(vd.data[b]));
        assert(v.data[b] * (c + d) == v.data[b] * c + v.data[b] * d) by (nonlinear_arith);
    }
    Vector::lemma_ext(v.mul_spec(c.add_spec(d)), vc.add_spec(vd));
}

/// Scaling distributes over a sum of vectors: `c * (v + w) == c * v + c * w`.
pub proof fn lemma_scale_sum_of_vectors<const N: usize>(v: Vector<u64, N>, w: Vector<u64, N>, c: u64)
    requires
        v.add_req(w),
        v.add_spec(w).mul_req(c),
        v.mul_req(c),
        w.mul_req(c),
        v.mul_spec(c).add_req(w.mul_spec(c)),
    ensures
        v.add_spec(w).mul_spec(c) == v.mul_spec(c).add_spec(w.mul_spec(c)),
{
    let s = v.add_spec(w);
    let vc = v.mul_spec(c);
    let wc = w.mul_spec(c);
    Vector::<u64, N>::lemma_tabulate(|b: int| v.data[b].add_spec(w.data[b]));
    Vector::<u64, N>::lemma_tabulate(|b: int| s.data[b].mul_spec(c));
    Vector::<u64, N>::lemma_tabulate(|b: int| v.data[b].mul_spec(c));
    Vector::<u64, N>::lemma_tabulate(|b: int| w.data[b].mul_spec(c));
    Vector::<u64, N>::lemma_tabulate(|b: int| vc.data[b].add_spec(wc.data[b]));
    assert forall|b: int| 0 <= b < N implies #[trigger] s.mul_spec(c).data[b] == vc.add_spec(wc).data[b] by {
        assert(v.data[b].add_req(w.data[b]) && s.data[b].mul_req(c));
        assert(v.data[b].mul_req(c) && w.data[b].mul_req(c) && vc.data[b].add_req(wc.data[b]));
        assert((v.data[b] + w.data[b]) * c == v.data[b] * c + w.data[b] * c) by (nonlinear_arith);
    }
    Vector::lemma_ext(s.mul_spec(c), vc.add_spec(wc));
}

} // verus!
