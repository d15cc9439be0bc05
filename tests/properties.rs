use matops::{Matrix, Vector};

fn approx_eq<const M: usize, const N: usize>(a: Matrix<f64, M, N>, b: Matrix<f64, M, N>) -> bool {
    (0..M).all(|i| (0..N).all(|j| (a.data[i][j] - b.data[i][j]).abs() < 1e-9))
}

#[test]
fn associativity_on_unsigned_entries() {
    let a: Matrix<u64, 2, 2> = Matrix::new([[1, 2], [3, 4]]);
    let b: Matrix<u64, 2, 3> = Matrix::new([[5, 6, 7], [8, 9, 10]]);
    let c: Matrix<u64, 3, 1> = Matrix::new([[11], [12], [13]]);
    let left = (a * b) * c;
    let right = a * (b * c);
    assert_eq!(left, right);
    assert_eq!(left, Matrix::new([[870], [1958]]));
}

#[test]
fn transpose_of_rectangular_product() {
    let a: Matrix<i32, 2, 3> = Matrix::new([[1, -2, 3], [0, 4, -5]]);
    let b: Matrix<i32, 3, 2> = Matrix::new([[2, 1], [0, -1], [3, 3]]);
    assert_eq!((a * b).transpose(), b.transpose() * a.transpose());
    assert_eq!((a * b).transpose(), Matrix::new([[11, -15], [12, -19]]));
}

#[test]
fn transpose_swaps_dimensions_and_returns() {
    let a: Matrix<u64, 1, 3> = Matrix::new([[7, 8, 9]]);
    let t: Matrix<u64, 3, 1> = a.transpose();
    assert_eq!(t, Matrix::new([[7], [8], [9]]));
    assert_eq!(t.transpose(), a);
}

#[test]
fn identity_is_neutral_for_integers() {
    let a: Matrix<u64, 2, 3> = Matrix::new([[1, 2, 3], [4, 5, 6]]);
    let i3: Matrix<u64, 3, 3> = Matrix::identity();
    let i2: Matrix<u64, 2, 2> = Matrix::identity();
    assert_eq!(a * i3, a);
    assert_eq!(i2 * a, a);
    assert_eq!(i2, Matrix::new([[1, 0], [0, 1]]));
}

#[test]
fn zero_absorbs_on_both_sides() {
    let a: Matrix<u64, 2, 3> = Matrix::new([[1, 2, 3], [4, 5, 6]]);
    let z32: Matrix<u64, 3, 2> = Matrix::zeros();
    let z22: Matrix<u64, 2, 2> = Matrix::zeros();
    let z23: Matrix<u64, 2, 3> = Matrix::zeros();
    assert_eq!(a * z32, z22);
    assert_eq!(z22 * a, z23);
}

#[test]
fn vector_scaling_laws() {
    let v: Vector<i64, 3> = Vector::new([1, -2, 3]);
    let w: Vector<i64, 3> = Vector::new([4, 0, -6]);
    let (c, d) = (3, -5);
    assert_eq!((v * d) * c, v * (c * d));
    assert_eq!(v * (c + d), v * c + v * d);
    assert_eq!((v + w) * c, v * c + w * c);
    assert_eq!(v * (c + d), Vector::new([-2, 4, -6]));
}

#[test]
fn vector_difference_and_scaling() {
    let v = Vector::new([5, 7]);
    let w = Vector::new([2, 10]);
    assert_eq!(v - w, Vector::new([3, -3]));
    assert_eq!(v * 4, Vector::new([20, 28]));
}

#[test]
fn dot_sums_products_in_order() {
    let v: Vector<i32, 3> = Vector::new([1, 2, 3]);
    let w: Vector<i32, 3> = Vector::new([4, -5, 6]);
    assert_eq!(v.dot(&w), 12);
    let e: Vector<i32, 0> = Vector::new([]);
    assert_eq!(e.dot(&e), 0);
}

#[test]
fn halfway_averages_components() {
    let a: Vector<u32, 2> = Vector::new([2, 4]);
    let b: Vector<u32, 2> = Vector::new([4, 9]);
    assert_eq!(Vector::halfway(&a, &b), Vector::new([3, 6]));
    let p: Vector<f64, 2> = Vector::new([1.0, 2.0]);
    let q: Vector<f64, 2> = Vector::new([2.0, 3.0]);
    assert_eq!(Vector::halfway(&p, &q), Vector::new([1.5, 2.5]));
}

#[test]
fn integer_division_truncates() {
    let a: Matrix<i32, 1, 3> = Matrix::new([[7, -9, 4]]);
    assert_eq!(a / 2, Matrix::new([[3, -4, 2]]));
}

#[test]
fn negation_and_difference_of_integers() {
    let a: Matrix<i32, 2, 2> = Matrix::new([[1, -2], [3, 0]]);
    let b: Matrix<i32, 2, 2> = Matrix::new([[4, 4], [-1, 2]]);
    assert_eq!(-a, Matrix::new([[-1, 2], [-3, 0]]));
    assert_eq!(a - b, a + (-b));
}

#[test]
fn matrix_times_vector_rectangular() {
    let a: Matrix<i32, 3, 2> = Matrix::new([[1, 2], [3, 4], [5, 6]]);
    let v: Vector<i32, 2> = Vector::new([-1, 1]);
    assert_eq!(a * v, Vector::new([1, 1, 1]));
}

#[test]
fn index_write_touches_one_entry() {
    let mut a: Matrix<u8, 2, 2> = Matrix::zeros();
    a[(1, 0)] = 7;
    assert_eq!(a, Matrix::new([[0, 0], [7, 0]]));
    assert_eq!(a[(1, 0)], 7);
}

#[test]
fn determinant_with_row_swap() {
    let a: Matrix<f64, 2, 2> = Matrix::new([[0.0, 1.0], [1.0, 0.0]]);
    assert_eq!(a.determinant(), -1.0);
    let b: Matrix<f64, 2, 2> = Matrix::new([[0.0, 2.0], [3.0, 4.0]]);
    assert!((b.determinant() - -6.0).abs() < 1e-9);
}

#[test]
fn determinant_of_diagonal_and_triangular() {
    let d: Matrix<f64, 3, 3> = Matrix::new([[2.0, 0.0, 0.0], [0.0, 3.0, 0.0], [0.0, 0.0, 4.0]]);
    assert_eq!(d.determinant(), 24.0);
    let u: Matrix<f64, 3, 3> = Matrix::new([[1.0, 5.0, 7.0], [0.0, 2.0, 9.0], [0.0, 0.0, -3.0]]);
    assert_eq!(u.determinant(), -6.0);
}

#[test]
fn entries_below_tolerance_count_as_zero() {
    let a: Matrix<f64, 2, 2> = Matrix::new([[1e-10, 0.0], [0.0, 1.0]]);
    assert_eq!(a.determinant(), 0.0);
    assert!(a.inverse().is_none());
    let b: Matrix<f64, 2, 2> = Matrix::new([[1e-8, 0.0], [0.0, 1.0]]);
    assert!((b.determinant() - 1e-8).abs() < 1e-15);
    assert!(b.inverse().is_some());
}

#[test]
fn inverse_with_row_swap() {
    let a: Matrix<f64, 2, 2> = Matrix::new([[0.0, 1.0], [1.0, 0.0]]);
    let inv = a.inverse().unwrap();
    assert_eq!(inv, a);
    let b: Matrix<f64, 2, 2> = Matrix::new([[0.0, 2.0], [4.0, 0.0]]);
    let expected: Matrix<f64, 2, 2> = Matrix::new([[0.0, 0.25], [0.5, 0.0]]);
    assert!(approx_eq(b.inverse().unwrap(), expected));
}

#[test]
fn inverse_of_singular_three_by_three() {
    let a: Matrix<f64, 3, 3> = Matrix::new([[1.0, 2.0, 3.0], [2.0, 4.0, 6.0], [1.0, 0.0, 1.0]]);
    assert!(a.inverse().is_none());
    assert_eq!(a.determinant(), 0.0);
}

#[test]
fn inverse_of_one_by_one() {
    let a: Matrix<f64, 1, 1> = Matrix::new([[5.0]]);
    let inv = a.inverse().unwrap();
    assert!((inv.data[0][0] - 0.2).abs() < 1e-12);
    let zero: Matrix<f64, 1, 1> = Matrix::new([[0.0]]);
    assert!(zero.inverse().is_none());
    assert_eq!(zero.determinant(), 0.0);
}

#[test]
fn identity_of_floats_inverts_to_itself() {
    let i: Matrix<f64, 3, 3> = Matrix::identity();
    assert_eq!(i.inverse().unwrap(), i);
    assert_eq!(i.determinant(), 1.0);
}

#[test]
fn scaling_and_division_of_floats() {
    let a: Matrix<f64, 1, 2> = Matrix::new([[1.5, -3.0]]);
    assert_eq!(a * 2.0, Matrix::new([[3.0, -6.0]]));
    assert_eq!(a / 0.5, Matrix::new([[3.0, -6.0]]));
}

#[test]
fn row_and_component_indexing() {
    let mut a: Matrix<i32, 2, 3> = Matrix::new([[1, 2, 3], [4, 5, 6]]);
    assert_eq!(a[1], [4, 5, 6]);
    a[0] = [7, 8, 9];
    assert_eq!(a, Matrix::new([[7, 8, 9], [4, 5, 6]]));
    assert_eq!(a[(0, 2)], 9);

    let mut v: Vector<i32, 3> = Vector::new([1, 2, 3]);
    assert_eq!(v[2], 3);
    v[0] = -1;
    assert_eq!(v, Vector::new([-1, 2, 3]));
}
