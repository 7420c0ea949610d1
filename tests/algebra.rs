use matn::{Matrix, VecN};

fn mat2(rows: [[i64; 2]; 2]) -> Matrix<2> {
    Matrix::from_fn(|(r, c)| rows[r][c])
}

fn mat3(rows: [[i64; 3]; 3]) -> Matrix<3> {
    Matrix::from_fn(|(r, c)| rows[r][c])
}

fn entries<const N: usize>(m: &Matrix<N>) -> Vec<Vec<i64>> {
    (0..N).map(|r| (0..N).map(|c| m[r][c]).collect()).collect()
}

#[test]
fn vector_zero_is_all_zeros() {
    let v = VecN::<4>::zero();
    for i in 0..4 {
        assert_eq!(v[i], 0);
    }
}

#[test]
fn vector_from_fn_round_trip() {
    let g = |i: usize| (i as i64) * 7 - 3;
    let v = VecN::<5>::from_fn(g);
    for i in 0..5 {
        assert_eq!(v[i], g(i));
        assert_eq!(v.get(i), g(i));
    }
}

#[test]
fn vector_add_zero_is_identity() {
    let v = VecN::<3>::from_fn(|i| [5, -2, 9][i]);
    assert_eq!(v + VecN::zero(), v);
}

#[test]
fn vector_add_commutes() {
    let a = VecN::<3>::from_fn(|i| [1, 2, 3][i]);
    let b = VecN::<3>::from_fn(|i| [10, -20, 30][i]);
    assert_eq!(a + b, b + a);
    let s = a + b;
    assert_eq!(s[0], 11);
    assert_eq!(s[1], -18);
    assert_eq!(s[2], 33);
    assert_eq!(a.add_ref(&b), s);
}

#[test]
fn vector_set_replaces_one_component() {
    let mut v = VecN::<3>::zero();
    v.set(1, 42);
    assert_eq!(v[0], 0);
    assert_eq!(v[1], 42);
    assert_eq!(v[2], 0);
}

#[test]
fn vector_equality_is_componentwise() {
    let a = VecN::<2>::from_fn(|i| i as i64);
    let b = VecN::<2>::from_fn(|i| i as i64);
    let c = VecN::<2>::from_fn(|i| 1 - i as i64);
    assert!(a == b);
    assert!(a != c);
}

#[test]
fn matrix_zero_is_all_zeros() {
    let m = Matrix::<3>::zero();
    assert_eq!(entries(&m), vec![vec![0; 3]; 3]);
}

#[test]
fn matrix_ident_three() {
    let m = Matrix::<3>::ident();
    assert_eq!(entries(&m), vec![vec![1, 0, 0], vec![0, 1, 0], vec![0, 0, 1]]);
    assert_eq!(m, mat3([[1, 0, 0], [0, 1, 0], [0, 0, 1]]));
}

#[test]
fn matrix_from_fn_round_trip() {
    let g = |(r, c): (usize, usize)| (r as i64) * 10 + c as i64;
    let m = Matrix::<4>::from_fn(g);
    for r in 0..4 {
        for c in 0..4 {
            assert_eq!(m[r][c], g((r, c)));
            assert_eq!(m.get(r, c), g((r, c)));
        }
        assert_eq!(m.row(r), m[r]);
    }
}

#[test]
fn matrix_add_and_mul_two() {
    let a = mat2([[1, 2], [3, 4]]);
    let b = mat2([[0, 1], [1, 0]]);
    assert_eq!(a + b, mat2([[1, 3], [4, 4]]));
    assert_eq!(&a + &b, mat2([[1, 3], [4, 4]]));
    assert_eq!(a * b, mat2([[2, 1], [4, 3]]));
    assert_eq!(&a * &b, mat2([[2, 1], [4, 3]]));
    assert_eq!(a.add_ref(&b), a + b);
    assert_eq!(a.mul_ref(&b), a * b);
}

#[test]
fn matrix_mul_is_not_commutative() {
    let a = mat2([[1, 2], [3, 4]]);
    let b = mat2([[0, 1], [1, 0]]);
    assert_eq!(b * a, mat2([[3, 4], [1, 2]]));
    assert!(a * b != b * a);
}

#[test]
fn matrix_mul_by_identity() {
    let m = mat3([[2, -1, 7], [0, 5, 3], [-4, 8, 1]]);
    assert_eq!(m * Matrix::ident(), m);
    assert_eq!(Matrix::ident() * m, m);
}

#[test]
fn matrix_mul_is_associative() {
    let a = mat3([[1, 2, 0], [-1, 3, 4], [2, 2, 2]]);
    let b = mat3([[0, 1, 5], [2, -2, 1], [3, 0, 1]]);
    let c = mat3([[4, 0, -1], [1, 1, 1], [0, 6, 2]]);
    assert_eq!((a * b) * c, a * (b * c));
    assert_eq!(a * b, mat3([[4, -3, 7], [18, -7, 2], [10, -2, 14]]));
}

#[test]
fn matrix_mul_sums_in_order() {
    let a = mat2([[1, 2], [3, 4]]);
    let p = a * a;
    assert_eq!(p, mat2([[7, 10], [15, 22]]));
}

#[test]
fn matrix_set_changes_one_entry() {
    let mut m = Matrix::<2>::zero();
    m.set(0, 1, 9);
    assert_eq!(m, mat2([[0, 9], [0, 0]]));
}

#[test]
fn dimension_zero_constructions() {
    let v = VecN::<0>::zero();
    let z = Matrix::<0>::zero();
    let i = Matrix::<0>::ident();
    assert_eq!(v, VecN::<0>::from_fn(|_| 1));
    assert_eq!(z, i);
    assert_eq!(z * i, z);
    assert_eq!(&z + &i, z);
    assert!(entries(&i).is_empty());
}
