use freivald::matrix::{dot, vec_eq};
use freivald::{check_matrix_dimensions, Fe, Freivald, FreivaldError, Matrix, MODULUS};

fn fe(x: u64) -> Fe {
    Fe::from_u64(x)
}

fn fe_rows(entries: &Vec<Vec<u64>>) -> Vec<Vec<Fe>> {
    let mut rows: Vec<Vec<Fe>> = Vec::new();
    for row in entries {
        let mut r: Vec<Fe> = Vec::new();
        for &x in row {
            r.push(fe(x));
        }
        rows.push(r);
    }
    rows
}

fn mat(entries: Vec<Vec<u64>>) -> Matrix {
    let ncols: usize = if entries.is_empty() { 0 } else { entries[0].len() };
    Matrix::from_rows(fe_rows(&entries), ncols).unwrap()
}

/// The full product a x b over the field, computed independently of the
/// library's verification path.
fn matmul(a: &Vec<Vec<u64>>, b: &Vec<Vec<u64>>) -> Matrix {
    let n: usize = a.len();
    let af = fe_rows(a);
    let bf = fe_rows(b);
    let mut rows: Vec<Vec<Fe>> = Vec::new();
    for i in 0..n {
        let mut row: Vec<Fe> = Vec::new();
        for k in 0..n {
            let mut acc = Fe::zero();
            for j in 0..n {
                acc = acc.add(af[i][j].mul(bf[j][k]));
            }
            row.push(acc);
        }
        rows.push(row);
    }
    Matrix::from_rows(rows, n).unwrap()
}

/// A deterministic dense matrix with spread-out entries.
fn dense(n: usize, seed: u64) -> Vec<Vec<u64>> {
    let mut rows: Vec<Vec<u64>> = Vec::new();
    for i in 0..n {
        let mut row: Vec<u64> = Vec::new();
        for j in 0..n {
            let x: u64 = seed
                .wrapping_add((i as u64).wrapping_mul(1_000_003))
                .wrapping_add((j as u64).wrapping_mul(7919))
                .wrapping_mul(2_862_933_555_777_941_757);
            row.push(x);
        }
        rows.push(row);
    }
    rows
}

#[test]
fn field_ops_exact_values() {
    assert_eq!(fe(MODULUS), fe(0));
    assert_eq!(fe(MODULUS - 1).add(fe(6)), fe(5));
    assert_eq!(fe(7).mul(fe(9)), fe(63));
    // (-1) * (-1) == 1 in the field
    assert_eq!(fe(MODULUS - 1).mul(fe(MODULUS - 1)), fe(1));
    assert_eq!(fe(0).add(fe(0)), Fe::zero());
    assert!(fe(3).equals(fe(3)));
    assert!(!fe(3).equals(fe(4)));
}

#[test]
fn dot_and_mul_vec_exact_values() {
    let u: Vec<Fe> = vec![fe(1), fe(2)];
    let v: Vec<Fe> = vec![fe(3), fe(4)];
    assert_eq!(dot(&u, &v), fe(11));
    assert!(vec_eq(&u, &u));
    assert!(!vec_eq(&u, &v));

    let m = mat(vec![vec![1, 2], vec![3, 4]]);
    let w = m.mul_vec(&vec![fe(5), fe(6)]);
    assert!(vec_eq(&w, &vec![fe(17), fe(39)]));
}

#[test]
fn matrix_shape_accessors() {
    let m = mat(vec![vec![1, 2, 3], vec![4, 5, 6]]);
    assert_eq!(m.nrows(), 2);
    assert_eq!(m.ncols(), 3);
}

#[test]
fn from_rows_rejects_ragged_rows() {
    let rows = fe_rows(&vec![vec![1, 2], vec![3, 4, 5]]);
    assert!(Matrix::from_rows(rows, 2).is_none());
    let rows = fe_rows(&vec![vec![1, 2], vec![3, 4]]);
    assert!(Matrix::from_rows(rows, 3).is_none());
}

#[test]
fn check_matrix_dimensions_iff_shapes_agree() {
    let a3 = mat(dense(3, 1));
    let b3 = mat(dense(3, 2));
    let c3 = mat(dense(3, 3));
    assert!(check_matrix_dimensions(&a3, &b3, &c3));

    let b4 = mat(dense(4, 2));
    assert!(!check_matrix_dimensions(&a3, &b4, &c3));
    assert!(!check_matrix_dimensions(&a3, &b3, &b4));

    let wide = mat(vec![vec![1, 2, 3], vec![4, 5, 6]]);
    let narrow = mat(vec![vec![1, 2], vec![3, 4]]);
    assert!(!check_matrix_dimensions(&wide, &narrow, &narrow));

    let empty = mat(vec![]);
    assert!(check_matrix_dimensions(&empty, &empty, &empty));
}

#[test]
fn freivald_verify_success_test() {
    let a = dense(8, 11);
    let c = matmul(&a, &a);
    let am = mat(a);
    assert!(Freivald::new(8).verify(&am, &am, &c));
    assert!(Freivald::with_vectors(8, 5).verify(&am, &am, &c));
    assert!(Freivald::with_vectors(8, 0).verify(&am, &am, &c));
}

#[test]
fn freivald_verify_fail_test() {
    // c is the true a x a, which differs from a x b since b differs from a
    let a = vec![vec![1, 1], vec![0, 1]];
    let b = vec![vec![1, 0], vec![1, 1]];
    let c = matmul(&a, &a);
    let am = mat(a);
    let bm = mat(b);
    let mut rejections: usize = 0;
    let trials: usize = 100;
    for _ in 0..trials {
        if !Freivald::new(2).verify(&am, &bm, &c) {
            rejections += 1;
        }
    }
    assert!(rejections >= 99, "only {rejections} of {trials} trials rejected");
}

#[test]
fn identity_times_b_is_b() {
    let identity = mat(vec![vec![1, 0], vec![0, 1]]);
    let b = mat(vec![vec![5, 7], vec![11, 13]]);
    for k in 0..4 {
        assert!(Freivald::with_vectors(2, k).verify(&identity, &b, &b));
    }
}

#[test]
fn one_wrong_entry_is_rejected() {
    let a = vec![vec![1, 1], vec![0, 1]];
    let b = vec![vec![1, 0], vec![1, 1]];
    let true_c = mat(vec![vec![2, 1], vec![1, 1]]);
    let wrong_c = mat(vec![vec![2, 1], vec![1, 2]]);
    let computed_c = matmul(&a, &b);
    let am = mat(a);
    let bm = mat(b);

    assert!(Freivald::new(2).verify(&am, &bm, &true_c));
    assert!(Freivald::new(2).verify(&am, &bm, &computed_c));

    let mut rejections: usize = 0;
    let trials: usize = 20;
    for _ in 0..trials {
        if !Freivald::new(2).verify(&am, &bm, &wrong_c) {
            rejections += 1;
        }
    }
    assert!(rejections >= 19, "only {rejections} of {trials} trials rejected");
}

#[test]
fn more_probes_reject_at_least_as_often() {
    let am = mat(vec![vec![1, 1], vec![0, 1]]);
    let bm = mat(vec![vec![1, 0], vec![1, 1]]);
    let wrong_c = mat(vec![vec![2, 1], vec![1, 2]]);
    let trials: usize = 30;
    let mut rejections_few: usize = 0;
    let mut rejections_many: usize = 0;
    for _ in 0..trials {
        if !Freivald::with_vectors(2, 1).verify(&am, &bm, &wrong_c) {
            rejections_few += 1;
        }
        if !Freivald::with_vectors(2, 4).verify(&am, &bm, &wrong_c) {
            rejections_many += 1;
        }
    }
    assert!(rejections_many >= rejections_few);
}

#[test]
fn zero_probes_accept_anything_of_matching_shape() {
    let am = mat(vec![vec![1, 2], vec![3, 4]]);
    let bm = mat(vec![vec![5, 6], vec![7, 8]]);
    let nonsense = mat(vec![vec![9, 9], vec![9, 9]]);
    assert!(Freivald::with_vectors(2, 0).verify(&am, &bm, &nonsense));
}

#[test]
fn empty_and_single_entry_matrices() {
    let empty = mat(vec![]);
    assert!(Freivald::new(0).verify(&empty, &empty, &empty));

    let a1 = mat(vec![vec![3]]);
    let b1 = mat(vec![vec![4]]);
    let good = mat(vec![vec![12]]);
    let bad = mat(vec![vec![13]]);
    assert!(Freivald::new(1).verify(&a1, &b1, &good));
    assert!(!Freivald::new(1).verify(&a1, &b1, &bad));
}

#[test]
fn verify_once_on_true_product() {
    let a = dense(6, 21);
    let b = dense(6, 22);
    let c = matmul(&a, &b);
    assert!(Freivald::verify_once(&mat(a), &mat(b), &c));
}

#[test]
fn try_verify_reports_dimension_mismatch() {
    let a3 = mat(dense(3, 5));
    let b4 = mat(dense(4, 6));
    let c3 = mat(dense(3, 7));
    let f = Freivald::new(3);
    assert_eq!(f.try_verify(&a3, &b4, &c3), Err(FreivaldError::DimensionMismatch));
}

#[test]
fn try_verify_reports_non_square() {
    let wide = mat(vec![vec![1, 2, 3], vec![4, 5, 6]]);
    let f = Freivald::new(2);
    assert_eq!(f.try_verify(&wide, &wide, &wide), Err(FreivaldError::NotSquare));
}

#[test]
fn try_verify_reports_size_mismatch() {
    let a3 = mat(dense(3, 5));
    let f = Freivald::new(2);
    assert_eq!(f.try_verify(&a3, &a3, &a3), Err(FreivaldError::SizeMismatch));
}

#[test]
fn try_verify_runs_the_check_on_good_input() {
    let a = dense(4, 31);
    let c = matmul(&a, &a);
    let am = mat(a);
    let f = Freivald::new(4);
    assert_eq!(f.try_verify(&am, &am, &c), Ok(true));
}
