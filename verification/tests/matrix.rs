use raytracer::matrix::{cofactor_keeps_sign, Matrix};

fn matrix(rows: &[&[f64]]) -> Matrix<f64> {
    Matrix::new(rows.iter().map(|row| row.to_vec()).collect())
}

#[test]
fn matrix_matrix_indices() {
    let matrix_2 = matrix(&[&[1.0, 2.0], &[5.5, 6.5]]);
    assert_eq!(matrix_2.get_index(0, 0), 1.0);
    assert_eq!(matrix_2.get_index(0, 1), 2.0);
    assert_eq!(matrix_2.get_index(1, 0), 5.5);
    assert_eq!(matrix_2.get_index(1, 1), 6.5);

    let matrix_3 = matrix(&[&[1.0, 2.0, 3.0], &[5.5, 6.5, 7.5], &[9.0, 10.0, 11.0]]);
    assert_eq!(matrix_3.get_index(0, 0), 1.0);
    assert_eq!(matrix_3.get_index(0, 1), 2.0);
    assert_eq!(matrix_3.get_index(1, 0), 5.5);
    assert_eq!(matrix_3.get_index(1, 1), 6.5);
    assert_eq!(matrix_3.get_index(2, 2), 11.0);

    let matrix_4 = matrix(&[
        &[1.0, 2.0, 3.0, 4.0],
        &[5.5, 6.5, 7.5, 8.5],
        &[9.0, 10.0, 11.0, 12.0],
        &[13.5, 14.5, 15.5, 16.5],
    ]);
    assert_eq!(matrix_4.get_index(0, 0), 1.0);
    assert_eq!(matrix_4.get_index(0, 3), 4.0);
    assert_eq!(matrix_4.get_index(1, 0), 5.5);
    assert_eq!(matrix_4.get_index(1, 2), 7.5);
    assert_eq!(matrix_4.get_index(2, 2), 11.0);
    assert_eq!(matrix_4.get_index(3, 0), 13.5);
    assert_eq!(matrix_4.get_index(3, 2), 15.5);
}

#[test]
fn matrix_transpose_matrix() {
    let matrix_2 = matrix(&[&[1.0, 2.0], &[5.5, 6.5]]);
    let matrix_2_transposed = matrix(&[&[1.0, 5.5], &[2.0, 6.5]]);
    let matrix_3 = matrix(&[&[0.0, 9.0, 3.0], &[9.0, 8.0, 0.0], &[1.0, 8.0, 5.0]]);
    let matrix_3_transposed = matrix(&[&[0.0, 9.0, 1.0], &[9.0, 8.0, 8.0], &[3.0, 0.0, 5.0]]);
    let matrix_4 = matrix(&[
        &[0.0, 9.0, 3.0, 0.0],
        &[9.0, 8.0, 0.0, 8.0],
        &[1.0, 8.0, 5.0, 3.0],
        &[0.0, 0.0, 5.0, 8.0],
    ]);
    let matrix_4_transposed = matrix(&[
        &[0.0, 9.0, 1.0, 0.0],
        &[9.0, 8.0, 8.0, 0.0],
        &[3.0, 0.0, 5.0, 5.0],
        &[0.0, 8.0, 3.0, 8.0],
    ]);
    assert_eq!(matrix_2.transpose(), matrix_2_transposed);
    assert_eq!(matrix_3.transpose(), matrix_3_transposed);
    assert_eq!(matrix_4.transpose(), matrix_4_transposed);
}

#[test]
fn matrix_transpose_identity_matrix() {
    for side in 2..5 {
        let identity = Matrix::identity(side, 0.0, 1.0);
        assert_eq!(identity.transpose(), identity);
    }
}

#[test]
fn matrix_submatrix_3x3() {
    let matrix_1 = matrix(&[&[1.0, 5.0, 0.], &[-3.0, 2.0, 7.0], &[0.0, 6.0, -3.0]]);
    let matrix_2 = matrix(&[&[-3.0, 2.0], &[0.0, 6.0]]);
    assert_eq!(matrix_1.submatrix(0, 2), matrix_2);
}

#[test]
fn matrix_submatrix_4x4() {
    let matrix_1 = matrix(&[
        &[-6.0, 1.0, 1.0, 6.0],
        &[-8.0, 5.0, 8.0, 6.0],
        &[-1.0, 0.0, 8.0, 2.],
        &[-7.0, 1.0, -1.0, 1.0],
    ]);
    let matrix_2 = matrix(&[&[-6.0, 1.0, 6.0], &[-8.0, 8.0, 6.0], &[-7.0, -1.0, 1.0]]);
    assert_eq!(matrix_1.submatrix(2, 1), matrix_2);
}

#[test]
fn identity_has_ones_on_the_diagonal() {
    let identity = Matrix::identity(3, 0, 1);
    for row in 0..3 {
        for column in 0..3 {
            assert_eq!(identity.get_index(row, column), if row == column { 1 } else { 0 });
        }
    }
}

#[test]
fn setting_an_entry_changes_only_it() {
    let mut m = Matrix::filled(3, 7);
    m.set_index(1, 2, 9);
    assert_eq!(m.get_index(1, 2), 9);
    assert_eq!(m.get_index(2, 1), 7);
    assert_eq!(m.side(), 3);
}

#[test]
fn transposing_twice_gives_the_matrix_back() {
    let m = matrix(&[&[1.0, 2.0, 3.0], &[4.0, 5.0, 6.0], &[7.0, 8.0, 9.0]]);
    assert_eq!(m.transpose().transpose(), m);
}

#[test]
fn submatrix_of_transpose() {
    let m = matrix(&[&[1.0, 2.0, 3.0], &[4.0, 5.0, 6.0], &[7.0, 8.0, 9.0]]);
    assert_eq!(m.transpose().submatrix(2, 0), m.submatrix(0, 2).transpose());
}

#[test]
fn cofactor_signs_alternate() {
    assert!(cofactor_keeps_sign(0, 0));
    assert!(!cofactor_keeps_sign(0, 1));
    assert!(!cofactor_keeps_sign(1, 0));
    assert!(cofactor_keeps_sign(1, 1));
    assert!(cofactor_keeps_sign(2, 0));
}
