use ray_tracer::matrix::{cofactor_negates, Matrix2x2, Matrix3x3, Matrix4x4};

#[test]
fn test_matrix4x4_submatrix() {
    let m = Matrix4x4::new([
        [-6.0, 1.0, 1.0, 6.0],
        [-8.0, 5.0, 8.0, 6.0],
        [-1.0, 0.0, 8.0, 2.0],
        [-7.0, 1.0, -1.0, 1.0],
    ]);
    let sub = m.submatrix(2, 1);
    assert_eq!(
        sub,
        Matrix3x3::new([[-6.0, 1.0, 6.0], [-8.0, 8.0, 6.0], [-7.0, -1.0, 1.0]])
    );
}

#[test]
fn submatrix_of_first_and_last_row_and_column() {
    let m = Matrix4x4::new([[1, 2, 3, 4], [5, 6, 7, 8], [9, 10, 11, 12], [13, 14, 15, 16]]);
    assert_eq!(
        m.submatrix(0, 0),
        Matrix3x3::new([[6, 7, 8], [10, 11, 12], [14, 15, 16]])
    );
    assert_eq!(
        m.submatrix(3, 3),
        Matrix3x3::new([[1, 2, 3], [5, 6, 7], [9, 10, 11]])
    );
}

#[test]
fn submatrix_of_3x3() {
    let m = Matrix3x3::new([[1.0, 5.0, 0.0], [-3.0, 2.0, 7.0], [0.0, 6.0, -3.0]]);
    assert_eq!(m.submatrix(0, 2), Matrix2x2::new([[-3.0, 2.0], [0.0, 6.0]]));
    assert_eq!(m.submatrix(1, 1), Matrix2x2::new([[1.0, 0.0], [0.0, -3.0]]));
}

#[test]
fn transpose_swaps_rows_and_columns() {
    let m = Matrix4x4::new([
        [0.0, 9.0, 3.0, 0.0],
        [9.0, 8.0, 0.0, 8.0],
        [1.0, 8.0, 5.0, 3.0],
        [0.0, 0.0, 5.0, 8.0],
    ]);
    let t = m.transpose();
    assert_eq!(
        t,
        Matrix4x4::new([
            [0.0, 9.0, 1.0, 0.0],
            [9.0, 8.0, 8.0, 0.0],
            [3.0, 0.0, 5.0, 5.0],
            [0.0, 8.0, 3.0, 8.0],
        ])
    );
    for i in 0..4 {
        for j in 0..4 {
            assert_eq!(t.data[i][j], m.data[j][i]);
        }
    }
    assert_eq!(t.transpose(), m);
}

#[test]
fn cofactor_sign_alternates() {
    assert!(!cofactor_negates(0, 0));
    assert!(cofactor_negates(1, 0));
    assert!(cofactor_negates(0, 3));
    assert!(!cofactor_negates(2, 2));
    assert!(cofactor_negates(3, 2));
}
