use ray_tracer::matrix::Matrix;
use ray_tracer::rat::Rat;
use ray_tracer::tuple::Tuple;

fn r(n: i64, d: i64) -> Rat {
    Rat::new(n, d)
}

fn ri(n: i64) -> Rat {
    Rat::from_int(n)
}

fn row(vals: &[i64]) -> Vec<Rat> {
    let mut v: Vec<Rat> = Vec::new();
    for x in vals {
        v.push(ri(*x));
    }
    v
}

fn mat4(a: [i64; 4], b: [i64; 4], c: [i64; 4], d: [i64; 4]) -> Matrix {
    Matrix::populate(vec![row(&a), row(&b), row(&c), row(&d)])
}

fn mat3(a: [i64; 3], b: [i64; 3], c: [i64; 3]) -> Matrix {
    Matrix::populate(vec![row(&a), row(&b), row(&c)])
}

fn mat2(a: [i64; 2], b: [i64; 2]) -> Matrix {
    Matrix::populate(vec![row(&a), row(&b)])
}

#[test]
fn multiplying_a_product_matrix_by_the_inverse_of_an_operand_gets_other_operand() {
    let matrix1 = mat4([3, -9, 7, 3], [3, -8, 2, -9], [-4, 4, 4, 1], [-6, 5, -1, 1]);
    let matrix2 = mat4([8, 2, 2, 2], [3, -1, 7, 0], [7, 0, 5, 4], [6, -2, 0, 5]);
    let product = matrix1.mul(&matrix2).unwrap();
    let result = product.mul(&matrix2.inverse().unwrap()).unwrap();
    for i in 0..4 {
        for j in 0..4 {
            assert!(result.rows[i][j].approx_eq(matrix1.rows[i][j]));
        }
    }
}

#[test]
fn inverting_an_uninvertible_matrix_returns_none() {
    let matrix = mat4([-4, 2, -2, -3], [9, 6, 2, 6], [0, -5, 1, -5], [0, 0, 0, 0]);
    assert!(matrix.inverse().is_none());
}

#[test]
fn inverting_a_matrix_3() {
    let matrix = mat4([9, 3, 0, 9], [-5, -2, -6, -3], [-4, 9, 6, 4], [-7, 6, 6, 2]);
    let expected_inverse = Matrix::populate(vec![
        vec![r(-4074, 100000), r(-7778, 100000), r(14444, 100000), r(-22222, 100000)],
        vec![r(-7778, 100000), r(3333, 100000), r(36667, 100000), r(-33333, 100000)],
        vec![r(-2901, 100000), r(-14630, 100000), r(-10926, 100000), r(12963, 100000)],
        vec![r(17778, 100000), r(6667, 100000), r(-26667, 100000), r(33333, 100000)],
    ]);
    let inverse = matrix.inverse().unwrap();
    assert!(inverse.is_equal(&expected_inverse));
}

#[test]
fn inverting_a_matrix_2() {
    let matrix = mat4([8, -5, 9, 2], [7, 5, 6, 1], [-6, 0, 9, 6], [-3, 0, -9, -4]);
    let expected_inverse = Matrix::populate(vec![
        vec![r(-15385, 100000), r(-15385, 100000), r(-28205, 100000), r(-53846, 100000)],
        vec![r(-7692, 100000), r(12308, 100000), r(2564, 100000), r(3077, 100000)],
        vec![r(35897, 100000), r(35897, 100000), r(43590, 100000), r(92308, 100000)],
        vec![r(-69231, 100000), r(-69231, 100000), r(-76923, 100000), r(-192308, 100000)],
    ]);
    let inverse = matrix.inverse().unwrap();
    assert!(inverse.is_equal(&expected_inverse));
}

#[test]
fn inverting_a_matrix_1() {
    let matrix = mat4([-5, 2, 6, -8], [1, -5, 1, 8], [7, 7, -6, -7], [1, -3, 7, 4]);
    let expected_inverse = Matrix::populate(vec![
        vec![r(21805, 100000), r(45113, 100000), r(24060, 100000), r(-4511, 100000)],
        vec![r(-80827, 100000), r(-145677, 100000), r(-44361, 100000), r(52068, 100000)],
        vec![r(-7895, 100000), r(-22368, 100000), r(-5263, 100000), r(19737, 100000)],
        vec![r(-52256, 100000), r(-81391, 100000), r(-30075, 100000), r(30639, 100000)],
    ]);
    assert!(matrix.is_invertible().unwrap());
    assert_eq!(matrix.determinant().unwrap(), ri(532));
    let inverse = matrix.inverse().unwrap();
    assert_eq!(matrix.cofactor(2, 3).unwrap(), ri(-160));
    assert!(inverse.rows[3][2].eq_exact(r(-160, 532)));
    assert_eq!(matrix.cofactor(3, 2).unwrap(), ri(105));
    assert!(inverse.rows[2][3].eq_exact(r(105, 532)));
    assert!(inverse.is_equal(&expected_inverse));
}

#[test]
fn non_invertible_matrices_have_determinants_of_zero() {
    let matrix = mat4([-4, 2, -2, -3], [9, 6, 2, 6], [0, -5, 1, -5], [0, 0, 0, 0]);
    assert_eq!(matrix.determinant().unwrap(), ri(0));
    assert!(!matrix.is_invertible().unwrap());
}

#[test]
fn invertible_matrices_have_non_zero_determinants() {
    let matrix = mat4([6, 4, 4, 4], [5, 5, 7, 6], [4, -9, 3, -7], [9, 1, 7, -6]);
    assert_eq!(matrix.determinant().unwrap(), ri(-2120));
    assert!(matrix.is_invertible().unwrap());
}

#[test]
fn calculate_determinant_of_4x4_matrix() {
    let matrix = mat4([-2, -8, 3, 5], [-3, 1, 7, 3], [1, 2, -9, 6], [-6, 7, 7, -9]);
    assert_eq!(matrix.cofactor(0, 0).unwrap(), ri(690));
    assert_eq!(matrix.cofactor(0, 1).unwrap(), ri(447));
    assert_eq!(matrix.cofactor(0, 2).unwrap(), ri(210));
    assert_eq!(matrix.cofactor(0, 3).unwrap(), ri(51));
    assert_eq!(matrix.determinant().unwrap(), ri(-4071));
}

#[test]
fn calculate_determinant_of_3x3_matrix() {
    let matrix = mat3([1, 2, 6], [-5, 8, -4], [2, 6, 4]);
    assert_eq!(matrix.cofactor(0, 0).unwrap(), ri(56));
    assert_eq!(matrix.cofactor(0, 1).unwrap(), ri(12));
    assert_eq!(matrix.cofactor(0, 2).unwrap(), ri(-46));
    assert_eq!(matrix.determinant().unwrap(), ri(-196));
}

#[test]
fn calculate_determinant_of_2x2_matrix() {
    let matrix = mat2([1, 5], [-3, 2]);
    assert_eq!(matrix.determinant().unwrap(), ri(17));
}

#[test]
fn cofactor_of_a_matrix() {
    let matrix = mat3([3, 5, 0], [2, -1, -7], [6, -1, 5]);
    assert_eq!(matrix.cofactor(0, 0).unwrap(), ri(-12));
    assert_eq!(matrix.cofactor(1, 0).unwrap(), ri(-25));
}

#[test]
fn minor_is_the_determinant_of_the_submatrix_of_3x3_matrix() {
    let matrix = mat3([3, 5, 0], [2, -1, -7], [6, -1, 5]);
    assert_eq!(matrix.minor(1, 0).unwrap(), ri(25));
}

#[test]
fn submatrix_returns_matrix_with_given_row_and_col_removed() {
    let matrix = mat4([0, 9, 3, 0], [9, 8, 0, 8], [1, 8, 5, 3], [0, 0, 5, 8]);
    let submatrix_3x3 = mat3([0, 9, 0], [9, 8, 8], [0, 0, 8]);
    let submatrix_2x2 = mat2([9, 8], [0, 8]);
    assert_eq!(matrix.submatrix(2, 2), submatrix_3x3);
    assert_eq!(submatrix_3x3.submatrix(0, 1), submatrix_2x2);
}

#[test]
fn transposing_a_the_identity_matrix_returns_the_identity() {
    assert_eq!(Matrix::identity().transpose(), Matrix::identity());
}

#[test]
fn transposing_a_matrix_turns_the_rows_into_columns() {
    let matrix = mat4([0, 9, 3, 0], [9, 8, 0, 8], [1, 8, 5, 3], [0, 0, 5, 8]);
    let transposed = mat4([0, 9, 1, 0], [9, 8, 8, 0], [3, 0, 5, 5], [0, 8, 3, 8]);
    assert_eq!(matrix.transpose(), transposed);
}

#[test]
fn multiplying_identity_matrix_with_point_returns_point() {
    let tuple = Tuple::point(ri(1), ri(2), ri(3));
    let identity = Matrix::identity();
    assert!(identity.mul_tuple(&tuple).unwrap().is_equal(&tuple));
}

#[test]
fn multiplying_matrix_with_identity_matrix_returns_matrix() {
    let matrix1 = mat4([1, 2, 3, 4], [5, 6, 7, 8], [9, 8, 7, 6], [5, 4, 3, 2]);
    let identity = Matrix::identity();
    assert_eq!(matrix1.mul(&identity).unwrap(), matrix1);
}

#[test]
fn multiplying_a_matrix_with_a_point_returns_point() {
    let matrix = mat4([1, 2, 3, 4], [2, 4, 4, 2], [8, 6, 4, 1], [0, 0, 0, 1]);
    let tuple = Tuple::point(ri(1), ri(2), ri(3));
    assert!(matrix.mul_tuple(&tuple).unwrap().is_equal(&Tuple::point(ri(18), ri(24), ri(33))));
}

#[test]
fn multiplying_matrices() {
    let matrix1 = mat4([1, 2, 3, 4], [5, 6, 7, 8], [9, 8, 7, 6], [5, 4, 3, 2]);
    let matrix2 = mat4([-2, 1, 2, 3], [3, 2, 1, -1], [4, 3, 6, 5], [1, 2, 7, 8]);
    let product = matrix1.mul(&matrix2).unwrap();
    let expected = mat4(
        [20, 22, 50, 48],
        [44, 54, 114, 108],
        [40, 58, 110, 102],
        [16, 26, 46, 42],
    );
    assert_eq!(product, expected);
}

#[test]
fn different_matrices_compare_as_false() {
    let matrix1 = Matrix::populate(vec![
        vec![ri(1), ri(2), r(31, 10), ri(4)],
        vec![ri(5), ri(6), ri(7), ri(8)],
    ]);
    let matrix2 = Matrix::populate(vec![
        vec![ri(1), ri(2), ri(3), ri(4)],
        vec![ri(5), ri(6), ri(7), ri(8)],
    ]);
    assert_ne!(matrix1, matrix2);
}

#[test]
fn identical_matrices_compare_as_true() {
    let matrix1 = mat4([1, 2, 3, 4], [5, 6, 7, 8], [9, 10, 11, 12], [13, 14, 15, 16]);
    let matrix2 = mat4([1, 2, 3, 4], [5, 6, 7, 8], [9, 10, 11, 12], [13, 14, 15, 16]);
    assert_eq!(matrix1, matrix2);
}

#[test]
fn populating_a_matrix() {
    let matrix = mat4([1, 2, 3, 4], [5, 6, 7, 8], [9, 10, 11, 12], [13, 14, 15, 16]);
    assert_eq!(matrix.rows[3][3], ri(16));
}

#[test]
fn inserting_into_a_matrix() {
    let mut matrix = Matrix::new(4);
    matrix.rows[2][3] = ri(12);
    assert_eq!(matrix.rows[2][3], ri(12));
}

#[test]
#[should_panic]
fn accessing_matrix_out_of_bounds() {
    let matrix = Matrix::new(4);
    assert_eq!(matrix.rows[4][3], ri(0));
}

#[test]
fn creating_and_accessing_a_default_matrix() {
    let matrix = Matrix::new(4);
    assert_eq!(matrix.rows[2][3], ri(0));
    assert_eq!(matrix.rows[0][0], ri(0));

    let matrix = Matrix::new(2);
    assert_eq!(matrix.rows[0][0], ri(0));
    assert_eq!(matrix.rows[1][1], ri(0));
}

#[test]
fn multiplying_a_matrix_with_a_tuple_returns_tuple() {
    let matrix = mat4([1, 2, 3, 4], [2, 4, 4, 2], [8, 6, 4, 1], [0, 0, 0, 1]);
    let tuple = Tuple::point(ri(1), ri(2), ri(3));
    assert!(matrix.mul_tuple(&tuple).unwrap().is_equal(&Tuple::point(ri(18), ri(24), ri(33))));
}

#[test]
fn matrix_multiplying_matrices() {
    let matrix1 = mat4([1, 2, 3, 4], [5, 6, 7, 8], [9, 8, 7, 6], [5, 4, 3, 2]);
    let matrix2 = mat4([-2, 1, 2, 3], [3, 2, 1, -1], [4, 3, 6, 5], [1, 2, 7, 8]);
    let product = matrix1.mul(&matrix2).unwrap();
    let expected = mat4(
        [20, 22, 50, 48],
        [44, 54, 114, 108],
        [40, 58, 110, 102],
        [16, 26, 46, 42],
    );
    assert_eq!(product, expected);
}

#[test]
fn matrix_different_matrices_compare_as_false() {
    let matrix1 = Matrix::populate(vec![
        vec![ri(1), ri(2), r(31, 10), ri(4)],
        vec![ri(5), ri(6), ri(7), ri(8)],
    ]);
    let matrix2 = Matrix::populate(vec![
        vec![ri(1), ri(2), ri(3), ri(4)],
        vec![ri(5), ri(6), ri(7), ri(8)],
    ]);
    assert_ne!(matrix1, matrix2);
}

#[test]
fn matrix_identical_matrices_compare_as_true() {
    let matrix1 = mat4([1, 2, 3, 4], [5, 6, 7, 8], [9, 10, 11, 12], [13, 14, 15, 16]);
    let matrix2 = mat4([1, 2, 3, 4], [5, 6, 7, 8], [9, 10, 11, 12], [13, 14, 15, 16]);
    assert_eq!(matrix1, matrix2);
}

#[test]
fn matrix_populating_a_matrix() {
    let matrix = mat4([1, 2, 3, 4], [5, 6, 7, 8], [9, 10, 11, 12], [13, 14, 15, 16]);
    assert_eq!(matrix.rows[3][3], ri(16));
}

#[test]
fn matrix_inserting_into_a_matrix() {
    let mut matrix = Matrix::new(4);
    matrix.rows[2][3] = ri(12);
    assert_eq!(matrix.rows[2][3], ri(12));
}

#[test]
#[should_panic]
fn matrix_accessing_matrix_out_of_bounds() {
    let matrix = Matrix::new(4);
    assert_eq!(matrix.rows[4][3], ri(0));
}

#[test]
fn matrix_creating_and_accessing_a_default_matrix() {
    let matrix = Matrix::new(4);
    assert_eq!(matrix.rows[2][3], ri(0));
    assert_eq!(matrix.rows[0][0], ri(0));

    let matrix = Matrix::new(2);
    assert_eq!(matrix.rows[0][0], ri(0));
    assert_eq!(matrix.rows[1][1], ri(0));
}
