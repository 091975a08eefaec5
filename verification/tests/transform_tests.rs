use ray_tracer::matrix::Matrix;
use ray_tracer::rat::Rat;
use ray_tracer::tuple::Tuple;

fn r(n: i64, d: i64) -> Rat {
    Rat::new(n, d)
}

fn ri(n: i64) -> Rat {
    Rat::from_int(n)
}

// about 0.70710678: the cosine and sine of an eighth turn
fn half_sqrt2() -> Rat {
    r(70710678, 100000000)
}

#[test]
fn chaining_transformations() {
    let transform = Matrix::identity()
        .rotate_x(ri(0), ri(1))
        .unwrap()
        .scale(ri(5), ri(5), ri(5))
        .unwrap()
        .translate(ri(10), ri(5), ri(7))
        .unwrap();
    let point = transform.mul_tuple(&Tuple::point(ri(1), ri(0), ri(1))).unwrap();
    assert!(point.x.approx_eq(ri(15)));
    assert!(point.y.approx_eq(ri(0)));
    assert!(point.z.approx_eq(ri(7)));
}

#[test]
fn shearing_moves_z_in_proportion_to_y() {
    let point = Tuple::point(ri(2), ri(3), ri(4));
    let transform = Matrix::identity().shear(ri(0), ri(0), ri(0), ri(0), ri(0), ri(1)).unwrap();
    assert!(transform.mul_tuple(&point).unwrap().is_equal(&Tuple::point(ri(2), ri(3), ri(7))));
}

#[test]
fn shearing_moves_z_in_proportion_to_x() {
    let point = Tuple::point(ri(2), ri(3), ri(4));
    let transform = Matrix::identity().shear(ri(0), ri(0), ri(0), ri(0), ri(1), ri(0)).unwrap();
    assert!(transform.mul_tuple(&point).unwrap().is_equal(&Tuple::point(ri(2), ri(3), ri(6))));
}

#[test]
fn shearing_moves_y_in_proportion_to_z() {
    let point = Tuple::point(ri(2), ri(3), ri(4));
    let transform = Matrix::identity().shear(ri(0), ri(0), ri(0), ri(1), ri(0), ri(0)).unwrap();
    assert!(transform.mul_tuple(&point).unwrap().is_equal(&Tuple::point(ri(2), ri(7), ri(4))));
}

#[test]
fn shearing_moves_y_in_proportion_to_x() {
    let point = Tuple::point(ri(2), ri(3), ri(4));
    let transform = Matrix::identity().shear(ri(0), ri(0), ri(1), ri(0), ri(0), ri(0)).unwrap();
    assert!(transform.mul_tuple(&point).unwrap().is_equal(&Tuple::point(ri(2), ri(5), ri(4))));
}

#[test]
fn shearing_moves_x_in_proportion_to_z() {
    let point = Tuple::point(ri(2), ri(3), ri(4));
    let transform = Matrix::identity().shear(ri(0), ri(1), ri(0), ri(0), ri(0), ri(0)).unwrap();
    assert!(transform.mul_tuple(&point).unwrap().is_equal(&Tuple::point(ri(6), ri(3), ri(4))));
}

#[test]
fn shearing_moves_x_in_proportion_to_y() {
    let point = Tuple::point(ri(2), ri(3), ri(4));
    let transform = Matrix::identity().shear(ri(1), ri(0), ri(0), ri(0), ri(0), ri(0)).unwrap();
    assert!(transform.mul_tuple(&point).unwrap().is_equal(&Tuple::point(ri(5), ri(3), ri(4))));
}

#[test]
fn rotating_a_point_around_z_axis() {
    let point = Tuple::point(ri(0), ri(1), ri(0));
    let matrix = Matrix::identity();
    let eighth = matrix.rotate_z(half_sqrt2(), half_sqrt2()).unwrap();
    let quarter = matrix.rotate_z(ri(0), ri(1)).unwrap();

    let eighth_point = eighth.mul_tuple(&point).unwrap();
    assert!(eighth_point.x.approx_eq(half_sqrt2().neg()));
    assert!(eighth_point.y.approx_eq(half_sqrt2()));
    assert!(eighth_point.z.approx_eq(ri(0)));

    let quarter_point = quarter.mul_tuple(&point).unwrap();
    assert!(quarter_point.x.approx_eq(ri(-1)));
    assert!(quarter_point.y.approx_eq(ri(0)));
    assert!(quarter_point.z.approx_eq(ri(0)));
}

#[test]
fn rotating_a_point_around_y_axis() {
    let point = Tuple::point(ri(0), ri(0), ri(1));
    let matrix = Matrix::identity();
    let eighth = matrix.rotate_y(half_sqrt2(), half_sqrt2()).unwrap();
    let quarter = matrix.rotate_y(ri(0), ri(1)).unwrap();

    let eighth_point = eighth.mul_tuple(&point).unwrap();
    assert!(eighth_point.x.approx_eq(half_sqrt2()));
    assert!(eighth_point.y.approx_eq(ri(0)));
    assert!(eighth_point.z.approx_eq(half_sqrt2()));

    let quarter_point = quarter.mul_tuple(&point).unwrap();
    assert!(quarter_point.x.approx_eq(ri(1)));
    assert!(quarter_point.y.approx_eq(ri(0)));
    assert!(quarter_point.z.approx_eq(ri(0)));
}

#[test]
fn rotation_x_inverse_rotates_in_opposite_direction() {
    let point = Tuple::point(ri(0), ri(1), ri(0));
    let eighth = Matrix::identity().rotate_x(half_sqrt2(), half_sqrt2()).unwrap();

    let eighth_inverse_point = eighth.inverse().unwrap().mul_tuple(&point).unwrap();
    assert!(eighth_inverse_point.x.approx_eq(ri(0)));
    assert!(eighth_inverse_point.y.approx_eq(half_sqrt2()));
    assert!(eighth_inverse_point.z.approx_eq(half_sqrt2().neg()));
}

#[test]
fn rotating_a_point_around_x_axis() {
    let point = Tuple::point(ri(0), ri(1), ri(0));
    let matrix = Matrix::identity();
    let eighth = matrix.rotate_x(half_sqrt2(), half_sqrt2()).unwrap();
    let quarter = matrix.rotate_x(ri(0), ri(1)).unwrap();

    let eighth_point = eighth.mul_tuple(&point).unwrap();
    assert!(eighth_point.x.approx_eq(ri(0)));
    assert!(eighth_point.y.approx_eq(half_sqrt2()));
    assert!(eighth_point.z.approx_eq(half_sqrt2()));

    let quarter_point = quarter.mul_tuple(&point).unwrap();
    assert!(quarter_point.x.approx_eq(ri(0)));
    assert!(quarter_point.y.approx_eq(ri(0)));
    assert!(quarter_point.z.approx_eq(ri(1)));
}

#[test]
fn scaling_with_a_negative_value_reflects_the_tuple() {
    let transform = Matrix::identity().scale(ri(-1), ri(1), ri(1)).unwrap();
    let result = transform.mul_tuple(&Tuple::point(ri(2), ri(3), ri(4))).unwrap();
    assert!(result.is_equal(&Tuple::point(ri(-2), ri(3), ri(4))));
}

#[test]
fn multiply_scaling_matrix_inverse_with_a_point() {
    let transform = Matrix::identity().scale(ri(2), ri(3), ri(4)).unwrap();
    let result = transform.inverse().unwrap().mul_tuple(&Tuple::vector(ri(-4), ri(6), ri(8))).unwrap();
    assert!(result.is_equal(&Tuple::vector(ri(-2), ri(2), ri(2))));
}

#[test]
fn multiply_scaling_matrix_with_a_vector() {
    let transform = Matrix::identity().scale(ri(2), ri(3), ri(4)).unwrap();
    let result = transform.mul_tuple(&Tuple::vector(ri(-4), ri(6), ri(8))).unwrap();
    assert!(result.is_equal(&Tuple::vector(ri(-8), ri(18), ri(32))));
}

#[test]
fn multiply_scaling_matrix_with_a_point() {
    let transform = Matrix::identity().scale(ri(2), ri(3), ri(4)).unwrap();
    let result = transform.mul_tuple(&Tuple::point(ri(-4), ri(6), ri(8))).unwrap();
    assert!(result.is_equal(&Tuple::point(ri(-8), ri(18), ri(32))));
}

#[test]
fn multiply_translation_matrix_with_a_vector_does_not_change_vector() {
    let vector = Tuple::vector(ri(-3), ri(4), ri(5));
    let transform = Matrix::identity().translate(ri(5), ri(-3), ri(2)).unwrap();
    assert!(transform.mul_tuple(&vector).unwrap().is_equal(&vector));
}

#[test]
fn multiply_translation_matrix_inverse_with_a_point() {
    let transform = Matrix::identity().translate(ri(5), ri(-3), ri(2)).unwrap();
    let result = transform.inverse().unwrap().mul_tuple(&Tuple::point(ri(-3), ri(4), ri(5))).unwrap();
    assert!(result.is_equal(&Tuple::point(ri(-8), ri(7), ri(3))));
}

#[test]
fn multiply_translation_matrix_with_a_point() {
    let transform = Matrix::identity().translate(ri(5), ri(-3), ri(2)).unwrap();
    let result = transform.mul_tuple(&Tuple::point(ri(-3), ri(4), ri(5))).unwrap();
    assert!(result.is_equal(&Tuple::point(ri(2), ri(1), ri(7))));
}
