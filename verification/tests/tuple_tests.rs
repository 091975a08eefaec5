use ray_tracer::rat::Rat;
use ray_tracer::tuple::Color;
use ray_tracer::tuple::Tuple;

fn r(n: i64, d: i64) -> Rat {
    Rat::new(n, d)
}

fn ri(n: i64) -> Rat {
    Rat::from_int(n)
}

// about 0.70710678
fn half_sqrt2() -> Rat {
    r(70710678, 100000000)
}

#[test]
fn reflecting_a_vector_at_45_degrees() {
    let vector = Tuple::vector(ri(1), ri(-1), ri(0));
    let normal = Tuple::vector(ri(0), ri(1), ri(0));
    let reflected = vector.reflect(&normal).unwrap();
    assert!(reflected.x.approx_eq(ri(1)));
    assert!(reflected.y.approx_eq(ri(1)));
    assert!(reflected.z.approx_eq(ri(0)));
}

#[test]
fn reflecting_a_vector_off_slanted_surface() {
    let slant = half_sqrt2();
    let vector = Tuple::vector(ri(0), ri(-1), ri(0));
    let normal = Tuple::vector(slant, slant, ri(0));
    let reflected = vector.reflect(&normal).unwrap();
    assert!(reflected.x.approx_eq(ri(1)));
    assert!(reflected.y.approx_eq(ri(0)));
    assert!(reflected.z.approx_eq(ri(0)));
}

#[test]
fn color_is_iterable() {
    let color = Color::new(ri(1), r(1, 10), r(4, 10));
    let mut iter = color.iter();
    assert_eq!(iter.next(), Some(ri(1)));
    assert_eq!(iter.next(), Some(r(1, 10)));
    assert_eq!(iter.next(), Some(r(4, 10)));
    assert_eq!(iter.next(), None);
}

#[test]
fn creating_new_black_color() {
    let black = Color::new(ri(0), ri(0), ri(0));
    assert_eq!(black, Color::black());
}

#[test]
fn creating_new_white_color() {
    let white = Color::new(ri(1), ri(1), ri(1));
    assert_eq!(white, Color::white());
}

#[test]
fn multiplying_colors_by_scalar() {
    let c1 = Color::new(r(2, 10), r(3, 10), r(4, 10));
    let expected = Color::new(r(4, 10), r(6, 10), r(8, 10));
    assert!(expected.is_equal(&c1.scale(ri(2)).unwrap()));
}

#[test]
fn subtracting_colors() {
    let c1 = Color::new(r(9, 10), r(6, 10), r(75, 100));
    let c2 = Color::new(r(7, 10), r(1, 10), r(25, 100));
    let expected = Color::new(r(2, 10), r(5, 10), r(5, 10));
    assert!(expected.is_equal(&c1.sub(c2).unwrap()));
}

#[test]
fn adding_colors() {
    let c1 = Color::new(r(9, 10), r(6, 10), r(75, 100));
    let c2 = Color::new(r(7, 10), r(1, 10), r(25, 100));
    let expected = Color::new(r(16, 10), r(7, 10), ri(1));
    assert!(expected.is_equal(&c1.add(c2).unwrap()));
}

#[test]
fn color_new() {
    let color = Color::new(r(-5, 10), r(4, 10), r(17, 10));
    assert_eq!(color.red, r(-5, 10));
    assert_eq!(color.green, r(4, 10));
    assert_eq!(color.blue, r(17, 10));
}

#[test]
fn cross_product_of_two_vectors_returns_a_vector() {
    let v1 = Tuple::vector(ri(1), ri(2), ri(3));
    let v2 = Tuple::vector(ri(2), ri(3), ri(4));
    assert!(v1.cross(&v2).unwrap().is_equal(&Tuple::vector(ri(-1), ri(2), ri(-1))));
    assert!(v2.cross(&v1).unwrap().is_equal(&Tuple::vector(ri(1), ri(-2), ri(1))));
}

#[test]
fn dot_product_of_two_vectors_returns_a_scalar() {
    let v1 = Tuple::vector(ri(1), ri(2), ri(3));
    let v2 = Tuple::vector(ri(2), ri(3), ri(4));
    assert!(v1.dot(&v2).unwrap().approx_eq(ri(20)));
}

#[test]
fn normalizing_vectors() {
    let unit = Tuple::vector(ri(4), ri(0), ri(0)).normalize().unwrap();
    assert!(unit.is_equal(&Tuple::vector(ri(1), ri(0), ri(0))));

    // 1 / sqrt(14), 2 / sqrt(14), 3 / sqrt(14)
    let normalized = Tuple::vector(ri(1), ri(2), ri(3)).normalize().unwrap();
    let expected = Tuple::vector(
        r(26726124, 100000000),
        r(53452248, 100000000),
        r(80178373, 100000000),
    );
    assert!(normalized.is_equal(&expected));
}

#[test]
fn computing_magnitude_of_other_vectors() {
    // sqrt(14) is about 3.74165739
    let expected = r(374165739, 100000000);
    assert!(Tuple::vector(ri(1), ri(2), ri(3)).magnitude().unwrap().approx_eq(expected));
    assert!(Tuple::vector(ri(-1), ri(-2), ri(-3)).magnitude().unwrap().approx_eq(expected));
}

#[test]
fn computing_magnitude_of_unit_vectors() {
    assert!(Tuple::vector(ri(1), ri(0), ri(0)).magnitude().unwrap().approx_eq(ri(1)));
    assert!(Tuple::vector(ri(0), ri(1), ri(0)).magnitude().unwrap().approx_eq(ri(1)));
    assert!(Tuple::vector(ri(0), ri(0), ri(1)).magnitude().unwrap().approx_eq(ri(1)));
}

#[test]
fn dividing_a_vector_by_a_scalar() {
    let t1 = Tuple::vector(ri(1), ri(-2), ri(3));
    let t2 = Tuple::vector(r(5, 10), ri(-1), r(15, 10));
    assert!(t1.div(ri(2)).unwrap().is_equal(&t2));
}

#[test]
fn dividing_a_point_by_a_scalar() {
    let t1 = Tuple::point(ri(1), ri(-2), ri(3));
    let mut t2 = Tuple::point(r(5, 10), ri(-1), r(15, 10));
    t2.w = r(5, 10);
    assert!(t1.div(ri(2)).unwrap().is_equal(&t2));
}

#[test]
fn multiplying_a_point_by_a_scalar() {
    let t1 = Tuple::point(ri(1), ri(-2), ri(3));
    let mut t2 = Tuple::point(r(35, 10), ri(-7), r(105, 10));
    t2.w = r(35, 10);
    assert!(t1.scale(r(35, 10)).unwrap().is_equal(&t2));
}

#[test]
fn multiplying_a_vector_by_a_scalar() {
    let t1 = Tuple::vector(ri(1), ri(-2), ri(3));
    let t2 = Tuple::vector(r(35, 10), ri(-7), r(105, 10));
    assert!(t1.scale(r(35, 10)).unwrap().is_equal(&t2));
}

#[test]
fn negating_a_vector() {
    let tuple = Tuple::vector(ri(5), ri(6), ri(7));
    assert!(tuple.neg().is_equal(&Tuple::vector(ri(-5), ri(-6), ri(-7))));
}

#[test]
fn subtracting_a_vector_from_the_zero_vector() {
    let zero = Tuple::vector(ri(0), ri(0), ri(0));
    let v = Tuple::vector(ri(5), ri(6), ri(7));
    assert!(zero.sub(v).unwrap().is_equal(&Tuple::vector(ri(-5), ri(-6), ri(-7))));
}

#[test]
fn subtracting_two_vectors_creates_a_vector() {
    let v1 = Tuple::vector(ri(3), ri(2), ri(1));
    let v2 = Tuple::vector(ri(5), ri(6), ri(7));
    assert!(v1.sub(v2).unwrap().is_equal(&Tuple::vector(ri(-2), ri(-4), ri(-6))));
}

#[test]
fn subtracting_a_vector_from_a_point_creates_a_point() {
    let point = Tuple::point(ri(3), ri(2), ri(1));
    let vector = Tuple::vector(ri(5), ri(6), ri(7));
    assert!(point.sub(vector).unwrap().is_equal(&Tuple::point(ri(-2), ri(-4), ri(-6))));
}

#[test]
fn subtracting_two_points_creates_a_vector() {
    let p1 = Tuple::point(ri(3), ri(2), ri(1));
    let p2 = Tuple::point(ri(5), ri(6), ri(7));
    assert!(p1.sub(p2).unwrap().is_equal(&Tuple::vector(ri(-2), ri(-4), ri(-6))));
}

#[test]
fn adding_a_vector_to_a_vector_creates_a_vector() {
    let v1 = Tuple::vector(ri(3), ri(-2), ri(5));
    let v2 = Tuple::vector(ri(-2), ri(3), ri(1));
    assert!(v1.add(v2).unwrap().is_equal(&Tuple::vector(ri(1), ri(1), ri(6))));
}

#[test]
fn adding_a_vector_to_a_point_creates_a_point() {
    let vector = Tuple::vector(ri(3), ri(-2), ri(5));
    let point = Tuple::point(ri(-2), ri(3), ri(1));
    assert!(vector.add(point).unwrap().is_equal(&Tuple::point(ri(1), ri(1), ri(6))));
}

#[test]
fn two_equal_vectors() {
    let vec1 = Tuple::vector(r(49, 10), r(-41, 10), ri(3));
    let vec2 = Tuple::vector(r(49, 10), r(-41, 10), ri(3));
    assert!(vec1.is_equal(&vec2));
}

#[test]
fn two_unequal_vectors() {
    let vec1 = Tuple::vector(r(49, 10), r(-41, 10), ri(3));
    let vec2 = Tuple::vector(r(49, 10), r(-41, 10), r(31, 10));
    assert!(!vec1.is_equal(&vec2));
}

#[test]
fn points_and_vectors_are_not_equal() {
    let vector = Tuple::vector(r(49, 10), r(-41, 10), ri(3));
    let point = Tuple::point(r(49, 10), r(-41, 10), ri(3));
    assert!(!vector.is_equal(&point));
}

#[test]
fn tuple_with_0_w_is_a_vector() {
    let vector = Tuple::vector(r(49, 10), r(-41, 10), ri(3));
    assert_eq!(vector.w, ri(0));
}

#[test]
fn tuple_with_1_w_is_a_point() {
    let point = Tuple::point(r(49, 10), r(-41, 10), ri(3));
    assert_eq!(point.w, ri(1));
}
