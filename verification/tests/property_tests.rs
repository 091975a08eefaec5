use ray_tracer::matrix::Matrix;
use ray_tracer::rat::Rat;
use ray_tracer::tuple::Color;
use ray_tracer::tuple::Tuple;

fn r(n: i64, d: i64) -> Rat {
    Rat::new(n, d)
}

fn ri(n: i64) -> Rat {
    Rat::from_int(n)
}

fn row(vals: &[i64]) -> Vec<Rat> {
    let mut v: Vec<Rat> = Vec::new();
    for x in vals {
        v.push(ri(*x));
    }
    v
}

fn mat4(a: [i64; 4], b: [i64; 4], c: [i64; 4], d: [i64; 4]) -> Matrix {
    Matrix::populate(vec![row(&a), row(&b), row(&c), row(&d)])
}

#[test]
fn adding_then_subtracting_a_vector_returns_the_point() {
    let p = Tuple::point(r(31, 10), r(-27, 100), ri(8));
    let v = Tuple::vector(r(12, 7), r(5, 3), r(-9, 4));
    let s = p.add(v).unwrap();
    let back = s.sub(v).unwrap();
    assert!(back.is_equal(&p));
}

#[test]
fn subtracting_a_point_from_itself_is_the_zero_vector() {
    let p = Tuple::point(r(31, 10), r(-27, 100), ri(8));
    let d = p.sub(p).unwrap();
    assert!(d.is_equal(&Tuple::vector(ri(0), ri(0), ri(0))));
    assert!(d.w.approx_eq(ri(0)));
}

#[test]
fn normalized_vectors_have_magnitude_one() {
    // an exact case: magnitude 13
    let v1 = Tuple::vector(ri(3), ri(-4), ri(12)).normalize().unwrap();
    assert!(v1.magnitude().unwrap().approx_eq(ri(1)));
    // an irrational case: magnitude sqrt(3)
    let v2 = Tuple::vector(ri(1), ri(1), ri(1)).normalize().unwrap();
    assert!(v2.magnitude().unwrap().approx_eq(ri(1)));
    // a small, skewed case
    let v3 = Tuple::vector(r(1, 100), r(-3, 700), r(2, 99)).normalize().unwrap();
    assert!(v3.magnitude().unwrap().approx_eq(ri(1)));
}

#[test]
fn cross_products_swap_to_their_negation() {
    let a = Tuple::vector(r(5, 2), ri(-3), r(7, 9));
    let b = Tuple::vector(ri(4), r(1, 8), r(-2, 3));
    let ab = a.cross(&b).unwrap();
    let ba = b.cross(&a).unwrap();
    assert!(ab.is_equal(&ba.neg()));
}

#[test]
fn product_with_inverse_is_the_identity() {
    let m = mat4([-5, 2, 6, -8], [1, -5, 1, 8], [7, 7, -6, -7], [1, -3, 7, 4]);
    let inv = m.inverse().unwrap();
    let product = m.mul(&inv).unwrap();
    assert!(product.is_equal(&Matrix::identity()));

    let m2 = mat4([8, -5, 9, 2], [7, 5, 6, 1], [-6, 0, 9, 6], [-3, 0, -9, -4]);
    let inv2 = m2.inverse().unwrap();
    let product2 = m2.mul(&inv2).unwrap();
    assert!(product2.is_equal(&Matrix::identity()));
}

#[test]
fn checked_inverse_returns_an_exact_right_inverse() {
    let m = mat4([6, 4, 4, 4], [5, 5, 7, 6], [4, -9, 3, -7], [9, 1, 7, -6]);
    let inv = m.checked_inverse().unwrap();
    let product = m.mul(&inv).unwrap();
    assert!(product.eq_exact(&Matrix::identity()));
    let singular = mat4([-4, 2, -2, -3], [9, 6, 2, 6], [0, -5, 1, -5], [0, 0, 0, 0]);
    assert!(singular.checked_inverse().is_none());
}

#[test]
fn inverse_of_a_translation_is_the_reverse_translation() {
    let forward = Matrix::identity().translate(ri(5), ri(-3), ri(2)).unwrap();
    let reverse = Matrix::identity().translate(ri(-5), ri(3), ri(-2)).unwrap();
    assert!(forward.inverse().unwrap().is_equal(&reverse));
}

#[test]
fn translating_a_point_there_and_back_returns_it() {
    let p = Tuple::point(r(-13, 4), r(22, 7), r(9, 11));
    let forward = Matrix::identity().translate(r(1, 3), ri(-8), r(5, 6)).unwrap();
    let q = forward.mul_tuple(&p).unwrap();
    let back = forward.inverse().unwrap().mul_tuple(&q).unwrap();
    assert!(back.is_equal(&p));
}

#[test]
fn channelwise_color_product() {
    let c1 = Color::new(ri(1), r(2, 10), r(4, 10));
    let c2 = Color::new(r(9, 10), ri(1), r(1, 10));
    let expected = Color::new(r(9, 10), r(2, 10), r(4, 100));
    assert!(c1.mul(c2).unwrap().is_equal(&expected));
}

#[test]
fn constructed_colors() {
    assert!(Color::white().is_equal(&Color::new(ri(1), ri(1), ri(1))));
    assert!(Color::red().is_equal(&Color::new(ri(1), ri(0), ri(0))));
    assert!(Color::black().is_equal(&Color::new(ri(0), ri(0), ri(0))));
}

#[test]
fn scalar_comparisons_are_exact() {
    assert!(r(1, 3).lt(r(34, 100)));
    assert!(!r(1, 3).lt(r(33, 100)));
    assert!(r(1, 3).le(r(1, 3)));
    assert!(r(-1, 2).lt(ri(0)));
    assert!(ri(0).is_zero());
    assert!(!r(1, 1000000).is_zero());
}

#[test]
fn tolerance_equality_is_strict_at_the_boundary() {
    assert!(!ri(0).approx_eq(r(1, 100000)));
    assert!(ri(0).approx_eq(r(1, 100001)));
    assert!(r(1, 3).approx_eq(r(33333, 100000)));
}

#[test]
fn arithmetic_reports_overflow_as_absence() {
    let big = Rat::new(i64::MAX, 1);
    assert!(big.add(big).is_none());
    assert!(big.mul(big).is_none());
    // the same values reduce and fit when the result is representable
    assert!(big.sub(big).unwrap().approx_eq(ri(0)));
}

#[test]
fn small_powers_are_exact() {
    let half = r(1, 2);
    assert!(half.pow(3).unwrap().approx_eq(r(1, 8)));
    assert!(ri(1).pow(200).unwrap().approx_eq(ri(1)));
    assert!(r(7, 5).pow(0).unwrap().approx_eq(ri(1)));
}

#[test]
fn square_roots_of_perfect_squares_are_exact() {
    let m = Tuple::vector(ri(0), ri(3), ri(4)).magnitude().unwrap();
    assert!(m.approx_eq(ri(5)));
    let m2 = Tuple::vector(ri(0), ri(0), ri(-10)).magnitude().unwrap();
    assert!(m2.approx_eq(ri(10)));
}

#[test]
fn color_cursor_stops_after_three_channels() {
    let color = Color::new(r(1, 2), r(1, 3), r(1, 4));
    let mut iter = color.iter();
    assert_eq!(iter.next(), Some(r(1, 2)));
    assert_eq!(iter.next(), Some(r(1, 3)));
    assert_eq!(iter.next(), Some(r(1, 4)));
    assert_eq!(iter.next(), None);
    assert_eq!(iter.next(), None);
}

#[test]
fn lighting_with_low_shininess_keeps_the_specular_term() {
    let mut material = ray_tracer::rays::Material::new();
    material.shininess = 2;
    let position = Tuple::point(ri(0), ri(0), ri(0));
    let normal = Tuple::vector(ri(0), ri(0), ri(-1));
    // the reflection leaves along (0, 0, -1); this eye sees 4/5 of it
    let eye = Tuple::vector(ri(0), r(3, 5), r(-4, 5));
    let light = ray_tracer::rays::PointLight::new(
        Tuple::point(ri(0), ri(0), ri(-10)),
        Color::white(),
    );
    let color = ray_tracer::rays::lighting(material, light, position, eye, normal).unwrap();
    // ambient 0.1 + diffuse 0.9 + specular 0.9 * (4/5)^2
    assert!(color.red.approx_eq(r(1576, 1000)));
    assert!(color.green.approx_eq(r(1576, 1000)));
    assert!(color.blue.approx_eq(r(1576, 1000)));
}

#[test]
fn lighting_with_reflection_away_from_eye_has_no_specular_term() {
    let material = ray_tracer::rays::Material::new();
    let position = Tuple::point(ri(0), ri(0), ri(0));
    let normal = Tuple::vector(ri(0), ri(0), ri(-1));
    // the reflection leaves downward and away; the eye looks from above
    let eye = Tuple::vector(ri(0), r(70710678, 100000000), r(70710678, 100000000));
    let light = ray_tracer::rays::PointLight::new(
        Tuple::point(ri(0), ri(10), ri(-10)),
        Color::white(),
    );
    let color = ray_tracer::rays::lighting(material, light, position, eye, normal).unwrap();
    // ambient 0.1 + diffuse 0.6363961 and nothing more
    assert!(color.red.approx_eq(r(7364, 10000)));
    assert!(color.green.approx_eq(r(7364, 10000)));
    assert!(color.blue.approx_eq(r(7364, 10000)));
}

#[test]
fn lighting_with_the_light_on_the_point_gives_no_color() {
    let material = ray_tracer::rays::Material::new();
    let position = Tuple::point(ri(1), ri(2), ri(3));
    let normal = Tuple::vector(ri(0), ri(0), ri(-1));
    let eye = Tuple::vector(ri(0), ri(0), ri(-1));
    let light = ray_tracer::rays::PointLight::new(
        Tuple::point(ri(1), ri(2), ri(3)),
        Color::white(),
    );
    assert!(ray_tracer::rays::lighting(material, light, position, eye, normal).is_none());
}

#[test]
fn degenerate_spheres_contribute_nothing() {
    // an all-zero transform is singular: no intersections, no normal
    let sphere = ray_tracer::rays::Sphere::with_transform(Matrix::new(4));
    let ray = ray_tracer::rays::Ray::new(
        Tuple::point(ri(0), ri(0), ri(-5)),
        Tuple::vector(ri(0), ri(0), ri(1)),
    );
    assert!(ray.intersect(&sphere).is_none());
    assert!(sphere.normal_at(&Tuple::point(ri(0), ri(0), ri(1))).is_none());
}

#[test]
fn reflecting_twice_returns_the_vector() {
    let v = Tuple::vector(ri(3), ri(-2), ri(5));
    let n = Tuple::vector(ri(0), ri(1), ri(0));
    let once = v.reflect(&n).unwrap();
    let twice = once.reflect(&n).unwrap();
    assert!(twice.is_equal(&v));
}
