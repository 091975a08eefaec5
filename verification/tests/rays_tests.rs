use ray_tracer::matrix::Matrix;
use ray_tracer::rat::Rat;
use ray_tracer::rays::hit;
use ray_tracer::rays::lighting;
use ray_tracer::rays::Intersection;
use ray_tracer::rays::Material;
use ray_tracer::rays::PointLight;
use ray_tracer::rays::Ray;
use ray_tracer::rays::Sphere;
use ray_tracer::tuple::Color;
use ray_tracer::tuple::Tuple;

fn r(n: i64, d: i64) -> Rat {
    Rat::new(n, d)
}

fn ri(n: i64) -> Rat {
    Rat::from_int(n)
}

// about 0.70710678
fn half_sqrt2() -> Rat {
    r(70710678, 100000000)
}

#[test]
fn lighting_with_light_behind_surface() {
    let material = Material::new();
    let position = Tuple::point(ri(0), ri(0), ri(0));
    let eye = Tuple::vector(ri(0), ri(0), ri(-1));
    let normal = Tuple::vector(ri(0), ri(0), ri(-1));
    let light = PointLight::new(Tuple::point(ri(0), ri(0), ri(10)), Color::white());
    let color = lighting(material, light, position, eye, normal).unwrap();
    assert!(color.is_equal(&Color::new(r(1, 10), r(1, 10), r(1, 10))));
}

#[test]
fn lighting_with_the_eye_between_the_light_and_surface() {
    let material = Material::new();
    let position = Tuple::point(ri(0), ri(0), ri(0));
    let eye = Tuple::vector(ri(0), ri(0), ri(-1));
    let normal = Tuple::vector(ri(0), ri(0), ri(-1));
    let light = PointLight::new(Tuple::point(ri(0), ri(0), ri(-10)), Color::white());
    let color = lighting(material, light, position, eye, normal).unwrap();
    assert!(color.is_equal(&Color::new(r(19, 10), r(19, 10), r(19, 10))));
}

#[test]
fn sphere_can_have_material_assigned() {
    let mut sphere = Sphere::new();
    let mut material = Material::new();
    material.ambient = r(199, 100);
    sphere.material = material;
    assert_eq!(sphere.material.ambient, r(199, 100));
}

#[test]
fn sphere_has_a_default_material() {
    assert_eq!(Sphere::new().material, Material::new());
}

#[test]
fn material_default_values() {
    let material = Material::new();
    assert_eq!(material.color, Color::black());
    assert_eq!(material.ambient, r(1, 10));
    assert_eq!(material.diffuse, r(9, 10));
    assert_eq!(material.specular, r(9, 10));
    assert_eq!(material.shininess, 200);
}

#[test]
fn point_light_has_position_and_intensity() {
    let intensity = Color::black();
    let position = Tuple::point(ri(0), ri(0), ri(0));
    let light = PointLight::new(position, intensity);
    assert!(light.position.is_equal(&Tuple::point(ri(0), ri(0), ri(0))));
    assert!(light.intensity.is_equal(&Color::black()));
}

#[test]
fn calculate_normal_on_translated_sphere() {
    let transform = Matrix::identity().translate(ri(0), ri(1), ri(0)).unwrap();
    let sphere = Sphere::with_transform(transform);
    let normal = sphere
        .normal_at(&Tuple::point(ri(0), r(170711, 100000), half_sqrt2().neg()))
        .unwrap();
    assert!(normal.y.approx_eq(half_sqrt2()));
    assert!(normal.z.approx_eq(half_sqrt2().neg()));
}

#[test]
fn normal_of_a_sphere_on_nonaxial_point() {
    let sphere = Sphere::new();
    let value = r(57735027, 100000000);
    let normal = sphere.normal_at(&Tuple::point(value, value, value)).unwrap();
    assert!(normal.is_equal(&Tuple::vector(value, value, value)));
}

#[test]
fn normal_of_a_sphere_on_z_axis() {
    let sphere = Sphere::new();
    let normal = sphere.normal_at(&Tuple::point(ri(0), ri(0), ri(1))).unwrap();
    assert!(normal.is_equal(&Tuple::vector(ri(0), ri(0), ri(1))));
}

#[test]
fn normal_of_a_sphere_on_y_axis() {
    let sphere = Sphere::new();
    let normal = sphere.normal_at(&Tuple::point(ri(0), ri(1), ri(0))).unwrap();
    assert!(normal.is_equal(&Tuple::vector(ri(0), ri(1), ri(0))));
}

#[test]
fn normal_of_a_sphere_on_x_axis() {
    let sphere = Sphere::new();
    let normal = sphere.normal_at(&Tuple::point(ri(1), ri(0), ri(0))).unwrap();
    assert!(normal.is_equal(&Tuple::vector(ri(1), ri(0), ri(0))));
}

#[test]
fn intersecting_translated_sphere_with_ray() {
    let ray = Ray::new(Tuple::point(ri(0), ri(0), ri(-5)), Tuple::vector(ri(0), ri(0), ri(1)));
    let transform = Matrix::identity().translate(ri(5), ri(0), ri(0)).unwrap();
    let sphere = Sphere::with_transform(transform);
    assert!(ray.intersect(&sphere).is_none());
}

#[test]
fn intersecting_scaled_sphere_with_ray() {
    let ray = Ray::new(Tuple::point(ri(0), ri(0), ri(-5)), Tuple::vector(ri(0), ri(0), ri(1)));
    let transform = Matrix::identity().scale(ri(2), ri(2), ri(2)).unwrap();
    let sphere = Sphere::with_transform(transform);
    let intersections = ray.intersect(&sphere).unwrap();
    assert!(intersections[0].time.approx_eq(ri(3)));
    assert!(intersections[1].time.approx_eq(ri(7)));
}

#[test]
fn new_sphere_has_default_transform_and_can_be_changed() {
    let mut sphere = Sphere::new();
    assert_eq!(sphere.transform, Matrix::identity());
    sphere.transform = Matrix::identity().translate(ri(2), ri(0), ri(1)).unwrap();
    assert_eq!(sphere.transform, Matrix::identity().translate(ri(2), ri(0), ri(1)).unwrap());
}

#[test]
fn new_sphere_returns_unique_value() {
    let one = Sphere::new();
    let two = Sphere::new();
    assert_ne!(one, two);
}

#[test]
fn scaling_a_ray() {
    let ray = Ray::new(Tuple::point(ri(1), ri(2), ri(3)), Tuple::vector(ri(0), ri(1), ri(0)));
    let scaling = Matrix::identity().scale(ri(2), ri(3), ri(4)).unwrap();
    let new_ray = ray.transform(&scaling).unwrap();
    assert!(new_ray.origin.is_equal(&Tuple::point(ri(2), ri(6), ri(12))));
    assert!(new_ray.direction.is_equal(&Tuple::vector(ri(0), ri(3), ri(0))));
}

#[test]
fn translating_a_ray() {
    let ray = Ray::new(Tuple::point(ri(1), ri(2), ri(3)), Tuple::vector(ri(0), ri(1), ri(0)));
    let translation = Matrix::identity().translate(ri(3), ri(4), ri(5)).unwrap();
    let new_ray = ray.transform(&translation).unwrap();
    assert!(new_ray.origin.is_equal(&Tuple::point(ri(4), ri(6), ri(8))));
    assert!(new_ray.direction.is_equal(&Tuple::vector(ri(0), ri(1), ri(0))));
}

#[test]
fn hit_is_always_lowest_nonnegative_intersection() {
    let sphere = Sphere::new();
    let i1 = Intersection::new(ri(5), &sphere);
    let i2 = Intersection::new(ri(7), &sphere);
    let i3 = Intersection::new(ri(-3), &sphere);
    let i4 = Intersection::new(ri(2), &sphere);
    let intersections = vec![i2, i1, i3, i4];
    assert_eq!(hit(&intersections).unwrap(), &Intersection::new(ri(2), &sphere));
}

#[test]
fn hit_when_all_intersections_have_negative_times() {
    let sphere = Sphere::new();
    let i1 = Intersection::new(ri(-2), &sphere);
    let i2 = Intersection::new(ri(-1), &sphere);
    let intersections = vec![i2, i1];
    assert_eq!(hit(&intersections), None);
}

#[test]
fn hit_when_some_intersections_have_negative_times() {
    let sphere = Sphere::new();
    let i1 = Intersection::new(ri(-1), &sphere);
    let i2 = Intersection::new(ri(1), &sphere);
    let intersections = vec![i2, i1];
    assert_eq!(hit(&intersections).unwrap(), &Intersection::new(ri(1), &sphere));
}

#[test]
fn hit_when_all_intersections_have_positive_times() {
    let sphere = Sphere::new();
    let i1 = Intersection::new(ri(1), &sphere);
    let i2 = Intersection::new(ri(2), &sphere);
    let intersections = vec![i2, i1];
    assert_eq!(hit(&intersections).unwrap(), &Intersection::new(ri(1), &sphere));
}

#[test]
fn new_intersection() {
    let sphere = Sphere::new();
    let intersection = Intersection::new(r(35, 10), &sphere);
    assert_eq!(intersection.time, r(35, 10));
    assert_eq!(intersection.object, &sphere);
}

#[test]
fn rays_have_negative_units_when_origin_is_in_front_of_sphere() {
    let ray = Ray::new(Tuple::point(ri(0), ri(0), ri(5)), Tuple::vector(ri(0), ri(0), ri(1)));
    let sphere = Sphere::new();
    let ints = ray.intersect(&sphere).unwrap();
    assert!(ints[0].time.approx_eq(ri(-6)));
    assert_eq!(ints[0].object, &sphere);
    assert!(ints[1].time.approx_eq(ri(-4)));
    assert_eq!(ints[1].object, &sphere);
}

#[test]
fn rays_inside_spheres_have_a_negative_unit() {
    let ray = Ray::new(Tuple::point(ri(0), ri(0), ri(0)), Tuple::vector(ri(0), ri(0), ri(1)));
    let sphere = Sphere::new();
    let ints = ray.intersect(&sphere).unwrap();
    assert!(ints[0].time.approx_eq(ri(-1)));
    assert!(ints[1].time.approx_eq(ri(1)));
}

#[test]
fn intersect_returns_none_when_there_is_no_intersection() {
    let ray = Ray::new(Tuple::point(ri(0), ri(2), ri(-5)), Tuple::vector(ri(0), ri(0), ri(1)));
    let sphere = Sphere::new();
    assert!(ray.intersect(&sphere).is_none());
}

#[test]
fn intersect_units_are_equal_on_tangents() {
    let ray = Ray::new(Tuple::point(ri(0), ri(1), ri(-5)), Tuple::vector(ri(0), ri(0), ri(1)));
    let sphere = Sphere::new();
    let ints = ray.intersect(&sphere).unwrap();
    assert!(ints[0].time.approx_eq(ri(5)));
    assert!(ints[1].time.approx_eq(ri(5)));
}

#[test]
fn rays_intersect_spheres_at_two_time_units() {
    let ray = Ray::new(Tuple::point(ri(0), ri(0), ri(-5)), Tuple::vector(ri(0), ri(0), ri(1)));
    let sphere = Sphere::new();
    let ints = ray.intersect(&sphere).unwrap();
    assert!(ints[0].time.approx_eq(ri(4)));
    assert!(ints[1].time.approx_eq(ri(6)));
}

#[test]
fn calculate_point_of_ray_from_distance() {
    let ray = Ray::new(Tuple::point(ri(2), ri(3), ri(4)), Tuple::vector(ri(1), ri(0), ri(0)));
    assert!(ray.position(ri(0)).unwrap().is_equal(&Tuple::point(ri(2), ri(3), ri(4))));
    assert!(ray.position(ri(1)).unwrap().is_equal(&Tuple::point(ri(3), ri(3), ri(4))));
    assert!(ray.position(ri(-1)).unwrap().is_equal(&Tuple::point(ri(1), ri(3), ri(4))));
    assert!(ray.position(r(25, 10)).unwrap().is_equal(&Tuple::point(r(45, 10), ri(3), ri(4))));
}

#[test]
fn creating_a_ray() {
    let ray = Ray::new(Tuple::point(ri(1), ri(2), ri(3)), Tuple::vector(ri(4), ri(5), ri(6)));
    assert_eq!(ray.origin.x, ri(1));
    assert_eq!(ray.direction.x, ri(4));
}
