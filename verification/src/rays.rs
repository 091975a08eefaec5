//! Rays, spheres, intersections and the Phong lighting model.
//!
//! All geometry is the canonical unit sphere at the origin; world
//! placement comes from each sphere's transform, and rays are carried
//! into object space by the transform's inverse.

use crate::matrix::det_spec;
use crate::matrix::identity_spec;
use crate::matrix::mat_tuple_mul_spec;
use crate::matrix::transpose_spec;
use crate::matrix::MatV;
use crate::matrix::Matrix;
use crate::rat::lemma_add_eq_chain;
use crate::rat::lemma_div_eq_chain;
use crate::rat::lemma_eq_zero;
use crate::rat::lemma_mul_eq_chain;
use crate::rat::lemma_ratio_eq_trans;
use crate::rat::lemma_ratio_ops_wf;
use crate::rat::lemma_sub_eq_chain;
use crate::rat::ratio_add;
use crate::rat::ratio_div;
use crate::rat::ratio_eq;
use crate::rat::ratio_int;
use crate::rat::ratio_le;
use crate::rat::ratio_lt;
use crate::rat::ratio_mul;
use crate::rat::ratio_neg;
use crate::rat::ratio_pow;
use crate::rat::ratio_sub;
use crate::rat::ratio_wf;
use crate::rat::sqrt_approx_of;
use crate::rat::Rat;
use crate::rat::Ratio;
use crate::tuple::c3_add;
use crate::tuple::c3_wf;
use crate::tuple::c3_eq;
use crate::tuple::c3_int;
use crate::tuple::c3_scale;
use crate::tuple::v4_div;
use crate::tuple::v4_dot;
use crate::tuple::v4_eq;
use crate::tuple::v4_neg;
use crate::tuple::v4_reflect;
use crate::tuple::v4_scale;
use crate::tuple::v4_sub;
use crate::tuple::v4_wf;
use crate::tuple::v4_add;
use crate::tuple::v4_is_zero;
use crate::tuple::try_v4_add;
use crate::tuple::try_v4_dot;
use crate::tuple::try_v4_normalize;
use crate::tuple::try_v4_reflect;
use crate::tuple::try_v4_scale;
use crate::tuple::try_v4_sub;
use crate::tuple::try_c3_add;
use crate::tuple::try_c3_scale;
use crate::matrix::inverse_ok;
use crate::matrix::inverse_val;
use crate::matrix::try_mat_tuple;
use crate::rat::sqrt_val;
use crate::rat::try_add;
use crate::rat::try_div;
use crate::rat::try_mul;
use crate::rat::try_pow;
use crate::rat::try_sub;
use crate::tuple::Color;
use crate::tuple::Tuple;
use crate::tuple::C3;
use crate::tuple::V4;
use vstd::prelude::*;

verus! {

/// The model of a ray: origin and direction as rational 4-tuples.
pub ghost struct RayV {
    pub origin: V4,
    pub direction: V4,
}

/// The origin of object space, the center of the canonical unit sphere.
pub open spec fn origin_point() -> V4 {
    V4 { x: ratio_int(0), y: ratio_int(0), z: ratio_int(0), w: ratio_int(1) }
}

/// The exact computations with their failure points, mirroring the
/// executable functions step for step: each contract reports `None`
/// exactly when its mirror does.
pub open spec fn try_position(r: RayV, t: Ratio) -> Option<V4> {
    match try_v4_scale(r.direction, t) {
        None => None,
        Some(sc) => try_v4_add(sc, r.origin),
    }
}

pub open spec fn try_ray_transform(r: RayV, m: MatV) -> Option<RayV> {
    match try_mat_tuple(m, r.origin) {
        None => None,
        Some(o) => match try_mat_tuple(m, r.direction) {
            None => None,
            Some(d) => Some(RayV { origin: o, direction: d }),
        },
    }
}

/// The intersection computation: the sphere's transform must be
/// invertible, the direction must not be degenerate, the discriminant
/// must be nonnegative, and every intermediate scalar representable.
pub open spec fn try_intersect(r: RayV, m: MatV) -> Option<(Ratio, Ratio)> {
    if !inverse_ok(m) {
        None
    } else {
        match try_ray_transform(r, inverse_val(m)) {
            None => None,
            Some(osr) => match try_v4_sub(osr.origin, origin_point()) {
                None => None,
                Some(oc) => match try_v4_dot(osr.direction, osr.direction) {
                    None => None,
                    Some(a) => if a.n == 0 {
                        None
                    } else {
                        match try_v4_dot(osr.direction, oc) {
                            None => None,
                            Some(doc) => match try_mul(ratio_int(2), doc) {
                                None => None,
                                Some(b) => match try_v4_dot(oc, oc) {
                                    None => None,
                                    Some(dcc) => match try_sub(dcc, ratio_int(1)) {
                                        None => None,
                                        Some(c) => match try_mul(b, b) {
                                            None => None,
                                            Some(bsq) => match try_mul(ratio_int(4), a) {
                                                None => None,
                                                Some(fa) => match try_mul(fa, c) {
                                                    None => None,
                                                    Some(fac) => match try_sub(bsq, fac) {
                                                        None => None,
                                                        Some(disc) => try_intersect_roots(a, b, disc),
                                                    },
                                                },
                                            },
                                        },
                                    },
                                },
                            },
                        }
                    },
                },
            },
        }
    }
}

/// The two roots of the intersection equation, once the coefficients and
/// the discriminant are at hand.
pub open spec fn try_intersect_roots(a: Ratio, b: Ratio, disc: Ratio) -> Option<(Ratio, Ratio)> {
    if disc.n < 0 {
        None
    } else {
        match try_mul(ratio_int(2), a) {
            None => None,
            Some(ta) => match try_sub(Ratio { n: -b.n, d: b.d }, sqrt_val(disc)) {
                None => None,
                Some(t1n) => match try_div(t1n, ta) {
                    None => None,
                    Some(t1) => match try_add(Ratio { n: -b.n, d: b.d }, sqrt_val(disc)) {
                        None => None,
                        Some(t2n) => match try_div(t2n, ta) {
                            None => None,
                            Some(t2) => Some((t1, t2)),
                        },
                    },
                },
            },
        }
    }
}

/// A ray from an origin point along a direction vector.
#[derive(Debug, Clone, Copy, PartialEq, Eq, Structural)]
pub struct Ray {
    pub origin: Tuple,
    pub direction: Tuple,
}

impl View for Ray {
    type V = RayV;

    open spec fn view(&self) -> RayV {
        RayV { origin: self.origin@, direction: self.direction@ }
    }
}

impl Ray {
    pub open spec fn wf(self) -> bool {
        self.origin.wf() && self.direction.wf()
    }

    pub fn new(origin: Tuple, direction: Tuple) -> (r: Ray)
        requires
            origin.wf(),
            direction.wf(),
        ensures
            r.wf(),
            r.origin == origin,
            r.direction == direction,
    {
        Ray { origin, direction }
    }

    /// The point on the ray at parameter `time`: `origin + direction * time`.
    pub fn position(&self, time: Rat) -> (r: Option<Tuple>)
        requires
            self.wf(),
            time.wf(),
        ensures
            ({
                match r {
                    Some(p) => p.wf() && v4_eq(
                        p@,
                        v4_add(v4_scale(self@.direction, time@), self@.origin),
                    ) && Some(p@) == try_position(self@, time@),
                    None => try_position(self@, time@) is None,
                }
            }),
    {
        let scaled = match self.direction.scale(time) {
            Some(v) => v,
            None => {
                return None;
            },
        };
        let p = match scaled.add(self.origin) {
            Some(v) => v,
            None => {
                return None;
            },
        };
        proof {
            let sx = v4_scale(self@.direction, time@);
            lemma_ratio_ops_wf(self@.direction.x, time@);
            lemma_ratio_ops_wf(self@.direction.y, time@);
            lemma_ratio_ops_wf(self@.direction.z, time@);
            lemma_ratio_ops_wf(self@.direction.w, time@);
            lemma_add_eq_chain(p@.x, scaled@.x, self@.origin.x, sx.x, self@.origin.x);
            lemma_add_eq_chain(p@.y, scaled@.y, self@.origin.y, sx.y, self@.origin.y);
            lemma_add_eq_chain(p@.z, scaled@.z, self@.origin.z, sx.z, self@.origin.z);
            lemma_add_eq_chain(p@.w, scaled@.w, self@.origin.w, sx.w, self@.origin.w);
        }
        Some(p)
    }

    /// The ray carried through a 4-by-4 transform: both the origin and
    /// the direction are multiplied by the matrix.
    pub fn transform(&self, transformation: &Matrix) -> (r: Option<Ray>)
        requires
            self.wf(),
            transformation.wf(),
            transformation.rows@.len() == 4,
        ensures
            ({
                match r {
                    Some(nr) => {
                        &&& nr.wf()
                        &&& v4_eq(nr@.origin, mat_tuple_mul_spec(transformation@, self@.origin))
                        &&& v4_eq(
                            nr@.direction,
                            mat_tuple_mul_spec(transformation@, self@.direction),
                        )
                        &&& Some(nr@) == try_ray_transform(self@, transformation@)
                    },
                    None => try_ray_transform(self@, transformation@) is None,
                }
            }),
    {
        let origin = match transformation.mul_tuple(&self.origin) {
            Some(v) => v,
            None => {
                return None;
            },
        };
        let direction = match transformation.mul_tuple(&self.direction) {
            Some(v) => v,
            None => {
                return None;
            },
        };
        Some(Ray { origin, direction })
    }
}

/// The surface properties of the Phong model. The default material is
/// black with ambient 1/10, diffuse 9/10, specular 9/10, shininess 200.
#[derive(Debug, Clone, Copy, PartialEq, Eq, Structural)]
pub struct Material {
    pub color: Color,
    pub ambient: Rat,
    pub diffuse: Rat,
    pub specular: Rat,
    pub shininess: u32,
}

/// The default material: black, ambient 1/10, diffuse 9/10, specular
/// 9/10, shininess 200.
pub open spec fn default_material(m: Material) -> bool {
    &&& m.color@ == c3_int(0, 0, 0)
    &&& m.ambient@ == (Ratio { n: 1, d: 10 })
    &&& m.diffuse@ == (Ratio { n: 9, d: 10 })
    &&& m.specular@ == (Ratio { n: 9, d: 10 })
    &&& m.shininess == 200
}

impl Material {
    pub open spec fn wf(self) -> bool {
        self.color.wf() && self.ambient.wf() && self.diffuse.wf() && self.specular.wf()
    }

    pub fn new() -> (r: Material)
        ensures
            r.wf(),
            default_material(r),
    {
        Material {
            color: Color::black(),
            ambient: Rat::new(1, 10),
            diffuse: Rat::new(9, 10),
            specular: Rat::new(9, 10),
            shininess: 200,
        }
    }
}

/// Relies on rand::random: a fresh pseudo-random identifier for a new
/// sphere; nothing is assumed about its value.
#[verifier::external_body]
fn random_id() -> u64 {
    rand::random()
}

/// A sphere: canonical unit geometry, placed in the world by its
/// transform. Each sphere carries a distinct random identifier, so two
/// spheres with equal transform and material are still distinct objects.
#[derive(Debug, Clone, PartialEq)]
pub struct Sphere {
    pub id: u64,
    pub transform: Matrix,
    pub material: Material,
}

impl Sphere {
    pub open spec fn wf(self) -> bool {
        self.transform.wf() && self.transform.rows@.len() == 4 && self.material.wf()
    }

    /// A unit sphere with the identity transform.
    pub fn new() -> (r: Sphere)
        ensures
            r.wf(),
            r.transform@ == identity_spec(4),
            default_material(r.material),
    {
        Sphere::with_transform(Matrix::identity())
    }

    /// A unit sphere placed by the given transform.
    pub fn with_transform(transform: Matrix) -> (r: Sphere)
        requires
            transform.wf(),
            transform.rows@.len() == 4,
        ensures
            r.wf(),
            r.transform == transform,
            default_material(r.material),
    {
        Sphere { id: random_id(), material: Material::new(), transform }
    }
}

/// A ray parameter where a sphere was met, with the sphere it was met on.
#[derive(Debug, Clone, Copy, PartialEq)]
pub struct Intersection<'a> {
    pub time: Rat,
    pub object: &'a Sphere,
}

impl<'a> Intersection<'a> {
    pub fn new(time: Rat, object: &'a Sphere) -> (r: Intersection<'a>)
        ensures
            r.time == time,
            r.object == object,
    {
        Intersection { time, object }
    }
}

/// The hit among a collection of intersections: the first intersection
/// with the smallest nonnegative time. Negative times lie behind the
/// ray's origin and are ignored; if every time is negative there is no
/// hit.
pub fn hit<'a>(intersections: &'a Vec<Intersection<'a>>) -> (r: Option<&'a Intersection<'a>>)
    requires
        forall|k: int|
            0 <= k < intersections@.len() ==> (#[trigger] intersections@[k]).time.wf(),
    ensures
        ({
            match r {
                Some(i) => {
                    &&& exists|k: int|
                        {
                            &&& 0 <= k < intersections@.len()
                            &&& *i == intersections@[k]
                            &&& forall|j: int|
                                0 <= j < k ==> ((#[trigger] intersections@[j]).time@.n < 0
                                    || ratio_lt(i.time@, intersections@[j].time@))
                        }
                    &&& i.time@.n >= 0
                    &&& forall|j: int|
                        0 <= j < intersections@.len() && (#[trigger] intersections@[j]).time@.n
                            >= 0 ==> ratio_le(i.time@, intersections@[j].time@)
                },
                None => forall|j: int|
                    0 <= j < intersections@.len() ==> (#[trigger] intersections@[j]).time@.n < 0,
            }
        }),
{
    let n = intersections.len();
    let mut best: usize = n;
    let mut idx: usize = 0;
    while idx < n
        invariant
            n == intersections@.len(),
            idx <= n,
            best <= n,
            forall|k: int|
                0 <= k < intersections@.len() ==> (#[trigger] intersections@[k]).time.wf(),
            best == n ==> forall|j: int|
                0 <= j < idx ==> (#[trigger] intersections@[j]).time@.n < 0,
            best < n ==> {
                &&& (best as int) < (idx as int)
                &&& intersections@[best as int].time@.n >= 0
                &&& forall|j: int|
                    0 <= j < idx && (#[trigger] intersections@[j]).time@.n >= 0 ==> ratio_le(
                        intersections@[best as int].time@,
                        intersections@[j].time@,
                    )
                &&& forall|j: int|
                    0 <= j < best ==> ((#[trigger] intersections@[j]).time@.n < 0 || ratio_lt(
                        intersections@[best as int].time@,
                        intersections@[j].time@,
                    ))
            },
        decreases n - idx,
    {
        let t = intersections[idx].time;
        if t.num >= 0 {
            if best == n {
                best = idx;
            } else {
                if t.lt(intersections[best].time) {
                    proof {
                        let ob = best as int;
                        assert forall|j: int|
                            0 <= j < idx && (#[trigger] intersections@[j]).time@.n
                                >= 0 implies ratio_le(t@, intersections@[j].time@) by {
                            crate::rat::lemma_order_trans(
                                t@,
                                intersections@[ob].time@,
                                intersections@[j].time@,
                            );
                        }
                        assert forall|j: int| 0 <= j < idx implies ((
                        #[trigger] intersections@[j]).time@.n < 0 || ratio_lt(
                            t@,
                            intersections@[j].time@,
                        )) by {
                            if intersections@[j].time@.n >= 0 {
                                crate::rat::lemma_order_trans(
                                    t@,
                                    intersections@[ob].time@,
                                    intersections@[j].time@,
                                );
                            }
                        }
                    }
                    best = idx;
                }
            }
        }
        idx = idx + 1;
    }
    if best < n {
        Some(&intersections[best])
    } else {
        None
    }
}

/// The ray carried into a sphere's object space by the inverse of the
/// sphere's transform.
pub open spec fn object_ray(r: RayV, m: MatV) -> RayV {
    RayV {
        origin: mat_tuple_mul_spec(crate::matrix::inverse_spec(m), r.origin),
        direction: mat_tuple_mul_spec(crate::matrix::inverse_spec(m), r.direction),
    }
}

/// The object-space vector from the sphere's center to the ray's origin.
pub open spec fn center_offset(r: RayV, m: MatV) -> V4 {
    v4_sub(object_ray(r, m).origin, origin_point())
}

/// The quadratic coefficients of the unit-sphere intersection equation
/// for the object-space ray: `a t^2 + b t + c = 0`.
pub open spec fn quad_a(r: RayV, m: MatV) -> Ratio {
    v4_dot(object_ray(r, m).direction, object_ray(r, m).direction)
}

pub open spec fn quad_b(r: RayV, m: MatV) -> Ratio {
    ratio_mul(ratio_int(2), v4_dot(object_ray(r, m).direction, center_offset(r, m)))
}

pub open spec fn quad_c(r: RayV, m: MatV) -> Ratio {
    ratio_sub(v4_dot(center_offset(r, m), center_offset(r, m)), ratio_int(1))
}

/// The discriminant `b^2 - 4 a c` of the intersection equation.
pub open spec fn discriminant_spec(r: RayV, m: MatV) -> Ratio {
    ratio_sub(
        ratio_mul(quad_b(r, m), quad_b(r, m)),
        ratio_mul(ratio_mul(ratio_int(4), quad_a(r, m)), quad_c(r, m)),
    )
}

/// The quadratic data of the intersection equation is well formed when
/// the transform is invertible.
pub proof fn lemma_quad_wf(r: RayV, m: MatV)
    requires
        v4_wf(r.origin),
        v4_wf(r.direction),
        crate::matrix::mat_wf(m),
        m.len() == 4,
        det_spec(m).n != 0,
    ensures
        v4_wf(object_ray(r, m).origin),
        v4_wf(object_ray(r, m).direction),
        v4_wf(center_offset(r, m)),
        ratio_wf(quad_a(r, m)),
        ratio_wf(quad_b(r, m)),
        ratio_wf(quad_c(r, m)),
        ratio_wf(discriminant_spec(r, m)),
{
    crate::matrix::lemma_inverse_spec_wf(m);
    let inv = crate::matrix::inverse_spec(m);
    crate::matrix::lemma_mat_tuple_mul_wf(inv, r.origin);
    crate::matrix::lemma_mat_tuple_mul_wf(inv, r.direction);
    let oo = object_ray(r, m).origin;
    let od = object_ray(r, m).direction;
    lemma_ratio_ops_wf(oo.x, origin_point().x);
    lemma_ratio_ops_wf(oo.y, origin_point().y);
    lemma_ratio_ops_wf(oo.z, origin_point().z);
    lemma_ratio_ops_wf(oo.w, origin_point().w);
    let co = center_offset(r, m);
    crate::tuple::lemma_v4_dot_wf(od, od);
    crate::tuple::lemma_v4_dot_wf(od, co);
    crate::tuple::lemma_v4_dot_wf(co, co);
    lemma_ratio_ops_wf(ratio_int(2), v4_dot(od, co));
    lemma_ratio_ops_wf(v4_dot(co, co), ratio_int(1));
    lemma_ratio_ops_wf(quad_b(r, m), quad_b(r, m));
    lemma_ratio_ops_wf(ratio_int(4), quad_a(r, m));
    lemma_ratio_ops_wf(ratio_mul(ratio_int(4), quad_a(r, m)), quad_c(r, m));
    lemma_ratio_ops_wf(
        ratio_mul(quad_b(r, m), quad_b(r, m)),
        ratio_mul(ratio_mul(ratio_int(4), quad_a(r, m)), quad_c(r, m)),
    );
}

impl Ray {
    /// Intersects this ray with a sphere. The ray is carried into object
    /// space by the inverse of the sphere's transform; a non-invertible
    /// transform, a zero direction vector, or a negative discriminant
    /// yields no intersections, and otherwise the two roots of the
    /// quadratic come back smaller first (a tangent ray repeats one root
    /// twice). The square root of the discriminant is the bracketed
    /// rational approximation.
    pub fn intersect<'a>(&self, sphere: &'a Sphere) -> (r: Option<Vec<Intersection<'a>>>)
        requires
            self.wf(),
            sphere.wf(),
        ensures
            ({
                let m = sphere.transform@;
                match r {
                    Some(v) => {
                        &&& v@.len() == 2
                        &&& v@[0].object == sphere
                        &&& v@[1].object == sphere
                        &&& v@[0].time.wf()
                        &&& v@[1].time.wf()
                        &&& det_spec(m).n != 0
                        &&& quad_a(self@, m).n != 0
                        &&& ratio_le(ratio_int(0), discriminant_spec(self@, m))
                        &&& exists|s: int, mm: int|
                            {
                                &&& sqrt_approx_of(discriminant_spec(self@, m), s, mm)
                                &&& ratio_eq(
                                    v@[0].time@,
                                    ratio_div(
                                        ratio_sub(ratio_neg(quad_b(self@, m)), Ratio { n: s, d: mm }),
                                        ratio_mul(ratio_int(2), quad_a(self@, m)),
                                    ),
                                )
                                &&& ratio_eq(
                                    v@[1].time@,
                                    ratio_div(
                                        ratio_add(ratio_neg(quad_b(self@, m)), Ratio { n: s, d: mm }),
                                        ratio_mul(ratio_int(2), quad_a(self@, m)),
                                    ),
                                )
                            }
                        &&& try_intersect(self@, m) == Some((v@[0].time@, v@[1].time@))
                    },
                    None => try_intersect(self@, m) is None,
                }
            }),
            det_spec(sphere.transform@).n == 0 ==> r is None,
    {
        let inv = match sphere.transform.inverse() {
            Some(v) => v,
            None => {
                return None;
            },
        };
        proof {
            assert(crate::matrix::mat_eq(inv@, crate::matrix::inverse_spec(sphere.transform@)));
            crate::matrix::lemma_inverse_spec_wf(sphere.transform@);
            lemma_quad_wf(self@, sphere.transform@);
        }
        let object_space_ray = match self.transform(&inv) {
            Some(v) => v,
            None => {
                return None;
            },
        };
        proof {
            let mv = sphere.transform@;
            let invs = crate::matrix::inverse_spec(mv);
            crate::matrix::lemma_mat_tuple_mul_wf(inv@, self@.origin);
            crate::matrix::lemma_mat_tuple_mul_wf(inv@, self@.direction);
            crate::matrix::lemma_mat_tuple_mul_congruence(inv@, invs, self@.origin, self@.origin);
            crate::matrix::lemma_mat_tuple_mul_congruence(
                inv@,
                invs,
                self@.direction,
                self@.direction,
            );
            crate::tuple::lemma_v4_eq_trans(
                object_space_ray@.origin,
                mat_tuple_mul_spec(inv@, self@.origin),
                object_ray(self@, mv).origin,
            );
            crate::tuple::lemma_v4_eq_trans(
                object_space_ray@.direction,
                mat_tuple_mul_spec(inv@, self@.direction),
                object_ray(self@, mv).direction,
            );
        }
        let center = Tuple::point(Rat::zero(), Rat::zero(), Rat::zero());
        let oc = match object_space_ray.origin.sub(center) {
            Some(v) => v,
            None => {
                return None;
            },
        };
        proof {
            let mv = sphere.transform@;
            let oo = object_ray(self@, mv).origin;
            assert(center@ =~= origin_point());
            lemma_sub_eq_chain(
                oc@.x,
                object_space_ray@.origin.x,
                center@.x,
                oo.x,
                origin_point().x,
            );
            lemma_sub_eq_chain(
                oc@.y,
                object_space_ray@.origin.y,
                center@.y,
                oo.y,
                origin_point().y,
            );
            lemma_sub_eq_chain(
                oc@.z,
                object_space_ray@.origin.z,
                center@.z,
                oo.z,
                origin_point().z,
            );
            lemma_sub_eq_chain(
                oc@.w,
                object_space_ray@.origin.w,
                center@.w,
                oo.w,
                origin_point().w,
            );
        }
        let a = match object_space_ray.direction.dot(&object_space_ray.direction) {
            Some(v) => v,
            None => {
                return None;
            },
        };
        if a.num == 0 {
            return None;
        }
        let dot_oc = match object_space_ray.direction.dot(&oc) {
            Some(v) => v,
            None => {
                return None;
            },
        };
        let b = match Rat::from_int(2).mul(dot_oc) {
            Some(v) => v,
            None => {
                return None;
            },
        };
        let dot_cc = match oc.dot(&oc) {
            Some(v) => v,
            None => {
                return None;
            },
        };
        let c = match dot_cc.sub(Rat::one()) {
            Some(v) => v,
            None => {
                return None;
            },
        };
        proof {
            let mv = sphere.transform@;
            let od = object_ray(self@, mv).direction;
            let co = center_offset(self@, mv);
            crate::tuple::lemma_dot_congruence(
                object_space_ray@.direction,
                object_space_ray@.direction,
                od,
                od,
            );
            crate::tuple::lemma_v4_dot_wf(object_space_ray@.direction, object_space_ray@.direction);
            lemma_ratio_eq_trans(
                a@,
                v4_dot(object_space_ray@.direction, object_space_ray@.direction),
                quad_a(self@, mv),
            );
            crate::tuple::lemma_dot_congruence(object_space_ray@.direction, oc@, od, co);
            crate::tuple::lemma_v4_dot_wf(object_space_ray@.direction, oc@);
            crate::tuple::lemma_v4_dot_wf(od, co);
            lemma_ratio_eq_trans(
                dot_oc@,
                v4_dot(object_space_ray@.direction, oc@),
                v4_dot(od, co),
            );
            lemma_mul_eq_chain(b@, ratio_int(2), dot_oc@, ratio_int(2), v4_dot(od, co));
            crate::tuple::lemma_dot_congruence(oc@, oc@, co, co);
            crate::tuple::lemma_v4_dot_wf(oc@, oc@);
            crate::tuple::lemma_v4_dot_wf(co, co);
            lemma_ratio_eq_trans(dot_cc@, v4_dot(oc@, oc@), v4_dot(co, co));
            lemma_sub_eq_chain(c@, dot_cc@, ratio_int(1), v4_dot(co, co), ratio_int(1));
            lemma_eq_zero(a@, quad_a(self@, mv));
        }
        let b_sq = match b.mul(b) {
            Some(v) => v,
            None => {
                return None;
            },
        };
        let four_a = match Rat::from_int(4).mul(a) {
            Some(v) => v,
            None => {
                return None;
            },
        };
        let four_ac = match four_a.mul(c) {
            Some(v) => v,
            None => {
                return None;
            },
        };
        let discriminant = match b_sq.sub(four_ac) {
            Some(v) => v,
            None => {
                return None;
            },
        };
        proof {
            let mv = sphere.transform@;
            let qa = quad_a(self@, mv);
            let qb = quad_b(self@, mv);
            let qc = quad_c(self@, mv);
            lemma_mul_eq_chain(b_sq@, b@, b@, qb, qb);
            lemma_mul_eq_chain(four_a@, ratio_int(4), a@, ratio_int(4), qa);
            lemma_ratio_ops_wf(ratio_int(4), qa);
            lemma_mul_eq_chain(four_ac@, four_a@, c@, ratio_mul(ratio_int(4), qa), qc);
            lemma_ratio_ops_wf(qb, qb);
            lemma_ratio_ops_wf(ratio_mul(ratio_int(4), qa), qc);
            lemma_sub_eq_chain(
                discriminant@,
                b_sq@,
                four_ac@,
                ratio_mul(qb, qb),
                ratio_mul(ratio_mul(ratio_int(4), qa), qc),
            );
        }
        if discriminant.num < 0 {
            return None;
        }
        proof {
            crate::rat::lemma_order_congruence(
                ratio_int(0),
                discriminant@,
                ratio_int(0),
                discriminant_spec(self@, sphere.transform@),
            );
        }
        let root = match discriminant.sqrt() {
            Some(v) => v,
            None => {
                return None;
            },
        };
        let two_a = match Rat::from_int(2).mul(a) {
            Some(v) => v,
            None => {
                return None;
            },
        };
        proof {
            let mv = sphere.transform@;
            let qa = quad_a(self@, mv);
            lemma_mul_eq_chain(two_a@, ratio_int(2), a@, ratio_int(2), qa);
            lemma_ratio_ops_wf(ratio_int(2), qa);
            assert(ratio_mul(ratio_int(2), qa).n != 0) by (nonlinear_arith)
                requires
                    qa.n != 0 && ratio_mul(ratio_int(2), qa).n == 2 * qa.n,
            {
            }
            lemma_eq_zero(two_a@, ratio_mul(ratio_int(2), qa));
        }
        let neg_b = b.neg();
        let t1_num = match neg_b.sub(root) {
            Some(v) => v,
            None => {
                return None;
            },
        };
        let t1 = match t1_num.div(two_a) {
            Some(v) => v,
            None => {
                return None;
            },
        };
        let t2_num = match neg_b.add(root) {
            Some(v) => v,
            None => {
                return None;
            },
        };
        let t2 = match t2_num.div(two_a) {
            Some(v) => v,
            None => {
                return None;
            },
        };
        let mut hits: Vec<Intersection<'a>> = Vec::new();
        hits.push(Intersection { time: t1, object: sphere });
        hits.push(Intersection { time: t2, object: sphere });
        proof {
            let mv = sphere.transform@;
            let qa = quad_a(self@, mv);
            let qb = quad_b(self@, mv);
            let ds = discriminant_spec(self@, mv);
            let (s, mm) = choose|s: int, mm: int|
                sqrt_approx_of(discriminant@, s, mm) && ratio_eq(root@, Ratio { n: s, d: mm }) && (
                discriminant@.n > 0 ==> s >= 1000000000);
            crate::rat::lemma_sqrt_approx_congruence(discriminant@, ds, s, mm);
            let sv = Ratio { n: s, d: mm };
            crate::rat::lemma_neg_congruence(b@, qb);
            lemma_sub_eq_chain(t1_num@, neg_b@, root@, ratio_neg(qb), sv);
            lemma_add_eq_chain(t2_num@, neg_b@, root@, ratio_neg(qb), sv);
            lemma_ratio_ops_wf(ratio_neg(qb), sv);
            lemma_div_eq_chain(
                t1@,
                t1_num@,
                two_a@,
                ratio_sub(ratio_neg(qb), sv),
                ratio_mul(ratio_int(2), qa),
            );
            lemma_div_eq_chain(
                t2@,
                t2_num@,
                two_a@,
                ratio_add(ratio_neg(qb), sv),
                ratio_mul(ratio_int(2), qa),
            );
            assert(sqrt_approx_of(ds, s, mm) && ratio_eq(
                hits@[0].time@,
                ratio_div(ratio_sub(ratio_neg(qb), sv), ratio_mul(ratio_int(2), qa)),
            ) && ratio_eq(
                hits@[1].time@,
                ratio_div(ratio_add(ratio_neg(qb), sv), ratio_mul(ratio_int(2), qa)),
            ));
        }
        Some(hits)
    }
}

/// The unnormalized world-space surface normal of the unit sphere at a
/// world point: the point is carried into object space, the center is
/// subtracted, the result is carried back by the transpose of the
/// inverse, and `w` is forced to zero.
pub open spec fn normal_pre(m: MatV, p: V4) -> V4 {
    let op = mat_tuple_mul_spec(crate::matrix::inverse_spec(m), p);
    let onorm = v4_sub(op, origin_point());
    let wn = mat_tuple_mul_spec(transpose_spec(crate::matrix::inverse_spec(m)), onorm);
    V4 { x: wn.x, y: wn.y, z: wn.z, w: ratio_int(0) }
}

/// The surface-normal computation: the transform must be invertible, the
/// point must not map to the sphere's center, and every intermediate
/// scalar representable.
pub open spec fn try_normal_at(m: MatV, p: V4) -> Option<V4> {
    if !inverse_ok(m) {
        None
    } else {
        match try_mat_tuple(inverse_val(m), p) {
            None => None,
            Some(op) => match try_v4_sub(op, origin_point()) {
                None => None,
                Some(onorm) => match try_mat_tuple(transpose_spec(inverse_val(m)), onorm) {
                    None => None,
                    Some(wn) => {
                        let forced = V4 { x: wn.x, y: wn.y, z: wn.z, w: ratio_int(0) };
                        if v4_is_zero(forced) {
                            None
                        } else {
                            try_v4_normalize(forced)
                        }
                    },
                },
            },
        }
    }
}

impl Sphere {
    /// The normalized world-space surface normal at a world point. A
    /// non-invertible transform, or a point that maps to the sphere's
    /// center, yields no normal.
    pub fn normal_at(&self, world_point: &Tuple) -> (r: Option<Tuple>)
        requires
            self.wf(),
            world_point.wf(),
        ensures
            ({
                let pre = normal_pre(self.transform@, world_point@);
                match r {
                    Some(n) => {
                        &&& n.wf()
                        &&& det_spec(self.transform@).n != 0
                        &&& exists|s: int, mm: int|
                            {
                                &&& sqrt_approx_of(v4_dot(pre, pre), s, mm)
                                &&& s >= 1000000000
                                &&& v4_eq(n@, v4_div(pre, Ratio { n: s, d: mm }))
                            }
                        &&& Some(n@) == try_normal_at(self.transform@, world_point@)
                    },
                    None => try_normal_at(self.transform@, world_point@) is None,
                }
            }),
            det_spec(self.transform@).n == 0 ==> r is None,
    {
        let inv = match self.transform.inverse() {
            Some(v) => v,
            None => {
                return None;
            },
        };
        proof {
            assert(crate::matrix::mat_eq(inv@, crate::matrix::inverse_spec(self.transform@)));
            crate::matrix::lemma_inverse_spec_wf(self.transform@);
        }
        let object_point = match inv.mul_tuple(world_point) {
            Some(v) => v,
            None => {
                return None;
            },
        };
        let center = Tuple::point(Rat::zero(), Rat::zero(), Rat::zero());
        let object_normal = match object_point.sub(center) {
            Some(v) => v,
            None => {
                return None;
            },
        };
        let transposed = inv.transpose();
        let world_normal = match transposed.mul_tuple(&object_normal) {
            Some(v) => v,
            None => {
                return None;
            },
        };
        let forced = Tuple {
            x: world_normal.x,
            y: world_normal.y,
            z: world_normal.z,
            w: Rat::zero(),
        };
        proof {
            let mv = self.transform@;
            let invs = crate::matrix::inverse_spec(mv);
            let op = mat_tuple_mul_spec(invs, world_point@);
            let onorm = v4_sub(op, origin_point());
            let wn = mat_tuple_mul_spec(transpose_spec(invs), onorm);
            crate::matrix::lemma_mat_tuple_mul_wf(inv@, world_point@);
            crate::matrix::lemma_mat_tuple_mul_wf(invs, world_point@);
            crate::matrix::lemma_mat_tuple_mul_congruence(
                inv@,
                invs,
                world_point@,
                world_point@,
            );
            crate::tuple::lemma_v4_eq_trans(
                object_point@,
                mat_tuple_mul_spec(inv@, world_point@),
                op,
            );
            assert(center@ =~= origin_point());
            lemma_sub_eq_chain(
                object_normal@.x,
                object_point@.x,
                center@.x,
                op.x,
                origin_point().x,
            );
            lemma_sub_eq_chain(
                object_normal@.y,
                object_point@.y,
                center@.y,
                op.y,
                origin_point().y,
            );
            lemma_sub_eq_chain(
                object_normal@.z,
                object_point@.z,
                center@.z,
                op.z,
                origin_point().z,
            );
            lemma_sub_eq_chain(
                object_normal@.w,
                object_point@.w,
                center@.w,
                op.w,
                origin_point().w,
            );
            lemma_ratio_ops_wf(op.x, origin_point().x);
            lemma_ratio_ops_wf(op.y, origin_point().y);
            lemma_ratio_ops_wf(op.z, origin_point().z);
            lemma_ratio_ops_wf(op.w, origin_point().w);
            crate::matrix::lemma_transpose_congruence(inv@, invs);
            crate::matrix::lemma_mat_tuple_mul_wf(transposed@, object_normal@);
            crate::matrix::lemma_mat_tuple_mul_congruence(
                transposed@,
                transpose_spec(invs),
                object_normal@,
                onorm,
            );
            crate::matrix::lemma_mat_tuple_mul_wf(transpose_spec(invs), onorm);
            crate::tuple::lemma_v4_eq_trans(
                world_normal@,
                mat_tuple_mul_spec(transposed@, object_normal@),
                wn,
            );
        }
        if forced.is_zero() {
            return None;
        }
        let result = match forced.normalize() {
            Some(v) => v,
            None => {
                return None;
            },
        };
        proof {
            let mv = self.transform@;
            let pre = normal_pre(mv, world_point@);
            let invs = crate::matrix::inverse_spec(mv);
            let op = mat_tuple_mul_spec(invs, world_point@);
            let onorm = v4_sub(op, origin_point());
            let wn = mat_tuple_mul_spec(transpose_spec(invs), onorm);
            crate::matrix::lemma_mat_tuple_mul_wf(transpose_spec(invs), onorm);
            let (s, mm) = choose|s: int, mm: int|
                sqrt_approx_of(v4_dot(forced@, forced@), s, mm) && s >= 1000000000 && v4_eq(
                    result@,
                    v4_div(forced@, Ratio { n: s, d: mm }),
                );
            crate::tuple::lemma_dot_congruence(forced@, forced@, pre, pre);
            crate::tuple::lemma_v4_dot_wf(forced@, forced@);
            crate::tuple::lemma_v4_dot_wf(pre, pre);
            crate::rat::lemma_sqrt_approx_congruence(
                v4_dot(forced@, forced@),
                v4_dot(pre, pre),
                s,
                mm,
            );
            let sv = Ratio { n: s, d: mm };
            lemma_div_eq_chain(result@.x, forced@.x, sv, pre.x, sv);
            lemma_div_eq_chain(result@.y, forced@.y, sv, pre.y, sv);
            lemma_div_eq_chain(result@.z, forced@.z, sv, pre.z, sv);
            lemma_div_eq_chain(result@.w, forced@.w, sv, pre.w, sv);
        }
        Some(result)
    }
}

/// A point light: a position and an intensity.
#[derive(Debug, Clone, Copy, PartialEq, Eq, Structural)]
pub struct PointLight {
    pub position: Tuple,
    pub intensity: Color,
}

impl PointLight {
    pub fn new(position: Tuple, intensity: Color) -> (r: PointLight)
        requires
            position.wf(),
            intensity.wf(),
        ensures
            r.position == position,
            r.intensity == intensity,
    {
        PointLight { position, intensity }
    }
}


/// The shared requirements of the lighting proof: the exec intermediate
/// values, as the operation contracts describe them.
pub open spec fn lighting_pre(
    material: Material,
    light: PointLight,
    position: Tuple,
    eye: Tuple,
    normal: Tuple,
    tl: V4,
    ld: V4,
) -> bool {
    &&& material.wf()
    &&& light.position.wf()
    &&& light.intensity.wf()
    &&& position.wf()
    &&& eye.wf()
    &&& normal.wf()
    &&& v4_wf(tl)
    &&& v4_wf(ld)
    &&& v4_eq(tl, v4_sub(light.position@, position@))
    &&& exists|s: int, mm: int|
        {
            &&& sqrt_approx_of(v4_dot(tl, tl), s, mm)
            &&& s >= 1000000000
            &&& v4_eq(ld, v4_div(tl, Ratio { n: s, d: mm }))
        }
}

/// The postcondition shape of `lighting` for a given result color.
pub open spec fn lighting_post(
    material: Material,
    light: PointLight,
    position: Tuple,
    eye: Tuple,
    normal: Tuple,
    c: C3,
) -> bool {
    let to_light = v4_sub(light.position@, position@);
    exists|s: int, mm: int|
        {
            &&& sqrt_approx_of(v4_dot(to_light, to_light), s, mm)
            &&& s >= 1000000000
            &&& c3_eq(
                c,
                phong_spec(
                    material,
                    light.intensity@,
                    v4_div(to_light, Ratio { n: s, d: mm }),
                    eye@,
                    normal@,
                ),
            )
        }
}

/// The ideal vector toward the light is well formed.
proof fn lemma_to_light_wf(lp: V4, pp: V4)
    requires
        v4_wf(lp),
        v4_wf(pp),
    ensures
        v4_wf(v4_sub(lp, pp)),
{
    lemma_ratio_ops_wf(lp.x, pp.x);
    lemma_ratio_ops_wf(lp.y, pp.y);
    lemma_ratio_ops_wf(lp.z, pp.z);
    lemma_ratio_ops_wf(lp.w, pp.w);
}

/// Division of a well-formed tuple by a nonzero scalar is well formed.
proof fn lemma_v4_div_wf(t: V4, sv: Ratio)
    requires
        v4_wf(t),
        ratio_wf(sv),
        sv.n != 0,
    ensures
        v4_wf(v4_div(t, sv)),
{
    lemma_ratio_ops_wf(t.x, sv);
    lemma_ratio_ops_wf(t.y, sv);
    lemma_ratio_ops_wf(t.z, sv);
    lemma_ratio_ops_wf(t.w, sv);
}

/// The light is behind the surface: the result is the ambient term.
proof fn lemma_lighting_dark(
    material: Material,
    light: PointLight,
    position: Tuple,
    eye: Tuple,
    normal: Tuple,
    tl: V4,
    ld: V4,
    ldnv: Ratio,
    ec: C3,
    am: C3,
    s1v: C3,
    sumv: C3,
)
    requires
        lighting_pre(material, light, position, eye, normal, tl, ld),
        ratio_wf(ldnv),
        ratio_eq(ldnv, v4_dot(ld, normal@)),
        ldnv.n <= 0,
        c3_wf(ec),
        c3_eq(ec, c3_add(material.color@, light.intensity@)),
        c3_wf(am),
        c3_eq(am, c3_scale(ec, material.ambient@)),
        c3_wf(s1v),
        c3_eq(s1v, c3_add(am, c3_int(0, 0, 0))),
        c3_wf(sumv),
        c3_eq(sumv, c3_add(s1v, c3_int(0, 0, 0))),
    ensures
        lighting_post(material, light, position, eye, normal, sumv),
{
    let ids = v4_sub(light.position@, position@);
    lemma_to_light_wf(light.position@, position@);
    let (s, mm) = choose|s: int, mm: int|
        {
            &&& sqrt_approx_of(v4_dot(tl, tl), s, mm)
            &&& s >= 1000000000
            &&& v4_eq(ld, v4_div(tl, Ratio { n: s, d: mm }))
        };
    let sv = Ratio { n: s, d: mm };
    crate::tuple::lemma_dot_congruence(tl, tl, ids, ids);
    crate::tuple::lemma_v4_dot_wf(tl, tl);
    crate::tuple::lemma_v4_dot_wf(ids, ids);
    crate::rat::lemma_sqrt_approx_congruence(v4_dot(tl, tl), v4_dot(ids, ids), s, mm);
    let lv = v4_div(ids, sv);
    lemma_div_eq_chain(ld.x, tl.x, sv, ids.x, sv);
    lemma_div_eq_chain(ld.y, tl.y, sv, ids.y, sv);
    lemma_div_eq_chain(ld.z, tl.z, sv, ids.z, sv);
    lemma_div_eq_chain(ld.w, tl.w, sv, ids.w, sv);
    lemma_v4_div_wf(ids, sv);
    crate::tuple::lemma_dot_congruence(ld, normal@, lv, normal@);
    crate::tuple::lemma_v4_dot_wf(ld, normal@);
    crate::tuple::lemma_v4_dot_wf(lv, normal@);
    lemma_ratio_eq_trans(ldnv, v4_dot(ld, normal@), v4_dot(lv, normal@));
    lemma_eq_zero(ldnv, v4_dot(lv, normal@));
    assert(!ratio_lt(ratio_int(0), v4_dot(lv, normal@)));
    let eff = c3_add(material.color@, light.intensity@);
    crate::tuple::lemma_c3_ops_wf(material.color@, light.intensity@, material.ambient@);
    crate::tuple::lemma_c3_scale_eq_chain(am, ec, material.ambient@, eff, material.ambient@);
    let amb = c3_scale(eff, material.ambient@);
    crate::tuple::lemma_c3_ops_wf(eff, eff, material.ambient@);
    crate::tuple::lemma_c3_add_zero(am, c3_int(0, 0, 0));
    crate::tuple::lemma_c3_eq_trans(s1v, c3_add(am, c3_int(0, 0, 0)), am);
    crate::tuple::lemma_c3_add_zero(s1v, c3_int(0, 0, 0));
    crate::tuple::lemma_c3_eq_trans(sumv, c3_add(s1v, c3_int(0, 0, 0)), s1v);
    crate::tuple::lemma_c3_eq_trans(sumv, s1v, am);
    crate::tuple::lemma_c3_eq_trans(sumv, am, amb);
    assert(phong_spec(material, light.intensity@, lv, eye@, normal@) == amb);
    assert(sqrt_approx_of(v4_dot(ids, ids), s, mm) && s >= 1000000000 && c3_eq(
        sumv,
        phong_spec(material, light.intensity@, v4_div(ids, Ratio { n: s, d: mm }), eye@, normal@),
    ));
}

/// The reflection points away from the eye: ambient plus diffuse.
proof fn lemma_lighting_no_specular(
    material: Material,
    light: PointLight,
    position: Tuple,
    eye: Tuple,
    normal: Tuple,
    tl: V4,
    ld: V4,
    ldnv: Ratio,
    refl: V4,
    rd: V4,
    rdev: Ratio,
    ec: C3,
    am: C3,
    d1v: C3,
    dif: C3,
    s1v: C3,
    sumv: C3,
)
    requires
        lighting_pre(material, light, position, eye, normal, tl, ld),
        ratio_wf(ldnv),
        ratio_eq(ldnv, v4_dot(ld, normal@)),
        ldnv.n > 0,
        v4_wf(refl),
        v4_eq(refl, v4_reflect(ld, normal@)),
        v4_wf(rd),
        v4_eq(rd, v4_neg(refl)),
        ratio_wf(rdev),
        ratio_eq(rdev, v4_dot(rd, eye@)),
        rdev.n <= 0,
        c3_wf(ec),
        c3_eq(ec, c3_add(material.color@, light.intensity@)),
        c3_wf(am),
        c3_eq(am, c3_scale(ec, material.ambient@)),
        c3_wf(d1v),
        c3_eq(d1v, c3_scale(ec, material.diffuse@)),
        c3_wf(dif),
        c3_eq(dif, c3_scale(d1v, ldnv)),
        c3_wf(s1v),
        c3_eq(s1v, c3_add(am, dif)),
        c3_wf(sumv),
        c3_eq(sumv, c3_add(s1v, c3_int(0, 0, 0))),
    ensures
        lighting_post(material, light, position, eye, normal, sumv),
{
    let ids = v4_sub(light.position@, position@);
    lemma_to_light_wf(light.position@, position@);
    let (s, mm) = choose|s: int, mm: int|
        {
            &&& sqrt_approx_of(v4_dot(tl, tl), s, mm)
            &&& s >= 1000000000
            &&& v4_eq(ld, v4_div(tl, Ratio { n: s, d: mm }))
        };
    let sv = Ratio { n: s, d: mm };
    crate::tuple::lemma_dot_congruence(tl, tl, ids, ids);
    crate::tuple::lemma_v4_dot_wf(tl, tl);
    crate::tuple::lemma_v4_dot_wf(ids, ids);
    crate::rat::lemma_sqrt_approx_congruence(v4_dot(tl, tl), v4_dot(ids, ids), s, mm);
    let lv = v4_div(ids, sv);
    lemma_div_eq_chain(ld.x, tl.x, sv, ids.x, sv);
    lemma_div_eq_chain(ld.y, tl.y, sv, ids.y, sv);
    lemma_div_eq_chain(ld.z, tl.z, sv, ids.z, sv);
    lemma_div_eq_chain(ld.w, tl.w, sv, ids.w, sv);
    lemma_v4_div_wf(ids, sv);
    let ldn = v4_dot(lv, normal@);
    crate::tuple::lemma_dot_congruence(ld, normal@, lv, normal@);
    crate::tuple::lemma_v4_dot_wf(ld, normal@);
    crate::tuple::lemma_v4_dot_wf(lv, normal@);
    lemma_ratio_eq_trans(ldnv, v4_dot(ld, normal@), ldn);
    lemma_eq_zero(ldnv, ldn);
    assert(ratio_lt(ratio_int(0), ldn));
    // The reflection term.
    let rde = v4_dot(v4_neg(v4_reflect(lv, normal@)), eye@);
    crate::tuple::lemma_reflect_congruence(ld, normal@, lv, normal@);
    crate::tuple::lemma_reflect_wf(ld, normal@);
    crate::tuple::lemma_reflect_wf(lv, normal@);
    crate::tuple::lemma_v4_eq_trans(refl, v4_reflect(ld, normal@), v4_reflect(lv, normal@));
    crate::tuple::lemma_v4_neg_congruence(refl, v4_reflect(lv, normal@));
    crate::tuple::lemma_v4_eq_trans(rd, v4_neg(refl), v4_neg(v4_reflect(lv, normal@)));
    crate::tuple::lemma_dot_congruence(rd, eye@, v4_neg(v4_reflect(lv, normal@)), eye@);
    crate::tuple::lemma_v4_dot_wf(rd, eye@);
    crate::tuple::lemma_v4_dot_wf(v4_neg(v4_reflect(lv, normal@)), eye@);
    lemma_ratio_eq_trans(rdev, v4_dot(rd, eye@), rde);
    lemma_eq_zero(rdev, rde);
    assert(!ratio_lt(ratio_int(0), rde));
    // The color terms.
    let eff = c3_add(material.color@, light.intensity@);
    crate::tuple::lemma_c3_ops_wf(material.color@, light.intensity@, material.ambient@);
    crate::tuple::lemma_c3_ops_wf(eff, eff, material.ambient@);
    crate::tuple::lemma_c3_ops_wf(eff, eff, material.diffuse@);
    let amb = c3_scale(eff, material.ambient@);
    let difi = c3_scale(c3_scale(eff, material.diffuse@), ldn);
    crate::tuple::lemma_c3_scale_eq_chain(am, ec, material.ambient@, eff, material.ambient@);
    crate::tuple::lemma_c3_scale_eq_chain(d1v, ec, material.diffuse@, eff, material.diffuse@);
    crate::tuple::lemma_c3_ops_wf(c3_scale(eff, material.diffuse@), eff, ldn);
    crate::tuple::lemma_c3_scale_eq_chain(dif, d1v, ldnv, c3_scale(eff, material.diffuse@), ldn);
    crate::tuple::lemma_c3_ops_wf(amb, difi, ldn);
    crate::tuple::lemma_c3_add_eq_chain(s1v, am, dif, amb, difi);
    crate::tuple::lemma_c3_add_zero(s1v, c3_int(0, 0, 0));
    crate::tuple::lemma_c3_eq_trans(sumv, c3_add(s1v, c3_int(0, 0, 0)), s1v);
    crate::tuple::lemma_c3_eq_trans(sumv, s1v, c3_add(amb, difi));
    assert(phong_spec(material, light.intensity@, lv, eye@, normal@) == c3_add(amb, difi));
    assert(sqrt_approx_of(v4_dot(ids, ids), s, mm) && s >= 1000000000 && c3_eq(
        sumv,
        phong_spec(material, light.intensity@, v4_div(ids, Ratio { n: s, d: mm }), eye@, normal@),
    ));
}

/// The full case: ambient, diffuse and specular all contribute.
proof fn lemma_lighting_full(
    material: Material,
    light: PointLight,
    position: Tuple,
    eye: Tuple,
    normal: Tuple,
    tl: V4,
    ld: V4,
    ldnv: Ratio,
    refl: V4,
    rd: V4,
    rdev: Ratio,
    factv: Ratio,
    ec: C3,
    am: C3,
    d1v: C3,
    dif: C3,
    sp1: C3,
    spec: C3,
    s1v: C3,
    sumv: C3,
)
    requires
        lighting_pre(material, light, position, eye, normal, tl, ld),
        ratio_wf(ldnv),
        ratio_eq(ldnv, v4_dot(ld, normal@)),
        ldnv.n > 0,
        v4_wf(refl),
        v4_eq(refl, v4_reflect(ld, normal@)),
        v4_wf(rd),
        v4_eq(rd, v4_neg(refl)),
        ratio_wf(rdev),
        ratio_eq(rdev, v4_dot(rd, eye@)),
        rdev.n > 0,
        ratio_wf(factv),
        ratio_eq(factv, ratio_pow(rdev, material.shininess as nat)),
        c3_wf(ec),
        c3_eq(ec, c3_add(material.color@, light.intensity@)),
        c3_wf(am),
        c3_eq(am, c3_scale(ec, material.ambient@)),
        c3_wf(d1v),
        c3_eq(d1v, c3_scale(ec, material.diffuse@)),
        c3_wf(dif),
        c3_eq(dif, c3_scale(d1v, ldnv)),
        c3_wf(sp1),
        c3_eq(sp1, c3_scale(light.intensity@, material.specular@)),
        c3_wf(spec),
        c3_eq(spec, c3_scale(sp1, factv)),
        c3_wf(s1v),
        c3_eq(s1v, c3_add(am, dif)),
        c3_wf(sumv),
        c3_eq(sumv, c3_add(s1v, spec)),
    ensures
        lighting_post(material, light, position, eye, normal, sumv),
{
    let ids = v4_sub(light.position@, position@);
    lemma_to_light_wf(light.position@, position@);
    let (s, mm) = choose|s: int, mm: int|
        {
            &&& sqrt_approx_of(v4_dot(tl, tl), s, mm)
            &&& s >= 1000000000
            &&& v4_eq(ld, v4_div(tl, Ratio { n: s, d: mm }))
        };
    let sv = Ratio { n: s, d: mm };
    crate::tuple::lemma_dot_congruence(tl, tl, ids, ids);
    crate::tuple::lemma_v4_dot_wf(tl, tl);
    crate::tuple::lemma_v4_dot_wf(ids, ids);
    crate::rat::lemma_sqrt_approx_congruence(v4_dot(tl, tl), v4_dot(ids, ids), s, mm);
    let lv = v4_div(ids, sv);
    lemma_div_eq_chain(ld.x, tl.x, sv, ids.x, sv);
    lemma_div_eq_chain(ld.y, tl.y, sv, ids.y, sv);
    lemma_div_eq_chain(ld.z, tl.z, sv, ids.z, sv);
    lemma_div_eq_chain(ld.w, tl.w, sv, ids.w, sv);
    lemma_v4_div_wf(ids, sv);
    let ldn = v4_dot(lv, normal@);
    crate::tuple::lemma_dot_congruence(ld, normal@, lv, normal@);
    crate::tuple::lemma_v4_dot_wf(ld, normal@);
    crate::tuple::lemma_v4_dot_wf(lv, normal@);
    lemma_ratio_eq_trans(ldnv, v4_dot(ld, normal@), ldn);
    lemma_eq_zero(ldnv, ldn);
    assert(ratio_lt(ratio_int(0), ldn));
    let rde = v4_dot(v4_neg(v4_reflect(lv, normal@)), eye@);
    crate::tuple::lemma_reflect_congruence(ld, normal@, lv, normal@);
    crate::tuple::lemma_reflect_wf(ld, normal@);
    crate::tuple::lemma_reflect_wf(lv, normal@);
    crate::tuple::lemma_v4_eq_trans(refl, v4_reflect(ld, normal@), v4_reflect(lv, normal@));
    crate::tuple::lemma_v4_neg_congruence(refl, v4_reflect(lv, normal@));
    crate::tuple::lemma_v4_eq_trans(rd, v4_neg(refl), v4_neg(v4_reflect(lv, normal@)));
    crate::tuple::lemma_dot_congruence(rd, eye@, v4_neg(v4_reflect(lv, normal@)), eye@);
    crate::tuple::lemma_v4_dot_wf(rd, eye@);
    crate::tuple::lemma_v4_dot_wf(v4_neg(v4_reflect(lv, normal@)), eye@);
    lemma_ratio_eq_trans(rdev, v4_dot(rd, eye@), rde);
    lemma_eq_zero(rdev, rde);
    assert(ratio_lt(ratio_int(0), rde));
    // The specular factor.
    let e = material.shininess as nat;
    crate::rat::lemma_pow_congruence(rdev, rde, e);
    crate::rat::lemma_ratio_pow_wf(rdev, e);
    crate::rat::lemma_ratio_pow_wf(rde, e);
    lemma_ratio_eq_trans(factv, ratio_pow(rdev, e), ratio_pow(rde, e));
    // The color terms.
    let eff = c3_add(material.color@, light.intensity@);
    crate::tuple::lemma_c3_ops_wf(material.color@, light.intensity@, material.ambient@);
    crate::tuple::lemma_c3_ops_wf(eff, eff, material.ambient@);
    crate::tuple::lemma_c3_ops_wf(eff, eff, material.diffuse@);
    let amb = c3_scale(eff, material.ambient@);
    let difi = c3_scale(c3_scale(eff, material.diffuse@), ldn);
    crate::tuple::lemma_c3_scale_eq_chain(am, ec, material.ambient@, eff, material.ambient@);
    crate::tuple::lemma_c3_scale_eq_chain(d1v, ec, material.diffuse@, eff, material.diffuse@);
    crate::tuple::lemma_c3_ops_wf(c3_scale(eff, material.diffuse@), eff, ldn);
    crate::tuple::lemma_c3_scale_eq_chain(dif, d1v, ldnv, c3_scale(eff, material.diffuse@), ldn);
    let spi = c3_scale(c3_scale(light.intensity@, material.specular@), ratio_pow(rde, e));
    crate::tuple::lemma_c3_ops_wf(light.intensity@, light.intensity@, material.specular@);
    crate::tuple::lemma_c3_ops_wf(
        c3_scale(light.intensity@, material.specular@),
        eff,
        ratio_pow(rde, e),
    );
    crate::tuple::lemma_c3_scale_eq_chain(
        spec,
        sp1,
        factv,
        c3_scale(light.intensity@, material.specular@),
        ratio_pow(rde, e),
    );
    crate::tuple::lemma_c3_ops_wf(amb, difi, ldn);
    crate::tuple::lemma_c3_add_eq_chain(s1v, am, dif, amb, difi);
    crate::tuple::lemma_c3_ops_wf(c3_add(amb, difi), spi, ldn);
    crate::tuple::lemma_c3_add_eq_chain(sumv, s1v, spec, c3_add(amb, difi), spi);
    assert(phong_spec(material, light.intensity@, lv, eye@, normal@) == c3_add(
        c3_add(amb, difi),
        spi,
    ));
    assert(sqrt_approx_of(v4_dot(ids, ids), s, mm) && s >= 1000000000 && c3_eq(
        sumv,
        phong_spec(material, light.intensity@, v4_div(ids, Ratio { n: s, d: mm }), eye@, normal@),
    ));
}

/// The lighting computation with its failure points, mirroring the
/// executable function step for step: the light must not sit on the
/// surface point, and every intermediate scalar must be representable
/// (for the specular term this includes the whole exponentiation chain).
pub open spec fn try_lighting(
    material: Material,
    light_position: V4,
    light_intensity: C3,
    position: V4,
    eye: V4,
    normal: V4,
) -> Option<C3> {
    match try_v4_sub(light_position, position) {
        None => None,
        Some(tl) => if v4_is_zero(tl) {
            None
        } else {
            match try_v4_normalize(tl) {
                None => None,
                Some(ld) => match try_c3_add(material.color@, light_intensity) {
                    None => None,
                    Some(eff) => match try_c3_scale(eff, material.ambient@) {
                        None => None,
                        Some(amb) => match try_v4_dot(ld, normal) {
                            None => None,
                            Some(ldn) => if ldn.n <= 0 {
                                try_lighting_dark(amb)
                            } else {
                                try_lighting_lit(material, light_intensity, ld, eye, normal, eff, amb, ldn)
                            },
                        },
                    },
                },
            }
        },
    }
}

/// The light is behind the surface: the ambient term plus two black
/// terms.
pub open spec fn try_lighting_dark(amb: C3) -> Option<C3> {
    match try_c3_add(amb, c3_int(0, 0, 0)) {
        None => None,
        Some(s1) => try_c3_add(s1, c3_int(0, 0, 0)),
    }
}

/// The diffuse and specular terms of the lit side.
pub open spec fn try_lighting_lit(
    material: Material,
    light_intensity: C3,
    ld: V4,
    eye: V4,
    normal: V4,
    eff: C3,
    amb: C3,
    ldn: Ratio,
) -> Option<C3> {
    match try_c3_scale(eff, material.diffuse@) {
        None => None,
        Some(d1) => match try_c3_scale(d1, ldn) {
            None => None,
            Some(dif) => match try_v4_reflect(ld, normal) {
                None => None,
                Some(refl) => match try_v4_dot(v4_neg(refl), eye) {
                    None => None,
                    Some(rde) => if rde.n <= 0 {
                        match try_c3_add(amb, dif) {
                            None => None,
                            Some(s1) => try_c3_add(s1, c3_int(0, 0, 0)),
                        }
                    } else {
                        match try_pow(rde, material.shininess as nat) {
                            None => None,
                            Some(factor) => match try_c3_scale(light_intensity, material.specular@) {
                                None => None,
                                Some(sp1) => match try_c3_scale(sp1, factor) {
                                    None => None,
                                    Some(spec) => match try_c3_add(amb, dif) {
                                        None => None,
                                        Some(s1) => try_c3_add(s1, spec),
                                    },
                                },
                            },
                        }
                    },
                },
            },
        },
    }
}

/// The Phong illumination formula, given the unit direction `light_dir`
/// toward the light. The effective color is the material color combined
/// with the light's intensity by channelwise addition: with the default
/// material color black, a channelwise product would extinguish the
/// ambient and diffuse terms, where the documented values for the
/// default material under a white light (1.9 head-on, 0.1 with the light
/// behind the surface) require them at full strength. The diffuse part
/// vanishes when the light is behind the surface, and the specular part
/// when the reflection points away from the eye.
pub open spec fn phong_spec(
    material: Material,
    light_intensity: C3,
    light_dir: V4,
    eye: V4,
    normal: V4,
) -> C3 {
    let eff = c3_add(material.color@, light_intensity);
    let ambient = c3_scale(eff, material.ambient@);
    let ldn = v4_dot(light_dir, normal);
    if !ratio_lt(ratio_int(0), ldn) {
        ambient
    } else {
        let diffuse = c3_scale(c3_scale(eff, material.diffuse@), ldn);
        let rde = v4_dot(v4_neg(v4_reflect(light_dir, normal)), eye);
        if !ratio_lt(ratio_int(0), rde) {
            c3_add(ambient, diffuse)
        } else {
            c3_add(
                c3_add(ambient, diffuse),
                c3_scale(
                    c3_scale(light_intensity, material.specular@),
                    ratio_pow(rde, material.shininess as nat),
                ),
            )
        }
    }
}

/// The color of a surface point under a single point light, by the Phong
/// model: `ambient + diffuse + specular`, unclamped. The direction
/// toward the light is the normalized difference of the light's position
/// and the point; a light placed exactly on the point yields no color.
/// The specular exponentiation is exact, so it is representable only
/// when the reflection dot is a small rational (an exactly aligned or
/// axis-aligned geometry, or a low shininess); `try_lighting` in the
/// contract says precisely when the result is owed.
pub fn lighting(
    material: Material,
    light: PointLight,
    position: Tuple,
    eye: Tuple,
    normal: Tuple,
) -> (r: Option<Color>)
    requires
        material.wf(),
        light.position.wf(),
        light.intensity.wf(),
        position.wf(),
        eye.wf(),
        normal.wf(),
    ensures
        ({
            let to_light = v4_sub(light.position@, position@);
            match r {
                Some(c) => {
                    &&& c.wf()
                    &&& exists|s: int, mm: int|
                        {
                            &&& sqrt_approx_of(v4_dot(to_light, to_light), s, mm)
                            &&& s >= 1000000000
                            &&& c3_eq(
                                c@,
                                phong_spec(
                                    material,
                                    light.intensity@,
                                    v4_div(to_light, Ratio { n: s, d: mm }),
                                    eye@,
                                    normal@,
                                ),
                            )
                        }
                    &&& Some(c@) == try_lighting(
                        material,
                        light.position@,
                        light.intensity@,
                        position@,
                        eye@,
                        normal@,
                    )
                },
                None => try_lighting(
                    material,
                    light.position@,
                    light.intensity@,
                    position@,
                    eye@,
                    normal@,
                ) is None,
            }
        }),
{
    let to_light = match light.position.sub(position) {
        Some(v) => v,
        None => {
            return None;
        },
    };
    if to_light.is_zero() {
        return None;
    }
    let light_dir = match to_light.normalize() {
        Some(v) => v,
        None => {
            return None;
        },
    };
    let effective_color = match material.color.add(light.intensity) {
        Some(v) => v,
        None => {
            return None;
        },
    };
    let ambient = match effective_color.scale(material.ambient) {
        Some(v) => v,
        None => {
            return None;
        },
    };
    let ldn = match light_dir.dot(&normal) {
        Some(v) => v,
        None => {
            return None;
        },
    };
    if ldn.num <= 0 {
        let black1 = Color::black();
        let black2 = Color::black();
        let sum1 = match ambient.add(black1) {
            Some(v) => v,
            None => {
                return None;
            },
        };
        let sum = match sum1.add(black2) {
            Some(v) => v,
            None => {
                return None;
            },
        };
        proof {
            lemma_lighting_dark(
                material,
                light,
                position,
                eye,
                normal,
                to_light@,
                light_dir@,
                ldn@,
                effective_color@,
                ambient@,
                sum1@,
                sum@,
            );
        }
        return Some(sum);
    }
    let d1 = match effective_color.scale(material.diffuse) {
        Some(v) => v,
        None => {
            return None;
        },
    };
    let diffuse = match d1.scale(ldn) {
        Some(v) => v,
        None => {
            return None;
        },
    };
    let reflected = match light_dir.reflect(&normal) {
        Some(v) => v,
        None => {
            return None;
        },
    };
    let reflect_dir = reflected.neg();
    let rde = match reflect_dir.dot(&eye) {
        Some(v) => v,
        None => {
            return None;
        },
    };
    if rde.num <= 0 {
        let black = Color::black();
        let sum1 = match ambient.add(diffuse) {
            Some(v) => v,
            None => {
                return None;
            },
        };
        let sum = match sum1.add(black) {
            Some(v) => v,
            None => {
                return None;
            },
        };
        proof {
            lemma_lighting_no_specular(
                material,
                light,
                position,
                eye,
                normal,
                to_light@,
                light_dir@,
                ldn@,
                reflected@,
                reflect_dir@,
                rde@,
                effective_color@,
                ambient@,
                d1@,
                diffuse@,
                sum1@,
                sum@,
            );
        }
        return Some(sum);
    }
    let factor = match rde.pow(material.shininess) {
        Some(v) => v,
        None => {
            return None;
        },
    };
    let s1 = match light.intensity.scale(material.specular) {
        Some(v) => v,
        None => {
            return None;
        },
    };
    let specular = match s1.scale(factor) {
        Some(v) => v,
        None => {
            return None;
        },
    };
    let sum1 = match ambient.add(diffuse) {
        Some(v) => v,
        None => {
            return None;
        },
    };
    let sum = match sum1.add(specular) {
        Some(v) => v,
        None => {
            return None;
        },
    };
    proof {
        lemma_lighting_full(
            material,
            light,
            position,
            eye,
            normal,
            to_light@,
            light_dir@,
            ldn@,
            reflected@,
            reflect_dir@,
            rde@,
            factor@,
            effective_color@,
            ambient@,
            d1@,
            diffuse@,
            s1@,
            specular@,
            sum1@,
            sum@,
        );
    }
    Some(sum)
}

} // verus!
