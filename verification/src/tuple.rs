//! Homogeneous 4-component tuples: points (`w = 1`) and vectors (`w = 0`).
//!
//! Every operation is exact rational arithmetic; an operation returns
//! `None` only when a reduced component no longer fits in 64-bit parts.
//! The model of a tuple is `V4`, four unbounded rational components.

use crate::rat::lemma_add_eq_chain;
use crate::rat::lemma_div_eq_chain;
use crate::rat::lemma_eq_implies_approx;
use crate::rat::lemma_eq_zero;
use crate::rat::lemma_mul_eq_chain;
use crate::rat::lemma_ratio_eq_trans;
use crate::rat::lemma_ratio_ops_wf;
use crate::rat::lemma_sub_eq_chain;
use crate::rat::ratio_add;
use crate::rat::ratio_approx_eq;
use crate::rat::ratio_div;
use crate::rat::ratio_eq;
use crate::rat::ratio_int;
use crate::rat::ratio_le;
use crate::rat::ratio_lt;
use crate::rat::ratio_mul;
use crate::rat::ratio_neg;
use crate::rat::ratio_sub;
use crate::rat::ratio_wf;
use crate::rat::scalar_fits;
use crate::rat::Rat;
use crate::rat::Ratio;
use vstd::prelude::*;

verus! {

/// Mathematical model of a tuple: four unbounded rational components.
#[verifier::ext_equal]
pub ghost struct V4 {
    pub x: Ratio,
    pub y: Ratio,
    pub z: Ratio,
    pub w: Ratio,
}

pub open spec fn v4_wf(a: V4) -> bool {
    ratio_wf(a.x) && ratio_wf(a.y) && ratio_wf(a.z) && ratio_wf(a.w)
}

/// Componentwise exact equality of models.
pub open spec fn v4_eq(a: V4, b: V4) -> bool {
    ratio_eq(a.x, b.x) && ratio_eq(a.y, b.y) && ratio_eq(a.z, b.z) && ratio_eq(a.w, b.w)
}

/// Componentwise tolerance equality of models.
pub open spec fn v4_approx_eq(a: V4, b: V4) -> bool {
    ratio_approx_eq(a.x, b.x) && ratio_approx_eq(a.y, b.y) && ratio_approx_eq(a.z, b.z)
        && ratio_approx_eq(a.w, b.w)
}

pub open spec fn v4_add(a: V4, b: V4) -> V4 {
    V4 {
        x: ratio_add(a.x, b.x),
        y: ratio_add(a.y, b.y),
        z: ratio_add(a.z, b.z),
        w: ratio_add(a.w, b.w),
    }
}

pub open spec fn v4_sub(a: V4, b: V4) -> V4 {
    V4 {
        x: ratio_sub(a.x, b.x),
        y: ratio_sub(a.y, b.y),
        z: ratio_sub(a.z, b.z),
        w: ratio_sub(a.w, b.w),
    }
}

pub open spec fn v4_neg(a: V4) -> V4 {
    V4 { x: ratio_neg(a.x), y: ratio_neg(a.y), z: ratio_neg(a.z), w: ratio_neg(a.w) }
}

pub open spec fn v4_scale(a: V4, s: Ratio) -> V4 {
    V4 {
        x: ratio_mul(a.x, s),
        y: ratio_mul(a.y, s),
        z: ratio_mul(a.z, s),
        w: ratio_mul(a.w, s),
    }
}

pub open spec fn v4_div(a: V4, s: Ratio) -> V4 {
    V4 {
        x: ratio_div(a.x, s),
        y: ratio_div(a.y, s),
        z: ratio_div(a.z, s),
        w: ratio_div(a.w, s),
    }
}

/// The dot product over all four components.
pub open spec fn v4_dot(a: V4, b: V4) -> Ratio {
    ratio_add(
        ratio_add(ratio_add(ratio_mul(a.x, b.x), ratio_mul(a.y, b.y)), ratio_mul(a.z, b.z)),
        ratio_mul(a.w, b.w),
    )
}

/// The cross product; the result is a vector (`w = 0`).
pub open spec fn v4_cross(a: V4, b: V4) -> V4 {
    V4 {
        x: ratio_sub(ratio_mul(a.y, b.z), ratio_mul(a.z, b.y)),
        y: ratio_sub(ratio_mul(a.z, b.x), ratio_mul(a.x, b.z)),
        z: ratio_sub(ratio_mul(a.x, b.y), ratio_mul(a.y, b.x)),
        w: ratio_int(0),
    }
}

/// Reflection of `v` about the surface normal `n`.
pub open spec fn v4_reflect(v: V4, n: V4) -> V4 {
    v4_sub(v, v4_scale(n, ratio_mul(ratio_int(2), v4_dot(v, n))))
}

/// The exact computations with their failure points, mirroring the
/// executable operations step for step: a composite function's contract
/// reports `None` exactly when its mirror does.
pub open spec fn try_v4_add(a: V4, b: V4) -> Option<V4> {
    match crate::rat::try_add(a.x, b.x) {
        None => None,
        Some(x) => match crate::rat::try_add(a.y, b.y) {
            None => None,
            Some(y) => match crate::rat::try_add(a.z, b.z) {
                None => None,
                Some(z) => match crate::rat::try_add(a.w, b.w) {
                    None => None,
                    Some(w) => Some(V4 { x, y, z, w }),
                },
            },
        },
    }
}

pub open spec fn try_v4_sub(a: V4, b: V4) -> Option<V4> {
    match crate::rat::try_sub(a.x, b.x) {
        None => None,
        Some(x) => match crate::rat::try_sub(a.y, b.y) {
            None => None,
            Some(y) => match crate::rat::try_sub(a.z, b.z) {
                None => None,
                Some(z) => match crate::rat::try_sub(a.w, b.w) {
                    None => None,
                    Some(w) => Some(V4 { x, y, z, w }),
                },
            },
        },
    }
}

pub open spec fn try_v4_scale(a: V4, s: Ratio) -> Option<V4> {
    match crate::rat::try_mul(a.x, s) {
        None => None,
        Some(x) => match crate::rat::try_mul(a.y, s) {
            None => None,
            Some(y) => match crate::rat::try_mul(a.z, s) {
                None => None,
                Some(z) => match crate::rat::try_mul(a.w, s) {
                    None => None,
                    Some(w) => Some(V4 { x, y, z, w }),
                },
            },
        },
    }
}

pub open spec fn try_v4_div(a: V4, s: Ratio) -> Option<V4> {
    match crate::rat::try_div(a.x, s) {
        None => None,
        Some(x) => match crate::rat::try_div(a.y, s) {
            None => None,
            Some(y) => match crate::rat::try_div(a.z, s) {
                None => None,
                Some(z) => match crate::rat::try_div(a.w, s) {
                    None => None,
                    Some(w) => Some(V4 { x, y, z, w }),
                },
            },
        },
    }
}

pub open spec fn try_v4_dot(a: V4, b: V4) -> Option<Ratio> {
    match crate::rat::try_mul(a.x, b.x) {
        None => None,
        Some(xx) => match crate::rat::try_mul(a.y, b.y) {
            None => None,
            Some(yy) => match crate::rat::try_mul(a.z, b.z) {
                None => None,
                Some(zz) => match crate::rat::try_mul(a.w, b.w) {
                    None => None,
                    Some(ww) => match crate::rat::try_add(xx, yy) {
                        None => None,
                        Some(t1) => match crate::rat::try_add(t1, zz) {
                            None => None,
                            Some(t2) => crate::rat::try_add(t2, ww),
                        },
                    },
                },
            },
        },
    }
}

pub open spec fn try_v4_cross(a: V4, b: V4) -> Option<V4> {
    match crate::rat::try_mul(a.y, b.z) {
        None => None,
        Some(m1) => match crate::rat::try_mul(a.z, b.y) {
            None => None,
            Some(m2) => match crate::rat::try_mul(a.z, b.x) {
                None => None,
                Some(m3) => match crate::rat::try_mul(a.x, b.z) {
                    None => None,
                    Some(m4) => match crate::rat::try_mul(a.x, b.y) {
                        None => None,
                        Some(m5) => match crate::rat::try_mul(a.y, b.x) {
                            None => None,
                            Some(m6) => match crate::rat::try_sub(m1, m2) {
                                None => None,
                                Some(cx) => match crate::rat::try_sub(m3, m4) {
                                    None => None,
                                    Some(cy) => match crate::rat::try_sub(m5, m6) {
                                        None => None,
                                        Some(cz) => Some(
                                            V4 { x: cx, y: cy, z: cz, w: ratio_int(0) },
                                        ),
                                    },
                                },
                            },
                        },
                    },
                },
            },
        },
    }
}

pub open spec fn try_v4_reflect(v: V4, n: V4) -> Option<V4> {
    match try_v4_dot(v, n) {
        None => None,
        Some(d) => match crate::rat::try_mul(ratio_int(2), d) {
            None => None,
            Some(f) => match try_v4_scale(n, f) {
                None => None,
                Some(scaled) => try_v4_sub(v, scaled),
            },
        },
    }
}

/// The normalization chain: the squared magnitude, its always-successful
/// square root, then the componentwise division.
pub open spec fn try_v4_normalize(a: V4) -> Option<V4> {
    match try_v4_dot(a, a) {
        None => None,
        Some(m2) => try_v4_div(a, crate::rat::sqrt_val(m2)),
    }
}

pub open spec fn try_c3_add(a: C3, b: C3) -> Option<C3> {
    match crate::rat::try_add(a.r, b.r) {
        None => None,
        Some(r) => match crate::rat::try_add(a.g, b.g) {
            None => None,
            Some(g) => match crate::rat::try_add(a.b, b.b) {
                None => None,
                Some(b2) => Some(C3 { r, g, b: b2 }),
            },
        },
    }
}

pub open spec fn try_c3_sub(a: C3, b: C3) -> Option<C3> {
    match crate::rat::try_sub(a.r, b.r) {
        None => None,
        Some(r) => match crate::rat::try_sub(a.g, b.g) {
            None => None,
            Some(g) => match crate::rat::try_sub(a.b, b.b) {
                None => None,
                Some(b2) => Some(C3 { r, g, b: b2 }),
            },
        },
    }
}

pub open spec fn try_c3_mul(a: C3, b: C3) -> Option<C3> {
    match crate::rat::try_mul(a.r, b.r) {
        None => None,
        Some(r) => match crate::rat::try_mul(a.g, b.g) {
            None => None,
            Some(g) => match crate::rat::try_mul(a.b, b.b) {
                None => None,
                Some(b2) => Some(C3 { r, g, b: b2 }),
            },
        },
    }
}

pub open spec fn try_c3_scale(a: C3, s: Ratio) -> Option<C3> {
    match crate::rat::try_mul(a.r, s) {
        None => None,
        Some(r) => match crate::rat::try_mul(a.g, s) {
            None => None,
            Some(g) => match crate::rat::try_mul(a.b, s) {
                None => None,
                Some(b2) => Some(C3 { r, g, b: b2 }),
            },
        },
    }
}

/// All components are exactly zero.
pub open spec fn v4_is_zero(a: V4) -> bool {
    a.x.n == 0 && a.y.n == 0 && a.z.n == 0 && a.w.n == 0
}

/// An exact homogeneous tuple. `w == 1` marks a point, `w == 0` a vector.
#[derive(Debug, Clone, Copy, PartialEq, Eq, Structural)]
pub struct Tuple {
    pub x: Rat,
    pub y: Rat,
    pub z: Rat,
    pub w: Rat,
}

impl View for Tuple {
    type V = V4;

    open spec fn view(&self) -> V4 {
        V4 { x: self.x@, y: self.y@, z: self.z@, w: self.w@ }
    }
}

impl Tuple {
    pub open spec fn wf(self) -> bool {
        self.x.wf() && self.y.wf() && self.z.wf() && self.w.wf()
    }

    /// A point: `w = 1`.
    pub fn point(x: Rat, y: Rat, z: Rat) -> (r: Tuple)
        requires
            x.wf(),
            y.wf(),
            z.wf(),
        ensures
            r.wf(),
            r@.x == x@ && r@.y == y@ && r@.z == z@ && r@.w == ratio_int(1),
    {
        Tuple { x, y, z, w: Rat::one() }
    }

    /// A vector: `w = 0`.
    pub fn vector(x: Rat, y: Rat, z: Rat) -> (r: Tuple)
        requires
            x.wf(),
            y.wf(),
            z.wf(),
        ensures
            r.wf(),
            r@.x == x@ && r@.y == y@ && r@.z == z@ && r@.w == ratio_int(0),
    {
        Tuple { x, y, z, w: Rat::zero() }
    }

    /// Whether every component is exactly zero.
    pub fn is_zero(&self) -> (r: bool)
        requires
            self.wf(),
        ensures
            r == v4_is_zero(self@),
    {
        self.x.num == 0 && self.y.num == 0 && self.z.num == 0 && self.w.num == 0
    }

    /// Tolerance comparison of all four components.
    pub fn is_equal(&self, other: &Tuple) -> (r: bool)
        requires
            self.wf(),
            other.wf(),
        ensures
            r == v4_approx_eq(self@, other@),
    {
        self.x.approx_eq(other.x) && self.y.approx_eq(other.y) && self.z.approx_eq(other.z)
            && self.w.approx_eq(other.w)
    }

    /// Componentwise sum.
    pub fn add(self, other: Tuple) -> (r: Option<Tuple>)
        requires
            self.wf(),
            other.wf(),
        ensures
            ({
                match r {
                    Some(t) => t.wf() && v4_eq(t@, v4_add(self@, other@)),
                    None => !(scalar_fits(ratio_add(self@.x, other@.x)) && scalar_fits(
                        ratio_add(self@.y, other@.y),
                    ) && scalar_fits(ratio_add(self@.z, other@.z)) && scalar_fits(
                        ratio_add(self@.w, other@.w),
                    )),
                }
            }),
            (match r {
                Some(t) => Some(t@) == try_v4_add(self@, other@),
                None => try_v4_add(self@, other@) is None,
            }),
    {
        let x = match self.x.add(other.x) {
            Some(v) => v,
            None => {
                return None;
            },
        };
        let y = match self.y.add(other.y) {
            Some(v) => v,
            None => {
                return None;
            },
        };
        let z = match self.z.add(other.z) {
            Some(v) => v,
            None => {
                return None;
            },
        };
        let w = match self.w.add(other.w) {
            Some(v) => v,
            None => {
                return None;
            },
        };
        Some(Tuple { x, y, z, w })
    }

    /// Componentwise difference.
    pub fn sub(self, other: Tuple) -> (r: Option<Tuple>)
        requires
            self.wf(),
            other.wf(),
        ensures
            ({
                match r {
                    Some(t) => t.wf() && v4_eq(t@, v4_sub(self@, other@)),
                    None => !(scalar_fits(ratio_sub(self@.x, other@.x)) && scalar_fits(
                        ratio_sub(self@.y, other@.y),
                    ) && scalar_fits(ratio_sub(self@.z, other@.z)) && scalar_fits(
                        ratio_sub(self@.w, other@.w),
                    )),
                }
            }),
            (match r {
                Some(t) => Some(t@) == try_v4_sub(self@, other@),
                None => try_v4_sub(self@, other@) is None,
            }),
    {
        let x = match self.x.sub(other.x) {
            Some(v) => v,
            None => {
                return None;
            },
        };
        let y = match self.y.sub(other.y) {
            Some(v) => v,
            None => {
                return None;
            },
        };
        let z = match self.z.sub(other.z) {
            Some(v) => v,
            None => {
                return None;
            },
        };
        let w = match self.w.sub(other.w) {
            Some(v) => v,
            None => {
                return None;
            },
        };
        Some(Tuple { x, y, z, w })
    }

    /// Componentwise negation; always exact.
    pub fn neg(self) -> (r: Tuple)
        requires
            self.wf(),
        ensures
            r.wf(),
            r@ == v4_neg(self@),
            v4_eq(r@, v4_neg(self@)),
    {
        Tuple { x: self.x.neg(), y: self.y.neg(), z: self.z.neg(), w: self.w.neg() }
    }

    /// Componentwise scaling by a scalar.
    pub fn scale(self, s: Rat) -> (r: Option<Tuple>)
        requires
            self.wf(),
            s.wf(),
        ensures
            ({
                match r {
                    Some(t) => t.wf() && v4_eq(t@, v4_scale(self@, s@)),
                    None => !(scalar_fits(ratio_mul(self@.x, s@)) && scalar_fits(
                        ratio_mul(self@.y, s@),
                    ) && scalar_fits(ratio_mul(self@.z, s@)) && scalar_fits(
                        ratio_mul(self@.w, s@),
                    )),
                }
            }),
            (match r {
                Some(t) => Some(t@) == try_v4_scale(self@, s@),
                None => try_v4_scale(self@, s@) is None,
            }),
    {
        let x = match self.x.mul(s) {
            Some(v) => v,
            None => {
                return None;
            },
        };
        let y = match self.y.mul(s) {
            Some(v) => v,
            None => {
                return None;
            },
        };
        let z = match self.z.mul(s) {
            Some(v) => v,
            None => {
                return None;
            },
        };
        let w = match self.w.mul(s) {
            Some(v) => v,
            None => {
                return None;
            },
        };
        Some(Tuple { x, y, z, w })
    }

    /// Componentwise division by a scalar; the scalar must be nonzero.
    pub fn div(self, s: Rat) -> (r: Option<Tuple>)
        requires
            self.wf(),
            s.wf(),
            s@.n != 0,
        ensures
            ({
                match r {
                    Some(t) => t.wf() && v4_eq(t@, v4_div(self@, s@)),
                    None => !(scalar_fits(ratio_div(self@.x, s@)) && scalar_fits(
                        ratio_div(self@.y, s@),
                    ) && scalar_fits(ratio_div(self@.z, s@)) && scalar_fits(
                        ratio_div(self@.w, s@),
                    )),
                }
            }),
            (match r {
                Some(t) => Some(t@) == try_v4_div(self@, s@),
                None => try_v4_div(self@, s@) is None,
            }),
    {
        let x = match self.x.div(s) {
            Some(v) => v,
            None => {
                return None;
            },
        };
        let y = match self.y.div(s) {
            Some(v) => v,
            None => {
                return None;
            },
        };
        let z = match self.z.div(s) {
            Some(v) => v,
            None => {
                return None;
            },
        };
        let w = match self.w.div(s) {
            Some(v) => v,
            None => {
                return None;
            },
        };
        Some(Tuple { x, y, z, w })
    }

    /// The dot product of two tuples.
    pub fn dot(&self, other: &Tuple) -> (r: Option<Rat>)
        requires
            self.wf(),
            other.wf(),
        ensures
            ({
                match r {
                    Some(c) => c.wf() && ratio_eq(c@, v4_dot(self@, other@)) && Some(c@)
                        == try_v4_dot(self@, other@),
                    None => try_v4_dot(self@, other@) is None,
                }
            }),
    {
        let xx = match self.x.mul(other.x) {
            Some(v) => v,
            None => {
                return None;
            },
        };
        let yy = match self.y.mul(other.y) {
            Some(v) => v,
            None => {
                return None;
            },
        };
        let zz = match self.z.mul(other.z) {
            Some(v) => v,
            None => {
                return None;
            },
        };
        let ww = match self.w.mul(other.w) {
            Some(v) => v,
            None => {
                return None;
            },
        };
        let t1 = match xx.add(yy) {
            Some(v) => v,
            None => {
                return None;
            },
        };
        let t2 = match t1.add(zz) {
            Some(v) => v,
            None => {
                return None;
            },
        };
        let t3 = match t2.add(ww) {
            Some(v) => v,
            None => {
                return None;
            },
        };
        proof {
            let mx = ratio_mul(self@.x, other@.x);
            let my = ratio_mul(self@.y, other@.y);
            let mz = ratio_mul(self@.z, other@.z);
            let mw = ratio_mul(self@.w, other@.w);
            lemma_ratio_ops_wf(self@.x, other@.x);
            lemma_ratio_ops_wf(self@.y, other@.y);
            lemma_ratio_ops_wf(self@.z, other@.z);
            lemma_ratio_ops_wf(self@.w, other@.w);
            lemma_add_eq_chain(t1@, xx@, yy@, mx, my);
            lemma_ratio_ops_wf(mx, my);
            lemma_add_eq_chain(t2@, t1@, zz@, ratio_add(mx, my), mz);
            lemma_ratio_ops_wf(ratio_add(mx, my), mz);
            lemma_add_eq_chain(t3@, t2@, ww@, ratio_add(ratio_add(mx, my), mz), mw);
        }
        Some(t3)
    }

    /// The cross product of two vectors; the result is a vector.
    pub fn cross(&self, other: &Tuple) -> (r: Option<Tuple>)
        requires
            self.wf(),
            other.wf(),
        ensures
            ({
                match r {
                    Some(t) => t.wf() && v4_eq(t@, v4_cross(self@, other@)) && Some(t@)
                        == try_v4_cross(self@, other@),
                    None => try_v4_cross(self@, other@) is None,
                }
            }),
    {
        let m1 = match self.y.mul(other.z) {
            Some(v) => v,
            None => {
                return None;
            },
        };
        let m2 = match self.z.mul(other.y) {
            Some(v) => v,
            None => {
                return None;
            },
        };
        let m3 = match self.z.mul(other.x) {
            Some(v) => v,
            None => {
                return None;
            },
        };
        let m4 = match self.x.mul(other.z) {
            Some(v) => v,
            None => {
                return None;
            },
        };
        let m5 = match self.x.mul(other.y) {
            Some(v) => v,
            None => {
                return None;
            },
        };
        let m6 = match self.y.mul(other.x) {
            Some(v) => v,
            None => {
                return None;
            },
        };
        let cx = match m1.sub(m2) {
            Some(v) => v,
            None => {
                return None;
            },
        };
        let cy = match m3.sub(m4) {
            Some(v) => v,
            None => {
                return None;
            },
        };
        let cz = match m5.sub(m6) {
            Some(v) => v,
            None => {
                return None;
            },
        };
        proof {
            lemma_ratio_ops_wf(self@.y, other@.z);
            lemma_ratio_ops_wf(self@.z, other@.y);
            lemma_ratio_ops_wf(self@.z, other@.x);
            lemma_ratio_ops_wf(self@.x, other@.z);
            lemma_ratio_ops_wf(self@.x, other@.y);
            lemma_ratio_ops_wf(self@.y, other@.x);
            lemma_sub_eq_chain(
                cx@,
                m1@,
                m2@,
                ratio_mul(self@.y, other@.z),
                ratio_mul(self@.z, other@.y),
            );
            lemma_sub_eq_chain(
                cy@,
                m3@,
                m4@,
                ratio_mul(self@.z, other@.x),
                ratio_mul(self@.x, other@.z),
            );
            lemma_sub_eq_chain(
                cz@,
                m5@,
                m6@,
                ratio_mul(self@.x, other@.y),
                ratio_mul(self@.y, other@.x),
            );
        }
        Some(Tuple { x: cx, y: cy, z: cz, w: Rat::zero() })
    }

    /// Reflects this vector about the surface normal `normal`.
    pub fn reflect(&self, normal: &Tuple) -> (r: Option<Tuple>)
        requires
            self.wf(),
            normal.wf(),
        ensures
            ({
                match r {
                    Some(t) => t.wf() && v4_eq(t@, v4_reflect(self@, normal@)) && Some(t@)
                        == try_v4_reflect(self@, normal@),
                    None => try_v4_reflect(self@, normal@) is None,
                }
            }),
    {
        let d = match self.dot(normal) {
            Some(v) => v,
            None => {
                return None;
            },
        };
        let f = match Rat::from_int(2).mul(d) {
            Some(v) => v,
            None => {
                return None;
            },
        };
        let scaled = match normal.scale(f) {
            Some(v) => v,
            None => {
                return None;
            },
        };
        let result = match self.sub(scaled) {
            Some(v) => v,
            None => {
                return None;
            },
        };
        proof {
            let dd = v4_dot(self@, normal@);
            let ff = ratio_mul(ratio_int(2), dd);
            lemma_v4_dot_wf(self@, normal@);
            lemma_mul_eq_chain(f@, ratio_int(2), d@, ratio_int(2), dd);
            lemma_ratio_ops_wf(ratio_int(2), dd);
            lemma_mul_eq_chain(scaled@.x, normal@.x, f@, normal@.x, ff);
            lemma_mul_eq_chain(scaled@.y, normal@.y, f@, normal@.y, ff);
            lemma_mul_eq_chain(scaled@.z, normal@.z, f@, normal@.z, ff);
            lemma_mul_eq_chain(scaled@.w, normal@.w, f@, normal@.w, ff);
            lemma_ratio_ops_wf(normal@.x, ff);
            lemma_ratio_ops_wf(normal@.y, ff);
            lemma_ratio_ops_wf(normal@.z, ff);
            lemma_ratio_ops_wf(normal@.w, ff);
            lemma_sub_eq_chain(result@.x, self@.x, scaled@.x, self@.x, ratio_mul(normal@.x, ff));
            lemma_sub_eq_chain(result@.y, self@.y, scaled@.y, self@.y, ratio_mul(normal@.y, ff));
            lemma_sub_eq_chain(result@.z, self@.z, scaled@.z, self@.z, ratio_mul(normal@.z, ff));
            lemma_sub_eq_chain(result@.w, self@.w, scaled@.w, self@.w, ratio_mul(normal@.w, ff));
        }
        Some(result)
    }

    /// The Euclidean norm over all four components, as a square-root
    /// approximation of the exact dot product of the tuple with itself.
    pub fn magnitude(&self) -> (r: Option<Rat>)
        requires
            self.wf(),
        ensures
            ({
                match r {
                    Some(m) => {
                        &&& m.wf()
                        &&& m@.n >= 0
                        &&& exists|s: int, mm: int|
                            crate::rat::sqrt_approx_of(v4_dot(self@, self@), s, mm) && ratio_eq(
                                m@,
                                Ratio { n: s, d: mm },
                            ) && (!v4_is_zero(self@) ==> s >= 1000000000)
                        &&& (!v4_is_zero(self@) ==> m@.n > 0)
                        &&& (v4_is_zero(self@) ==> m@.n == 0)
                        &&& (match try_v4_dot(self@, self@) {
                            Some(d) => m@ == crate::rat::sqrt_val(d),
                            None => false,
                        })
                    },
                    None => try_v4_dot(self@, self@) is None,
                }
            }),
    {
        let d = match self.dot(self) {
            Some(v) => v,
            None => {
                return None;
            },
        };
        proof {
            lemma_dot_self_sign(self@);
            lemma_eq_zero(d@, v4_dot(self@, self@));
        }
        let m = match d.sqrt() {
            Some(v) => v,
            None => {
                return None;
            },
        };
        proof {
            let (s, mm) = choose|s: int, mm: int|
                crate::rat::sqrt_approx_of(d@, s, mm) && ratio_eq(m@, Ratio { n: s, d: mm }) && (
                d@.n > 0 ==> s >= 1000000000);
            crate::rat::lemma_sqrt_approx_congruence(d@, v4_dot(self@, self@), s, mm);
        }
        Some(m)
    }

    /// Scales this tuple to unit length, dividing every component
    /// (including `w`) by the magnitude. The tuple must not be zero.
    pub fn normalize(&self) -> (r: Option<Tuple>)
        requires
            self.wf(),
            !v4_is_zero(self@),
        ensures
            ({
                match r {
                    Some(u) => {
                        &&& u.wf()
                        &&& exists|s: int, mm: int|
                            crate::rat::sqrt_approx_of(v4_dot(self@, self@), s, mm) && s
                                >= 1000000000 && v4_eq(u@, v4_div(self@, Ratio { n: s, d: mm }))
                        &&& Some(u@) == try_v4_normalize(self@)
                    },
                    None => try_v4_normalize(self@) is None,
                }
            }),
    {
        let m = match self.magnitude() {
            Some(v) => v,
            None => {
                return None;
            },
        };
        let u = match self.div(m) {
            Some(v) => v,
            None => {
                return None;
            },
        };
        proof {
            let (s, mm) = choose|s: int, mm: int|
                crate::rat::sqrt_approx_of(v4_dot(self@, self@), s, mm) && ratio_eq(
                    m@,
                    Ratio { n: s, d: mm },
                ) && (!v4_is_zero(self@) ==> s >= 1000000000);
            let sv = Ratio { n: s, d: mm };
            lemma_div_eq_chain(u@.x, self@.x, m@, self@.x, sv);
            lemma_div_eq_chain(u@.y, self@.y, m@, self@.y, sv);
            lemma_div_eq_chain(u@.z, self@.z, m@, self@.z, sv);
            lemma_div_eq_chain(u@.w, self@.w, m@, self@.w, sv);
        }
        Some(u)
    }
}

/// Mathematical model of a color: three unbounded rational channels.
#[verifier::ext_equal]
pub ghost struct C3 {
    pub r: Ratio,
    pub g: Ratio,
    pub b: Ratio,
}

pub open spec fn c3_wf(c: C3) -> bool {
    ratio_wf(c.r) && ratio_wf(c.g) && ratio_wf(c.b)
}

pub open spec fn c3_eq(a: C3, b: C3) -> bool {
    ratio_eq(a.r, b.r) && ratio_eq(a.g, b.g) && ratio_eq(a.b, b.b)
}

pub open spec fn c3_approx_eq(a: C3, b: C3) -> bool {
    ratio_approx_eq(a.r, b.r) && ratio_approx_eq(a.g, b.g) && ratio_approx_eq(a.b, b.b)
}

pub open spec fn c3_add(a: C3, b: C3) -> C3 {
    C3 { r: ratio_add(a.r, b.r), g: ratio_add(a.g, b.g), b: ratio_add(a.b, b.b) }
}

pub open spec fn c3_sub(a: C3, b: C3) -> C3 {
    C3 { r: ratio_sub(a.r, b.r), g: ratio_sub(a.g, b.g), b: ratio_sub(a.b, b.b) }
}

pub open spec fn c3_scale(a: C3, s: Ratio) -> C3 {
    C3 { r: ratio_mul(a.r, s), g: ratio_mul(a.g, s), b: ratio_mul(a.b, s) }
}

/// Channelwise product of two colors.
pub open spec fn c3_mul(a: C3, b: C3) -> C3 {
    C3 { r: ratio_mul(a.r, b.r), g: ratio_mul(a.g, b.g), b: ratio_mul(a.b, b.b) }
}

pub open spec fn c3_int(r: int, g: int, b: int) -> C3 {
    C3 { r: ratio_int(r), g: ratio_int(g), b: ratio_int(b) }
}

/// A color with exact rational channels; the range is unbounded, values
/// above 1 are legal and clamping is left to the image encoder.
#[derive(Debug, Clone, Copy, PartialEq, Eq, Structural)]
pub struct Color {
    pub red: Rat,
    pub green: Rat,
    pub blue: Rat,
}

impl View for Color {
    type V = C3;

    open spec fn view(&self) -> C3 {
        C3 { r: self.red@, g: self.green@, b: self.blue@ }
    }
}

impl Color {
    pub open spec fn wf(self) -> bool {
        self.red.wf() && self.green.wf() && self.blue.wf()
    }

    pub fn new(red: Rat, green: Rat, blue: Rat) -> (r: Color)
        requires
            red.wf(),
            green.wf(),
            blue.wf(),
        ensures
            r.wf(),
            r@ == (C3 { r: red@, g: green@, b: blue@ }),
    {
        Color { red, green, blue }
    }

    pub fn black() -> (r: Color)
        ensures
            r.wf(),
            r@ == c3_int(0, 0, 0),
    {
        Color { red: Rat::zero(), green: Rat::zero(), blue: Rat::zero() }
    }

    pub fn white() -> (r: Color)
        ensures
            r.wf(),
            r@ == c3_int(1, 1, 1),
    {
        Color { red: Rat::one(), green: Rat::one(), blue: Rat::one() }
    }

    pub fn red() -> (r: Color)
        ensures
            r.wf(),
            r@ == c3_int(1, 0, 0),
    {
        Color { red: Rat::one(), green: Rat::zero(), blue: Rat::zero() }
    }

    /// Tolerance comparison of all three channels.
    pub fn is_equal(&self, other: &Color) -> (r: bool)
        requires
            self.wf(),
            other.wf(),
        ensures
            r == c3_approx_eq(self@, other@),
    {
        self.red.approx_eq(other.red) && self.green.approx_eq(other.green) && self.blue.approx_eq(
            other.blue,
        )
    }

    /// Channelwise sum.
    pub fn add(self, other: Color) -> (r: Option<Color>)
        requires
            self.wf(),
            other.wf(),
        ensures
            ({
                match r {
                    Some(c) => c.wf() && c3_eq(c@, c3_add(self@, other@)),
                    None => !(scalar_fits(ratio_add(self@.r, other@.r)) && scalar_fits(
                        ratio_add(self@.g, other@.g),
                    ) && scalar_fits(ratio_add(self@.b, other@.b))),
                }
            }),
            (match r {
                Some(c) => Some(c@) == try_c3_add(self@, other@),
                None => try_c3_add(self@, other@) is None,
            }),
    {
        let red = match self.red.add(other.red) {
            Some(v) => v,
            None => {
                return None;
            },
        };
        let green = match self.green.add(other.green) {
            Some(v) => v,
            None => {
                return None;
            },
        };
        let blue = match self.blue.add(other.blue) {
            Some(v) => v,
            None => {
                return None;
            },
        };
        Some(Color { red, green, blue })
    }

    /// Channelwise difference.
    pub fn sub(self, other: Color) -> (r: Option<Color>)
        requires
            self.wf(),
            other.wf(),
        ensures
            ({
                match r {
                    Some(c) => c.wf() && c3_eq(c@, c3_sub(self@, other@)),
                    None => !(scalar_fits(ratio_sub(self@.r, other@.r)) && scalar_fits(
                        ratio_sub(self@.g, other@.g),
                    ) && scalar_fits(ratio_sub(self@.b, other@.b))),
                }
            }),
            (match r {
                Some(c) => Some(c@) == try_c3_sub(self@, other@),
                None => try_c3_sub(self@, other@) is None,
            }),
    {
        let red = match self.red.sub(other.red) {
            Some(v) => v,
            None => {
                return None;
            },
        };
        let green = match self.green.sub(other.green) {
            Some(v) => v,
            None => {
                return None;
            },
        };
        let blue = match self.blue.sub(other.blue) {
            Some(v) => v,
            None => {
                return None;
            },
        };
        Some(Color { red, green, blue })
    }

    /// Channelwise scaling by a scalar.
    pub fn scale(self, s: Rat) -> (r: Option<Color>)
        requires
            self.wf(),
            s.wf(),
        ensures
            ({
                match r {
                    Some(c) => c.wf() && c3_eq(c@, c3_scale(self@, s@)),
                    None => !(scalar_fits(ratio_mul(self@.r, s@)) && scalar_fits(
                        ratio_mul(self@.g, s@),
                    ) && scalar_fits(ratio_mul(self@.b, s@))),
                }
            }),
            (match r {
                Some(c) => Some(c@) == try_c3_scale(self@, s@),
                None => try_c3_scale(self@, s@) is None,
            }),
    {
        let red = match self.red.mul(s) {
            Some(v) => v,
            None => {
                return None;
            },
        };
        let green = match self.green.mul(s) {
            Some(v) => v,
            None => {
                return None;
            },
        };
        let blue = match self.blue.mul(s) {
            Some(v) => v,
            None => {
                return None;
            },
        };
        Some(Color { red, green, blue })
    }

    /// Channelwise product with another color.
    pub fn mul(self, other: Color) -> (r: Option<Color>)
        requires
            self.wf(),
            other.wf(),
        ensures
            ({
                match r {
                    Some(c) => c.wf() && c3_eq(c@, c3_mul(self@, other@)),
                    None => !(scalar_fits(ratio_mul(self@.r, other@.r)) && scalar_fits(
                        ratio_mul(self@.g, other@.g),
                    ) && scalar_fits(ratio_mul(self@.b, other@.b))),
                }
            }),
            (match r {
                Some(c) => Some(c@) == try_c3_mul(self@, other@),
                None => try_c3_mul(self@, other@) is None,
            }),
    {
        let red = match self.red.mul(other.red) {
            Some(v) => v,
            None => {
                return None;
            },
        };
        let green = match self.green.mul(other.green) {
            Some(v) => v,
            None => {
                return None;
            },
        };
        let blue = match self.blue.mul(other.blue) {
            Some(v) => v,
            None => {
                return None;
            },
        };
        Some(Color { red, green, blue })
    }

    /// A cursor over the three channels, in red, green, blue order.
    pub fn iter(&self) -> (r: ColorIter)
        ensures
            r.current == 0,
            r.color == *self,
    {
        ColorIter { current: 0, color: *self }
    }
}

/// A cursor over the channels of a color.
#[derive(Debug, Clone, Copy)]
pub struct ColorIter {
    pub current: i32,
    pub color: Color,
}

impl ColorIter {
    /// The next channel, or `None` once all three have been handed out.
    pub fn next(&mut self) -> (r: Option<Rat>)
        requires
            old(self).current < i32::MAX,
        ensures
            final(self).color == old(self).color,
            final(self).current == old(self).current + 1,
            r == (match old(self).current {
                0i32 => Some(old(self).color.red),
                1i32 => Some(old(self).color.green),
                2i32 => Some(old(self).color.blue),
                _ => None::<Rat>,
            }),
    {
        let value = match self.current {
            0 => Some(self.color.red),
            1 => Some(self.color.green),
            2 => Some(self.color.blue),
            _ => None,
        };
        self.current = self.current + 1;
        value
    }
}

/// The channel operations on colors preserve well-formedness.
pub proof fn lemma_c3_ops_wf(a: C3, b: C3, s: Ratio)
    requires
        c3_wf(a),
        c3_wf(b),
        ratio_wf(s),
    ensures
        c3_wf(c3_add(a, b)),
        c3_wf(c3_sub(a, b)),
        c3_wf(c3_mul(a, b)),
        c3_wf(c3_scale(a, s)),
{
    lemma_ratio_ops_wf(a.r, b.r);
    lemma_ratio_ops_wf(a.g, b.g);
    lemma_ratio_ops_wf(a.b, b.b);
    lemma_ratio_ops_wf(a.r, s);
    lemma_ratio_ops_wf(a.g, s);
    lemma_ratio_ops_wf(a.b, s);
}

/// Channelwise exact equality of colors is transitive.
pub proof fn lemma_c3_eq_trans(a: C3, b: C3, c: C3)
    requires
        c3_wf(a),
        c3_wf(b),
        c3_wf(c),
        c3_eq(a, b),
        c3_eq(b, c),
    ensures
        c3_eq(a, c),
{
    lemma_ratio_eq_trans(a.r, b.r, c.r);
    lemma_ratio_eq_trans(a.g, b.g, c.g);
    lemma_ratio_eq_trans(a.b, b.b, c.b);
}

/// One chaining step at the color level, for channelwise sums.
pub proof fn lemma_c3_add_eq_chain(r: C3, a: C3, b: C3, a2: C3, b2: C3)
    requires
        c3_wf(r),
        c3_wf(a),
        c3_wf(b),
        c3_wf(a2),
        c3_wf(b2),
        c3_eq(r, c3_add(a, b)),
        c3_eq(a, a2),
        c3_eq(b, b2),
    ensures
        c3_eq(r, c3_add(a2, b2)),
{
    lemma_add_eq_chain(r.r, a.r, b.r, a2.r, b2.r);
    lemma_add_eq_chain(r.g, a.g, b.g, a2.g, b2.g);
    lemma_add_eq_chain(r.b, a.b, b.b, a2.b, b2.b);
}

/// One chaining step at the color level, for scaling by a scalar.
pub proof fn lemma_c3_scale_eq_chain(r: C3, a: C3, s: Ratio, a2: C3, s2: Ratio)
    requires
        c3_wf(r),
        c3_wf(a),
        ratio_wf(s),
        c3_wf(a2),
        ratio_wf(s2),
        c3_eq(r, c3_scale(a, s)),
        c3_eq(a, a2),
        ratio_eq(s, s2),
    ensures
        c3_eq(r, c3_scale(a2, s2)),
{
    lemma_mul_eq_chain(r.r, a.r, s, a2.r, s2);
    lemma_mul_eq_chain(r.g, a.g, s, a2.g, s2);
    lemma_mul_eq_chain(r.b, a.b, s, a2.b, s2);
}

/// Adding a color whose channels are all zero changes nothing.
pub proof fn lemma_c3_add_zero(a: C3, z: C3)
    requires
        c3_wf(a),
        c3_wf(z),
        z.r.n == 0,
        z.g.n == 0,
        z.b.n == 0,
    ensures
        c3_eq(c3_add(a, z), a),
        c3_wf(c3_add(a, z)),
{
    crate::rat::lemma_add_zero_num(a.r, z.r);
    crate::rat::lemma_add_zero_num(a.g, z.g);
    crate::rat::lemma_add_zero_num(a.b, z.b);
}

/// The negation of componentwise-equal tuples stays componentwise equal.
pub proof fn lemma_v4_neg_congruence(a: V4, a2: V4)
    requires
        v4_eq(a, a2),
    ensures
        v4_eq(v4_neg(a), v4_neg(a2)),
{
    crate::rat::lemma_neg_congruence(a.x, a2.x);
    crate::rat::lemma_neg_congruence(a.y, a2.y);
    crate::rat::lemma_neg_congruence(a.z, a2.z);
    crate::rat::lemma_neg_congruence(a.w, a2.w);
}

/// Reflection respects exact equality of its operands.
pub proof fn lemma_reflect_congruence(v: V4, n: V4, v2: V4, n2: V4)
    requires
        v4_wf(v),
        v4_wf(n),
        v4_wf(v2),
        v4_wf(n2),
        v4_eq(v, v2),
        v4_eq(n, n2),
    ensures
        v4_eq(v4_reflect(v, n), v4_reflect(v2, n2)),
{
    lemma_dot_congruence(v, n, v2, n2);
    lemma_v4_dot_wf(v, n);
    lemma_v4_dot_wf(v2, n2);
    let f = ratio_mul(ratio_int(2), v4_dot(v, n));
    let f2 = ratio_mul(ratio_int(2), v4_dot(v2, n2));
    crate::rat::lemma_mul_congruence(ratio_int(2), v4_dot(v, n), ratio_int(2), v4_dot(v2, n2));
    lemma_ratio_ops_wf(ratio_int(2), v4_dot(v, n));
    lemma_ratio_ops_wf(ratio_int(2), v4_dot(v2, n2));
    crate::rat::lemma_mul_congruence(n.x, f, n2.x, f2);
    crate::rat::lemma_mul_congruence(n.y, f, n2.y, f2);
    crate::rat::lemma_mul_congruence(n.z, f, n2.z, f2);
    crate::rat::lemma_mul_congruence(n.w, f, n2.w, f2);
    lemma_ratio_ops_wf(n.x, f);
    lemma_ratio_ops_wf(n.y, f);
    lemma_ratio_ops_wf(n.z, f);
    lemma_ratio_ops_wf(n.w, f);
    lemma_ratio_ops_wf(n2.x, f2);
    lemma_ratio_ops_wf(n2.y, f2);
    lemma_ratio_ops_wf(n2.z, f2);
    lemma_ratio_ops_wf(n2.w, f2);
    crate::rat::lemma_sub_congruence(v.x, ratio_mul(n.x, f), v2.x, ratio_mul(n2.x, f2));
    crate::rat::lemma_sub_congruence(v.y, ratio_mul(n.y, f), v2.y, ratio_mul(n2.y, f2));
    crate::rat::lemma_sub_congruence(v.z, ratio_mul(n.z, f), v2.z, ratio_mul(n2.z, f2));
    crate::rat::lemma_sub_congruence(v.w, ratio_mul(n.w, f), v2.w, ratio_mul(n2.w, f2));
}

/// Reflection of well-formed tuples is well formed.
pub proof fn lemma_reflect_wf(v: V4, n: V4)
    requires
        v4_wf(v),
        v4_wf(n),
    ensures
        v4_wf(v4_reflect(v, n)),
{
    lemma_v4_dot_wf(v, n);
    lemma_ratio_ops_wf(ratio_int(2), v4_dot(v, n));
    let f = ratio_mul(ratio_int(2), v4_dot(v, n));
    lemma_ratio_ops_wf(n.x, f);
    lemma_ratio_ops_wf(n.y, f);
    lemma_ratio_ops_wf(n.z, f);
    lemma_ratio_ops_wf(n.w, f);
    lemma_ratio_ops_wf(v.x, ratio_mul(n.x, f));
    lemma_ratio_ops_wf(v.y, ratio_mul(n.y, f));
    lemma_ratio_ops_wf(v.z, ratio_mul(n.z, f));
    lemma_ratio_ops_wf(v.w, ratio_mul(n.w, f));
}

/// One accumulation step of a sum of divided squares: if the sum so far
/// carries the factors `(p, q2)` over the plain sum, the next square
/// carries `(m2, ss)`, and the factors are compatible, then the extended
/// sum carries `(p * ss, q2 * ss)`.
proof fn lemma_acc_step(
    accn: int,
    accd: int,
    qn: int,
    qd: int,
    xn: int,
    xd: int,
    nz2: int,
    dz2: int,
    p: int,
    q2: int,
    m2: int,
    ss: int,
    rn: int,
    rd: int,
    yn: int,
    yd: int,
)
    requires
        accn == p * xn,
        accd == q2 * xd,
        qn == nz2 * m2,
        qd == dz2 * ss,
        p * ss == m2 * q2,
        rn == accn * qd + qn * accd,
        rd == accd * qd,
        yn == xn * dz2 + nz2 * xd,
        yd == xd * dz2,
    ensures
        rn == (p * ss) * yn,
        rd == (q2 * ss) * yd,
{
    assert((p * xn) * (dz2 * ss) == (p * ss) * (xn * dz2)) by (nonlinear_arith);
    assert((nz2 * m2) * (q2 * xd) == (m2 * q2) * (nz2 * xd)) by (nonlinear_arith);
    assert((p * ss) * (xn * dz2) + (p * ss) * (nz2 * xd) == (p * ss) * (xn * dz2 + nz2 * xd))
        by (nonlinear_arith);
    assert((q2 * xd) * (dz2 * ss) == (q2 * ss) * (xd * dz2)) by (nonlinear_arith);
}

/// Dividing a tuple by a bracketed square root of its own squared
/// magnitude leaves a squared magnitude between 1 and the square of
/// `(s + 1) / s`.
proof fn lemma_dot_div_bounds(t: V4, sv: Ratio, s: int, mm: int)
    requires
        v4_wf(t),
        sv == (Ratio { n: s, d: mm }),
        s >= 1,
        mm >= 1,
        s * s * v4_dot(t, t).d <= v4_dot(t, t).n * (mm * mm),
        v4_dot(t, t).n * (mm * mm) < (s + 1) * (s + 1) * v4_dot(t, t).d,
    ensures
        ratio_le(ratio_int(1), v4_dot(v4_div(t, sv), v4_div(t, sv))),
        ratio_lt(
            v4_dot(v4_div(t, sv), v4_div(t, sv)),
            Ratio { n: (s + 1) * (s + 1), d: s * s },
        ),
{
    let dv = v4_div(t, sv);
    let m2 = mm * mm;
    let ss = s * s;
    let nx = t.x.n * t.x.n;
    let dx = t.x.d * t.x.d;
    let ny = t.y.n * t.y.n;
    let dy = t.y.d * t.y.d;
    let nz = t.z.n * t.z.n;
    let dz = t.z.d * t.z.d;
    let nw = t.w.n * t.w.n;
    let dw = t.w.d * t.w.d;
    let qx = ratio_mul(dv.x, dv.x);
    let qy = ratio_mul(dv.y, dv.y);
    let qz = ratio_mul(dv.z, dv.z);
    let qw = ratio_mul(dv.w, dv.w);
    assert(qx.n == nx * m2 && qx.d == dx * ss) by (nonlinear_arith)
        requires
            qx.n == (t.x.n * mm) * (t.x.n * mm) && qx.d == (t.x.d * s) * (t.x.d * s) && nx == t.x.n
                * t.x.n && dx == t.x.d * t.x.d && m2 == mm * mm && ss == s * s,
    {
    }
    assert(qy.n == ny * m2 && qy.d == dy * ss) by (nonlinear_arith)
        requires
            qy.n == (t.y.n * mm) * (t.y.n * mm) && qy.d == (t.y.d * s) * (t.y.d * s) && ny == t.y.n
                * t.y.n && dy == t.y.d * t.y.d && m2 == mm * mm && ss == s * s,
    {
    }
    assert(qz.n == nz * m2 && qz.d == dz * ss) by (nonlinear_arith)
        requires
            qz.n == (t.z.n * mm) * (t.z.n * mm) && qz.d == (t.z.d * s) * (t.z.d * s) && nz == t.z.n
                * t.z.n && dz == t.z.d * t.z.d && m2 == mm * mm && ss == s * s,
    {
    }
    assert(qw.n == nw * m2 && qw.d == dw * ss) by (nonlinear_arith)
        requires
            qw.n == (t.w.n * mm) * (t.w.n * mm) && qw.d == (t.w.d * s) * (t.w.d * s) && nw == t.w.n
                * t.w.n && dw == t.w.d * t.w.d && m2 == mm * mm && ss == s * s,
    {
    }
    let x1 = ratio_add(ratio_mul(t.x, t.x), ratio_mul(t.y, t.y));
    let d1 = ratio_add(qx, qy);
    lemma_acc_step(
        qx.n,
        qx.d,
        qy.n,
        qy.d,
        nx,
        dx,
        ny,
        dy,
        m2,
        ss,
        m2,
        ss,
        d1.n,
        d1.d,
        x1.n,
        x1.d,
    );
    let x2 = ratio_add(x1, ratio_mul(t.z, t.z));
    let d2 = ratio_add(d1, qz);
    assert((m2 * ss) * ss == m2 * (ss * ss)) by (nonlinear_arith);
    lemma_acc_step(
        d1.n,
        d1.d,
        qz.n,
        qz.d,
        x1.n,
        x1.d,
        nz,
        dz,
        m2 * ss,
        ss * ss,
        m2,
        ss,
        d2.n,
        d2.d,
        x2.n,
        x2.d,
    );
    let x3 = ratio_add(x2, ratio_mul(t.w, t.w));
    let d3 = ratio_add(d2, qw);
    assert(((m2 * ss) * ss) * ss == m2 * ((ss * ss) * ss)) by (nonlinear_arith);
    lemma_acc_step(
        d2.n,
        d2.d,
        qw.n,
        qw.d,
        x2.n,
        x2.d,
        nw,
        dw,
        (m2 * ss) * ss,
        (ss * ss) * ss,
        m2,
        ss,
        d3.n,
        d3.d,
        x3.n,
        x3.d,
    );
    assert(((m2 * ss) * ss) * ss == m2 * (ss * (ss * ss)) && ((ss * ss) * ss) * ss == ss * (ss
        * (ss * ss))) by (nonlinear_arith);
    assert(ss >= 1 && m2 >= 1) by (nonlinear_arith)
        requires
            s >= 1 && mm >= 1 && ss == s * s && m2 == mm * mm,
    {
    }
    let sss = ss * (ss * ss);
    assert(sss >= 1) by (nonlinear_arith)
        requires
            ss >= 1 && sss == ss * (ss * ss),
    {
    }
    assert(x3 == v4_dot(t, t));
    assert(d3 == v4_dot(dv, dv));
    assert(sss * (ss * x3.d) <= sss * (x3.n * m2)) by (nonlinear_arith)
        requires
            ss * x3.d <= x3.n * m2 && sss >= 1,
    {
    }
    assert(sss * (ss * x3.d) == (ss * sss) * x3.d) by (nonlinear_arith);
    assert(sss * (x3.n * m2) == (m2 * sss) * x3.n) by (nonlinear_arith);
    assert(1 * d3.d <= d3.n * 1);
    let c = sss * ss;
    assert(c >= 1) by (nonlinear_arith)
        requires
            sss >= 1 && ss >= 1 && c == sss * ss,
    {
    }
    assert(c * (x3.n * m2) < c * ((s + 1) * (s + 1) * x3.d)) by (nonlinear_arith)
        requires
            x3.n * m2 < (s + 1) * (s + 1) * x3.d && c >= 1,
    {
    }
    assert(c * (x3.n * m2) == ((m2 * sss) * x3.n) * (s * s)) by (nonlinear_arith)
        requires
            c == sss * ss && ss == s * s,
    {
    }
    assert(c * ((s + 1) * (s + 1) * x3.d) == ((s + 1) * (s + 1)) * ((ss * sss) * x3.d))
        by (nonlinear_arith)
        requires
            c == sss * ss,
    {
    }
    assert(d3.n * (s * s) < ((s + 1) * (s + 1)) * d3.d);
}

/// Law: normalizing any nonzero tuple yields a tuple whose magnitude is
/// tolerance-equal to 1. Here `u` is the result of `v.normalize()` and
/// `m` the result of `u.magnitude()`, as those contracts describe them.
pub proof fn lemma_normalize_magnitude_near_one(v: Tuple, u: Tuple, m: Rat)
    requires
        v.wf(),
        u.wf(),
        m.wf(),
        !v4_is_zero(v@),
        exists|s: int, mm: int|
            crate::rat::sqrt_approx_of(v4_dot(v@, v@), s, mm) && s >= 1000000000 && v4_eq(
                u@,
                v4_div(v@, Ratio { n: s, d: mm }),
            ),
        m@.n >= 0,
        exists|s2: int, mm2: int|
            crate::rat::sqrt_approx_of(v4_dot(u@, u@), s2, mm2) && ratio_eq(
                m@,
                Ratio { n: s2, d: mm2 },
            ),
    ensures
        ratio_approx_eq(m@, ratio_int(1)),
{
    let x = v4_dot(v@, v@);
    lemma_dot_self_sign(v@);
    let (s, mm) = choose|s: int, mm: int|
        crate::rat::sqrt_approx_of(v4_dot(v@, v@), s, mm) && s >= 1000000000 && v4_eq(
            u@,
            v4_div(v@, Ratio { n: s, d: mm }),
        );
    let sv = Ratio { n: s, d: mm };
    lemma_dot_div_bounds(v@, sv, s, mm);
    let dvv = v4_div(v@, sv);
    assert(v4_wf(dvv)) by {
        lemma_ratio_ops_wf(v@.x, sv);
        lemma_ratio_ops_wf(v@.y, sv);
        lemma_ratio_ops_wf(v@.z, sv);
        lemma_ratio_ops_wf(v@.w, sv);
    }
    let dd = v4_dot(dvv, dvv);
    let du = v4_dot(u@, u@);
    lemma_dot_congruence(u@, u@, dvv, dvv);
    lemma_v4_dot_wf(u@, u@);
    lemma_v4_dot_wf(dvv, dvv);
    let q = Ratio { n: (s + 1) * (s + 1), d: s * s };
    assert(ratio_wf(q)) by (nonlinear_arith)
        requires
            s >= 1,
            q.d == s * s,
    {
    }
    crate::rat::lemma_order_congruence(ratio_int(1), dd, ratio_int(1), du);
    crate::rat::lemma_order_congruence(dd, q, du, q);
    assert(ratio_le(ratio_int(1), du));
    assert(ratio_lt(du, q));
    assert(du.d <= du.n);
    assert(du.n * (s * s) < (s + 1) * (s + 1) * du.d);
    let (s2, mm2) = choose|s2: int, mm2: int|
        crate::rat::sqrt_approx_of(v4_dot(u@, u@), s2, mm2) && ratio_eq(
            m@,
            Ratio { n: s2, d: mm2 },
        );
    assert((s2 + 1) * (s2 + 1) * du.d > (mm2 * mm2) * du.d) by (nonlinear_arith)
        requires
            du.n * (mm2 * mm2) < (s2 + 1) * (s2 + 1) * du.d,
            du.d <= du.n,
            du.d > 0,
            mm2 >= 1,
    {
    }
    assert((s2 + 1) * (s2 + 1) > mm2 * mm2) by (nonlinear_arith)
        requires
            (s2 + 1) * (s2 + 1) * du.d > (mm2 * mm2) * du.d && du.d > 0,
    {
    }
    assert(mm2 <= s2) by (nonlinear_arith)
        requires
            (s2 + 1) * (s2 + 1) > mm2 * mm2 && s2 >= 0 && mm2 >= 1,
    {
    }
    assert((s2 * s) * (s2 * s) < ((s + 1) * mm2) * ((s + 1) * mm2)) by (nonlinear_arith)
        requires
            s2 * s2 * du.d <= du.n * (mm2 * mm2),
            du.n * (s * s) < (s + 1) * (s + 1) * du.d,
            du.d > 0,
            du.n >= du.d,
            mm2 >= 1,
            s >= 1,
            s2 >= 0,
    {
    }
    assert(s2 * s < (s + 1) * mm2) by (nonlinear_arith)
        requires
            (s2 * s) * (s2 * s) < ((s + 1) * mm2) * ((s + 1) * mm2) && s2 * s >= 0 && (s + 1)
                * mm2 >= 0,
    {
    }
    assert(s * (s2 - mm2) < mm2) by (nonlinear_arith)
        requires
            s2 * s < (s + 1) * mm2,
    {
    }
    assert(100000 * (s2 - mm2) < mm2) by (nonlinear_arith)
        requires
            s >= 1000000000 && s * (s2 - mm2) < mm2 && s2 - mm2 >= 0 && mm2 >= 1,
    {
    }
    assert(ratio_approx_eq(Ratio { n: s2, d: mm2 }, ratio_int(1))) by (nonlinear_arith)
        requires
            0 <= s2 - mm2 && 100000 * (s2 - mm2) < mm2 && mm2 >= 1,
    {
    }
    crate::rat::lemma_approx_congruence(
        Ratio { n: s2, d: mm2 },
        ratio_int(1),
        m@,
        ratio_int(1),
    );
}

/// Sign facts for a square: nonnegative, and positive exactly when the
/// base is nonzero.
proof fn lemma_sq_sign(c: Ratio)
    by (nonlinear_arith)
    requires
        ratio_wf(c),
    ensures
        ratio_wf(ratio_mul(c, c)),
        ratio_mul(c, c).n >= 0,
        (ratio_mul(c, c).n > 0) == (c.n != 0),
{
}

/// Sign facts for a sum of nonnegative scalars.
proof fn lemma_add_sign(p: Ratio, q: Ratio)
    by (nonlinear_arith)
    requires
        ratio_wf(p),
        ratio_wf(q),
        p.n >= 0,
        q.n >= 0,
    ensures
        ratio_wf(ratio_add(p, q)),
        ratio_add(p, q).n >= 0,
        (ratio_add(p, q).n > 0) == (p.n > 0 || q.n > 0),
{
}

/// The dot product of a tuple with itself is a sum of squares: it is well
/// formed, nonnegative, and positive exactly when the tuple is nonzero.
pub proof fn lemma_dot_self_sign(a: V4)
    requires
        v4_wf(a),
    ensures
        ratio_wf(v4_dot(a, a)),
        v4_dot(a, a).n >= 0,
        (v4_dot(a, a).n > 0) == !v4_is_zero(a),
{
    lemma_sq_sign(a.x);
    lemma_sq_sign(a.y);
    lemma_sq_sign(a.z);
    lemma_sq_sign(a.w);
    lemma_add_sign(ratio_mul(a.x, a.x), ratio_mul(a.y, a.y));
    lemma_add_sign(ratio_add(ratio_mul(a.x, a.x), ratio_mul(a.y, a.y)), ratio_mul(a.z, a.z));
    lemma_add_sign(
        ratio_add(ratio_add(ratio_mul(a.x, a.x), ratio_mul(a.y, a.y)), ratio_mul(a.z, a.z)),
        ratio_mul(a.w, a.w),
    );
}

/// Adding and then subtracting the same scalar returns the start value.
pub proof fn lemma_ratio_add_sub_cancel(a: Ratio, v: Ratio)
    requires
        ratio_wf(a),
        ratio_wf(v),
    ensures
        ratio_eq(ratio_sub(ratio_add(a, v), v), a),
{
    assert(((a.n * v.d + v.n * a.d) * v.d - v.n * (a.d * v.d)) * a.d == a.n * ((a.d * v.d)
        * v.d)) by (nonlinear_arith);
}

/// Subtracting a scalar from itself yields zero.
proof fn lemma_ratio_sub_self(a: Ratio)
    by (nonlinear_arith)
    requires
        ratio_wf(a),
    ensures
        ratio_eq(ratio_sub(a, a), ratio_int(0)),
{
}

/// Law: for every tuple `p` and vector `v`, the tuple `(p + v) - v` is the
/// same tuple as `p`, and in particular tolerance-equal to it. The
/// parameters `s` and `r` are the results of the two operations, as the
/// contracts of `add` and `sub` describe them.
pub proof fn lemma_add_then_sub_returns_start(p: Tuple, v: Tuple, s: Tuple, r: Tuple)
    requires
        p.wf(),
        v.wf(),
        s.wf(),
        r.wf(),
        v4_eq(s@, v4_add(p@, v@)),
        v4_eq(r@, v4_sub(s@, v@)),
    ensures
        v4_eq(r@, p@),
        v4_approx_eq(r@, p@),
{
    lemma_p1_component(p@.x, v@.x, s@.x, r@.x);
    lemma_p1_component(p@.y, v@.y, s@.y, r@.y);
    lemma_p1_component(p@.z, v@.z, s@.z, r@.z);
    lemma_p1_component(p@.w, v@.w, s@.w, r@.w);
}

proof fn lemma_p1_component(pc: Ratio, vc: Ratio, sc: Ratio, rc: Ratio)
    requires
        ratio_wf(pc),
        ratio_wf(vc),
        ratio_wf(sc),
        ratio_wf(rc),
        ratio_eq(sc, ratio_add(pc, vc)),
        ratio_eq(rc, ratio_sub(sc, vc)),
    ensures
        ratio_eq(rc, pc),
        ratio_approx_eq(rc, pc),
{
    lemma_ratio_ops_wf(pc, vc);
    lemma_ratio_ops_wf(ratio_add(pc, vc), vc);
    lemma_sub_eq_chain(rc, sc, vc, ratio_add(pc, vc), vc);
    lemma_ratio_add_sub_cancel(pc, vc);
    lemma_ratio_eq_trans(rc, ratio_sub(ratio_add(pc, vc), vc), pc);
    lemma_eq_implies_approx(rc, pc);
}

/// Law: for every tuple `p`, the difference `p - p` is the zero vector:
/// all four components, the `w` component included, are exactly zero.
pub proof fn lemma_sub_self_is_zero_vector(p: Tuple, r: Tuple)
    requires
        p.wf(),
        r.wf(),
        v4_eq(r@, v4_sub(p@, p@)),
    ensures
        ratio_eq(r@.x, ratio_int(0)),
        ratio_eq(r@.y, ratio_int(0)),
        ratio_eq(r@.z, ratio_int(0)),
        ratio_eq(r@.w, ratio_int(0)),
{
    lemma_ratio_sub_self(p@.x);
    lemma_ratio_sub_self(p@.y);
    lemma_ratio_sub_self(p@.z);
    lemma_ratio_sub_self(p@.w);
    lemma_ratio_ops_wf(p@.x, p@.x);
    lemma_ratio_ops_wf(p@.y, p@.y);
    lemma_ratio_ops_wf(p@.z, p@.z);
    lemma_ratio_ops_wf(p@.w, p@.w);
    lemma_ratio_eq_trans(r@.x, ratio_sub(p@.x, p@.x), ratio_int(0));
    lemma_ratio_eq_trans(r@.y, ratio_sub(p@.y, p@.y), ratio_int(0));
    lemma_ratio_eq_trans(r@.z, ratio_sub(p@.z, p@.z), ratio_int(0));
    lemma_ratio_eq_trans(r@.w, ratio_sub(p@.w, p@.w), ratio_int(0));
}

/// Multiplication of scalars is commutative up to exact equality.
proof fn lemma_ratio_mul_comm(p: Ratio, q: Ratio)
    by (nonlinear_arith)
    requires
        ratio_wf(p),
        ratio_wf(q),
    ensures
        ratio_eq(ratio_mul(p, q), ratio_mul(q, p)),
{
}

/// Swapping the operands of a difference negates it.
proof fn lemma_ratio_sub_flip(p: Ratio, q: Ratio)
    requires
        ratio_wf(p),
        ratio_wf(q),
    ensures
        ratio_eq(ratio_sub(p, q), ratio_neg(ratio_sub(q, p))),
{
    assert((p.n * q.d - q.n * p.d) * (q.d * p.d) == (-(q.n * p.d - p.n * q.d)) * (p.d
        * q.d)) by (nonlinear_arith);
}

proof fn lemma_p3_component(ayn: Ratio, bzn: Ratio, azn: Ratio, byn: Ratio)
    requires
        ratio_wf(ayn),
        ratio_wf(bzn),
        ratio_wf(azn),
        ratio_wf(byn),
    ensures
        ratio_eq(
            ratio_sub(ratio_mul(ayn, bzn), ratio_mul(azn, byn)),
            ratio_neg(ratio_sub(ratio_mul(byn, azn), ratio_mul(bzn, ayn))),
        ),
{
    let m1 = ratio_mul(ayn, bzn);
    let m2 = ratio_mul(azn, byn);
    let m1f = ratio_mul(bzn, ayn);
    let m2f = ratio_mul(byn, azn);
    lemma_ratio_ops_wf(ayn, bzn);
    lemma_ratio_ops_wf(azn, byn);
    lemma_ratio_ops_wf(byn, azn);
    lemma_ratio_ops_wf(bzn, ayn);
    lemma_ratio_mul_comm(ayn, bzn);
    lemma_ratio_mul_comm(azn, byn);
    lemma_ratio_sub_flip(m1, m2);
    crate::rat::lemma_sub_congruence(m2f, m1f, m2, m1);
    crate::rat::lemma_neg_congruence(ratio_sub(m2f, m1f), ratio_sub(m2, m1));
    lemma_ratio_ops_wf(m1, m2);
    lemma_ratio_ops_wf(m2, m1);
    lemma_ratio_ops_wf(m2f, m1f);
    crate::rat::lemma_ratio_eq_trans(
        ratio_sub(m1, m2),
        ratio_neg(ratio_sub(m2, m1)),
        ratio_neg(ratio_sub(m2f, m1f)),
    );
}

/// Law: the cross product is antisymmetric. If `ab` is `cross(a, b)` and
/// `ba` is `cross(b, a)`, as the contract of `cross` describes them, then
/// `ab` is exactly the negation of `ba`.
pub proof fn lemma_cross_antisymmetric(a: Tuple, b: Tuple, ab: Tuple, ba: Tuple)
    requires
        a.wf(),
        b.wf(),
        ab.wf(),
        ba.wf(),
        v4_eq(ab@, v4_cross(a@, b@)),
        v4_eq(ba@, v4_cross(b@, a@)),
    ensures
        v4_eq(ab@, v4_neg(ba@)),
{
    lemma_p3_component(a@.y, b@.z, a@.z, b@.y);
    lemma_p3_component(a@.z, b@.x, a@.x, b@.z);
    lemma_p3_component(a@.x, b@.y, a@.y, b@.x);
    lemma_cross_chain(a@.y, b@.z, a@.z, b@.y, ab@.x, ba@.x);
    lemma_cross_chain(a@.z, b@.x, a@.x, b@.z, ab@.y, ba@.y);
    lemma_cross_chain(a@.x, b@.y, a@.y, b@.x, ab@.z, ba@.z);
    assert(ratio_eq(ab@.w, ratio_neg(ba@.w))) by (nonlinear_arith)
        requires
            ab@.w.n * 1 == 0 * ab@.w.d && ba@.w.n * 1 == 0 * ba@.w.d && ab@.w.d > 0 && ba@.w.d
                > 0,
    {
    }
}

proof fn lemma_cross_chain(p: Ratio, q: Ratio, r2: Ratio, s2: Ratio, abc: Ratio, bac: Ratio)
    requires
        ratio_wf(p),
        ratio_wf(q),
        ratio_wf(r2),
        ratio_wf(s2),
        ratio_wf(abc),
        ratio_wf(bac),
        ratio_eq(abc, ratio_sub(ratio_mul(p, q), ratio_mul(r2, s2))),
        ratio_eq(bac, ratio_sub(ratio_mul(s2, r2), ratio_mul(q, p))),
        ratio_eq(
            ratio_sub(ratio_mul(p, q), ratio_mul(r2, s2)),
            ratio_neg(ratio_sub(ratio_mul(s2, r2), ratio_mul(q, p))),
        ),
    ensures
        ratio_eq(abc, ratio_neg(bac)),
{
    let fwd = ratio_sub(ratio_mul(p, q), ratio_mul(r2, s2));
    let rev = ratio_sub(ratio_mul(s2, r2), ratio_mul(q, p));
    lemma_ratio_ops_wf(p, q);
    lemma_ratio_ops_wf(r2, s2);
    lemma_ratio_ops_wf(s2, r2);
    lemma_ratio_ops_wf(q, p);
    lemma_ratio_ops_wf(ratio_mul(p, q), ratio_mul(r2, s2));
    lemma_ratio_ops_wf(ratio_mul(s2, r2), ratio_mul(q, p));
    crate::rat::lemma_neg_congruence(rev, bac);
    lemma_ratio_eq_trans(abc, fwd, ratio_neg(rev));
    lemma_ratio_ops_wf(rev, rev);
    lemma_ratio_eq_trans(abc, ratio_neg(rev), ratio_neg(bac));
}

/// Componentwise exact equality of tuples is transitive.
pub proof fn lemma_v4_eq_trans(a: V4, b: V4, c: V4)
    requires
        v4_wf(a),
        v4_wf(b),
        v4_wf(c),
        v4_eq(a, b),
        v4_eq(b, c),
    ensures
        v4_eq(a, c),
{
    lemma_ratio_eq_trans(a.x, b.x, c.x);
    lemma_ratio_eq_trans(a.y, b.y, c.y);
    lemma_ratio_eq_trans(a.z, b.z, c.z);
    lemma_ratio_eq_trans(a.w, b.w, c.w);
}

/// The dot product respects exact equality of its operands.
pub proof fn lemma_dot_congruence(a: V4, b: V4, a2: V4, b2: V4)
    requires
        v4_wf(a),
        v4_wf(b),
        v4_wf(a2),
        v4_wf(b2),
        v4_eq(a, a2),
        v4_eq(b, b2),
    ensures
        ratio_eq(v4_dot(a, b), v4_dot(a2, b2)),
{
    crate::rat::lemma_mul_congruence(a.x, b.x, a2.x, b2.x);
    crate::rat::lemma_mul_congruence(a.y, b.y, a2.y, b2.y);
    crate::rat::lemma_mul_congruence(a.z, b.z, a2.z, b2.z);
    crate::rat::lemma_mul_congruence(a.w, b.w, a2.w, b2.w);
    lemma_ratio_ops_wf(a.x, b.x);
    lemma_ratio_ops_wf(a.y, b.y);
    lemma_ratio_ops_wf(a.z, b.z);
    lemma_ratio_ops_wf(a.w, b.w);
    lemma_ratio_ops_wf(a2.x, b2.x);
    lemma_ratio_ops_wf(a2.y, b2.y);
    lemma_ratio_ops_wf(a2.z, b2.z);
    lemma_ratio_ops_wf(a2.w, b2.w);
    crate::rat::lemma_add_congruence(
        ratio_mul(a.x, b.x),
        ratio_mul(a.y, b.y),
        ratio_mul(a2.x, b2.x),
        ratio_mul(a2.y, b2.y),
    );
    lemma_ratio_ops_wf(ratio_mul(a.x, b.x), ratio_mul(a.y, b.y));
    lemma_ratio_ops_wf(ratio_mul(a2.x, b2.x), ratio_mul(a2.y, b2.y));
    crate::rat::lemma_add_congruence(
        ratio_add(ratio_mul(a.x, b.x), ratio_mul(a.y, b.y)),
        ratio_mul(a.z, b.z),
        ratio_add(ratio_mul(a2.x, b2.x), ratio_mul(a2.y, b2.y)),
        ratio_mul(a2.z, b2.z),
    );
    lemma_ratio_ops_wf(
        ratio_add(ratio_mul(a.x, b.x), ratio_mul(a.y, b.y)),
        ratio_mul(a.z, b.z),
    );
    lemma_ratio_ops_wf(
        ratio_add(ratio_mul(a2.x, b2.x), ratio_mul(a2.y, b2.y)),
        ratio_mul(a2.z, b2.z),
    );
    crate::rat::lemma_add_congruence(
        ratio_add(ratio_add(ratio_mul(a.x, b.x), ratio_mul(a.y, b.y)), ratio_mul(a.z, b.z)),
        ratio_mul(a.w, b.w),
        ratio_add(ratio_add(ratio_mul(a2.x, b2.x), ratio_mul(a2.y, b2.y)), ratio_mul(a2.z, b2.z)),
        ratio_mul(a2.w, b2.w),
    );
}

/// The dot product of well-formed tuples is well formed.
pub proof fn lemma_v4_dot_wf(a: V4, b: V4)
    requires
        v4_wf(a),
        v4_wf(b),
    ensures
        ratio_wf(v4_dot(a, b)),
{
    lemma_ratio_ops_wf(a.x, b.x);
    lemma_ratio_ops_wf(a.y, b.y);
    lemma_ratio_ops_wf(a.z, b.z);
    lemma_ratio_ops_wf(a.w, b.w);
    lemma_ratio_ops_wf(ratio_mul(a.x, b.x), ratio_mul(a.y, b.y));
    lemma_ratio_ops_wf(
        ratio_add(ratio_mul(a.x, b.x), ratio_mul(a.y, b.y)),
        ratio_mul(a.z, b.z),
    );
    lemma_ratio_ops_wf(
        ratio_add(ratio_add(ratio_mul(a.x, b.x), ratio_mul(a.y, b.y)), ratio_mul(a.z, b.z)),
        ratio_mul(a.w, b.w),
    );
}

} // verus!
