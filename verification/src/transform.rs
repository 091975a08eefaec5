//! Affine transform builders.
//!
//! Each builder constructs its elementary 4-by-4 transform and multiplies
//! it onto the current matrix from the left, so that in a chain of calls
//! the transform named last is applied last to a point. Rotations take
//! the cosine and sine of the angle as scalars, since the trigonometric
//! functions of an angle are in general irrational; callers supply them
//! to whatever precision they need.

use crate::matrix::mat_eq;
use crate::matrix::mat_mul_spec;
use crate::matrix::mat_tuple_mul_spec;
use crate::matrix::mat_tuple_row;
use crate::matrix::MatV;
use crate::matrix::Matrix;
use crate::rat::lemma_add_zero_num;
use crate::rat::lemma_ratio_eq_trans;
use crate::rat::lemma_ratio_ops_wf;
use crate::rat::ratio_add;
use crate::rat::ratio_eq;
use crate::rat::ratio_int;
use crate::rat::ratio_mul;
use crate::rat::ratio_neg;
use crate::rat::ratio_sub;
use crate::rat::ratio_wf;
use crate::rat::Rat;
use crate::rat::Ratio;
use crate::tuple::v4_approx_eq;
use crate::tuple::v4_eq;
use crate::tuple::v4_wf;
use crate::tuple::V4;
use vstd::prelude::*;

verus! {

/// The translation matrix moving a point by `(x, y, z)`.
pub open spec fn translation_spec(x: Ratio, y: Ratio, z: Ratio) -> MatV {
    seq![
        seq![ratio_int(1), ratio_int(0), ratio_int(0), x],
        seq![ratio_int(0), ratio_int(1), ratio_int(0), y],
        seq![ratio_int(0), ratio_int(0), ratio_int(1), z],
        seq![ratio_int(0), ratio_int(0), ratio_int(0), ratio_int(1)],
    ]
}

/// The scaling matrix with factors `(x, y, z)` on the diagonal.
pub open spec fn scaling_spec(x: Ratio, y: Ratio, z: Ratio) -> MatV {
    seq![
        seq![x, ratio_int(0), ratio_int(0), ratio_int(0)],
        seq![ratio_int(0), y, ratio_int(0), ratio_int(0)],
        seq![ratio_int(0), ratio_int(0), z, ratio_int(0)],
        seq![ratio_int(0), ratio_int(0), ratio_int(0), ratio_int(1)],
    ]
}

/// Rotation about the x axis, given the cosine and sine of the angle.
pub open spec fn rotation_x_spec(c: Ratio, s: Ratio) -> MatV {
    seq![
        seq![ratio_int(1), ratio_int(0), ratio_int(0), ratio_int(0)],
        seq![ratio_int(0), c, ratio_neg(s), ratio_int(0)],
        seq![ratio_int(0), s, c, ratio_int(0)],
        seq![ratio_int(0), ratio_int(0), ratio_int(0), ratio_int(1)],
    ]
}

/// Rotation about the y axis, given the cosine and sine of the angle.
pub open spec fn rotation_y_spec(c: Ratio, s: Ratio) -> MatV {
    seq![
        seq![c, ratio_int(0), s, ratio_int(0)],
        seq![ratio_int(0), ratio_int(1), ratio_int(0), ratio_int(0)],
        seq![ratio_neg(s), ratio_int(0), c, ratio_int(0)],
        seq![ratio_int(0), ratio_int(0), ratio_int(0), ratio_int(1)],
    ]
}

/// Rotation about the z axis, given the cosine and sine of the angle.
pub open spec fn rotation_z_spec(c: Ratio, s: Ratio) -> MatV {
    seq![
        seq![c, ratio_neg(s), ratio_int(0), ratio_int(0)],
        seq![s, c, ratio_int(0), ratio_int(0)],
        seq![ratio_int(0), ratio_int(0), ratio_int(1), ratio_int(0)],
        seq![ratio_int(0), ratio_int(0), ratio_int(0), ratio_int(1)],
    ]
}

/// The shearing matrix: each coordinate moves in proportion to the
/// other two.
pub open spec fn shearing_spec(
    xy: Ratio,
    xz: Ratio,
    yx: Ratio,
    yz: Ratio,
    zx: Ratio,
    zy: Ratio,
) -> MatV {
    seq![
        seq![ratio_int(1), xy, xz, ratio_int(0)],
        seq![yx, ratio_int(1), yz, ratio_int(0)],
        seq![zx, zy, ratio_int(1), ratio_int(0)],
        seq![ratio_int(0), ratio_int(0), ratio_int(0), ratio_int(1)],
    ]
}

/// One coordinate row of a translation matrix: a unit entry picks the
/// coordinate, the zero entries drop out, and the offset adds `o * w`.
proof fn lemma_unit_row(e0: Ratio, e1: Ratio, e2: Ratio, e3: Ratio, t0: Ratio, t1: Ratio, t2: Ratio, t3: Ratio)
    requires
        ratio_wf(t0),
        ratio_wf(t1),
        ratio_wf(t2),
        ratio_wf(t3),
        ratio_wf(e3),
        e0 == ratio_int(1),
        e1 == ratio_int(0),
        e2 == ratio_int(0),
    ensures
        ratio_eq(
            ratio_add(
                ratio_add(ratio_add(ratio_mul(e0, t0), ratio_mul(e1, t1)), ratio_mul(e2, t2)),
                ratio_mul(e3, t3),
            ),
            ratio_add(t0, ratio_mul(e3, t3)),
        ),
{
    assert(ratio_mul(e0, t0).n == t0.n && ratio_mul(e0, t0).d == t0.d);
    assert(ratio_mul(e0, t0) =~= t0);
    let z1 = ratio_mul(e1, t1);
    let z2 = ratio_mul(e2, t2);
    assert(z1.n == 0 && z1.d == t1.d);
    assert(z2.n == 0 && z2.d == t2.d);
    let m = ratio_mul(e3, t3);
    lemma_add_zero_num(t0, z1);
    lemma_add_zero_num(ratio_add(t0, z1), z2);
    lemma_ratio_ops_wf(t0, z1);
    lemma_ratio_ops_wf(ratio_add(t0, z1), z2);
    lemma_ratio_eq_trans(ratio_add(ratio_add(t0, z1), z2), ratio_add(t0, z1), t0);
    lemma_ratio_ops_wf(e3, t3);
    crate::rat::lemma_add_congruence(ratio_add(ratio_add(t0, z1), z2), m, t0, m);
}

/// The last row of a translation matrix: the three zero entries drop out
/// and the unit entry returns `w` itself.
proof fn lemma_last_row(e0: Ratio, e1: Ratio, e2: Ratio, e3: Ratio, t0: Ratio, t1: Ratio, t2: Ratio, t3: Ratio)
    requires
        ratio_wf(t0),
        ratio_wf(t1),
        ratio_wf(t2),
        ratio_wf(t3),
        e0 == ratio_int(0),
        e1 == ratio_int(0),
        e2 == ratio_int(0),
        e3 == ratio_int(1),
    ensures
        ratio_eq(
            ratio_add(
                ratio_add(ratio_add(ratio_mul(e0, t0), ratio_mul(e1, t1)), ratio_mul(e2, t2)),
                ratio_mul(e3, t3),
            ),
            t3,
        ),
{
    let z1 = ratio_mul(e0, t0);
    let z2 = ratio_mul(e1, t1);
    let z3 = ratio_mul(e2, t2);
    assert(z1.n == 0 && z1.d == t0.d);
    assert(z2.n == 0 && z2.d == t1.d);
    assert(z3.n == 0 && z3.d == t2.d);
    assert(ratio_mul(e3, t3).n == t3.n && ratio_mul(e3, t3).d == t3.d);
    assert(ratio_mul(e3, t3) =~= t3);
    let s12 = ratio_add(z1, z2);
    assert(s12.n == 0);
    let s123 = ratio_add(s12, z3);
    assert(s123.n == 0);
    assert(ratio_wf(s12) && ratio_wf(s123)) by (nonlinear_arith)
        requires
            z1.d > 0 && z2.d > 0 && z3.d > 0 && s12 == ratio_add(z1, z2) && s123 == ratio_add(
                ratio_add(z1, z2),
                z3,
            ),
    {
    }
    lemma_add_zero_num(t3, s123);
}

/// What a translation matrix does to a tuple: each coordinate moves by
/// its offset scaled by `w`, and `w` itself is unchanged.
proof fn lemma_translate_apply(x: Ratio, y: Ratio, z: Ratio, t: V4)
    requires
        ratio_wf(x),
        ratio_wf(y),
        ratio_wf(z),
        v4_wf(t),
    ensures
        ({
            let u = mat_tuple_mul_spec(translation_spec(x, y, z), t);
            &&& ratio_eq(u.x, ratio_add(t.x, ratio_mul(x, t.w)))
            &&& ratio_eq(u.y, ratio_add(t.y, ratio_mul(y, t.w)))
            &&& ratio_eq(u.z, ratio_add(t.z, ratio_mul(z, t.w)))
            &&& ratio_eq(u.w, t.w)
        }),
{
    let m = translation_spec(x, y, z);
    assert(m[0][0] == ratio_int(1) && m[0][1] == ratio_int(0) && m[0][2] == ratio_int(0) && m[0][3]
        == x);
    assert(m[1][1] == ratio_int(1) && m[1][0] == ratio_int(0) && m[1][2] == ratio_int(0) && m[1][3]
        == y);
    assert(m[2][2] == ratio_int(1) && m[2][0] == ratio_int(0) && m[2][1] == ratio_int(0) && m[2][3]
        == z);
    assert(m[3][0] == ratio_int(0) && m[3][1] == ratio_int(0) && m[3][2] == ratio_int(0) && m[3][3]
        == ratio_int(1));
    lemma_unit_row(m[0][0], m[0][1], m[0][2], m[0][3], t.x, t.y, t.z, t.w);
    lemma_unit_row_mid(m[1][0], m[1][1], m[1][2], m[1][3], t.x, t.y, t.z, t.w);
    lemma_unit_row_third(m[2][0], m[2][1], m[2][2], m[2][3], t.x, t.y, t.z, t.w);
    lemma_last_row(m[3][0], m[3][1], m[3][2], m[3][3], t.x, t.y, t.z, t.w);
}

/// As `lemma_unit_row`, with the unit entry in second position.
proof fn lemma_unit_row_mid(e0: Ratio, e1: Ratio, e2: Ratio, e3: Ratio, t0: Ratio, t1: Ratio, t2: Ratio, t3: Ratio)
    requires
        ratio_wf(t0),
        ratio_wf(t1),
        ratio_wf(t2),
        ratio_wf(t3),
        ratio_wf(e3),
        e0 == ratio_int(0),
        e1 == ratio_int(1),
        e2 == ratio_int(0),
    ensures
        ratio_eq(
            ratio_add(
                ratio_add(ratio_add(ratio_mul(e0, t0), ratio_mul(e1, t1)), ratio_mul(e2, t2)),
                ratio_mul(e3, t3),
            ),
            ratio_add(t1, ratio_mul(e3, t3)),
        ),
{
    let z1 = ratio_mul(e0, t0);
    let z2 = ratio_mul(e2, t2);
    assert(z1.n == 0 && z1.d == t0.d);
    assert(z2.n == 0 && z2.d == t2.d);
    assert(ratio_mul(e1, t1).n == t1.n && ratio_mul(e1, t1).d == t1.d);
    assert(ratio_mul(e1, t1) =~= t1);
    let m = ratio_mul(e3, t3);
    lemma_add_zero_num(t1, z1);
    assert(ratio_add(z1, t1) == ratio_add(ratio_mul(e0, t0), ratio_mul(e1, t1)));
    lemma_add_zero_num(ratio_add(z1, t1), z2);
    lemma_ratio_ops_wf(z1, t1);
    lemma_ratio_ops_wf(ratio_add(z1, t1), z2);
    lemma_ratio_eq_trans(ratio_add(ratio_add(z1, t1), z2), ratio_add(z1, t1), t1);
    lemma_ratio_ops_wf(e3, t3);
    crate::rat::lemma_add_congruence(ratio_add(ratio_add(z1, t1), z2), m, t1, m);
}

/// As `lemma_unit_row`, with the unit entry in third position.
proof fn lemma_unit_row_third(e0: Ratio, e1: Ratio, e2: Ratio, e3: Ratio, t0: Ratio, t1: Ratio, t2: Ratio, t3: Ratio)
    requires
        ratio_wf(t0),
        ratio_wf(t1),
        ratio_wf(t2),
        ratio_wf(t3),
        ratio_wf(e3),
        e0 == ratio_int(0),
        e1 == ratio_int(0),
        e2 == ratio_int(1),
    ensures
        ratio_eq(
            ratio_add(
                ratio_add(ratio_add(ratio_mul(e0, t0), ratio_mul(e1, t1)), ratio_mul(e2, t2)),
                ratio_mul(e3, t3),
            ),
            ratio_add(t2, ratio_mul(e3, t3)),
        ),
{
    let z1 = ratio_mul(e0, t0);
    let z2 = ratio_mul(e1, t1);
    assert(z1.n == 0 && z1.d == t0.d);
    assert(z2.n == 0 && z2.d == t1.d);
    assert(ratio_mul(e2, t2).n == t2.n && ratio_mul(e2, t2).d == t2.d);
    assert(ratio_mul(e2, t2) =~= t2);
    let s12 = ratio_add(z1, z2);
    assert(s12.n == 0);
    assert(ratio_wf(s12)) by (nonlinear_arith)
        requires
            z1.d > 0 && z2.d > 0 && s12 == ratio_add(z1, z2),
    {
    }
    let m = ratio_mul(e3, t3);
    lemma_add_zero_num(t2, s12);
    assert(ratio_add(s12, t2) == ratio_add(ratio_add(ratio_mul(e0, t0), ratio_mul(e1, t1)), ratio_mul(e2, t2)));
    lemma_ratio_ops_wf(s12, t2);
    lemma_ratio_ops_wf(e3, t3);
    crate::rat::lemma_add_congruence(ratio_add(s12, t2), m, t2, m);
}


/// Law: translating any tuple by `(x, y, z)` and then by the negated
/// offsets returns the starting tuple, exactly and so within tolerance.
/// `q` and `r` are the two applications, as the contracts of `translate`
/// and `mul_tuple` describe them.
pub proof fn lemma_translate_round_trip(x: Ratio, y: Ratio, z: Ratio, t: V4, q: V4, r: V4)
    requires
        ratio_wf(x),
        ratio_wf(y),
        ratio_wf(z),
        v4_wf(t),
        v4_wf(q),
        v4_wf(r),
        v4_eq(q, mat_tuple_mul_spec(translation_spec(x, y, z), t)),
        v4_eq(
            r,
            mat_tuple_mul_spec(translation_spec(ratio_neg(x), ratio_neg(y), ratio_neg(z)), q),
        ),
    ensures
        v4_eq(r, t),
        v4_approx_eq(r, t),
{
    lemma_translate_apply(x, y, z, t);
    lemma_translate_apply(ratio_neg(x), ratio_neg(y), ratio_neg(z), q);
    let u = mat_tuple_mul_spec(translation_spec(x, y, z), t);
    let v = mat_tuple_mul_spec(translation_spec(ratio_neg(x), ratio_neg(y), ratio_neg(z)), q);
    lemma_row_wf(translation_spec(x, y, z), t);
    lemma_row_wf(translation_spec(ratio_neg(x), ratio_neg(y), ratio_neg(z)), q);
    // q's components in terms of t, and w preserved.
    lemma_ratio_ops_wf(x, t.w);
    lemma_ratio_ops_wf(y, t.w);
    lemma_ratio_ops_wf(z, t.w);
    lemma_ratio_ops_wf(t.x, ratio_mul(x, t.w));
    lemma_ratio_ops_wf(t.y, ratio_mul(y, t.w));
    lemma_ratio_ops_wf(t.z, ratio_mul(z, t.w));
    lemma_ratio_eq_trans(q.x, u.x, ratio_add(t.x, ratio_mul(x, t.w)));
    lemma_ratio_eq_trans(q.y, u.y, ratio_add(t.y, ratio_mul(y, t.w)));
    lemma_ratio_eq_trans(q.z, u.z, ratio_add(t.z, ratio_mul(z, t.w)));
    lemma_ratio_eq_trans(q.w, u.w, t.w);
    lemma_round_trip_coord(x, t.x, t.w, q.x, q.w, r.x, v.x);
    lemma_round_trip_coord(y, t.y, t.w, q.y, q.w, r.y, v.y);
    lemma_round_trip_coord(z, t.z, t.w, q.z, q.w, r.z, v.z);
    lemma_ratio_eq_trans(r.w, v.w, q.w);
    lemma_ratio_eq_trans(r.w, q.w, t.w);
    crate::rat::lemma_eq_implies_approx(r.x, t.x);
    crate::rat::lemma_eq_implies_approx(r.y, t.y);
    crate::rat::lemma_eq_implies_approx(r.z, t.z);
    crate::rat::lemma_eq_implies_approx(r.w, t.w);
}

/// The rows of a translation matrix applied to a well-formed tuple are
/// well formed.
proof fn lemma_row_wf(m: MatV, t: V4)
    requires
        m.len() == 4,
        forall|i: int| 0 <= i < 4 ==> (#[trigger] m[i]).len() == 4,
        forall|i: int, j: int| 0 <= i < 4 && 0 <= j < 4 ==> ratio_wf(#[trigger] m[i][j]),
        v4_wf(t),
    ensures
        v4_wf(mat_tuple_mul_spec(m, t)),
{
    lemma_one_row_wf(m, t, 0);
    lemma_one_row_wf(m, t, 1);
    lemma_one_row_wf(m, t, 2);
    lemma_one_row_wf(m, t, 3);
}

proof fn lemma_one_row_wf(m: MatV, t: V4, r: int)
    requires
        m.len() == 4,
        forall|i: int| 0 <= i < 4 ==> (#[trigger] m[i]).len() == 4,
        forall|i: int, j: int| 0 <= i < 4 && 0 <= j < 4 ==> ratio_wf(#[trigger] m[i][j]),
        v4_wf(t),
        0 <= r < 4,
    ensures
        ratio_wf(mat_tuple_row(m, t, r)),
{
    lemma_ratio_ops_wf(m[r][0], t.x);
    lemma_ratio_ops_wf(m[r][1], t.y);
    lemma_ratio_ops_wf(m[r][2], t.z);
    lemma_ratio_ops_wf(m[r][3], t.w);
    lemma_ratio_ops_wf(ratio_mul(m[r][0], t.x), ratio_mul(m[r][1], t.y));
    lemma_ratio_ops_wf(
        ratio_add(ratio_mul(m[r][0], t.x), ratio_mul(m[r][1], t.y)),
        ratio_mul(m[r][2], t.z),
    );
    lemma_ratio_ops_wf(
        ratio_add(
            ratio_add(ratio_mul(m[r][0], t.x), ratio_mul(m[r][1], t.y)),
            ratio_mul(m[r][2], t.z),
        ),
        ratio_mul(m[r][3], t.w),
    );
}

/// One coordinate of the round trip: `(c + o*w) + (-o)*w` is `c` again.
proof fn lemma_round_trip_coord(
    o: Ratio,
    c: Ratio,
    w: Ratio,
    qc: Ratio,
    qw: Ratio,
    rc: Ratio,
    vc: Ratio,
)
    requires
        ratio_wf(o),
        ratio_wf(c),
        ratio_wf(w),
        ratio_wf(qc),
        ratio_wf(qw),
        ratio_wf(rc),
        ratio_wf(vc),
        ratio_eq(qc, ratio_add(c, ratio_mul(o, w))),
        ratio_eq(qw, w),
        ratio_eq(rc, vc),
        ratio_eq(vc, ratio_add(qc, ratio_mul(ratio_neg(o), qw))),
    ensures
        ratio_eq(rc, c),
{
    let m = ratio_mul(o, w);
    lemma_ratio_ops_wf(o, w);
    lemma_ratio_ops_wf(c, m);
    lemma_ratio_ops_wf(ratio_neg(o), qw);
    lemma_ratio_ops_wf(qc, ratio_mul(ratio_neg(o), qw));
    lemma_ratio_eq_trans(rc, vc, ratio_add(qc, ratio_mul(ratio_neg(o), qw)));
    // The negated product is the negation of the product.
    crate::rat::lemma_neg_mul(o.n, w.n);
    assert(ratio_mul(ratio_neg(o), w) =~= ratio_neg(m));
    crate::rat::lemma_mul_congruence(ratio_neg(o), qw, ratio_neg(o), w);
    crate::rat::lemma_add_congruence(
        qc,
        ratio_mul(ratio_neg(o), qw),
        ratio_add(c, m),
        ratio_mul(ratio_neg(o), w),
    );
    lemma_ratio_ops_wf(ratio_add(c, m), ratio_neg(m));
    crate::rat::lemma_neg_mul(m.n, ratio_add(c, m).d);
    assert(ratio_add(ratio_add(c, m), ratio_neg(m)) =~= ratio_sub(ratio_add(c, m), m));
    crate::tuple::lemma_ratio_add_sub_cancel(c, m);
    lemma_ratio_ops_wf(ratio_add(c, m), m);
    lemma_ratio_eq_trans(
        rc,
        ratio_add(qc, ratio_mul(ratio_neg(o), qw)),
        ratio_add(ratio_add(c, m), ratio_mul(ratio_neg(o), w)),
    );
    lemma_ratio_eq_trans(rc, ratio_add(ratio_add(c, m), ratio_mul(ratio_neg(o), w)), c);
}

/// Four scalars as one matrix row.
fn row4(a: Rat, b: Rat, c: Rat, d: Rat) -> (r: Vec<Rat>)
    ensures
        r@.len() == 4,
        r@[0] == a,
        r@[1] == b,
        r@[2] == c,
        r@[3] == d,
{
    let mut v: Vec<Rat> = Vec::new();
    v.push(a);
    v.push(b);
    v.push(c);
    v.push(d);
    v
}

impl Matrix {
    /// Prepends a translation by `(x, y, z)`.
    pub fn translate(&self, x: Rat, y: Rat, z: Rat) -> (r: Option<Matrix>)
        requires
            self.wf(),
            self.rows@.len() == 4,
            x.wf(),
            y.wf(),
            z.wf(),
        ensures
            ({
                match r {
                    Some(m) => m.wf() && m@.len() == 4 && mat_eq(
                        m@,
                        mat_mul_spec(translation_spec(x@, y@, z@), self@),
                    ) && m@ == crate::matrix::mat_mul_val(translation_spec(x@, y@, z@), self@),
                    None => !crate::matrix::mat_mul_fits(translation_spec(x@, y@, z@), self@),
                }
            }),
            (r is Some) == crate::matrix::mat_mul_fits(translation_spec(x@, y@, z@), self@),
    {
        let one = Rat::one;
        let zero = Rat::zero;
        let mut rows: Vec<Vec<Rat>> = Vec::new();
        rows.push(row4(one(), zero(), zero(), x));
        rows.push(row4(zero(), one(), zero(), y));
        rows.push(row4(zero(), zero(), one(), z));
        rows.push(row4(zero(), zero(), zero(), one()));
        let t = Matrix { rows };
        proof {
            assert(t@ =~~= translation_spec(x@, y@, z@));
        }
        t.mul(self)
    }

    /// Prepends a scaling by `(x, y, z)`.
    pub fn scale(&self, x: Rat, y: Rat, z: Rat) -> (r: Option<Matrix>)
        requires
            self.wf(),
            self.rows@.len() == 4,
            x.wf(),
            y.wf(),
            z.wf(),
        ensures
            ({
                match r {
                    Some(m) => m.wf() && m@.len() == 4 && mat_eq(
                        m@,
                        mat_mul_spec(scaling_spec(x@, y@, z@), self@),
                    ) && m@ == crate::matrix::mat_mul_val(scaling_spec(x@, y@, z@), self@),
                    None => !crate::matrix::mat_mul_fits(scaling_spec(x@, y@, z@), self@),
                }
            }),
            (r is Some) == crate::matrix::mat_mul_fits(scaling_spec(x@, y@, z@), self@),
    {
        let one = Rat::one;
        let zero = Rat::zero;
        let mut rows: Vec<Vec<Rat>> = Vec::new();
        rows.push(row4(x, zero(), zero(), zero()));
        rows.push(row4(zero(), y, zero(), zero()));
        rows.push(row4(zero(), zero(), z, zero()));
        rows.push(row4(zero(), zero(), zero(), one()));
        let t = Matrix { rows };
        proof {
            assert(t@ =~~= scaling_spec(x@, y@, z@));
        }
        t.mul(self)
    }

    /// Prepends a rotation about the x axis; `cos` and `sin` are the
    /// cosine and sine of the angle.
    pub fn rotate_x(&self, cos: Rat, sin: Rat) -> (r: Option<Matrix>)
        requires
            self.wf(),
            self.rows@.len() == 4,
            cos.wf(),
            sin.wf(),
        ensures
            ({
                match r {
                    Some(m) => m.wf() && m@.len() == 4 && mat_eq(
                        m@,
                        mat_mul_spec(rotation_x_spec(cos@, sin@), self@),
                    ) && m@ == crate::matrix::mat_mul_val(rotation_x_spec(cos@, sin@), self@),
                    None => !crate::matrix::mat_mul_fits(rotation_x_spec(cos@, sin@), self@),
                }
            }),
            (r is Some) == crate::matrix::mat_mul_fits(rotation_x_spec(cos@, sin@), self@),
    {
        let one = Rat::one;
        let zero = Rat::zero;
        let mut rows: Vec<Vec<Rat>> = Vec::new();
        rows.push(row4(one(), zero(), zero(), zero()));
        rows.push(row4(zero(), cos, sin.neg(), zero()));
        rows.push(row4(zero(), sin, cos, zero()));
        rows.push(row4(zero(), zero(), zero(), one()));
        let t = Matrix { rows };
        proof {
            assert(t@ =~~= rotation_x_spec(cos@, sin@));
        }
        t.mul(self)
    }

    /// Prepends a rotation about the y axis; `cos` and `sin` are the
    /// cosine and sine of the angle.
    pub fn rotate_y(&self, cos: Rat, sin: Rat) -> (r: Option<Matrix>)
        requires
            self.wf(),
            self.rows@.len() == 4,
            cos.wf(),
            sin.wf(),
        ensures
            ({
                match r {
                    Some(m) => m.wf() && m@.len() == 4 && mat_eq(
                        m@,
                        mat_mul_spec(rotation_y_spec(cos@, sin@), self@),
                    ) && m@ == crate::matrix::mat_mul_val(rotation_y_spec(cos@, sin@), self@),
                    None => !crate::matrix::mat_mul_fits(rotation_y_spec(cos@, sin@), self@),
                }
            }),
            (r is Some) == crate::matrix::mat_mul_fits(rotation_y_spec(cos@, sin@), self@),
    {
        let one = Rat::one;
        let zero = Rat::zero;
        let mut rows: Vec<Vec<Rat>> = Vec::new();
        rows.push(row4(cos, zero(), sin, zero()));
        rows.push(row4(zero(), one(), zero(), zero()));
        rows.push(row4(sin.neg(), zero(), cos, zero()));
        rows.push(row4(zero(), zero(), zero(), one()));
        let t = Matrix { rows };
        proof {
            assert(t@ =~~= rotation_y_spec(cos@, sin@));
        }
        t.mul(self)
    }

    /// Prepends a rotation about the z axis; `cos` and `sin` are the
    /// cosine and sine of the angle.
    pub fn rotate_z(&self, cos: Rat, sin: Rat) -> (r: Option<Matrix>)
        requires
            self.wf(),
            self.rows@.len() == 4,
            cos.wf(),
            sin.wf(),
        ensures
            ({
                match r {
                    Some(m) => m.wf() && m@.len() == 4 && mat_eq(
                        m@,
                        mat_mul_spec(rotation_z_spec(cos@, sin@), self@),
                    ) && m@ == crate::matrix::mat_mul_val(rotation_z_spec(cos@, sin@), self@),
                    None => !crate::matrix::mat_mul_fits(rotation_z_spec(cos@, sin@), self@),
                }
            }),
            (r is Some) == crate::matrix::mat_mul_fits(rotation_z_spec(cos@, sin@), self@),
    {
        let one = Rat::one;
        let zero = Rat::zero;
        let mut rows: Vec<Vec<Rat>> = Vec::new();
        rows.push(row4(cos, sin.neg(), zero(), zero()));
        rows.push(row4(sin, cos, zero(), zero()));
        rows.push(row4(zero(), zero(), one(), zero()));
        rows.push(row4(zero(), zero(), zero(), one()));
        let t = Matrix { rows };
        proof {
            assert(t@ =~~= rotation_z_spec(cos@, sin@));
        }
        t.mul(self)
    }

    /// Prepends a shearing transform.
    pub fn shear(&self, xy: Rat, xz: Rat, yx: Rat, yz: Rat, zx: Rat, zy: Rat) -> (r: Option<
        Matrix,
    >)
        requires
            self.wf(),
            self.rows@.len() == 4,
            xy.wf(),
            xz.wf(),
            yx.wf(),
            yz.wf(),
            zx.wf(),
            zy.wf(),
        ensures
            ({
                match r {
                    Some(m) => m.wf() && m@.len() == 4 && mat_eq(
                        m@,
                        mat_mul_spec(shearing_spec(xy@, xz@, yx@, yz@, zx@, zy@), self@),
                    ) && m@ == crate::matrix::mat_mul_val(shearing_spec(xy@, xz@, yx@, yz@, zx@, zy@), self@),
                    None => !crate::matrix::mat_mul_fits(shearing_spec(xy@, xz@, yx@, yz@, zx@, zy@), self@),
                }
            }),
            (r is Some) == crate::matrix::mat_mul_fits(shearing_spec(xy@, xz@, yx@, yz@, zx@, zy@), self@),
    {
        let one = Rat::one;
        let zero = Rat::zero;
        let mut rows: Vec<Vec<Rat>> = Vec::new();
        rows.push(row4(one(), xy, xz, zero()));
        rows.push(row4(yx, one(), yz, zero()));
        rows.push(row4(zx, zy, one(), zero()));
        rows.push(row4(zero(), zero(), zero(), one()));
        let t = Matrix { rows };
        proof {
            assert(t@ =~~= shearing_spec(xy@, xz@, yx@, yz@, zx@, zy@));
        }
        t.mul(self)
    }
}

} // verus!
