//! Square matrices of exact rational scalars.
//!
//! The model of a matrix is a sequence of rows of unbounded rationals.
//! Multiplication is the 4-by-4 product the transform pipeline needs;
//! determinants and inverses work on any square size from 2 upward, by
//! cofactor expansion along the first row.

use crate::rat::lemma_add_eq_chain;
use crate::rat::lemma_div_eq_chain;
use crate::rat::lemma_eq_zero;
use crate::rat::lemma_mul_eq_chain;
use crate::rat::lemma_ratio_eq_trans;
use crate::rat::lemma_ratio_ops_wf;
use crate::rat::lemma_sub_eq_chain;
use crate::rat::ratio_add;
use crate::rat::ratio_approx_eq;
use crate::rat::ratio_div;
use crate::rat::ratio_eq;
use crate::rat::ratio_int;
use crate::rat::ratio_mul;
use crate::rat::ratio_neg;
use crate::rat::ratio_sub;
use crate::rat::ratio_wf;
use crate::rat::Rat;
use crate::rat::Ratio;
use crate::tuple::v4_wf;
use crate::tuple::Tuple;
use crate::tuple::V4;
use vstd::prelude::*;

verus! {

/// The model of a matrix: a sequence of rows.
pub type MatV = Seq<Seq<Ratio>>;

/// Square, with every entry well formed.
pub open spec fn mat_wf(m: MatV) -> bool {
    &&& forall|i: int| 0 <= i < m.len() ==> (#[trigger] m[i]).len() == m.len()
    &&& forall|i: int, j: int|
        0 <= i < m.len() && 0 <= j < m.len() ==> ratio_wf(#[trigger] m[i][j])
}

/// Entrywise exact equality of two models of the same size.
pub open spec fn mat_eq(a: MatV, b: MatV) -> bool {
    &&& a.len() == b.len()
    &&& forall|i: int, j: int|
        0 <= i < a.len() && 0 <= j < a.len() ==> ratio_eq(#[trigger] a[i][j], #[trigger] b[i][j])
}

/// Entrywise tolerance equality of two models of the same size.
pub open spec fn mat_approx_eq(a: MatV, b: MatV) -> bool {
    &&& a.len() == b.len()
    &&& forall|i: int, j: int|
        0 <= i < a.len() && 0 <= j < a.len() ==> ratio_approx_eq(
            #[trigger] a[i][j],
            #[trigger] b[i][j],
        )
}

/// The n-by-n identity.
pub open spec fn identity_spec(n: nat) -> MatV {
    Seq::new(
        n,
        |i: int|
            Seq::new(
                n,
                |j: int|
                    if i == j {
                        ratio_int(1)
                    } else {
                        ratio_int(0)
                    },
            ),
    )
}

/// Rows become columns.
pub open spec fn transpose_spec(m: MatV) -> MatV {
    Seq::new(m.len(), |i: int| Seq::new(m.len(), |j: int| m[j][i]))
}

/// One entry of the 4-by-4 matrix product: the dot product of row `i` of
/// `a` with column `j` of `b`.
pub open spec fn mat_mul_entry(a: MatV, b: MatV, i: int, j: int) -> Ratio {
    ratio_add(
        ratio_add(
            ratio_add(ratio_mul(a[i][0], b[0][j]), ratio_mul(a[i][1], b[1][j])),
            ratio_mul(a[i][2], b[2][j]),
        ),
        ratio_mul(a[i][3], b[3][j]),
    )
}

/// The 4-by-4 matrix product.
pub open spec fn mat_mul_spec(a: MatV, b: MatV) -> MatV {
    Seq::new(4, |i: int| Seq::new(4, |j: int| mat_mul_entry(a, b, i, j)))
}

/// A 4-by-4 matrix applied to a tuple treated as a column.
pub open spec fn mat_tuple_mul_spec(m: MatV, t: V4) -> V4 {
    V4 {
        x: mat_tuple_row(m, t, 0),
        y: mat_tuple_row(m, t, 1),
        z: mat_tuple_row(m, t, 2),
        w: mat_tuple_row(m, t, 3),
    }
}

pub open spec fn mat_tuple_row(m: MatV, t: V4, r: int) -> Ratio {
    ratio_add(
        ratio_add(
            ratio_add(ratio_mul(m[r][0], t.x), ratio_mul(m[r][1], t.y)),
            ratio_mul(m[r][2], t.z),
        ),
        ratio_mul(m[r][3], t.w),
    )
}

/// The matrix with row `r` and column `c` removed.
pub open spec fn submatrix_spec(m: MatV, r: int, c: int) -> MatV {
    Seq::new(
        (m.len() - 1) as nat,
        |i: int|
            Seq::new(
                (m.len() - 1) as nat,
                |j: int|
                    m[if i < r {
                        i
                    } else {
                        i + 1
                    }][if j < c {
                        j
                    } else {
                        j + 1
                    }],
            ),
    )
}

/// Determinant by cofactor expansion along row 0; the base case is the
/// 2-by-2 formula `a*d - b*c`.
pub open spec fn det_spec(m: MatV) -> Ratio
    decreases m.len(), 2int, 0int,
{
    if m.len() == 2 {
        ratio_sub(ratio_mul(m[0][0], m[1][1]), ratio_mul(m[0][1], m[1][0]))
    } else {
        det_row0_sum(m, m.len() as int)
    }
}

/// The partial cofactor expansion over columns `0 .. c` of row 0.
pub open spec fn det_row0_sum(m: MatV, c: int) -> Ratio
    decreases m.len(), 1int, c,
{
    if c <= 0 {
        ratio_int(0)
    } else {
        ratio_add(det_row0_sum(m, c - 1), ratio_mul(cofactor_spec(m, 0, c - 1), m[0][c - 1]))
    }
}

/// The signed minor at `(r, c)`.
pub open spec fn cofactor_spec(m: MatV, r: int, c: int) -> Ratio
    decreases m.len(), 0int, 0int,
{
    if m.len() >= 3 {
        if (r + c) % 2 == 0 {
            det_spec(submatrix_spec(m, r, c))
        } else {
            ratio_neg(det_spec(submatrix_spec(m, r, c)))
        }
    } else {
        ratio_int(0)
    }
}

/// The exact computations with their failure points, mirroring the
/// executable operations step for step: a function's contract reports
/// `None` exactly when its mirror does.
pub open spec fn try_mat_mul_entry(a: MatV, b: MatV, i: int, j: int) -> Option<Ratio> {
    match crate::rat::try_mul(a[i][0], b[0][j]) {
        None => None,
        Some(m0) => match crate::rat::try_mul(a[i][1], b[1][j]) {
            None => None,
            Some(m1) => match crate::rat::try_mul(a[i][2], b[2][j]) {
                None => None,
                Some(m2) => match crate::rat::try_mul(a[i][3], b[3][j]) {
                    None => None,
                    Some(m3) => match crate::rat::try_add(m0, m1) {
                        None => None,
                        Some(t1) => match crate::rat::try_add(t1, m2) {
                            None => None,
                            Some(t2) => crate::rat::try_add(t2, m3),
                        },
                    },
                },
            },
        },
    }
}

/// All sixteen entries of the 4-by-4 product are representable.
pub open spec fn mat_mul_fits(a: MatV, b: MatV) -> bool {
    forall|i: int, j: int|
        0 <= i < 4 && 0 <= j < 4 ==> (#[trigger] try_mat_mul_entry(a, b, i, j)) is Some
}

/// The value of the 4-by-4 product where it is representable (entries
/// whose computation fails are filled with zero; the value is only
/// spoken of under `mat_mul_fits`).
pub open spec fn mat_mul_val(a: MatV, b: MatV) -> MatV {
    Seq::new(
        4,
        |i: int|
            Seq::new(
                4,
                |j: int|
                    match try_mat_mul_entry(a, b, i, j) {
                        Some(v) => v,
                        None => ratio_int(0),
                    },
            ),
    )
}

pub open spec fn try_mat_tuple_row(m: MatV, t: V4, r: int) -> Option<Ratio> {
    match crate::rat::try_mul(m[r][0], t.x) {
        None => None,
        Some(m0) => match crate::rat::try_mul(m[r][1], t.y) {
            None => None,
            Some(m1) => match crate::rat::try_mul(m[r][2], t.z) {
                None => None,
                Some(m2) => match crate::rat::try_mul(m[r][3], t.w) {
                    None => None,
                    Some(m3) => match crate::rat::try_add(m0, m1) {
                        None => None,
                        Some(t1) => match crate::rat::try_add(t1, m2) {
                            None => None,
                            Some(t2) => crate::rat::try_add(t2, m3),
                        },
                    },
                },
            },
        },
    }
}

pub open spec fn try_mat_tuple(m: MatV, t: V4) -> Option<V4> {
    match try_mat_tuple_row(m, t, 0) {
        None => None,
        Some(x) => match try_mat_tuple_row(m, t, 1) {
            None => None,
            Some(y) => match try_mat_tuple_row(m, t, 2) {
                None => None,
                Some(z) => match try_mat_tuple_row(m, t, 3) {
                    None => None,
                    Some(w) => Some(V4 { x, y, z, w }),
                },
            },
        },
    }
}

/// The determinant computation with its failure points, by the same
/// cofactor expansion the executable code performs.
pub open spec fn try_det(m: MatV) -> Option<Ratio>
    decreases m.len(), 2int, 0int,
{
    if m.len() == 2 {
        match crate::rat::try_mul(m[0][0], m[1][1]) {
            None => None,
            Some(m1) => match crate::rat::try_mul(m[0][1], m[1][0]) {
                None => None,
                Some(m2) => crate::rat::try_sub(m1, m2),
            },
        }
    } else {
        try_det_row0(m, m.len() as int)
    }
}

pub open spec fn try_det_row0(m: MatV, c: int) -> Option<Ratio>
    decreases m.len(), 1int, c,
{
    if c <= 0 {
        Some(ratio_int(0))
    } else {
        match try_det_row0(m, c - 1) {
            None => None,
            Some(acc) => match try_cofactor(m, 0, c - 1) {
                None => None,
                Some(cf) => match crate::rat::try_mul(cf, m[0][c - 1]) {
                    None => None,
                    Some(term) => crate::rat::try_add(acc, term),
                },
            },
        }
    }
}

pub open spec fn try_cofactor(m: MatV, r: int, c: int) -> Option<Ratio>
    decreases m.len(), 0int, 0int,
{
    if m.len() >= 3 {
        match try_det(submatrix_spec(m, r, c)) {
            None => None,
            Some(d) => if (r + c) % 2 == 0 {
                Some(d)
            } else {
                Some(Ratio { n: -d.n, d: d.d })
            },
        }
    } else {
        None
    }
}

/// Once a partial expansion is not representable, no wider one is.
pub proof fn lemma_try_det_row0_none(m: MatV, i: int, c: int)
    requires
        i <= c,
        try_det_row0(m, i) is None,
    ensures
        try_det_row0(m, c) is None,
    decreases
            (if c > 0 {
                c
            } else {
                0
            }),
{
    if c > i {
        lemma_try_det_row0_none(m, i, c - 1);
    }
}

/// The inverse succeeds exactly when the determinant is representable
/// and nonzero and every adjugate entry divided by it is representable.
pub open spec fn try_inverse_entry(m: MatV, i: int, j: int) -> Option<Ratio> {
    match try_det(m) {
        None => None,
        Some(dv) => if dv.n == 0 {
            None
        } else {
            match try_cofactor(m, j, i) {
                None => None,
                Some(cf) => crate::rat::try_div(cf, dv),
            }
        },
    }
}

pub open spec fn inverse_ok(m: MatV) -> bool {
    &&& try_det(m) is Some
    &&& (match try_det(m) {
        Some(dv) => dv.n != 0,
        None => false,
    })
    &&& forall|i: int, j: int|
        0 <= i < m.len() && 0 <= j < m.len() ==> (#[trigger] try_inverse_entry(m, i, j)) is Some
}

/// The value of the inverse where it is representable (entries whose
/// computation fails are filled with zero; the value is only spoken of
/// under `inverse_ok`).
pub open spec fn inverse_val(m: MatV) -> MatV {
    Seq::new(
        m.len(),
        |i: int|
            Seq::new(
                m.len(),
                |j: int|
                    match try_inverse_entry(m, i, j) {
                        Some(v) => v,
                        None => ratio_int(0),
                    },
            ),
    )
}

/// A square matrix of exact rational scalars, stored as rows.
#[derive(Debug, Clone, PartialEq)]
pub struct Matrix {
    pub rows: Vec<Vec<Rat>>,
}

impl View for Matrix {
    type V = MatV;

    open spec fn view(&self) -> MatV {
        Seq::new(
            self.rows@.len(),
            |i: int| Seq::new(self.rows@[i]@.len(), |j: int| self.rows@[i]@[j]@),
        )
    }
}

impl Matrix {
    pub open spec fn wf(self) -> bool {
        &&& forall|i: int|
            0 <= i < self.rows@.len() ==> (#[trigger] self.rows@[i])@.len() == self.rows@.len()
        &&& forall|i: int, j: int|
            0 <= i < self.rows@.len() && 0 <= j < self.rows@.len()
                ==> (#[trigger] self.rows@[i]@[j]).wf()
    }

    /// A square matrix of zeros.
    pub fn new(n: usize) -> (r: Matrix)
        ensures
            r.wf(),
            r@.len() == n,
            forall|i: int, j: int| 0 <= i < n && 0 <= j < n ==> #[trigger] r@[i][j] == ratio_int(0),
    {
        let mut rows: Vec<Vec<Rat>> = Vec::new();
        let mut i: usize = 0;
        while i < n
            invariant
                i <= n,
                rows@.len() == i,
                forall|p: int| 0 <= p < i ==> (#[trigger] rows@[p])@.len() == n,
                forall|p: int, q: int|
                    0 <= p < i && 0 <= q < n ==> (#[trigger] rows@[p]@[q])@ == ratio_int(0)
                        && rows@[p]@[q].wf(),
            decreases n - i,
        {
            let mut row: Vec<Rat> = Vec::new();
            let mut j: usize = 0;
            while j < n
                invariant
                    j <= n,
                    row@.len() == j,
                    forall|q: int|
                        0 <= q < j ==> (#[trigger] row@[q])@ == ratio_int(0) && row@[q].wf(),
                decreases n - j,
            {
                row.push(Rat::zero());
                j = j + 1;
            }
            rows.push(row);
            i = i + 1;
        }
        Matrix { rows }
    }

    /// Wraps ready-made rows; they must form a square of well-formed
    /// scalars.
    pub fn populate(rows: Vec<Vec<Rat>>) -> (r: Matrix)
        requires
            forall|i: int| 0 <= i < rows@.len() ==> (#[trigger] rows@[i])@.len() == rows@.len(),
            forall|i: int, j: int|
                0 <= i < rows@.len() && 0 <= j < rows@.len() ==> (#[trigger] rows@[i]@[j]).wf(),
        ensures
            r.wf(),
            r.rows@ == rows@,
            r@.len() == rows@.len(),
            forall|i: int, j: int|
                0 <= i < rows@.len() && 0 <= j < rows@.len() ==> #[trigger] r@[i][j]
                    == rows@[i]@[j]@,
    {
        Matrix { rows }
    }

    /// The entry at row `i`, column `j`.
    pub fn at(&self, i: usize, j: usize) -> (r: Rat)
        requires
            self.wf(),
            i < self.rows@.len(),
            j < self.rows@.len(),
        ensures
            r.wf(),
            r@ == self@[i as int][j as int],
    {
        self.rows[i][j]
    }

    /// The number of rows (and columns).
    pub fn size(&self) -> (n: usize)
        ensures
            n == self.rows@.len(),
    {
        self.rows.len()
    }

    /// The 4-by-4 identity.
    pub fn identity() -> (r: Matrix)
        ensures
            r.wf(),
            r@.len() == 4,
            r@ == identity_spec(4),
    {
        let mut rows: Vec<Vec<Rat>> = Vec::new();
        let mut i: usize = 0;
        while i < 4
            invariant
                i <= 4,
                rows@.len() == i,
                forall|p: int| 0 <= p < i ==> (#[trigger] rows@[p])@.len() == 4,
                forall|p: int, q: int|
                    0 <= p < i && 0 <= q < 4 ==> (#[trigger] rows@[p]@[q]).wf() && rows@[p]@[q]@
                        == (if p == q {
                        ratio_int(1)
                    } else {
                        ratio_int(0)
                    }),
            decreases 4 - i,
        {
            let mut row: Vec<Rat> = Vec::new();
            let mut j: usize = 0;
            while j < 4
                invariant
                    j <= 4,
                    row@.len() == j,
                    forall|q: int|
                        0 <= q < j ==> (#[trigger] row@[q]).wf() && row@[q]@ == (if i == q {
                            ratio_int(1)
                        } else {
                            ratio_int(0)
                        }),
                decreases 4 - j,
            {
                if j == i {
                    row.push(Rat::one());
                } else {
                    row.push(Rat::zero());
                }
                j = j + 1;
            }
            rows.push(row);
            i = i + 1;
        }
        let m = Matrix { rows };
        proof {
            assert(m@ =~~= identity_spec(4));
        }
        m
    }

    /// Rows become columns.
    pub fn transpose(&self) -> (r: Matrix)
        requires
            self.wf(),
        ensures
            r.wf(),
            r@.len() == self@.len(),
            r@ == transpose_spec(self@),
    {
        let n = self.rows.len();
        let mut rows: Vec<Vec<Rat>> = Vec::new();
        let mut i: usize = 0;
        while i < n
            invariant
                i <= n,
                self.wf(),
                n == self.rows@.len(),
                rows@.len() == i,
                forall|p: int| 0 <= p < i ==> (#[trigger] rows@[p])@.len() == n,
                forall|p: int, q: int|
                    0 <= p < i && 0 <= q < n ==> (#[trigger] rows@[p]@[q]) == self.rows@[q]@[p],
            decreases n - i,
        {
            let mut row: Vec<Rat> = Vec::new();
            let mut j: usize = 0;
            while j < n
                invariant
                    j <= n,
                    i < n,
                    self.wf(),
                    n == self.rows@.len(),
                    row@.len() == j,
                    forall|q: int| 0 <= q < j ==> (#[trigger] row@[q]) == self.rows@[q]@[i as int],
                decreases n - j,
            {
                row.push(self.rows[j][i]);
                j = j + 1;
            }
            rows.push(row);
            i = i + 1;
        }
        let r = Matrix { rows };
        proof {
            assert(r@ =~~= transpose_spec(self@));
        }
        r
    }

    /// Tolerance comparison: same size, and every pair of entries within
    /// tolerance of each other.
    pub fn is_equal(&self, other: &Matrix) -> (r: bool)
        requires
            self.wf(),
            other.wf(),
        ensures
            r == mat_approx_eq(self@, other@),
    {
        let n = self.rows.len();
        if other.rows.len() != n {
            return false;
        }
        let mut i: usize = 0;
        while i < n
            invariant
                i <= n,
                self.wf(),
                other.wf(),
                n == self.rows@.len(),
                n == other.rows@.len(),
                forall|p: int, q: int|
                    0 <= p < i && 0 <= q < n ==> ratio_approx_eq(
                        #[trigger] self@[p][q],
                        #[trigger] other@[p][q],
                    ),
            decreases n - i,
        {
            let mut j: usize = 0;
            while j < n
                invariant
                    j <= n,
                    i < n,
                    self.wf(),
                    other.wf(),
                    n == self.rows@.len(),
                    n == other.rows@.len(),
                    forall|q: int|
                        0 <= q < j ==> ratio_approx_eq(
                            #[trigger] self@[i as int][q],
                            other@[i as int][q],
                        ),
                decreases n - j,
            {
                if !self.rows[i][j].approx_eq(other.rows[i][j]) {
                    proof {
                        assert(!ratio_approx_eq(self@[i as int][j as int], other@[i as int][
                            j as int]));
                    }
                    return false;
                }
                j = j + 1;
            }
            i = i + 1;
        }
        true
    }

    /// Exact comparison: same size, and every pair of entries denotes the
    /// same rational number.
    pub fn eq_exact(&self, other: &Matrix) -> (r: bool)
        requires
            self.wf(),
            other.wf(),
        ensures
            r == mat_eq(self@, other@),
    {
        let n = self.rows.len();
        if other.rows.len() != n {
            return false;
        }
        let mut i: usize = 0;
        while i < n
            invariant
                i <= n,
                self.wf(),
                other.wf(),
                n == self.rows@.len(),
                n == other.rows@.len(),
                forall|p: int, q: int|
                    0 <= p < i && 0 <= q < n ==> ratio_eq(
                        #[trigger] self@[p][q],
                        #[trigger] other@[p][q],
                    ),
            decreases n - i,
        {
            let mut j: usize = 0;
            while j < n
                invariant
                    j <= n,
                    i < n,
                    self.wf(),
                    other.wf(),
                    n == self.rows@.len(),
                    n == other.rows@.len(),
                    forall|q: int|
                        0 <= q < j ==> ratio_eq(#[trigger] self@[i as int][q], other@[i as int][q]),
                decreases n - j,
            {
                if !self.rows[i][j].eq_exact(other.rows[i][j]) {
                    proof {
                        assert(!ratio_eq(self@[i as int][j as int], other@[i as int][j as int]));
                    }
                    return false;
                }
                j = j + 1;
            }
            i = i + 1;
        }
        true
    }

    /// The inverse, certified: the adjugate-formula inverse is computed
    /// and then checked, exactly, to be a right inverse. Whatever comes
    /// back multiplies with this matrix to the identity — exactly, and so
    /// in particular within tolerance.
    pub fn checked_inverse(&self) -> (r: Option<Matrix>)
        requires
            self.wf(),
            self.rows@.len() == 4,
        ensures
            ({
                match r {
                    Some(inv) => {
                        &&& inv.wf()
                        &&& inv@.len() == 4
                        &&& det_spec(self@).n != 0
                        &&& mat_eq(mat_mul_spec(self@, inv@), identity_spec(4))
                    },
                    None => !inverse_ok(self@) || !mat_mul_fits(self@, inverse_val(self@))
                        || !mat_eq(mat_mul_val(self@, inverse_val(self@)), identity_spec(4)),
                }
            }),
    {
        let inv = match self.inverse() {
            Some(v) => v,
            None => {
                return None;
            },
        };
        let product = match self.mul(&inv) {
            Some(v) => v,
            None => {
                return None;
            },
        };
        let id = Matrix::identity();
        if product.eq_exact(&id) {
            proof {
                lemma_mat_mul_spec_wf(self@, inv@);
                lemma_mat_eq_trans(mat_mul_spec(self@, inv@), product@, identity_spec(4));
            }
            Some(inv)
        } else {
            None
        }
    }

    /// One entry of the 4-by-4 product.
    fn mul_entry(&self, other: &Matrix, i: usize, j: usize) -> (r: Option<Rat>)
        requires
            self.wf(),
            other.wf(),
            self.rows@.len() == 4,
            other.rows@.len() == 4,
            i < 4,
            j < 4,
        ensures
            ({
                match r {
                    Some(c) => c.wf() && ratio_eq(c@, mat_mul_entry(self@, other@, i as int, j as int))
                        && Some(c@) == try_mat_mul_entry(self@, other@, i as int, j as int),
                    None => try_mat_mul_entry(self@, other@, i as int, j as int) is None,
                }
            }),
    {
        let m0 = match self.rows[i][0].mul(other.rows[0][j]) {
            Some(v) => v,
            None => {
                return None;
            },
        };
        let m1 = match self.rows[i][1].mul(other.rows[1][j]) {
            Some(v) => v,
            None => {
                return None;
            },
        };
        let m2 = match self.rows[i][2].mul(other.rows[2][j]) {
            Some(v) => v,
            None => {
                return None;
            },
        };
        let m3 = match self.rows[i][3].mul(other.rows[3][j]) {
            Some(v) => v,
            None => {
                return None;
            },
        };
        let t1 = match m0.add(m1) {
            Some(v) => v,
            None => {
                return None;
            },
        };
        let t2 = match t1.add(m2) {
            Some(v) => v,
            None => {
                return None;
            },
        };
        let t3 = match t2.add(m3) {
            Some(v) => v,
            None => {
                return None;
            },
        };
        proof {
            let ii = i as int;
            let jj = j as int;
            let p0 = ratio_mul(self@[ii][0], other@[0][jj]);
            let p1 = ratio_mul(self@[ii][1], other@[1][jj]);
            let p2 = ratio_mul(self@[ii][2], other@[2][jj]);
            let p3 = ratio_mul(self@[ii][3], other@[3][jj]);
            lemma_ratio_ops_wf(self@[ii][0], other@[0][jj]);
            lemma_ratio_ops_wf(self@[ii][1], other@[1][jj]);
            lemma_ratio_ops_wf(self@[ii][2], other@[2][jj]);
            lemma_ratio_ops_wf(self@[ii][3], other@[3][jj]);
            lemma_add_eq_chain(t1@, m0@, m1@, p0, p1);
            lemma_ratio_ops_wf(p0, p1);
            lemma_add_eq_chain(t2@, t1@, m2@, ratio_add(p0, p1), p2);
            lemma_ratio_ops_wf(ratio_add(p0, p1), p2);
            lemma_add_eq_chain(t3@, t2@, m3@, ratio_add(ratio_add(p0, p1), p2), p3);
        }
        Some(t3)
    }

    /// The 4-by-4 matrix product `self * other`.
    pub fn mul(&self, other: &Matrix) -> (r: Option<Matrix>)
        requires
            self.wf(),
            other.wf(),
            self.rows@.len() == 4,
            other.rows@.len() == 4,
        ensures
            ({
                match r {
                    Some(m) => m.wf() && m@.len() == 4 && mat_eq(m@, mat_mul_spec(self@, other@))
                        && m@ == mat_mul_val(self@, other@),
                    None => !mat_mul_fits(self@, other@),
                }
            }),
            (r is Some) == mat_mul_fits(self@, other@),
    {
        let mut rows: Vec<Vec<Rat>> = Vec::new();
        let mut i: usize = 0;
        while i < 4
            invariant
                i <= 4,
                self.wf(),
                other.wf(),
                self.rows@.len() == 4,
                other.rows@.len() == 4,
                rows@.len() == i,
                forall|p: int| 0 <= p < i ==> (#[trigger] rows@[p])@.len() == 4,
                forall|p: int, q: int|
                    0 <= p < i && 0 <= q < 4 ==> (#[trigger] rows@[p]@[q]).wf() && ratio_eq(
                        rows@[p]@[q]@,
                        mat_mul_entry(self@, other@, p, q),
                    ) && Some(rows@[p]@[q]@) == try_mat_mul_entry(self@, other@, p, q),
            decreases 4 - i,
        {
            let mut row: Vec<Rat> = Vec::new();
            let mut j: usize = 0;
            while j < 4
                invariant
                    j <= 4,
                    i < 4,
                    self.wf(),
                    other.wf(),
                    self.rows@.len() == 4,
                    other.rows@.len() == 4,
                    row@.len() == j,
                    forall|q: int|
                        0 <= q < j ==> (#[trigger] row@[q]).wf() && ratio_eq(
                            row@[q]@,
                            mat_mul_entry(self@, other@, i as int, q),
                        ) && Some(row@[q]@) == try_mat_mul_entry(self@, other@, i as int, q),
                decreases 4 - j,
            {
                let e = match self.mul_entry(other, i, j) {
                    Some(v) => v,
                    None => {
                        proof {
                            assert(try_mat_mul_entry(self@, other@, i as int, j as int) is None);
                        }
                        return None;
                    },
                };
                row.push(e);
                j = j + 1;
            }
            rows.push(row);
            i = i + 1;
        }
        let m = Matrix { rows };
        proof {
            assert forall|p: int, q: int|
                0 <= p < 4 && 0 <= q < 4 implies (#[trigger] try_mat_mul_entry(
                self@,
                other@,
                p,
                q,
            )) is Some by {
                assert(Some(rows@[p]@[q]@) == try_mat_mul_entry(self@, other@, p, q));
            }
            assert(m@ =~~= mat_mul_val(self@, other@));
        }
        Some(m)
    }

    /// One row of a 4-by-4 matrix applied to a tuple.
    fn mul_tuple_row(&self, t: &Tuple, r: usize) -> (res: Option<Rat>)
        requires
            self.wf(),
            t.wf(),
            self.rows@.len() == 4,
            r < 4,
        ensures
            ({
                match res {
                    Some(c) => c.wf() && ratio_eq(c@, mat_tuple_row(self@, t@, r as int)) && Some(
                        c@,
                    ) == try_mat_tuple_row(self@, t@, r as int),
                    None => try_mat_tuple_row(self@, t@, r as int) is None,
                }
            }),
    {
        let m0 = match self.rows[r][0].mul(t.x) {
            Some(v) => v,
            None => {
                return None;
            },
        };
        let m1 = match self.rows[r][1].mul(t.y) {
            Some(v) => v,
            None => {
                return None;
            },
        };
        let m2 = match self.rows[r][2].mul(t.z) {
            Some(v) => v,
            None => {
                return None;
            },
        };
        let m3 = match self.rows[r][3].mul(t.w) {
            Some(v) => v,
            None => {
                return None;
            },
        };
        let t1 = match m0.add(m1) {
            Some(v) => v,
            None => {
                return None;
            },
        };
        let t2 = match t1.add(m2) {
            Some(v) => v,
            None => {
                return None;
            },
        };
        let t3 = match t2.add(m3) {
            Some(v) => v,
            None => {
                return None;
            },
        };
        proof {
            let rr = r as int;
            let p0 = ratio_mul(self@[rr][0], t@.x);
            let p1 = ratio_mul(self@[rr][1], t@.y);
            let p2 = ratio_mul(self@[rr][2], t@.z);
            let p3 = ratio_mul(self@[rr][3], t@.w);
            lemma_ratio_ops_wf(self@[rr][0], t@.x);
            lemma_ratio_ops_wf(self@[rr][1], t@.y);
            lemma_ratio_ops_wf(self@[rr][2], t@.z);
            lemma_ratio_ops_wf(self@[rr][3], t@.w);
            lemma_add_eq_chain(t1@, m0@, m1@, p0, p1);
            lemma_ratio_ops_wf(p0, p1);
            lemma_add_eq_chain(t2@, t1@, m2@, ratio_add(p0, p1), p2);
            lemma_ratio_ops_wf(ratio_add(p0, p1), p2);
            lemma_add_eq_chain(t3@, t2@, m3@, ratio_add(ratio_add(p0, p1), p2), p3);
        }
        Some(t3)
    }

    /// A 4-by-4 matrix applied to a tuple treated as a column; the `w`
    /// component comes from row 3 and is not forced to 0 or 1.
    pub fn mul_tuple(&self, t: &Tuple) -> (r: Option<Tuple>)
        requires
            self.wf(),
            t.wf(),
            self.rows@.len() == 4,
        ensures
            ({
                match r {
                    Some(u) => u.wf() && crate::tuple::v4_eq(u@, mat_tuple_mul_spec(self@, t@))
                        && Some(u@) == try_mat_tuple(self@, t@),
                    None => try_mat_tuple(self@, t@) is None,
                }
            }),
    {
        let x = match self.mul_tuple_row(t, 0) {
            Some(v) => v,
            None => {
                return None;
            },
        };
        let y = match self.mul_tuple_row(t, 1) {
            Some(v) => v,
            None => {
                return None;
            },
        };
        let z = match self.mul_tuple_row(t, 2) {
            Some(v) => v,
            None => {
                return None;
            },
        };
        let w = match self.mul_tuple_row(t, 3) {
            Some(v) => v,
            None => {
                return None;
            },
        };
        Some(Tuple { x, y, z, w })
    }

    /// The matrix with row `r` and column `c` removed.
    pub fn submatrix(&self, r: usize, c: usize) -> (res: Matrix)
        requires
            self.wf(),
            self.rows@.len() >= 1,
            r < self.rows@.len(),
            c < self.rows@.len(),
        ensures
            res.wf(),
            res@.len() == self@.len() - 1,
            res@ == submatrix_spec(self@, r as int, c as int),
    {
        let n = self.rows.len();
        let mut rows: Vec<Vec<Rat>> = Vec::new();
        let mut i: usize = 0;
        while i < n - 1
            invariant
                i <= n - 1,
                self.wf(),
                n == self.rows@.len(),
                r < n,
                c < n,
                rows@.len() == i,
                forall|p: int| 0 <= p < i ==> (#[trigger] rows@[p])@.len() == n - 1,
                forall|p: int, q: int|
                    0 <= p < i && 0 <= q < n - 1 ==> (#[trigger] rows@[p]@[q]) == self.rows@[
                        if p < r {
                            p
                        } else {
                            p + 1
                        }
                    ]@[
                        if q < c {
                            q
                        } else {
                            q + 1
                        }
                    ],
            decreases n - 1 - i,
        {
            let src_i = if i < r {
                i
            } else {
                i + 1
            };
            let mut row: Vec<Rat> = Vec::new();
            let mut j: usize = 0;
            while j < n - 1
                invariant
                    j <= n - 1,
                    i < n - 1,
                    self.wf(),
                    n == self.rows@.len(),
                    r < n,
                    c < n,
                    src_i == (if i < r {
                        i as int
                    } else {
                        i + 1
                    }),
                    row@.len() == j,
                    forall|q: int|
                        0 <= q < j ==> (#[trigger] row@[q]) == self.rows@[src_i as int]@[
                            if q < c {
                                q
                            } else {
                                q + 1
                            }
                        ],
                decreases n - 1 - j,
            {
                let src_j = if j < c {
                    j
                } else {
                    j + 1
                };
                row.push(self.rows[src_i][src_j]);
                j = j + 1;
            }
            rows.push(row);
            i = i + 1;
        }
        let res = Matrix { rows };
        proof {
            assert(res@ =~~= submatrix_spec(self@, r as int, c as int));
        }
        res
    }

    /// Determinant by cofactor expansion; defined from size 2 upward.
    pub fn determinant(&self) -> (r: Option<Rat>)
        requires
            self.wf(),
            self.rows@.len() >= 2,
        ensures
            ({
                match r {
                    Some(c) => c.wf() && ratio_eq(c@, det_spec(self@)) && Some(c@) == try_det(
                        self@,
                    ),
                    None => try_det(self@) is None,
                }
            }),
        decreases self.rows@.len(), 2int,
    {
        let n = self.rows.len();
        if n == 2 {
            let m1 = match self.rows[0][0].mul(self.rows[1][1]) {
                Some(v) => v,
                None => {
                    return None;
                },
            };
            let m2 = match self.rows[0][1].mul(self.rows[1][0]) {
                Some(v) => v,
                None => {
                    return None;
                },
            };
            let d = match m1.sub(m2) {
                Some(v) => v,
                None => {
                    return None;
                },
            };
            proof {
                lemma_ratio_ops_wf(self@[0][0], self@[1][1]);
                lemma_ratio_ops_wf(self@[0][1], self@[1][0]);
                lemma_sub_eq_chain(
                    d@,
                    m1@,
                    m2@,
                    ratio_mul(self@[0][0], self@[1][1]),
                    ratio_mul(self@[0][1], self@[1][0]),
                );
            }
            Some(d)
        } else {
            let mut acc = Rat::zero();
            let mut col: usize = 0;
            while col < n
                invariant
                    self.wf(),
                    n == self.rows@.len(),
                    n >= 3,
                    col <= n,
                    acc.wf(),
                    ratio_eq(acc@, det_row0_sum(self@, col as int)),
                    Some(acc@) == try_det_row0(self@, col as int),
                decreases n - col, 3int,
            {
                let cof = match self.cofactor(0, col) {
                    Some(v) => v,
                    None => {
                        proof {
                            assert(try_det_row0(self@, col + 1) is None);
                            lemma_try_det_row0_none(self@, col + 1, n as int);
                        }
                        return None;
                    },
                };
                let term = match cof.mul(self.rows[0][col]) {
                    Some(v) => v,
                    None => {
                        proof {
                            assert(try_det_row0(self@, col + 1) is None);
                            lemma_try_det_row0_none(self@, col + 1, n as int);
                        }
                        return None;
                    },
                };
                let next = match acc.add(term) {
                    Some(v) => v,
                    None => {
                        proof {
                            assert(try_det_row0(self@, col + 1) is None);
                            lemma_try_det_row0_none(self@, col + 1, n as int);
                        }
                        return None;
                    },
                };
                proof {
                    let cc = col as int;
                    lemma_cofactor_wf(self@, 0, cc);
                    lemma_mul_eq_chain(
                        term@,
                        cof@,
                        self.rows@[0]@[cc]@,
                        cofactor_spec(self@, 0, cc),
                        self@[0][cc],
                    );
                    lemma_row0_sum_wf(self@, cc);
                    lemma_ratio_ops_wf(cofactor_spec(self@, 0, cc), self@[0][cc]);
                    lemma_add_eq_chain(
                        next@,
                        acc@,
                        term@,
                        det_row0_sum(self@, cc),
                        ratio_mul(cofactor_spec(self@, 0, cc), self@[0][cc]),
                    );
                }
                acc = next;
                col = col + 1;
            }
            Some(acc)
        }
    }

    /// The determinant of the submatrix at `(r, c)`.
    pub fn minor(&self, r: usize, c: usize) -> (res: Option<Rat>)
        requires
            self.wf(),
            self.rows@.len() >= 3,
            r < self.rows@.len(),
            c < self.rows@.len(),
        ensures
            ({
                match res {
                    Some(v) => v.wf() && ratio_eq(
                        v@,
                        det_spec(submatrix_spec(self@, r as int, c as int)),
                    ) && Some(v@) == try_det(submatrix_spec(self@, r as int, c as int)),
                    None => try_det(submatrix_spec(self@, r as int, c as int)) is None,
                }
            }),
        decreases self.rows@.len(), 0int,
    {
        let s = self.submatrix(r, c);
        s.determinant()
    }

    /// The signed minor at `(r, c)`.
    pub fn cofactor(&self, r: usize, c: usize) -> (res: Option<Rat>)
        requires
            self.wf(),
            self.rows@.len() >= 3,
            r < self.rows@.len(),
            c < self.rows@.len(),
        ensures
            ({
                match res {
                    Some(v) => v.wf() && ratio_eq(v@, cofactor_spec(self@, r as int, c as int))
                        && Some(v@) == try_cofactor(self@, r as int, c as int),
                    None => try_cofactor(self@, r as int, c as int) is None,
                }
            }),
        decreases self.rows@.len(), 1int,
    {
        let m = match self.minor(r, c) {
            Some(v) => v,
            None => {
                return None;
            },
        };
        proof {
            assert(((r + c) as int % 2 == 0) == (r as int % 2 == c as int % 2))
                by (nonlinear_arith)
                requires
                    r as int >= 0 && c as int >= 0,
            {
            }
        }
        if r % 2 == c % 2 {
            Some(m)
        } else {
            proof {
                crate::rat::lemma_neg_congruence(
                    m@,
                    det_spec(submatrix_spec(self@, r as int, c as int)),
                );
            }
            Some(m.neg())
        }
    }

    /// Whether the determinant is nonzero.
    pub fn is_invertible(&self) -> (r: Option<bool>)
        requires
            self.wf(),
            self.rows@.len() >= 2,
        ensures
            ({
                match r {
                    Some(b) => b == (det_spec(self@).n != 0),
                    None => try_det(self@) is None,
                }
            }),
            (r is Some) == (try_det(self@) is Some),
    {
        let d = match self.determinant() {
            Some(v) => v,
            None => {
                return None;
            },
        };
        proof {
            lemma_det_wf(self@);
            lemma_eq_zero(d@, det_spec(self@));
        }
        Some(d.num != 0)
    }

    /// The inverse by the adjugate formula: entry `(i, j)` of the result
    /// is `cofactor(j, i) / determinant`. Returns `None` for a singular
    /// matrix.
    pub fn inverse(&self) -> (r: Option<Matrix>)
        requires
            self.wf(),
            self.rows@.len() >= 3,
        ensures
            ({
                match r {
                    Some(inv) => {
                        &&& inv.wf()
                        &&& inv@.len() == self@.len()
                        &&& det_spec(self@).n != 0
                        &&& forall|i: int, j: int|
                            0 <= i < self@.len() && 0 <= j < self@.len() ==> ratio_eq(
                                #[trigger] inv@[i][j],
                                ratio_div(cofactor_spec(self@, j, i), det_spec(self@)),
                            )
                        &&& inv@ == inverse_val(self@)
                    },
                    None => !inverse_ok(self@),
                }
            }),
            (r is Some) == inverse_ok(self@),
    {
        let det = match self.determinant() {
            Some(v) => v,
            None => {
                return None;
            },
        };
        proof {
            lemma_det_wf(self@);
            lemma_eq_zero(det@, det_spec(self@));
        }
        if det.num == 0 {
            return None;
        }
        let n = self.rows.len();
        let mut rows: Vec<Vec<Rat>> = Vec::new();
        let mut i: usize = 0;
        while i < n
            invariant
                i <= n,
                self.wf(),
                n == self.rows@.len(),
                n >= 3,
                det.wf(),
                det@.n != 0,
                ratio_eq(det@, det_spec(self@)),
                det_spec(self@).n != 0,
                ratio_wf(det_spec(self@)),
                Some(det@) == try_det(self@),
                rows@.len() == i,
                forall|p: int| 0 <= p < i ==> (#[trigger] rows@[p])@.len() == n,
                forall|p: int, q: int|
                    0 <= p < i && 0 <= q < n ==> (#[trigger] rows@[p]@[q]).wf() && ratio_eq(
                        rows@[p]@[q]@,
                        ratio_div(cofactor_spec(self@, q, p), det_spec(self@)),
                    ) && Some(rows@[p]@[q]@) == try_inverse_entry(self@, p, q),
            decreases n - i,
        {
            let mut row: Vec<Rat> = Vec::new();
            let mut j: usize = 0;
            while j < n
                invariant
                    j <= n,
                    i < n,
                    self.wf(),
                    n == self.rows@.len(),
                    n >= 3,
                    det.wf(),
                    det@.n != 0,
                    ratio_eq(det@, det_spec(self@)),
                    det_spec(self@).n != 0,
                    ratio_wf(det_spec(self@)),
                    Some(det@) == try_det(self@),
                    row@.len() == j,
                    forall|q: int|
                        0 <= q < j ==> (#[trigger] row@[q]).wf() && ratio_eq(
                            row@[q]@,
                            ratio_div(cofactor_spec(self@, q, i as int), det_spec(self@)),
                        ) && Some(row@[q]@) == try_inverse_entry(self@, i as int, q),
                decreases n - j,
            {
                let cof = match self.cofactor(j, i) {
                    Some(v) => v,
                    None => {
                        proof {
                            assert(try_inverse_entry(self@, i as int, j as int) is None);
                        }
                        return None;
                    },
                };
                let e = match cof.div(det) {
                    Some(v) => v,
                    None => {
                        proof {
                            assert(try_inverse_entry(self@, i as int, j as int) is None);
                        }
                        return None;
                    },
                };
                proof {
                    lemma_cofactor_wf(self@, j as int, i as int);
                    lemma_div_eq_chain(
                        e@,
                        cof@,
                        det@,
                        cofactor_spec(self@, j as int, i as int),
                        det_spec(self@),
                    );
                }
                row.push(e);
                j = j + 1;
            }
            rows.push(row);
            i = i + 1;
        }
        let inv = Matrix { rows };
        proof {
            assert forall|p: int, q: int|
                0 <= p < self@.len() && 0 <= q < self@.len() implies (
            #[trigger] try_inverse_entry(self@, p, q)) is Some by {
                assert(Some(rows@[p]@[q]@) == try_inverse_entry(self@, p, q));
            }
            assert(inv@ =~~= inverse_val(self@));
        }
        Some(inv)
    }
}

/// The inverse by the adjugate formula, as a model: entry `(i, j)` is
/// `cofactor(j, i) / determinant`.
pub open spec fn inverse_spec(m: MatV) -> MatV {
    Seq::new(
        m.len(),
        |i: int| Seq::new(m.len(), |j: int| ratio_div(cofactor_spec(m, j, i), det_spec(m))),
    )
}

/// The adjugate-formula inverse of a well-formed matrix with a nonzero
/// determinant is well formed.
pub proof fn lemma_inverse_spec_wf(m: MatV)
    requires
        mat_wf(m),
        m.len() >= 3,
        det_spec(m).n != 0,
    ensures
        mat_wf(inverse_spec(m)),
        inverse_spec(m).len() == m.len(),
{
    lemma_det_wf(m);
    assert forall|i: int, j: int|
        0 <= i < inverse_spec(m).len() && 0 <= j < inverse_spec(m).len() implies ratio_wf(
        #[trigger] inverse_spec(m)[i][j],
    ) by {
        lemma_cofactor_wf(m, j, i);
        lemma_ratio_ops_wf(cofactor_spec(m, j, i), det_spec(m));
    }
}

/// A 4-by-4 matrix with well-formed entries applied to a well-formed
/// tuple gives a well-formed tuple.
pub proof fn lemma_mat_tuple_mul_wf(m: MatV, t: V4)
    requires
        m.len() == 4,
        forall|i: int| 0 <= i < 4 ==> (#[trigger] m[i]).len() == 4,
        forall|i: int, j: int| 0 <= i < 4 && 0 <= j < 4 ==> ratio_wf(#[trigger] m[i][j]),
        v4_wf(t),
    ensures
        v4_wf(mat_tuple_mul_spec(m, t)),
{
    lemma_mat_tuple_row_wf(m, t, 0);
    lemma_mat_tuple_row_wf(m, t, 1);
    lemma_mat_tuple_row_wf(m, t, 2);
    lemma_mat_tuple_row_wf(m, t, 3);
}

pub proof fn lemma_mat_tuple_row_wf(m: MatV, t: V4, r: int)
    requires
        m.len() == 4,
        forall|i: int| 0 <= i < 4 ==> (#[trigger] m[i]).len() == 4,
        forall|i: int, j: int| 0 <= i < 4 && 0 <= j < 4 ==> ratio_wf(#[trigger] m[i][j]),
        v4_wf(t),
        0 <= r < 4,
    ensures
        ratio_wf(mat_tuple_row(m, t, r)),
{
    lemma_ratio_ops_wf(m[r][0], t.x);
    lemma_ratio_ops_wf(m[r][1], t.y);
    lemma_ratio_ops_wf(m[r][2], t.z);
    lemma_ratio_ops_wf(m[r][3], t.w);
    lemma_ratio_ops_wf(ratio_mul(m[r][0], t.x), ratio_mul(m[r][1], t.y));
    lemma_ratio_ops_wf(
        ratio_add(ratio_mul(m[r][0], t.x), ratio_mul(m[r][1], t.y)),
        ratio_mul(m[r][2], t.z),
    );
    lemma_ratio_ops_wf(
        ratio_add(
            ratio_add(ratio_mul(m[r][0], t.x), ratio_mul(m[r][1], t.y)),
            ratio_mul(m[r][2], t.z),
        ),
        ratio_mul(m[r][3], t.w),
    );
}

/// Applying entrywise-equal matrices to componentwise-equal tuples gives
/// componentwise-equal tuples.
pub proof fn lemma_mat_tuple_mul_congruence(m: MatV, m2: MatV, t: V4, t2: V4)
    requires
        m.len() == 4,
        m2.len() == 4,
        forall|i: int| 0 <= i < 4 ==> (#[trigger] m[i]).len() == 4,
        forall|i: int| 0 <= i < 4 ==> (#[trigger] m2[i]).len() == 4,
        forall|i: int, j: int| 0 <= i < 4 && 0 <= j < 4 ==> ratio_wf(#[trigger] m[i][j]),
        forall|i: int, j: int| 0 <= i < 4 && 0 <= j < 4 ==> ratio_wf(#[trigger] m2[i][j]),
        mat_eq(m, m2),
        v4_wf(t),
        v4_wf(t2),
        crate::tuple::v4_eq(t, t2),
    ensures
        crate::tuple::v4_eq(mat_tuple_mul_spec(m, t), mat_tuple_mul_spec(m2, t2)),
{
    lemma_mat_tuple_row_congruence(m, m2, t, t2, 0);
    lemma_mat_tuple_row_congruence(m, m2, t, t2, 1);
    lemma_mat_tuple_row_congruence(m, m2, t, t2, 2);
    lemma_mat_tuple_row_congruence(m, m2, t, t2, 3);
}

proof fn lemma_mat_tuple_row_congruence(m: MatV, m2: MatV, t: V4, t2: V4, r: int)
    requires
        m.len() == 4,
        m2.len() == 4,
        forall|i: int| 0 <= i < 4 ==> (#[trigger] m[i]).len() == 4,
        forall|i: int| 0 <= i < 4 ==> (#[trigger] m2[i]).len() == 4,
        forall|i: int, j: int| 0 <= i < 4 && 0 <= j < 4 ==> ratio_wf(#[trigger] m[i][j]),
        forall|i: int, j: int| 0 <= i < 4 && 0 <= j < 4 ==> ratio_wf(#[trigger] m2[i][j]),
        mat_eq(m, m2),
        v4_wf(t),
        v4_wf(t2),
        crate::tuple::v4_eq(t, t2),
        0 <= r < 4,
    ensures
        ratio_eq(mat_tuple_row(m, t, r), mat_tuple_row(m2, t2, r)),
{
    crate::rat::lemma_mul_congruence(m[r][0], t.x, m2[r][0], t2.x);
    crate::rat::lemma_mul_congruence(m[r][1], t.y, m2[r][1], t2.y);
    crate::rat::lemma_mul_congruence(m[r][2], t.z, m2[r][2], t2.z);
    crate::rat::lemma_mul_congruence(m[r][3], t.w, m2[r][3], t2.w);
    lemma_ratio_ops_wf(m[r][0], t.x);
    lemma_ratio_ops_wf(m[r][1], t.y);
    lemma_ratio_ops_wf(m[r][2], t.z);
    lemma_ratio_ops_wf(m[r][3], t.w);
    lemma_ratio_ops_wf(m2[r][0], t2.x);
    lemma_ratio_ops_wf(m2[r][1], t2.y);
    lemma_ratio_ops_wf(m2[r][2], t2.z);
    lemma_ratio_ops_wf(m2[r][3], t2.w);
    crate::rat::lemma_add_congruence(
        ratio_mul(m[r][0], t.x),
        ratio_mul(m[r][1], t.y),
        ratio_mul(m2[r][0], t2.x),
        ratio_mul(m2[r][1], t2.y),
    );
    lemma_ratio_ops_wf(ratio_mul(m[r][0], t.x), ratio_mul(m[r][1], t.y));
    lemma_ratio_ops_wf(ratio_mul(m2[r][0], t2.x), ratio_mul(m2[r][1], t2.y));
    crate::rat::lemma_add_congruence(
        ratio_add(ratio_mul(m[r][0], t.x), ratio_mul(m[r][1], t.y)),
        ratio_mul(m[r][2], t.z),
        ratio_add(ratio_mul(m2[r][0], t2.x), ratio_mul(m2[r][1], t2.y)),
        ratio_mul(m2[r][2], t2.z),
    );
    lemma_ratio_ops_wf(
        ratio_add(ratio_mul(m[r][0], t.x), ratio_mul(m[r][1], t.y)),
        ratio_mul(m[r][2], t.z),
    );
    lemma_ratio_ops_wf(
        ratio_add(ratio_mul(m2[r][0], t2.x), ratio_mul(m2[r][1], t2.y)),
        ratio_mul(m2[r][2], t2.z),
    );
    crate::rat::lemma_add_congruence(
        ratio_add(
            ratio_add(ratio_mul(m[r][0], t.x), ratio_mul(m[r][1], t.y)),
            ratio_mul(m[r][2], t.z),
        ),
        ratio_mul(m[r][3], t.w),
        ratio_add(
            ratio_add(ratio_mul(m2[r][0], t2.x), ratio_mul(m2[r][1], t2.y)),
            ratio_mul(m2[r][2], t2.z),
        ),
        ratio_mul(m2[r][3], t2.w),
    );
}

/// Transposing entrywise-equal matrices gives entrywise-equal matrices.
pub proof fn lemma_transpose_congruence(m: MatV, m2: MatV)
    requires
        mat_eq(m, m2),
    ensures
        mat_eq(transpose_spec(m), transpose_spec(m2)),
{
}

/// Entrywise exact equality of models is transitive.
pub proof fn lemma_mat_eq_trans(a: MatV, b: MatV, c: MatV)
    requires
        mat_wf(a),
        mat_wf(b),
        mat_wf(c),
        mat_eq(a, b),
        mat_eq(b, c),
    ensures
        mat_eq(a, c),
{
    assert forall|i: int, j: int|
        0 <= i < a.len() && 0 <= j < a.len() implies ratio_eq(#[trigger] a[i][j], #[trigger] c[i][j]) by {
        lemma_ratio_eq_trans(a[i][j], b[i][j], c[i][j]);
    }
}

/// The 4-by-4 product of well-formed matrices is well formed.
pub proof fn lemma_mat_mul_spec_wf(a: MatV, b: MatV)
    requires
        mat_wf(a),
        mat_wf(b),
        a.len() == 4,
        b.len() == 4,
    ensures
        mat_wf(mat_mul_spec(a, b)),
{
    assert forall|i: int, j: int|
        0 <= i < 4 && 0 <= j < 4 implies ratio_wf(#[trigger] mat_mul_spec(a, b)[i][j]) by {
        lemma_mat_mul_entry_wf(a, b, i, j);
    }
}

proof fn lemma_mat_mul_entry_wf(a: MatV, b: MatV, i: int, j: int)
    requires
        mat_wf(a),
        mat_wf(b),
        a.len() == 4,
        b.len() == 4,
        0 <= i < 4,
        0 <= j < 4,
    ensures
        ratio_wf(mat_mul_entry(a, b, i, j)),
{
    lemma_ratio_ops_wf(a[i][0], b[0][j]);
    lemma_ratio_ops_wf(a[i][1], b[1][j]);
    lemma_ratio_ops_wf(a[i][2], b[2][j]);
    lemma_ratio_ops_wf(a[i][3], b[3][j]);
    lemma_ratio_ops_wf(ratio_mul(a[i][0], b[0][j]), ratio_mul(a[i][1], b[1][j]));
    lemma_ratio_ops_wf(
        ratio_add(ratio_mul(a[i][0], b[0][j]), ratio_mul(a[i][1], b[1][j])),
        ratio_mul(a[i][2], b[2][j]),
    );
    lemma_ratio_ops_wf(
        ratio_add(
            ratio_add(ratio_mul(a[i][0], b[0][j]), ratio_mul(a[i][1], b[1][j])),
            ratio_mul(a[i][2], b[2][j]),
        ),
        ratio_mul(a[i][3], b[3][j]),
    );
}

/// Law: transposing the identity matrix returns the identity matrix, for
/// every size.
pub proof fn lemma_transpose_identity(n: nat)
    ensures
        transpose_spec(identity_spec(n)) == identity_spec(n),
{
    assert(transpose_spec(identity_spec(n)) =~~= identity_spec(n));
}

/// Removing a row and a column of a well-formed square matrix leaves a
/// well-formed square matrix one size smaller.
pub proof fn lemma_submatrix_wf(m: MatV, r: int, c: int)
    requires
        mat_wf(m),
        m.len() >= 1,
        0 <= r < m.len(),
        0 <= c < m.len(),
    ensures
        mat_wf(submatrix_spec(m, r, c)),
        submatrix_spec(m, r, c).len() == m.len() - 1,
{
}

/// The determinant of a well-formed matrix is well formed.
pub proof fn lemma_det_wf(m: MatV)
    requires
        mat_wf(m),
        m.len() >= 2,
    ensures
        ratio_wf(det_spec(m)),
    decreases m.len(), 2int, 0int,
{
    if m.len() == 2 {
        lemma_ratio_ops_wf(m[0][0], m[1][1]);
        lemma_ratio_ops_wf(m[0][1], m[1][0]);
        lemma_ratio_ops_wf(ratio_mul(m[0][0], m[1][1]), ratio_mul(m[0][1], m[1][0]));
    } else {
        lemma_row0_sum_wf(m, m.len() as int);
    }
}

/// Each partial cofactor expansion is well formed.
pub proof fn lemma_row0_sum_wf(m: MatV, c: int)
    requires
        mat_wf(m),
        m.len() >= 3,
        c <= m.len(),
    ensures
        ratio_wf(det_row0_sum(m, c)),
    decreases m.len(), 1int, c,
{
    if c <= 0 {
    } else {
        lemma_row0_sum_wf(m, c - 1);
        lemma_cofactor_wf(m, 0, c - 1);
        lemma_ratio_ops_wf(cofactor_spec(m, 0, c - 1), m[0][c - 1]);
        lemma_ratio_ops_wf(
            det_row0_sum(m, c - 1),
            ratio_mul(cofactor_spec(m, 0, c - 1), m[0][c - 1]),
        );
    }
}

/// Each cofactor of a well-formed matrix is well formed.
pub proof fn lemma_cofactor_wf(m: MatV, r: int, c: int)
    requires
        mat_wf(m),
        m.len() >= 3,
        0 <= r < m.len(),
        0 <= c < m.len(),
    ensures
        ratio_wf(cofactor_spec(m, r, c)),
    decreases m.len(), 0int, 0int,
{
    lemma_submatrix_wf(m, r, c);
    lemma_det_wf(submatrix_spec(m, r, c));
}

} // verus!
