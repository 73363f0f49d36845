//! Plane geometry of a lamp's gamut triangle.
//!
//! Chromaticities are points of the lamp's own grid: a coordinate `v` of type
//! `u16` stands for the real number `v / 65535`. On that grid every test
//! below is decided exactly, in integers.

use crate::fraction::Fraction;
use vstd::prelude::*;

verus! {

/// A grid point read as a pair of mathematical integers.
pub open spec fn at(p: (u16, u16)) -> (int, int) {
    (p.0 as int, p.1 as int)
}

/// The vector from `b` to `a`.
pub open spec fn diff(a: (int, int), b: (int, int)) -> (int, int) {
    (a.0 - b.0, a.1 - b.1)
}

/// Scalar product of two plane vectors.
pub open spec fn dot(a: (int, int), b: (int, int)) -> int {
    a.0 * b.0 + a.1 * b.1
}

/// Signed area of the parallelogram spanned by `a` and `b`.
pub open spec fn cross(a: (int, int), b: (int, int)) -> int {
    a.0 * b.1 - a.1 * b.0
}

/// The three primaries of a lamp family, as grid points.
#[derive(Clone, Copy, Debug)]
pub struct PhilipsGamut {
    pub red: (u16, u16),
    pub green: (u16, u16),
    pub blue: (u16, u16),
}

/// Gamut A, of the first colour lamps and light strips:
/// red (0.704, 0.296), green (0.2151, 0.7106), blue (0.138, 0.08).
pub fn philips_gamut_a() -> (gamut: PhilipsGamut)
    ensures
        gamut.red == (46137u16, 19398u16),
        gamut.green == (14097u16, 46569u16),
        gamut.blue == (9044u16, 5243u16),
        gamut.non_degenerate(),
{
    let gamut = PhilipsGamut { red: (46137, 19398), green: (14097, 46569), blue: (9044, 5243) };
    proof {
        assert(gamut.to_blue() == (-37093int, -14155int));
        assert(gamut.to_green() == (-32040int, 27171int));
        assert((-37093int) * (27171int) - (-14155int) * (-32040int) == -1461380103int) by (nonlinear_arith);
    }
    gamut
}

/// Gamut B: red (0.675, 0.322), green (0.4091, 0.518), blue (0.167, 0.04).
pub fn philips_gamut_b() -> (gamut: PhilipsGamut)
    ensures
        gamut.red == (44236u16, 21102u16),
        gamut.green == (26810u16, 33947u16),
        gamut.blue == (10944u16, 2621u16),
        gamut.non_degenerate(),
{
    let gamut = PhilipsGamut { red: (44236, 21102), green: (26810, 33947), blue: (10944, 2621) };
    proof {
        assert(gamut.to_blue() == (-33292int, -18481int));
        assert(gamut.to_green() == (-17426int, 12845int));
        assert((-33292int) * (12845int) - (-18481int) * (-17426int) == -749685646int) by (nonlinear_arith);
    }
    gamut
}

/// Gamut C: red (0.692, 0.308), green (0.17, 0.7), blue (0.153, 0.048).
pub fn philips_gamut_c() -> (gamut: PhilipsGamut)
    ensures
        gamut.red == (45350u16, 20185u16),
        gamut.green == (11141u16, 45875u16),
        gamut.blue == (10027u16, 3146u16),
        gamut.non_degenerate(),
{
    let gamut = PhilipsGamut { red: (45350, 20185), green: (11141, 45875), blue: (10027, 3146) };
    proof {
        assert(gamut.to_blue() == (-35323int, -17039int));
        assert(gamut.to_green() == (-34209int, 25690int));
        assert((-35323int) * (25690int) - (-17039int) * (-34209int) == -1490335021int) by (nonlinear_arith);
    }
    gamut
}

impl PhilipsGamut {
    /// The edge vector from red to blue.
    pub open spec fn to_blue(&self) -> (int, int) {
        diff(at(self.blue), at(self.red))
    }

    /// The edge vector from red to green.
    pub open spec fn to_green(&self) -> (int, int) {
        diff(at(self.green), at(self.red))
    }

    /// The primaries are not on one line.
    pub open spec fn non_degenerate(&self) -> bool {
        cross(self.to_blue(), self.to_green()) != 0
    }

    /// Common denominator of the two barycentric coefficients.
    pub open spec fn bary_den(&self) -> int {
        let v0 = self.to_blue();
        let v1 = self.to_green();
        dot(v0, v0) * dot(v1, v1) - dot(v0, v1) * dot(v0, v1)
    }

    /// Numerator of `u`, the coefficient of the red-to-blue edge.
    pub open spec fn bary_u(&self, p: (u16, u16)) -> int {
        let v0 = self.to_blue();
        let v1 = self.to_green();
        let v2 = diff(at(p), at(self.red));
        dot(v1, v1) * dot(v0, v2) - dot(v0, v1) * dot(v1, v2)
    }

    /// Numerator of `v`, the coefficient of the red-to-green edge.
    pub open spec fn bary_v(&self, p: (u16, u16)) -> int {
        let v0 = self.to_blue();
        let v1 = self.to_green();
        let v2 = diff(at(p), at(self.red));
        dot(v0, v0) * dot(v1, v2) - dot(v0, v1) * dot(v0, v2)
    }

    /// `p` has `u >= 0`, `v >= 0` and `u + v < 1`.
    pub open spec fn contains(&self, p: (u16, u16)) -> bool {
        &&& self.bary_u(p) >= 0
        &&& self.bary_v(p) >= 0
        &&& self.bary_u(p) + self.bary_v(p) < self.bary_den()
    }

    /// Whether the primaries span a triangle.
    pub fn is_triangle(&self) -> (spans: bool)
        ensures
            spans == self.non_degenerate(),
    {
        let v0 = delta(self.blue, self.red);
        let v1 = delta(self.green, self.red);
        proof {
            lemma_product_bound(v0.0 as int, v1.1 as int, 65535, 65535);
            lemma_product_bound(v0.1 as int, v1.0 as int, 65535, 65535);
        }
        v0.0 * v1.1 - v0.1 * v1.0 != 0
    }

    /// Whether `p` lies inside the triangle. The edge opposite red, where
    /// `u + v == 1`, counts as outside.
    pub fn is_inside(&self, p: (u16, u16)) -> (inside: bool)
        ensures
            inside == self.contains(p),
    {
        let v0 = delta(self.blue, self.red);
        let v1 = delta(self.green, self.red);
        let v2 = delta(p, self.red);

        let dot00: i128 = scalar(v0, v0) as i128;
        let dot01: i128 = scalar(v0, v1) as i128;
        let dot02: i128 = scalar(v0, v2) as i128;
        let dot11: i128 = scalar(v1, v1) as i128;
        let dot12: i128 = scalar(v1, v2) as i128;

        proof {
            lemma_product_bound(dot00 as int, dot11 as int, SCALAR_MAX as int, SCALAR_MAX as int);
            lemma_product_bound(dot01 as int, dot01 as int, SCALAR_MAX as int, SCALAR_MAX as int);
            lemma_product_bound(dot11 as int, dot02 as int, SCALAR_MAX as int, SCALAR_MAX as int);
            lemma_product_bound(dot01 as int, dot12 as int, SCALAR_MAX as int, SCALAR_MAX as int);
            lemma_product_bound(dot00 as int, dot12 as int, SCALAR_MAX as int, SCALAR_MAX as int);
            lemma_product_bound(dot01 as int, dot02 as int, SCALAR_MAX as int, SCALAR_MAX as int);
        }
        let den: i128 = dot00 * dot11 - dot01 * dot01;
        let u: i128 = dot11 * dot02 - dot01 * dot12;
        let v: i128 = dot00 * dot12 - dot01 * dot02;
        u >= 0 && v >= 0 && u + v < den
    }
}

/// Largest magnitude of a scalar product of two differences of grid points.
pub const SCALAR_MAX: i64 = 8_589_672_450;

/// `|a * b| <= x * y` whenever `|a| <= x` and `|b| <= y`.
pub proof fn lemma_product_bound(a: int, b: int, x: int, y: int)
    by (nonlinear_arith)
    requires
        -x <= a <= x,
        -y <= b <= y,
    ensures
        -(x * y) <= a * b <= x * y,
{
}

/// The vector from `b` to `a`, in machine integers.
fn delta(a: (u16, u16), b: (u16, u16)) -> (d: (i64, i64))
    ensures
        (d.0 as int, d.1 as int) == diff(at(a), at(b)),
        -65535 <= d.0 <= 65535,
        -65535 <= d.1 <= 65535,
{
    (a.0 as i64 - b.0 as i64, a.1 as i64 - b.1 as i64)
}

/// Scalar product of two difference vectors, in machine integers.
fn scalar(a: (i64, i64), b: (i64, i64)) -> (s: i64)
    requires
        -65535 <= a.0 <= 65535,
        -65535 <= a.1 <= 65535,
        -65535 <= b.0 <= 65535,
        -65535 <= b.1 <= 65535,
    ensures
        s == dot((a.0 as int, a.1 as int), (b.0 as int, b.1 as int)),
        -SCALAR_MAX <= s <= SCALAR_MAX,
{
    proof {
        lemma_product_bound(a.0 as int, b.0 as int, 65535, 65535);
        lemma_product_bound(a.1 as int, b.1 as int, 65535, 65535);
    }
    a.0 * b.0 + a.1 * b.1
}

/// Squared length of the segment from `a` to `b`.
pub open spec fn seg_len2(a: (u16, u16), b: (u16, u16)) -> int {
    let ab = diff(at(b), at(a));
    dot(ab, ab)
}

/// Scalar product of `p - a` with `b - a`: the projection parameter of `p`
/// on the line through `a` and `b`, times `seg_len2(a, b)`.
pub open spec fn seg_reach(p: (u16, u16), a: (u16, u16), b: (u16, u16)) -> int {
    dot(diff(at(p), at(a)), diff(at(b), at(a)))
}

/// `seg_reach` clamped into the segment: the parameter lies in `[0, 1]`.
pub open spec fn seg_param(p: (u16, u16), a: (u16, u16), b: (u16, u16)) -> int {
    let n = seg_reach(p, a, b);
    let d = seg_len2(a, b);
    if n < 0 {
        0
    } else if n > d {
        d
    } else {
        n
    }
}

/// Denominator of the projection's coordinates and of its squared distance:
/// the squared length, or 1 for a segment that is a single point.
pub open spec fn seg_den(a: (u16, u16), b: (u16, u16)) -> int {
    if a == b {
        1
    } else {
        seg_len2(a, b)
    }
}

/// The point of the segment nearest to `p`, in grid units times `seg_den`.
pub open spec fn seg_point(p: (u16, u16), a: (u16, u16), b: (u16, u16)) -> (int, int) {
    let ab = diff(at(b), at(a));
    let t = seg_param(p, a, b);
    let d = seg_den(a, b);
    (a.0 * d + ab.0 * t, a.1 * d + ab.1 * t)
}

/// Squared distance from `p` to the segment, in grid units times `seg_den`.
pub open spec fn seg_dist(p: (u16, u16), a: (u16, u16), b: (u16, u16)) -> int {
    let ap = diff(at(p), at(a));
    let t = seg_param(p, a, b);
    seg_den(a, b) * dot(ap, ap) - t * (2 * seg_reach(p, a, b) - t)
}

/// The segment from `a` to `b` is at most as far from `p` as the one from `c` to `d`.
pub open spec fn seg_no_farther(
    p: (u16, u16),
    a: (u16, u16),
    b: (u16, u16),
    c: (u16, u16),
    d: (u16, u16),
) -> bool {
    seg_dist(p, a, b) * seg_den(c, d) <= seg_dist(p, c, d) * seg_den(a, b)
}

/// The projection of `p` onto the segment, as a chromaticity.
pub open spec fn foot(p: (u16, u16), a: (u16, u16), b: (u16, u16)) -> (Fraction, Fraction) {
    let q = seg_point(p, a, b);
    let den = (seg_den(a, b) * 65535) as u64;
    (Fraction { num: q.0 as i64, den }, Fraction { num: q.1 as i64, den })
}

/// An edge of the gamut triangle.
#[derive(Clone, Copy, Debug, PartialEq, Eq, Structural)]
pub enum Edge {
    GreenBlue,
    GreenRed,
    BlueRed,
}

impl PhilipsGamut {
    /// The two ends of an edge.
    pub open spec fn ends(&self, e: Edge) -> ((u16, u16), (u16, u16)) {
        match e {
            Edge::GreenBlue => (self.green, self.blue),
            Edge::GreenRed => (self.green, self.red),
            Edge::BlueRed => (self.blue, self.red),
        }
    }

    /// The edge nearest to `p`. Of edges at the same distance the first in
    /// the order green-blue, green-red, blue-red is taken.
    pub open spec fn nearest_edge(&self, p: (u16, u16)) -> Edge {
        let (g, b, r) = (self.green, self.blue, self.red);
        if seg_no_farther(p, g, b, g, r) && seg_no_farther(p, g, b, b, r) {
            Edge::GreenBlue
        } else if seg_no_farther(p, g, r, b, r) {
            Edge::GreenRed
        } else {
            Edge::BlueRed
        }
    }

    /// The boundary point nearest to `p`.
    pub open spec fn nearest(&self, p: (u16, u16)) -> (Fraction, Fraction) {
        let e = self.ends(self.nearest_edge(p));
        foot(p, e.0, e.1)
    }

    /// Which edge carries the boundary point nearest to `p`.
    pub fn closest_edge(&self, p: (u16, u16)) -> (e: Edge)
        ensures
            e == self.nearest_edge(p),
    {
        let gb = dist(p, self.green, self.blue);
        let gr = dist(p, self.green, self.red);
        let br = dist(p, self.blue, self.red);
        proof {
            lemma_product_bound(gb.0 as int, gr.1 as int, DIST_MAX as int, SCALAR_MAX as int);
            lemma_product_bound(gr.0 as int, gb.1 as int, DIST_MAX as int, SCALAR_MAX as int);
            lemma_product_bound(gb.0 as int, br.1 as int, DIST_MAX as int, SCALAR_MAX as int);
            lemma_product_bound(br.0 as int, gb.1 as int, DIST_MAX as int, SCALAR_MAX as int);
            lemma_product_bound(gr.0 as int, br.1 as int, DIST_MAX as int, SCALAR_MAX as int);
            lemma_product_bound(br.0 as int, gr.1 as int, DIST_MAX as int, SCALAR_MAX as int);
        }
        if gb.0 * gr.1 <= gr.0 * gb.1 && gb.0 * br.1 <= br.0 * gb.1 {
            Edge::GreenBlue
        } else if gr.0 * br.1 <= br.0 * gr.1 {
            Edge::GreenRed
        } else {
            Edge::BlueRed
        }
    }

    /// The point of the triangle's boundary nearest to `p`.
    pub fn closest_point(&self, p: (u16, u16)) -> (q: (Fraction, Fraction))
        ensures
            q == self.nearest(p),
    {
        match self.closest_edge(p) {
            Edge::GreenBlue => closest_point_on_segment(p, self.green, self.blue),
            Edge::GreenRed => closest_point_on_segment(p, self.green, self.red),
            Edge::BlueRed => closest_point_on_segment(p, self.blue, self.red),
        }
    }
}

/// Largest numerator of a squared distance to a segment.
pub const DIST_MAX: i128 = 73_782_472_897_458_005_000;

/// A scalar product of a difference with itself is zero only for the zero vector.
pub proof fn lemma_norm_positive(x: int, y: int)
    by (nonlinear_arith)
    ensures
        x * x + y * y >= 0,
        x * x + y * y == 0 <==> (x == 0 && y == 0),
{
}

/// The point of the segment from `a` to `b` nearest to `p`: the projection
/// of `p` on the line, moved to the nearer end where it falls outside. A
/// segment that is a single point gives that point.
pub fn closest_point_on_segment(p: (u16, u16), a: (u16, u16), b: (u16, u16)) -> (q: (
    Fraction,
    Fraction,
))
    ensures
        q == foot(p, a, b),
{
    if a.0 == b.0 && a.1 == b.1 {
        proof {
            assert(a == b);
            assert(seg_len2(a, b) == 0) by (nonlinear_arith)
                requires
                    a == b,
            ;
            assert(seg_point(p, a, b) == at(a)) by (nonlinear_arith)
                requires
                    a == b,
                    seg_param(p, a, b) == 0,
                    seg_den(a, b) == 1,
            ;
        }
        return (Fraction { num: a.0 as i64, den: 65535 }, Fraction { num: a.1 as i64, den: 65535 });
    }
    let ap = delta(p, a);
    let ab = delta(b, a);
    let ab_sqr: i64 = scalar(ab, ab);
    let ap_dot_ab: i64 = scalar(ap, ab);
    proof {
        lemma_norm_positive(ab.0 as int, ab.1 as int);
    }
    let t: i64 = if ap_dot_ab < 0 {
        0
    } else if ap_dot_ab > ab_sqr {
        ab_sqr
    } else {
        ap_dot_ab
    };
    proof {
        lemma_product_bound(a.0 as int, ab_sqr as int, 65535, SCALAR_MAX as int);
        lemma_product_bound(a.1 as int, ab_sqr as int, 65535, SCALAR_MAX as int);
        lemma_product_bound(ab.0 as int, t as int, 65535, SCALAR_MAX as int);
        lemma_product_bound(ab.1 as int, t as int, 65535, SCALAR_MAX as int);
    }
    let x: i64 = a.0 as i64 * ab_sqr + ab.0 * t;
    let y: i64 = a.1 as i64 * ab_sqr + ab.1 * t;
    let den: u64 = ab_sqr as u64 * 65535;
    (Fraction { num: x, den }, Fraction { num: y, den })
}

/// Squared distance from `p` to the segment from `a` to `b`, as a numerator
/// and a positive denominator.
pub fn dist(p: (u16, u16), a: (u16, u16), b: (u16, u16)) -> (d: (i128, i128))
    ensures
        d.0 == seg_dist(p, a, b),
        d.1 == seg_den(a, b),
        0 <= d.0 <= DIST_MAX,
        0 < d.1 <= SCALAR_MAX,
{
    let ap = delta(p, a);
    let ab = delta(b, a);
    let ap_sqr: i128 = scalar(ap, ap) as i128;
    let ab_sqr: i128 = scalar(ab, ab) as i128;
    let n: i128 = scalar(ap, ab) as i128;
    proof {
        lemma_norm_positive(ab.0 as int, ab.1 as int);
        lemma_norm_positive(ap.0 as int, ap.1 as int);
    }
    let t: i128 = if n < 0 {
        0
    } else if n > ab_sqr {
        ab_sqr
    } else {
        n
    };
    let den: i128 = if ab_sqr == 0 {
        1
    } else {
        ab_sqr
    };
    proof {
        lemma_product_bound(den as int, ap_sqr as int, SCALAR_MAX as int, SCALAR_MAX as int);
        lemma_product_bound(t as int, 2 * n - t, SCALAR_MAX as int, 3 * SCALAR_MAX);
        lemma_lagrange((ap.0 as int, ap.1 as int), (ab.0 as int, ab.1 as int));
        lemma_gain_bounds(ap_sqr as int, ab_sqr as int, n as int, t as int, den as int);
    }
    (den * ap_sqr - t * (2 * n - t), den)
}

/// Regrouping a product of four factors.
pub proof fn lemma_regroup(a: int, b: int, c: int, d: int)
    by (nonlinear_arith)
    ensures
        (a * b) * (c * d) == (a * c) * (b * d),
        (a * b) * (c * d) == (a * d) * (c * b),
{
    assert((a * b) * (c * d) == a * (b * (c * d)));
    assert(b * (c * d) == c * (b * d));
    assert(a * (c * (b * d)) == (a * c) * (b * d));
    assert(b * (c * d) == d * (c * b));
    assert(a * (d * (c * b)) == (a * d) * (c * b));
}

/// Lagrange's identity in the plane, and with it the inequality of Cauchy
/// and Schwarz.
pub proof fn lemma_lagrange(a: (int, int), b: (int, int))
    ensures
        dot(a, a) * dot(b, b) - dot(a, b) * dot(a, b) == cross(a, b) * cross(a, b),
        dot(a, b) * dot(a, b) <= dot(a, a) * dot(b, b),
{
    let (ax, ay, bx, by) = (a.0, a.1, b.0, b.1);
    let p = ax * bx;
    let q = ay * by;
    let r = ax * by;
    let s = ay * bx;
    lemma_regroup(ax, ax, bx, bx);
    lemma_regroup(ax, ax, by, by);
    lemma_regroup(ay, ay, bx, bx);
    lemma_regroup(ay, ay, by, by);
    lemma_regroup(ax, bx, ay, by);
    assert(p * q == r * s);
    let (sa, sb, sc, sd) = (ax * ax, ay * ay, bx * bx, by * by);
    assert((sa + sb) * (sc + sd) == sa * sc + sa * sd + sb * sc + sb * sd) by (nonlinear_arith);
    assert((p + q) * (p + q) == p * p + 2 * (p * q) + q * q) by (nonlinear_arith);
    assert((r - s) * (r - s) == r * r - 2 * (r * s) + s * s) by (nonlinear_arith);
    assert((r - s) * (r - s) >= 0) by (nonlinear_arith);
}

/// What the clamped projection takes off the squared distance to `a` is
/// neither negative nor more than that distance.
pub proof fn lemma_gain_bounds(ap_sqr: int, ab_sqr: int, n: int, t: int, den: int)
    by (nonlinear_arith)
    requires
        0 <= ap_sqr,
        0 <= ab_sqr,
        n * n <= ap_sqr * ab_sqr,
        t == if n < 0 { 0 } else if n > ab_sqr { ab_sqr } else { n },
        den == if ab_sqr == 0 { 1 } else { ab_sqr },
    ensures
        0 <= t * (2 * n - t) <= den * ap_sqr,
{
    if n < 0 {
    } else if n > ab_sqr {
        // t = ab_sqr < n, so n * n <= ap_sqr * ab_sqr gives ab_sqr < n <= ap_sqr
        assert(ab_sqr * (2 * n - ab_sqr) <= n * n) by {
            assert((n - ab_sqr) * (n - ab_sqr) >= 0);
        }
    } else {
        assert(n * (2 * n - n) == n * n);
    }
}


} // verus!
