//! What holds of the gamut geometry: the coefficients that `is_inside` tests
//! are the barycentric coordinates, and the nearest boundary point is on the
//! boundary and at least as near as every vertex.

use crate::fraction::Fraction;
use crate::gamut::{
    at, cross, diff, dot, foot, lemma_lagrange, lemma_product_bound, lemma_regroup, seg_den,
    seg_dist, seg_len2, seg_no_farther, seg_param, seg_point, seg_reach, Edge, PhilipsGamut,
    SCALAR_MAX,
};
use vstd::prelude::*;

verus! {

/// The identity of Binet and Cauchy in the plane.
pub proof fn lemma_binet_cauchy(a: (int, int), b: (int, int), c: (int, int), d: (int, int))
    ensures
        dot(a, c) * dot(b, d) - dot(a, d) * dot(b, c) == cross(a, b) * cross(c, d),
{
    let (ax, ay, bx, by) = (a.0, a.1, b.0, b.1);
    let (cx, cy, dx, dy) = (c.0, c.1, d.0, d.1);
    lemma_regroup(ax, cx, bx, dx);
    lemma_regroup(ay, cy, by, dy);
    lemma_regroup(ax, cx, by, dy);
    lemma_regroup(ay, cy, bx, dx);
    lemma_regroup(ax, dx, by, cy);
    lemma_regroup(ay, dy, bx, cx);
    assert((ax * dx) * (by * cy) == (ax * by) * (cy * dx)) by (nonlinear_arith)
        requires
            (ax * dx) * (by * cy) == (ax * by) * (dx * cy),
    ;
    assert((ay * dy) * (bx * cx) == (ay * bx) * (cx * dy)) by (nonlinear_arith)
        requires
            (ay * dy) * (bx * cx) == (ay * bx) * (dy * cx),
    ;
    let (p1, p2, p3, p4) = (ax * cx, ay * cy, bx * dx, by * dy);
    let (q1, q2, q3, q4) = (ax * dx, ay * dy, bx * cx, by * cy);
    let (r1, r2, r3, r4) = (ax * by, ay * bx, cx * dy, cy * dx);
    assert((p1 + p2) * (p3 + p4) == p1 * p3 + p1 * p4 + p2 * p3 + p2 * p4) by (nonlinear_arith);
    assert((q1 + q2) * (q3 + q4) == q1 * q3 + q1 * q4 + q2 * q3 + q2 * q4) by (nonlinear_arith);
    assert((r1 - r2) * (r3 - r4) == r1 * r3 - r1 * r4 - r2 * r3 + r2 * r4) by (nonlinear_arith);
}

/// Cramer's rule in the plane: `cross(a, b) * c` is `c` written in the
/// directions `a` and `b`.
pub proof fn lemma_cramer(a: (int, int), b: (int, int), c: (int, int))
    ensures
        cross(a, b) * c.0 == cross(c, b) * a.0 + cross(a, c) * b.0,
        cross(a, b) * c.1 == cross(c, b) * a.1 + cross(a, c) * b.1,
{
    let (ax, ay, bx, by, cx, cy) = (a.0, a.1, b.0, b.1, c.0, c.1);
    assert((ax * by - ay * bx) * cx == (cx * by - cy * bx) * ax + (ax * cy - ay * cx) * bx)
        by (nonlinear_arith);
    assert((ax * by - ay * bx) * cy == (cx * by - cy * bx) * ay + (ax * cy - ay * cx) * by)
        by (nonlinear_arith);
}

/// The numbers that `is_inside` tests are barycentric coordinates: with
/// `u = bary_u / bary_den` and `v = bary_v / bary_den`, every grid point is
/// `red + u (blue - red) + v (green - red)`. The denominator is a square,
/// positive exactly where the primaries are not on one line.
pub proof fn lemma_barycentric(g: PhilipsGamut, p: (u16, u16))
    ensures
        g.bary_den() == cross(g.to_blue(), g.to_green()) * cross(g.to_blue(), g.to_green()),
        g.bary_den() >= 0,
        g.bary_den() > 0 <==> g.non_degenerate(),
        g.bary_den() * (p.0 - g.red.0) == g.bary_u(p) * g.to_blue().0 + g.bary_v(p)
            * g.to_green().0,
        g.bary_den() * (p.1 - g.red.1) == g.bary_u(p) * g.to_blue().1 + g.bary_v(p)
            * g.to_green().1,
{
    let v0 = g.to_blue();
    let v1 = g.to_green();
    let v2 = diff(at(p), at(g.red));
    let c = cross(v0, v1);
    lemma_lagrange(v0, v1);
    lemma_binet_cauchy(v1, v0, v1, v2);
    lemma_binet_cauchy(v0, v1, v0, v2);
    lemma_cramer(v0, v1, v2);
    let m = cross(v2, v1);
    let n = cross(v0, v2);
    assert(cross(v1, v0) * cross(v1, v2) == c * m) by (nonlinear_arith)
        requires
            cross(v1, v0) == -c,
            cross(v1, v2) == -m,
    ;
    assert(g.bary_u(p) == c * m) by (nonlinear_arith)
        requires
            g.bary_u(p) == dot(v1, v1) * dot(v0, v2) - dot(v0, v1) * dot(v1, v2),
            dot(v1, v1) * dot(v0, v2) - dot(v1, v2) * dot(v0, v1) == c * m,
    ;
    assert(g.bary_v(p) == c * n) by (nonlinear_arith)
        requires
            g.bary_v(p) == dot(v0, v0) * dot(v1, v2) - dot(v0, v1) * dot(v0, v2),
            dot(v0, v0) * dot(v1, v2) - dot(v0, v2) * dot(v1, v0) == c * n,
            dot(v1, v0) == dot(v0, v1),
    ;
    assert(c * c >= 0 && (c * c > 0 <==> c != 0)) by (nonlinear_arith);
    assert((c * c) * v2.0 == (c * m) * v0.0 + (c * n) * v1.0) by (nonlinear_arith)
        requires
            c * v2.0 == m * v0.0 + n * v1.0,
    ;
    assert((c * c) * v2.1 == (c * m) * v0.1 + (c * n) * v1.1) by (nonlinear_arith)
        requires
            c * v2.1 == m * v0.1 + n * v1.1,
    ;
}

/// A point with `u + v == 1`, on the edge from blue to green, is outside.
pub proof fn lemma_far_edge_is_outside(g: PhilipsGamut, p: (u16, u16))
    requires
        g.bary_u(p) + g.bary_v(p) == g.bary_den(),
    ensures
        !g.contains(p),
{
}

/// The vector from the grid point `a` to `q`, times 65535 and `q`'s denominator.
pub open spec fn offset(q: (Fraction, Fraction), a: (u16, u16)) -> (int, int) {
    (65535 * q.0.num - a.0 * q.0.den, 65535 * q.1.num - a.1 * q.1.den)
}

/// Both coordinates of `q` are ordinary numbers over one denominator.
pub open spec fn is_point(q: (Fraction, Fraction)) -> bool {
    q.0.den == q.1.den && q.0.den > 0
}

/// `q` lies on the segment from `a` to `b`.
pub open spec fn on_segment(q: (Fraction, Fraction), a: (u16, u16), b: (u16, u16)) -> bool {
    let ab = diff(at(b), at(a));
    let w = offset(q, a);
    &&& is_point(q)
    &&& cross(ab, w) == 0
    &&& 0 <= dot(ab, w) <= q.0.den * dot(ab, ab)
}

/// `q` lies on one of the three edges of the triangle.
pub open spec fn on_boundary(g: PhilipsGamut, q: (Fraction, Fraction)) -> bool {
    ||| on_segment(q, g.green, g.blue)
    ||| on_segment(q, g.green, g.red)
    ||| on_segment(q, g.blue, g.red)
}

/// `q` is at most as far from `p` as the grid point `v` is.
pub open spec fn no_farther_than(q: (Fraction, Fraction), p: (u16, u16), v: (u16, u16)) -> bool {
    let w = offset(q, p);
    let pv = diff(at(v), at(p));
    dot(w, w) <= q.0.den * q.0.den * dot(pv, pv)
}

/// The coordinates of a projection fit their machine types.
pub proof fn lemma_foot_fields(p: (u16, u16), a: (u16, u16), b: (u16, u16))
    ensures
        0 < seg_den(a, b) <= SCALAR_MAX,
        0 <= seg_param(p, a, b) <= seg_len2(a, b) <= SCALAR_MAX,
        a != b ==> seg_den(a, b) == seg_len2(a, b),
        a == b ==> seg_len2(a, b) == 0,
        foot(p, a, b).0.num == seg_point(p, a, b).0,
        foot(p, a, b).1.num == seg_point(p, a, b).1,
        foot(p, a, b).0.den == seg_den(a, b) * 65535,
        foot(p, a, b).1.den == seg_den(a, b) * 65535,
{
    let ab = diff(at(b), at(a));
    crate::gamut::lemma_norm_positive(ab.0, ab.1);
    lemma_product_bound(ab.0, ab.0, 65535, 65535);
    lemma_product_bound(ab.1, ab.1, 65535, 65535);
    let d = seg_den(a, b);
    let t = seg_param(p, a, b);
    lemma_product_bound(a.0 as int, d, 65535, SCALAR_MAX as int);
    lemma_product_bound(a.1 as int, d, 65535, SCALAR_MAX as int);
    lemma_product_bound(ab.0, t, 65535, SCALAR_MAX as int);
    lemma_product_bound(ab.1, t, 65535, SCALAR_MAX as int);
}

/// A projection onto a segment lies on that segment.
pub proof fn lemma_foot_on_segment(p: (u16, u16), a: (u16, u16), b: (u16, u16))
    ensures
        on_segment(foot(p, a, b), a, b),
{
    lemma_foot_fields(p, a, b);
    let q = foot(p, a, b);
    let ab = diff(at(b), at(a));
    let t = seg_param(p, a, b);
    let d = seg_den(a, b);
    let len = seg_len2(a, b);
    let w = offset(q, a);
    assert(w.0 == 65535 * (ab.0 * t)) by (nonlinear_arith)
        requires
            w.0 == 65535 * (a.0 * d + ab.0 * t) - a.0 * (d * 65535),
    ;
    assert(w.1 == 65535 * (ab.1 * t)) by (nonlinear_arith)
        requires
            w.1 == 65535 * (a.1 * d + ab.1 * t) - a.1 * (d * 65535),
    ;
    assert(cross(ab, w) == 0) by (nonlinear_arith)
        requires
            w.0 == 65535 * (ab.0 * t),
            w.1 == 65535 * (ab.1 * t),
            cross(ab, w) == ab.0 * w.1 - ab.1 * w.0,
    ;
    assert(dot(ab, w) == 65535 * (t * len)) by (nonlinear_arith)
        requires
            w.0 == 65535 * (ab.0 * t),
            w.1 == 65535 * (ab.1 * t),
            dot(ab, w) == ab.0 * w.0 + ab.1 * w.1,
            len == ab.0 * ab.0 + ab.1 * ab.1,
    ;
    assert(0 <= t * len <= d * len) by (nonlinear_arith)
        requires
            0 <= t <= len,
            len == 0 || d == len,
    ;
    assert(q.0.den * dot(ab, ab) == 65535 * (d * len)) by (nonlinear_arith)
        requires
            q.0.den == d * 65535,
            dot(ab, ab) == len,
    ;
}

/// `seg_dist / seg_den` is the squared distance from `p` to its projection.
pub proof fn lemma_foot_distance(p: (u16, u16), a: (u16, u16), b: (u16, u16))
    ensures
        ({
            let w = offset(foot(p, a, b), p);
            dot(w, w) == 65535 * 65535 * (seg_den(a, b) * seg_dist(p, a, b))
        }),
{
    lemma_foot_fields(p, a, b);
    let q = foot(p, a, b);
    let ab = diff(at(b), at(a));
    let ap = diff(at(p), at(a));
    let t = seg_param(p, a, b);
    let d = seg_den(a, b);
    let len = seg_len2(a, b);
    let n = seg_reach(p, a, b);
    let w = offset(q, p);
    let ex = ab.0 * t - ap.0 * d;
    let ey = ab.1 * t - ap.1 * d;
    assert(w.0 == 65535 * ex) by (nonlinear_arith)
        requires
            w.0 == 65535 * (a.0 * d + ab.0 * t) - p.0 * (d * 65535),
            ap.0 == p.0 - a.0,
            ex == ab.0 * t - ap.0 * d,
    ;
    assert(w.1 == 65535 * ey) by (nonlinear_arith)
        requires
            w.1 == 65535 * (a.1 * d + ab.1 * t) - p.1 * (d * 65535),
            ap.1 == p.1 - a.1,
            ey == ab.1 * t - ap.1 * d,
    ;
    assert(dot(w, w) == 65535 * 65535 * (ex * ex + ey * ey)) by (nonlinear_arith)
        requires
            w.0 == 65535 * ex,
            w.1 == 65535 * ey,
            dot(w, w) == w.0 * w.0 + w.1 * w.1,
    ;
    lemma_offset_square(ab.0, ap.0, t, d);
    lemma_offset_square(ab.1, ap.1, t, d);
    let sq = dot(ap, ap);
    assert(ex * ex + ey * ey == (t * t) * len - 2 * (t * d) * n + (d * d) * sq) by (nonlinear_arith)
        requires
            ex * ex == (t * t) * (ab.0 * ab.0) - 2 * (t * d) * (ab.0 * ap.0) + (d * d) * (ap.0
                * ap.0),
            ey * ey == (t * t) * (ab.1 * ab.1) - 2 * (t * d) * (ab.1 * ap.1) + (d * d) * (ap.1
                * ap.1),
            len == ab.0 * ab.0 + ab.1 * ab.1,
            n == ap.0 * ab.0 + ap.1 * ab.1,
            sq == ap.0 * ap.0 + ap.1 * ap.1,
    ;
    assert((t * t) * len == (t * t) * d) by (nonlinear_arith)
        requires
            t == 0 || len == d,
    ;
    let sd = seg_dist(p, a, b);
    lemma_scaled_distance(d, sq, t, n, sd);
}

/// `d (d s - t (2 n - t))`, written out.
pub proof fn lemma_scaled_distance(d: int, s: int, t: int, n: int, sd: int)
    requires
        sd == d * s - t * (2 * n - t),
    ensures
        d * sd == (d * d) * s - 2 * (t * d) * n + (t * t) * d,
{
    let g = t * (2 * n - t);
    assert(g == 2 * (t * n) - t * t) by (nonlinear_arith)
        requires
            g == t * (2 * n - t),
    ;
    assert(d * (d * s - g) == d * (d * s) - d * g) by (nonlinear_arith);
    assert(d * (d * s) == (d * d) * s) by (nonlinear_arith);
    assert(d * (2 * (t * n) - t * t) == 2 * (d * (t * n)) - d * (t * t)) by (nonlinear_arith);
    assert(d * (t * n) == (t * d) * n) by (nonlinear_arith);
    assert(d * (t * t) == (t * t) * d) by (nonlinear_arith);
    let u = t * d;
    assert((2 * u) * n == 2 * (u * n)) by (nonlinear_arith);
}

/// The square of `b t - a d`, written out.
pub proof fn lemma_offset_square(b: int, a: int, t: int, d: int)
    ensures
        (b * t - a * d) * (b * t - a * d) == (t * t) * (b * b) - 2 * (t * d) * (b * a) + (d * d)
            * (a * a),
{
    let x = b * t;
    let y = a * d;
    assert((x - y) * (x - y) == x * x - 2 * (x * y) + y * y) by (nonlinear_arith);
    lemma_regroup(b, t, b, t);
    lemma_regroup(a, d, a, d);
    lemma_regroup(b, t, a, d);
    let (bb, tt, aa, dd, ba, td) = (b * b, t * t, a * a, d * d, b * a, t * d);
    assert(x * x == bb * tt);
    assert(y * y == aa * dd);
    assert(x * y == ba * td);
    assert(bb * tt == tt * bb) by (nonlinear_arith);
    assert(aa * dd == dd * aa) by (nonlinear_arith);
    assert(ba * td == td * ba) by (nonlinear_arith);
    assert((2 * td) * ba == 2 * (td * ba)) by (nonlinear_arith);
}

/// A segment is at most as far from `p` as each of its ends.
pub proof fn lemma_ends_bound(p: (u16, u16), a: (u16, u16), b: (u16, u16))
    ensures
        0 <= seg_dist(p, a, b),
        seg_dist(p, a, b) <= seg_den(a, b) * dot(diff(at(a), at(p)), diff(at(a), at(p))),
        seg_dist(p, a, b) <= seg_den(a, b) * dot(diff(at(b), at(p)), diff(at(b), at(p))),
{
    lemma_foot_fields(p, a, b);
    let ab = diff(at(b), at(a));
    let ap = diff(at(p), at(a));
    let pa = diff(at(a), at(p));
    let pb = diff(at(b), at(p));
    let t = seg_param(p, a, b);
    let d = seg_den(a, b);
    let len = seg_len2(a, b);
    let n = seg_reach(p, a, b);
    let sq = dot(ap, ap);
    lemma_lagrange(ap, ab);
    crate::gamut::lemma_norm_positive(ap.0, ap.1);
    crate::gamut::lemma_gain_bounds(sq, len, n, t, d);
    assert(dot(pa, pa) == sq) by (nonlinear_arith)
        requires
            pa.0 == -ap.0,
            pa.1 == -ap.1,
            dot(pa, pa) == pa.0 * pa.0 + pa.1 * pa.1,
            sq == ap.0 * ap.0 + ap.1 * ap.1,
    ;
    assert(dot(pb, pb) == sq - 2 * n + len) by (nonlinear_arith)
        requires
            pb.0 == ab.0 - ap.0,
            pb.1 == ab.1 - ap.1,
            dot(pb, pb) == pb.0 * pb.0 + pb.1 * pb.1,
            sq == ap.0 * ap.0 + ap.1 * ap.1,
            n == ap.0 * ab.0 + ap.1 * ab.1,
            len == ab.0 * ab.0 + ab.1 * ab.1,
    ;
    assert(d * sq - t * (2 * n - t) <= d * (sq - 2 * n + len)) by (nonlinear_arith)
        requires
            0 <= len,
            t == if n < 0 { 0 } else if n > len { len } else { n },
            d == if len == 0 { 1 } else { len },
            n * n <= sq * len,
    {
        if len == 0 {
            assert(n * n <= 0);
            assert(n == 0);
        } else if n < 0 {
            assert(len * (len - 2 * n) >= 0);
        } else if n > len {
            assert(len * (2 * n - len) == len * (2 * n) - len * len);
        } else {
            assert((len - n) * (len - n) >= 0);
        }
    }
}

/// The order of squared distances is transitive and total.
pub proof fn lemma_nearest_edge_is_nearest(g: PhilipsGamut, p: (u16, u16), e: Edge)
    ensures
        ({
            let best = g.ends(g.nearest_edge(p));
            let other = g.ends(e);
            seg_no_farther(p, best.0, best.1, other.0, other.1)
        }),
{
    let (gr, bl, rd) = (g.green, g.blue, g.red);
    lemma_foot_fields(p, gr, bl);
    lemma_foot_fields(p, gr, rd);
    lemma_foot_fields(p, bl, rd);
    let (n1, d1) = (seg_dist(p, gr, bl), seg_den(gr, bl));
    let (n2, d2) = (seg_dist(p, gr, rd), seg_den(gr, rd));
    let (n3, d3) = (seg_dist(p, bl, rd), seg_den(bl, rd));
    assert(n1 * d1 <= n1 * d1 && n2 * d2 <= n2 * d2 && n3 * d3 <= n3 * d3);
    if n1 * d2 <= n2 * d1 && n1 * d3 <= n3 * d1 {
    } else if n2 * d3 <= n3 * d2 {
        if n1 * d2 <= n2 * d1 {
            // then n3 / d3 < n1 / d1 <= n2 / d2 <= n3 / d3
            lemma_order_chain(n1, d1, n2, d2, n3, d3);
        }
    } else {
        if !(n1 * d2 <= n2 * d1) {
            // n3 / d3 < n2 / d2 < n1 / d1
            lemma_order_chain(n3, d3, n2, d2, n1, d1);
        }
    }
}

/// `n1/d1 <= n2/d2 <= n3/d3` gives `n1/d1 <= n3/d3`.
pub proof fn lemma_order_chain(n1: int, d1: int, n2: int, d2: int, n3: int, d3: int)
    by (nonlinear_arith)
    requires
        d1 > 0,
        d2 > 0,
        d3 > 0,
        n1 * d2 <= n2 * d1,
        n2 * d3 <= n3 * d2,
    ensures
        n1 * d3 <= n3 * d1,
{
    assert((n1 * d2) * d3 <= (n2 * d1) * d3);
    assert((n2 * d3) * d1 <= (n3 * d2) * d1);
    assert((n1 * d3) * d2 <= (n3 * d1) * d2);
}

/// The nearest boundary point lies on the boundary of the triangle, and is
/// at most as far from `p` as each of the three vertices.
pub proof fn lemma_closest_point(g: PhilipsGamut, p: (u16, u16))
    ensures
        on_boundary(g, g.nearest(p)),
        no_farther_than(g.nearest(p), p, g.red),
        no_farther_than(g.nearest(p), p, g.green),
        no_farther_than(g.nearest(p), p, g.blue),
{
    let best = g.ends(g.nearest_edge(p));
    lemma_foot_on_segment(p, best.0, best.1);
    lemma_nearest_edge_is_nearest(g, p, Edge::GreenBlue);
    lemma_nearest_edge_is_nearest(g, p, Edge::GreenRed);
    lemma_nearest_edge_is_nearest(g, p, Edge::BlueRed);
    lemma_ends_bound(p, g.green, g.blue);
    lemma_ends_bound(p, g.green, g.red);
    lemma_ends_bound(p, g.blue, g.red);
    lemma_vertex_bound(p, best.0, best.1, g.green, g.blue, g.green);
    lemma_vertex_bound(p, best.0, best.1, g.green, g.blue, g.blue);
    lemma_vertex_bound(p, best.0, best.1, g.green, g.red, g.red);
}

/// Where the segment from `a` to `b` is at most as far from `p` as another
/// segment, its projection is at most as far as any point `v` that bounds
/// the other segment's distance.
pub proof fn lemma_vertex_bound(
    p: (u16, u16),
    a: (u16, u16),
    b: (u16, u16),
    c: (u16, u16),
    d: (u16, u16),
    v: (u16, u16),
)
    requires
        seg_no_farther(p, a, b, c, d),
        seg_dist(p, c, d) <= seg_den(c, d) * dot(diff(at(v), at(p)), diff(at(v), at(p))),
    ensures
        no_farther_than(foot(p, a, b), p, v),
{
    lemma_foot_fields(p, a, b);
    lemma_foot_fields(p, c, d);
    lemma_foot_distance(p, a, b);
    let q = foot(p, a, b);
    let w = offset(q, p);
    let pv = diff(at(v), at(p));
    let m = dot(pv, pv);
    let (n1, d1) = (seg_dist(p, a, b), seg_den(a, b));
    let (n2, d2) = (seg_dist(p, c, d), seg_den(c, d));
    assert(n1 <= d1 * m) by (nonlinear_arith)
        requires
            d1 > 0,
            d2 > 0,
            n1 * d2 <= n2 * d1,
            n2 <= d2 * m,
    {
        assert(n2 * d1 <= (d2 * m) * d1);
        assert(n1 * d2 <= (d1 * m) * d2);
    }
    assert(65535 * 65535 * (d1 * n1) <= q.0.den * q.0.den * m) by (nonlinear_arith)
        requires
            n1 <= d1 * m,
            d1 > 0,
            q.0.den == d1 * 65535,
    {
        assert(d1 * n1 <= d1 * (d1 * m));
        assert((d1 * 65535) * (d1 * 65535) * m == 65535 * 65535 * (d1 * (d1 * m)));
    }
}

} // verus!
