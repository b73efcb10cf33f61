//! Points, rectangles and cubic bezier curves on the integer canvas.
//!
//! A bezier parameter is a fraction `i / n` of two integers, so curve
//! sampling is exact integer arithmetic: no rounding mode or platform
//! difference can change a sampled point.

use vstd::arithmetic::div_mod::{
    lemma_div_is_ordered, lemma_div_multiples_vanish, lemma_hoist_over_denominator,
};
use vstd::arithmetic::mul::lemma_mul_inequality;
use vstd::prelude::*;

verus! {

/// Canvas and screen coordinates stay within this bound.
pub const COORD_LIMIT: i64 = 0x4_0000_0000_0000;

/// Sampled curve points stay within this wider bound, since the horizontal
/// tangent heuristic can push a control point half a width past an endpoint.
pub const CURVE_LIMIT: i64 = 0x8_0000_0000_0000;

/// Largest segment count accepted by the curve sampler.
pub const MAX_SEGMENTS: usize = 4096;

/// Number of samples taken when hit-testing a curve.
pub const HIT_SAMPLES: usize = 32;

/// Hit-test threshold around an edge, in canvas units.
pub const EDGE_HIT_DISTANCE: i64 = 8;

/// A point in canvas or screen space, in integer units.
#[derive(Clone, Copy, PartialEq, Eq, Structural, Debug)]
pub struct Point {
    pub x: i64,
    pub y: i64,
}

/// An axis-aligned rectangle: `pos` is the top-left corner.
#[derive(Clone, Copy, PartialEq, Eq, Structural, Debug)]
pub struct Rect {
    pub pos: Point,
    pub size: Point,
}

/// `p` lies within the coordinate bound.
pub open spec fn point_in_bounds(p: Point) -> bool {
    -COORD_LIMIT <= p.x <= COORD_LIMIT && -COORD_LIMIT <= p.y <= COORD_LIMIT
}

/// `p` lies within the wider bound that sampled curve points obey.
pub open spec fn point_in_curve_bounds(p: Point) -> bool {
    -CURVE_LIMIT <= p.x <= CURVE_LIMIT && -CURVE_LIMIT <= p.y <= CURVE_LIMIT
}

/// One coordinate of a cubic bezier at parameter `i / n`: the Bernstein sum
/// divided (flooring) by `n^3`. At `i == 0` and `i == n` the division is
/// exact, so the curve meets its endpoints.
pub open spec fn bezier_coord(p0: int, c0: int, c1: int, p1: int, i: int, n: int) -> int {
    let m = n - i;
    (m * m * m * p0 + 3 * m * m * i * c0 + 3 * m * i * i * c1 + i * i * i * p1) / (n * n * n)
}

/// The cubic bezier point at parameter `i / n`.
pub open spec fn bezier_point(p0: Point, c0: Point, c1: Point, p1: Point, i: int, n: int) -> Point {
    Point {
        x: bezier_coord(p0.x as int, c0.x as int, c1.x as int, p1.x as int, i, n) as i64,
        y: bezier_coord(p0.y as int, c0.y as int, c1.y as int, p1.y as int, i, n) as i64,
    }
}

/// The first control point of the horizontal-tangent heuristic: it leaves
/// the start point horizontally by half the horizontal distance, giving the
/// S-curve used for left-to-right port connections.
pub open spec fn control_from(from: Point, to: Point) -> Point {
    Point { x: (from.x + abs_int(to.x - from.x) / 2) as i64, y: from.y }
}

/// The second control point of the horizontal-tangent heuristic, mirroring
/// `control_from` at the end point.
pub open spec fn control_to(from: Point, to: Point) -> Point {
    Point { x: (to.x - abs_int(to.x - from.x) / 2) as i64, y: to.y }
}

/// Absolute value.
pub open spec fn abs_int(v: int) -> int {
    if v < 0 {
        -v
    } else {
        v
    }
}

/// Squared distance between two points.
pub open spec fn sq_dist(a: Point, b: Point) -> int {
    (a.x - b.x) * (a.x - b.x) + (a.y - b.y) * (a.y - b.y)
}

/// `p` lies within the hit threshold of the curve from `from` to `to`,
/// judged against `HIT_SAMPLES` evenly spaced sample points.
pub open spec fn near_curve(p: Point, from: Point, to: Point) -> bool {
    exists|i: int|
        0 <= i < HIT_SAMPLES && sq_dist(
            p,
            #[trigger] bezier_point(
                from,
                control_from(from, to),
                control_to(from, to),
                to,
                i,
                HIT_SAMPLES as int - 1,
            ),
        ) < EDGE_HIT_DISTANCE * EDGE_HIT_DISTANCE
}

/// The four Bernstein weights are nonnegative and sum to `n^3`.
proof fn lemma_bezier_weights(i: int, n: int)
    by (nonlinear_arith)
    requires
        0 <= i <= n,
    ensures
        (n - i) * (n - i) * (n - i) >= 0,
        3 * (n - i) * (n - i) * i >= 0,
        3 * (n - i) * i * i >= 0,
        i * i * i >= 0,
        (n - i) * (n - i) * (n - i) + 3 * (n - i) * (n - i) * i + 3 * (n - i) * i * i + i * i * i
            == n * n * n,
{
}

/// A bezier coordinate of values within a bound stays within that bound.
proof fn lemma_bezier_coord_range(p0: int, c0: int, c1: int, p1: int, i: int, n: int, l: int)
    requires
        0 <= i <= n,
        1 <= n,
        0 <= l,
        -l <= p0 <= l,
        -l <= c0 <= l,
        -l <= c1 <= l,
        -l <= p1 <= l,
    ensures
        -l <= bezier_coord(p0, c0, c1, p1, i, n) <= l,
{
    let m = n - i;
    let w0 = m * m * m;
    let w1 = 3 * m * m * i;
    let w2 = 3 * m * i * i;
    let w3 = i * i * i;
    let num = w0 * p0 + w1 * c0 + w2 * c1 + w3 * p1;
    let den = n * n * n;
    lemma_bezier_weights(i, n);
    assert(den == w0 + w1 + w2 + w3);
    assert(n * n * n >= 1) by (nonlinear_arith)
        requires
            n >= 1,
    ;
    assert(w0 * p0 <= w0 * l && w0 * (-l) <= w0 * p0) by {
        lemma_mul_inequality(p0, l, w0);
        lemma_mul_inequality(-l, p0, w0);
        vstd::arithmetic::mul::lemma_mul_is_commutative(w0, p0);
        vstd::arithmetic::mul::lemma_mul_is_commutative(w0, l);
        vstd::arithmetic::mul::lemma_mul_is_commutative(w0, -l);
    }
    assert(w1 * c0 <= w1 * l && w1 * (-l) <= w1 * c0) by {
        lemma_mul_inequality(c0, l, w1);
        lemma_mul_inequality(-l, c0, w1);
        vstd::arithmetic::mul::lemma_mul_is_commutative(w1, c0);
        vstd::arithmetic::mul::lemma_mul_is_commutative(w1, l);
        vstd::arithmetic::mul::lemma_mul_is_commutative(w1, -l);
    }
    assert(w2 * c1 <= w2 * l && w2 * (-l) <= w2 * c1) by {
        lemma_mul_inequality(c1, l, w2);
        lemma_mul_inequality(-l, c1, w2);
        vstd::arithmetic::mul::lemma_mul_is_commutative(w2, c1);
        vstd::arithmetic::mul::lemma_mul_is_commutative(w2, l);
        vstd::arithmetic::mul::lemma_mul_is_commutative(w2, -l);
    }
    assert(w3 * p1 <= w3 * l && w3 * (-l) <= w3 * p1) by {
        lemma_mul_inequality(p1, l, w3);
        lemma_mul_inequality(-l, p1, w3);
        vstd::arithmetic::mul::lemma_mul_is_commutative(w3, p1);
        vstd::arithmetic::mul::lemma_mul_is_commutative(w3, l);
        vstd::arithmetic::mul::lemma_mul_is_commutative(w3, -l);
    }
    assert(-(den * l) <= num && num <= den * l) by (nonlinear_arith)
        requires
            num == w0 * p0 + w1 * c0 + w2 * c1 + w3 * p1,
            den == w0 + w1 + w2 + w3,
            w0 * p0 <= w0 * l && w0 * (-l) <= w0 * p0,
            w1 * c0 <= w1 * l && w1 * (-l) <= w1 * c0,
            w2 * c1 <= w2 * l && w2 * (-l) <= w2 * c1,
            w3 * p1 <= w3 * l && w3 * (-l) <= w3 * p1,
    ;
    assert(num / den <= l) by {
        lemma_div_is_ordered(num, den * l, den);
        lemma_div_multiples_vanish(l, den);
    }
    assert(-l <= num / den) by {
        lemma_div_is_ordered(-(den * l), num, den);
        assert(-(den * l) == den * (-l)) by (nonlinear_arith);
        lemma_div_multiples_vanish(-l, den);
    }
}

/// The curve meets its endpoints: the sample at `i == 0` is `p0` and the
/// sample at `i == n` is `p1`.
pub proof fn lemma_bezier_endpoints(p0: Point, c0: Point, c1: Point, p1: Point, n: int)
    requires
        1 <= n,
    ensures
        bezier_point(p0, c0, c1, p1, 0, n) == p0,
        bezier_point(p0, c0, c1, p1, n, n) == p1,
{
    let den = n * n * n;
    assert(n * n * n >= 1) by (nonlinear_arith)
        requires
            n >= 1,
    ;
    assert forall|a: int, b: int, c: int, v: int| true implies bezier_coord(v, a, b, c, 0, n)
        == v by {
        let m = n - 0;
        assert(m * m * m * v + 3 * m * m * 0 * a + 3 * m * 0 * 0 * b + 0 * 0 * 0 * c == (n * n * n)
            * v) by (nonlinear_arith)
            requires
                m == n,
        ;
        lemma_div_multiples_vanish(v, den);
    }
    assert forall|a: int, b: int, c: int, v: int| true implies bezier_coord(a, b, c, v, n, n)
        == v by {
        let m = n - n;
        assert(m * m * m * a + 3 * m * m * n * b + 3 * m * n * n * c + n * n * n * v == (n * n * n)
            * v) by (nonlinear_arith)
            requires
                m == 0,
        ;
        lemma_div_multiples_vanish(v, den);
    }
    assert(bezier_coord(p0.x as int, c0.x as int, c1.x as int, p1.x as int, 0, n) == p0.x as int);
    assert(bezier_coord(p0.y as int, c0.y as int, c1.y as int, p1.y as int, 0, n) == p0.y as int);
    assert(bezier_coord(p0.x as int, c0.x as int, c1.x as int, p1.x as int, n, n) == p1.x as int);
    assert(bezier_coord(p0.y as int, c0.y as int, c1.y as int, p1.y as int, n, n) == p1.y as int);
}

/// One coordinate of a bezier sample, computed exactly.
///
/// The Bernstein sum is evaluated on coordinates shifted up by `CURVE_LIMIT`
/// so the whole computation stays in nonnegative integers; the shift divides
/// out exactly.
fn bezier_coord_at(p0: i64, c0: i64, c1: i64, p1: i64, i: usize, n: usize) -> (r: i64)
    requires
        1 <= n <= MAX_SEGMENTS,
        i <= n,
        -CURVE_LIMIT <= p0 <= CURVE_LIMIT,
        -CURVE_LIMIT <= c0 <= CURVE_LIMIT,
        -CURVE_LIMIT <= c1 <= CURVE_LIMIT,
        -CURVE_LIMIT <= p1 <= CURVE_LIMIT,
    ensures
        r as int == bezier_coord(p0 as int, c0 as int, c1 as int, p1 as int, i as int, n as int),
        -CURVE_LIMIT <= r <= CURVE_LIMIT,
{
    proof {
        lemma_bezier_coord_range(
            p0 as int,
            c0 as int,
            c1 as int,
            p1 as int,
            i as int,
            n as int,
            CURVE_LIMIT as int,
        );
        lemma_bezier_weights(i as int, n as int);
    }
    let m = (n - i) as u128;
    let t = i as u128;
    let nn = n as u128;
    assert(m <= 4096 && t <= 4096 && nn <= 4096);
    assert(m * m <= 0x100_0000 && m * m * m <= 0x1000_0000_0000 && 3 * m * m <= 0x300_0000 && (3 * m
        * m) * t <= 0x3000_0000_0000 && 3 * m <= 0x3000 && (3 * m) * t <= 0x300_0000 && ((3 * m)
        * t) * t <= 0x3000_0000_0000 && t * t <= 0x100_0000 && t * t * t <= 0x1000_0000_0000 && nn
        * nn <= 0x100_0000 && nn * nn * nn <= 0x1000_0000_0000 && 1 <= nn * nn * nn)
        by (nonlinear_arith)
        requires
            m <= 4096,
            t <= 4096,
            1 <= nn <= 4096,
    ;
    let w0 = m * m * m;
    let w1 = 3 * m * m * t;
    let w2 = 3 * m * t * t;
    let w3 = t * t * t;
    let den = nn * nn * nn;
    // shifted coordinates, each in [0, 2 * CURVE_LIMIT]
    let s0 = (p0 + CURVE_LIMIT) as u128;
    let s1 = (c0 + CURVE_LIMIT) as u128;
    let s2 = (c1 + CURVE_LIMIT) as u128;
    let s3 = (p1 + CURVE_LIMIT) as u128;
    assert(w0 * s0 <= 0x1000_0000_0000 * 0x10_0000_0000_0001 && w1 * s1 <= 0x3000_0000_0000
        * 0x10_0000_0000_0001 && w2 * s2 <= 0x3000_0000_0000 * 0x10_0000_0000_0001 && w3 * s3
        <= 0x1000_0000_0000 * 0x10_0000_0000_0001) by (nonlinear_arith)
        requires
            w0 <= 0x1000_0000_0000,
            w1 <= 0x3000_0000_0000,
            w2 <= 0x3000_0000_0000,
            w3 <= 0x1000_0000_0000,
            s0 <= 0x10_0000_0000_0001,
            s1 <= 0x10_0000_0000_0001,
            s2 <= 0x10_0000_0000_0001,
            s3 <= 0x10_0000_0000_0001,
    ;
    let num = w0 * s0 + w1 * s1 + w2 * s2 + w3 * s3;
    let q = num / den;
    let ghost mi = n as int - i as int;
    let ghost ti = i as int;
    let ghost deni = (n as int) * (n as int) * (n as int);
    let ghost wi0 = mi * mi * mi;
    let ghost wi1 = 3 * mi * mi * ti;
    let ghost wi2 = 3 * mi * ti * ti;
    let ghost wi3 = ti * ti * ti;
    let ghost numi = wi0 * (p0 as int) + wi1 * (c0 as int) + wi2 * (c1 as int) + wi3 * (p1 as int);
    proof {
        let li = CURVE_LIMIT as int;
        assert(w0 as int == wi0 && w1 as int == wi1 && w2 as int == wi2 && w3 as int == wi3);
        assert(wi0 * (p0 as int + li) == wi0 * (p0 as int) + wi0 * li) by {
            vstd::arithmetic::mul::lemma_mul_is_distributive_add(wi0, p0 as int, li);
        }
        assert(wi1 * (c0 as int + li) == wi1 * (c0 as int) + wi1 * li) by {
            vstd::arithmetic::mul::lemma_mul_is_distributive_add(wi1, c0 as int, li);
        }
        assert(wi2 * (c1 as int + li) == wi2 * (c1 as int) + wi2 * li) by {
            vstd::arithmetic::mul::lemma_mul_is_distributive_add(wi2, c1 as int, li);
        }
        assert(wi3 * (p1 as int + li) == wi3 * (p1 as int) + wi3 * li) by {
            vstd::arithmetic::mul::lemma_mul_is_distributive_add(wi3, p1 as int, li);
        }
        assert((wi0 + wi1 + wi2 + wi3) * li == wi0 * li + wi1 * li + wi2 * li + wi3 * li)
            by (nonlinear_arith);
        assert(wi0 + wi1 + wi2 + wi3 == deni);
        assert(num as int == numi + deni * li);
        assert(deni * li == li * deni) by (nonlinear_arith);
        assert(deni == den as int);
        lemma_hoist_over_denominator(numi, li, deni as nat);
        assert(q as int == numi / deni + li);
    }
    let r = (q as i64) - CURVE_LIMIT;
    assert(r as int == bezier_coord(p0 as int, c0 as int, c1 as int, p1 as int, i as int, n as int));
    r
}

/// The bezier sample at parameter `i / n`.
pub fn bezier_point_at(p0: Point, c0: Point, c1: Point, p1: Point, i: usize, n: usize) -> (r: Point)
    requires
        1 <= n <= MAX_SEGMENTS,
        i <= n,
        point_in_curve_bounds(p0),
        point_in_curve_bounds(c0),
        point_in_curve_bounds(c1),
        point_in_curve_bounds(p1),
    ensures
        r == bezier_point(p0, c0, c1, p1, i as int, n as int),
        point_in_curve_bounds(r),
{
    let x = bezier_coord_at(p0.x, c0.x, c1.x, p1.x, i, n);
    let y = bezier_coord_at(p0.y, c0.y, c1.y, p1.y, i, n);
    Point { x, y }
}

/// The control points of the horizontal-tangent heuristic.
pub fn controls_for(from: Point, to: Point) -> (r: (Point, Point))
    requires
        point_in_bounds(from),
        point_in_bounds(to),
    ensures
        r.0 == control_from(from, to),
        r.1 == control_to(from, to),
        point_in_curve_bounds(r.0),
        point_in_curve_bounds(r.1),
{
    let dx = if to.x >= from.x {
        (to.x - from.x) / 2
    } else {
        (from.x - to.x) / 2
    };
    (Point { x: from.x + dx, y: from.y }, Point { x: to.x - dx, y: to.y })
}

/// Samples the curve from `from` to `to` at `segments + 1` evenly spaced
/// parameters, endpoints included, using the horizontal-tangent heuristic
/// for the control points.
pub fn sample_curve(from: Point, to: Point, segments: usize) -> (r: Vec<Point>)
    requires
        1 <= segments <= MAX_SEGMENTS,
        point_in_bounds(from),
        point_in_bounds(to),
    ensures
        r@.len() == segments + 1,
        forall|j: int|
            0 <= j <= segments ==> r@[j] == bezier_point(
                from,
                control_from(from, to),
                control_to(from, to),
                to,
                j,
                segments as int,
            ),
        r@[0] == from,
        r@[segments as int] == to,
{
    let (c0, c1) = controls_for(from, to);
    let mut r: Vec<Point> = Vec::new();
    let mut i: usize = 0;
    while i <= segments
        invariant
            1 <= segments <= MAX_SEGMENTS,
            point_in_bounds(from),
            point_in_bounds(to),
            c0 == control_from(from, to),
            c1 == control_to(from, to),
            point_in_curve_bounds(c0),
            point_in_curve_bounds(c1),
            0 <= i <= segments + 1,
            r@.len() == i,
            forall|j: int|
                0 <= j < i ==> r@[j] == bezier_point(from, c0, c1, to, j, segments as int),
        decreases segments + 1 - i,
    {
        r.push(bezier_point_at(from, c0, c1, to, i, segments));
        i += 1;
    }
    proof {
        lemma_bezier_endpoints(from, c0, c1, to, segments as int);
    }
    r
}

/// Hit test of `p` against the curve from `from` to `to`: true when some
/// of the `HIT_SAMPLES` sample points lies strictly within the threshold.
pub fn point_near_curve(p: Point, from: Point, to: Point) -> (r: bool)
    requires
        point_in_bounds(p),
        point_in_bounds(from),
        point_in_bounds(to),
    ensures
        r == near_curve(p, from, to),
{
    let (c0, c1) = controls_for(from, to);
    let mut i: usize = 0;
    while i < HIT_SAMPLES
        invariant
            point_in_bounds(p),
            point_in_bounds(from),
            point_in_bounds(to),
            c0 == control_from(from, to),
            c1 == control_to(from, to),
            point_in_curve_bounds(c0),
            point_in_curve_bounds(c1),
            0 <= i <= HIT_SAMPLES,
            forall|j: int|
                0 <= j < i ==> sq_dist(
                    p,
                    #[trigger] bezier_point(from, c0, c1, to, j, HIT_SAMPLES as int - 1),
                ) >= EDGE_HIT_DISTANCE * EDGE_HIT_DISTANCE,
        decreases HIT_SAMPLES - i,
    {
        let bp = bezier_point_at(from, c0, c1, to, i, HIT_SAMPLES - 1);
        let dx = (p.x as i128) - (bp.x as i128);
        let dy = (p.y as i128) - (bp.y as i128);
        assert(dx * dx <= 0x10_0000_0000_0000 * 0x10_0000_0000_0000 && dx * dx >= 0 && dy * dy
            <= 0x10_0000_0000_0000 * 0x10_0000_0000_0000 && dy * dy >= 0) by (nonlinear_arith)
            requires
                -0x10_0000_0000_0000 <= dx <= 0x10_0000_0000_0000,
                -0x10_0000_0000_0000 <= dy <= 0x10_0000_0000_0000,
        ;
        let d2 = dx * dx + dy * dy;
        assert(d2 == sq_dist(p, bp));
        if d2 < (EDGE_HIT_DISTANCE * EDGE_HIT_DISTANCE) as i128 {
            assert(sq_dist(p, bezier_point(from, c0, c1, to, i as int, HIT_SAMPLES as int - 1))
                < EDGE_HIT_DISTANCE * EDGE_HIT_DISTANCE);
            return true;
        }
        i += 1;
    }
    false
}

impl Rect {
    /// `p` lies inside the rectangle (edges included, as the canvas counts a
    /// pointer on the border as a hit).
    pub open spec fn spec_contains(self, p: Point) -> bool {
        self.pos.x <= p.x <= self.pos.x + self.size.x
            && self.pos.y <= p.y <= self.pos.y + self.size.y
    }

    /// Point-in-rectangle test.
    pub fn contains(&self, p: Point) -> (r: bool)
        requires
            point_in_bounds(self.pos),
            -COORD_LIMIT <= self.size.x <= COORD_LIMIT,
            -COORD_LIMIT <= self.size.y <= COORD_LIMIT,
        ensures
            r == self.spec_contains(p),
    {
        self.pos.x <= p.x && p.x <= self.pos.x + self.size.x && self.pos.y <= p.y && p.y
            <= self.pos.y + self.size.y
    }
}


/// The cubic bezier curve helpers, under one name: exact evaluation at a
/// rational parameter and sampling with the horizontal-tangent heuristic.
pub struct BezierCurve;

impl BezierCurve {
    /// The curve point at parameter `i / n`.
    pub fn point_at(i: usize, n: usize, p0: Point, c0: Point, c1: Point, p1: Point) -> (r: Point)
        requires
            1 <= n <= MAX_SEGMENTS,
            i <= n,
            point_in_curve_bounds(p0),
            point_in_curve_bounds(c0),
            point_in_curve_bounds(c1),
            point_in_curve_bounds(p1),
        ensures
            r == bezier_point(p0, c0, c1, p1, i as int, n as int),
            point_in_curve_bounds(r),
    {
        bezier_point_at(p0, c0, c1, p1, i, n)
    }

    /// `segments + 1` evenly spaced points along the curve from `from` to
    /// `to`, endpoints included.
    pub fn points_with_horizontal_tangents(from: Point, to: Point, segments: usize) -> (r: Vec<
        Point,
    >)
        requires
            1 <= segments <= MAX_SEGMENTS,
            point_in_bounds(from),
            point_in_bounds(to),
        ensures
            r@.len() == segments + 1,
            forall|j: int|
                0 <= j <= segments ==> r@[j] == bezier_point(
                    from,
                    control_from(from, to),
                    control_to(from, to),
                    to,
                    j,
                    segments as int,
                ),
            r@[0] == from,
            r@[segments as int] == to,
    {
        sample_curve(from, to, segments)
    }
}

} // verus!
