//! Points and rectangles in pixel coordinates, and the small pieces of
//! integer geometry that the tools share: rectangle centres, rectangles
//! spanned by a mouse drag and circle radii.
use vstd::prelude::*;

verus! {

/// A point in pixel coordinates.
#[derive(Clone, Copy, Debug, PartialEq, Eq, Structural)]
pub struct Point {
    pub x: i32,
    pub y: i32,
}

/// An axis-aligned rectangle: top-left corner, width and height.
#[derive(Clone, Copy, Debug, PartialEq, Eq, Structural)]
pub struct Rect {
    pub x: i32,
    pub y: i32,
    pub width: i32,
    pub height: i32,
}

/// A width and a height.
#[derive(Clone, Copy, Debug, PartialEq, Eq, Structural)]
pub struct Size {
    pub width: i32,
    pub height: i32,
}

/// Whether an integer fits in an `i32`.
pub open spec fn fits_i32(v: int) -> bool {
    i32::MIN <= v <= i32::MAX
}

/// Division rounding toward zero, which is what `/` does on Rust's signed
/// integers (the divisor is positive wherever this is used).
pub open spec fn div_toward_zero(a: int, d: int) -> int {
    if a >= 0 {
        a / d
    } else {
        -((-a) / d)
    }
}

pub open spec fn abs(a: int) -> int {
    if a < 0 {
        -a
    } else {
        a
    }
}

pub open spec fn min(a: int, b: int) -> int {
    if a <= b {
        a
    } else {
        b
    }
}

pub open spec fn max(a: int, b: int) -> int {
    if a >= b {
        a
    } else {
        b
    }
}

impl Point {
    pub fn new(x: i32, y: i32) -> (p: Point)
        ensures
            p.x == x,
            p.y == y,
    {
        Point { x, y }
    }
}

impl Size {
    pub fn new(width: i32, height: i32) -> (s: Size)
        ensures
            s.width == width,
            s.height == height,
    {
        Size { width, height }
    }
}

impl Rect {
    pub fn new(x: i32, y: i32, width: i32, height: i32) -> (r: Rect)
        ensures
            r.x == x,
            r.y == y,
            r.width == width,
            r.height == height,
    {
        Rect { x, y, width, height }
    }

    /// The centre of the rectangle as integer arithmetic computes it:
    /// `x + width / 2`, `y + height / 2`, halves rounded toward zero.
    pub open spec fn center_spec(self) -> (int, int) {
        (self.x + div_toward_zero(self.width as int, 2), self.y + div_toward_zero(
            self.height as int,
            2,
        ))
    }

    pub open spec fn center_fits(self) -> bool {
        fits_i32(self.center_spec().0) && fits_i32(self.center_spec().1)
    }

    /// The centre of the rectangle.
    pub fn center(&self) -> (c: Point)
        requires
            self.center_fits(),
        ensures
            c.x == self.center_spec().0,
            c.y == self.center_spec().1,
    {
        Point { x: self.x + self.width / 2, y: self.y + self.height / 2 }
    }
}

/// The rectangle spanned by two opposite corners, as a mouse drag from
/// `start` to `end` selects it: its top-left corner is the smaller
/// coordinate on each axis, its size the distance on each axis.
pub open spec fn drag_rect_spec(start: Point, end: Point) -> Rect {
    Rect {
        x: min(start.x as int, end.x as int) as i32,
        y: min(start.y as int, end.y as int) as i32,
        width: abs(end.x - start.x) as i32,
        height: abs(end.y - start.y) as i32,
    }
}

/// Whether the distance on each axis between the two corners fits in an
/// `i32` (the width and height of the spanned rectangle).
pub open spec fn drag_fits(start: Point, end: Point) -> bool {
    &&& abs(end.x - start.x) <= i32::MAX
    &&& abs(end.y - start.y) <= i32::MAX
}

fn distance_i32(a: i32, b: i32) -> (d: i32)
    requires
        abs(b - a) <= i32::MAX,
    ensures
        d == abs(b - a),
{
    if b >= a {
        b - a
    } else {
        a - b
    }
}

/// The rectangle spanned by a drag from `start` to `end`.
pub fn drag_rect(start: Point, end: Point) -> (r: Rect)
    requires
        drag_fits(start, end),
    ensures
        r == drag_rect_spec(start, end),
{
    let x = if start.x <= end.x {
        start.x
    } else {
        end.x
    };
    let y = if start.y <= end.y {
        start.y
    } else {
        end.y
    };
    let width = distance_i32(start.x, end.x);
    let height = distance_i32(start.y, end.y);
    Rect { x, y, width, height }
}

/// A drag from `a` to `b` selects the same rectangle as a drag from `b` to
/// `a`, and that rectangle has both points on its border corners.
pub proof fn lemma_drag_rect_symmetric(a: Point, b: Point)
    requires
        drag_fits(a, b),
    ensures
        drag_fits(b, a),
        drag_rect_spec(a, b) == drag_rect_spec(b, a),
        drag_rect_spec(a, b).x <= a.x <= drag_rect_spec(a, b).x + drag_rect_spec(a, b).width,
        drag_rect_spec(a, b).x <= b.x <= drag_rect_spec(a, b).x + drag_rect_spec(a, b).width,
        drag_rect_spec(a, b).y <= a.y <= drag_rect_spec(a, b).y + drag_rect_spec(a, b).height,
        drag_rect_spec(a, b).y <= b.y <= drag_rect_spec(a, b).y + drag_rect_spec(a, b).height,
{
}

/// Squared Euclidean distance between two points.
pub open spec fn dist2(a: Point, b: Point) -> int {
    (b.x - a.x) * (b.x - a.x) + (b.y - a.y) * (b.y - a.y)
}

/// `r` is the integer square root of `s`: the largest `r` with `r * r <= s`.
pub open spec fn is_isqrt(r: int, s: int) -> bool {
    &&& 0 <= r
    &&& r * r <= s
    &&& s < (r + 1) * (r + 1)
}

/// Whether the squared distance between the two points, computed as `i32`
/// arithmetic computes it, stays within `i32`.
pub open spec fn radius_fits(center: Point, edge: Point) -> bool {
    &&& fits_i32(edge.x - center.x)
    &&& fits_i32(edge.y - center.y)
    &&& dist2(center, edge) <= i32::MAX
}

proof fn lemma_square_monotone(a: int, b: int)
    requires
        0 <= a <= b,
    ensures
        a * a <= b * b,
{
    assert(a * a <= b * b) by (nonlinear_arith)
        requires
            0 <= a <= b,
    ;
}

proof fn lemma_small_square(d: int, rest: int)
    requires
        0 <= rest,
        d * d + rest <= i32::MAX,
    ensures
        -46341 < d < 46341,
{
    if d >= 46341 {
        lemma_square_monotone(46341, d);
    } else if d <= -46341 {
        lemma_square_monotone(46341, -d);
        assert((-d) * (-d) == d * d) by (nonlinear_arith);
    }
}

/// Integer square root of a non-negative `i32`, by bisection.
fn isqrt(s: i32) -> (r: i32)
    requires
        0 <= s,
    ensures
        is_isqrt(r as int, s as int),
{
    // 46341 * 46341 > i32::MAX
    let mut lo: i32 = 0;
    let mut hi: i32 = 46341;
    assert(46341 * 46341 > i32::MAX) by (nonlinear_arith);
    while hi - lo > 1
        invariant
            0 <= lo < hi <= 46341,
            lo * lo <= s,
            s < hi * hi,
        decreases hi - lo,
    {
        let mid = lo + (hi - lo) / 2;
        assert(0 <= mid * mid <= 46341 * 46341) by (nonlinear_arith)
            requires
                0 <= mid <= 46341,
        ;
        let sq: i64 = (mid as i64) * (mid as i64);
        if sq <= s as i64 {
            lo = mid;
        } else {
            hi = mid;
        }
    }
    lo
}

/// The radius of the circle centred at `center` that passes through `edge`,
/// rounded down to a whole pixel: the integer square root of the squared
/// distance.
pub fn circle_radius(center: Point, edge: Point) -> (r: i32)
    requires
        radius_fits(center, edge),
    ensures
        is_isqrt(r as int, dist2(center, edge)),
{
    let dx = edge.x - center.x;
    let dy = edge.y - center.y;
    assert(0 <= dx * dx && 0 <= dy * dy) by (nonlinear_arith);
    let s = dx * dx + dy * dy;
    isqrt(s)
}

/// The integer square root is unique.
pub proof fn lemma_isqrt_unique(s: int, r1: int, r2: int)
    requires
        is_isqrt(r1, s),
        is_isqrt(r2, s),
    ensures
        r1 == r2,
{
    if r1 < r2 {
        lemma_square_monotone(r1 + 1, r2);
    } else if r2 < r1 {
        lemma_square_monotone(r2 + 1, r1);
    }
}

/// The radius does not depend on which of the two points is the centre.
pub proof fn lemma_radius_symmetric(a: Point, b: Point, r1: int, r2: int)
    requires
        radius_fits(a, b),
        is_isqrt(r1, dist2(a, b)),
        is_isqrt(r2, dist2(b, a)),
    ensures
        radius_fits(b, a),
        r1 == r2,
{
    assert(dist2(a, b) == dist2(b, a)) by (nonlinear_arith);
    assert(0 <= (b.y - a.y) * (b.y - a.y) && 0 <= (b.x - a.x) * (b.x - a.x)) by (nonlinear_arith);
    lemma_small_square(b.x - a.x, (b.y - a.y) * (b.y - a.y));
    lemma_small_square(b.y - a.y, (b.x - a.x) * (b.x - a.x));
    lemma_isqrt_unique(dist2(a, b), r1, r2);
}

} // verus!
