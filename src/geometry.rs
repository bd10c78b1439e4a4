//! Integer plane geometry: points, rectangles, square roots and scaled
//! directions.
//!
//! One world unit is `UNIT` milli-units; coordinates are kept within
//! `[-COORD_LIMIT, COORD_LIMIT]`.

use vstd::prelude::*;

verus! {

/// Milli-units per world unit.
pub const UNIT: i64 = 1000;

/// Largest magnitude of a coordinate that the simulation keeps.
pub const COORD_LIMIT: i64 = 0x2000_0000;

/// A point or a displacement on the plane, in milli-units.
#[derive(Clone, Copy, Debug, PartialEq, Eq, Structural)]
pub struct Vec2 {
    pub x: i64,
    pub y: i64,
}

/// An axis-aligned rectangle given by its top-left corner and its size.
#[derive(Clone, Copy, Debug, PartialEq, Eq, Structural)]
pub struct Rect {
    pub x: i64,
    pub y: i64,
    pub w: i64,
    pub h: i64,
}

/// A coordinate that the simulation can hold.
pub open spec fn in_range(v: int) -> bool {
    -COORD_LIMIT <= v <= COORD_LIMIT
}

/// A point whose both coordinates the simulation can hold.
pub open spec fn point_in_range(p: Vec2) -> bool {
    in_range(p.x as int) && in_range(p.y as int)
}

/// Squared euclidean distance between two points.
pub open spec fn dist2(a: Vec2, b: Vec2) -> int {
    (a.x - b.x) * (a.x - b.x) + (a.y - b.y) * (a.y - b.y)
}

/// Division of integers rounding toward zero, as Rust's `/` does.
pub open spec fn tdiv(a: int, b: int) -> int {
    if a >= 0 {
        a / b
    } else {
        -((-a) / b)
    }
}

/// Division of integers rounding away from zero.
pub open spec fn adiv(a: int, b: int) -> int {
    if a >= 0 {
        (a + b - 1) / b
    } else {
        -((-a + b - 1) / b)
    }
}

/// `v` limited to `[-bound, bound]`.
pub open spec fn clamp_spec(v: int, bound: int) -> int {
    if v > bound {
        bound
    } else if v < -bound {
        -bound
    } else {
        v
    }
}

/// `r` is the integer square root of `n`.
pub open spec fn is_isqrt(n: int, r: int) -> bool {
    0 <= r && r * r <= n < (r + 1) * (r + 1)
}

/// The displacement from `from` to `to` rescaled to length `speed`,
/// component by component with rounding away from zero, so that no non-zero
/// component of the displacement is lost; zero when the two points coincide.
pub open spec fn scaled_direction_spec(from: Vec2, to: Vec2, speed: int, len: int) -> (int, int) {
    if len == 0 {
        (0, 0)
    } else {
        (adiv((to.x - from.x) * speed, len), adiv((to.y - from.y) * speed, len))
    }
}

impl Vec2 {
    pub open spec fn is_zero(self) -> bool {
        self.x == 0 && self.y == 0
    }

    pub fn new(x: i64, y: i64) -> (r: Vec2)
        ensures
            r.x == x,
            r.y == y,
    {
        Vec2 { x, y }
    }

    pub fn zero() -> (r: Vec2)
        ensures
            r.is_zero(),
    {
        Vec2 { x: 0, y: 0 }
    }

    /// Squared distance to another point.
    pub fn distance_squared(&self, other: &Vec2) -> (r: i64)
        requires
            point_in_range(*self),
            point_in_range(*other),
        ensures
            r == dist2(*self, *other),
            0 <= r <= 0x2000_0000_0000_0000,
    {
        let dx = self.x - other.x;
        let dy = self.y - other.y;
        assert(dx * dx <= 0x1000_0000_0000_0000) by (nonlinear_arith)
            requires
                -0x4000_0000 <= dx <= 0x4000_0000,
        ;
        assert(dy * dy <= 0x1000_0000_0000_0000) by (nonlinear_arith)
            requires
                -0x4000_0000 <= dy <= 0x4000_0000,
        ;
        assert(dx * dx >= 0 && dy * dy >= 0) by (nonlinear_arith);
        dx * dx + dy * dy
    }
}

impl Rect {
    pub fn new(x: i64, y: i64, w: i64, h: i64) -> (r: Rect)
        ensures
            r == (Rect { x, y, w, h }),
    {
        Rect { x, y, w, h }
    }

    pub open spec fn left(self) -> int {
        self.x as int
    }

    pub open spec fn right(self) -> int {
        self.x + self.w
    }

    pub open spec fn top(self) -> int {
        self.y as int
    }

    pub open spec fn bottom(self) -> int {
        self.y + self.h
    }

    /// The point lies in the rectangle, edges included.
    pub open spec fn contains_spec(self, p: Vec2) -> bool {
        self.left() <= p.x <= self.right() && self.top() <= p.y <= self.bottom()
    }

    /// The two rectangles share a point, edges included.
    pub open spec fn overlaps_spec(self, o: Rect) -> bool {
        self.left() <= o.right() && self.right() >= o.left() && self.top() <= o.bottom()
            && self.bottom() >= o.top()
    }

    pub open spec fn wf(self) -> bool {
        -2 * COORD_LIMIT <= self.x <= 2 * COORD_LIMIT && -2 * COORD_LIMIT <= self.y <= 2
            * COORD_LIMIT && 0 <= self.w <= COORD_LIMIT && 0 <= self.h <= COORD_LIMIT
    }

    pub fn contains(&self, p: &Vec2) -> (r: bool)
        requires
            self.wf(),
        ensures
            r == self.contains_spec(*p),
    {
        p.x >= self.x && p.x <= self.x + self.w && p.y >= self.y && p.y <= self.y + self.h
    }

    pub fn overlaps(&self, o: &Rect) -> (r: bool)
        requires
            self.wf(),
            o.wf(),
        ensures
            r == self.overlaps_spec(*o),
    {
        self.x <= o.x + o.w && self.x + self.w >= o.x && self.y <= o.y + o.h && self.y + self.h
            >= o.y
    }
}

/// Rounds `a / b` toward zero.
pub fn div_toward_zero(a: i64, b: i64) -> (r: i64)
    requires
        b > 0,
        a > i64::MIN,
    ensures
        r == tdiv(a as int, b as int),
{
    if a >= 0 {
        a / b
    } else {
        let q = (-a) / b;
        -q
    }
}

/// Rounds `a / b` away from zero.
pub fn div_away_from_zero(a: i64, b: i64) -> (r: i64)
    requires
        b > 0,
        -0x2000_0000_0000_0000 <= a <= 0x2000_0000_0000_0000,
        b <= 0x2000_0000_0000_0000,
    ensures
        r == adiv(a as int, b as int),
{
    if a >= 0 {
        (a + b - 1) / b
    } else {
        let q = (-a + b - 1) / b;
        -q
    }
}

/// Limits `v` to `[-bound, bound]`.
pub fn clamp(v: i64, bound: i64) -> (r: i64)
    requires
        bound >= 0,
    ensures
        r == clamp_spec(v as int, bound as int),
{
    if v > bound {
        bound
    } else if v < -bound {
        -bound
    } else {
        v
    }
}

/// Integer square root, by bisection.
pub fn isqrt(n: u64) -> (r: u64)
    ensures
        is_isqrt(n as int, r as int),
{
    let mut lo: u64 = 0;
    let mut hi: u64 = 0x1_0000_0000;
    assert(hi * hi > n) by (nonlinear_arith)
        requires
            hi == 0x1_0000_0000,
            n <= u64::MAX,
    ;
    while hi - lo > 1
        invariant
            lo < hi <= 0x1_0000_0000,
            lo * lo <= n,
            n < hi * hi,
        decreases hi - lo,
    {
        let mid = lo + (hi - lo) / 2;
        assert(mid * mid < 0x1_0000_0000_0000_0000) by (nonlinear_arith)
            requires
                mid < 0x1_0000_0000,
        ;
        if (mid as u128) * (mid as u128) <= n as u128 {
            lo = mid;
        } else {
            hi = mid;
        }
    }
    assert(hi == lo + 1);
    lo
}

/// The displacement from `from` to `to`, rescaled to length `speed`; zero
/// when the two points coincide.
pub fn scaled_direction(from: &Vec2, to: &Vec2, speed: i64) -> (r: Vec2)
    requires
        point_in_range(*from),
        point_in_range(*to),
        0 <= speed <= COORD_LIMIT,
    ensures
        (r.x as int, r.y as int) == scaled_direction_spec(*from, *to, speed as int, isqrt_of(dist2(*from, *to))),
        -speed <= r.x <= speed,
        -speed <= r.y <= speed,
        *from != *to && speed > 0 ==> !r.is_zero(),
{
    let d2 = from.distance_squared(to);
    let len = isqrt(d2 as u64);
    proof {
        lemma_isqrt_unique(d2 as int, len as int);
        assert(len <= 0x8000_0000) by (nonlinear_arith)
            requires
                len * len <= d2,
                d2 <= 0x2000_0000_0000_0000,
        ;
    }
    if len == 0 {
        proof {
            let ex = from.x - to.x;
            let ey = from.y - to.y;
            assert(is_isqrt(d2 as int, 0));
            assert(d2 < 1) by (nonlinear_arith)
                requires
                    is_isqrt(d2 as int, 0),
            ;
            assert(ex * ex + ey * ey == d2);
            assert(ex == 0 && ey == 0) by (nonlinear_arith)
                requires
                    ex * ex + ey * ey < 1,
            ;
        }
        return Vec2 { x: 0, y: 0 };
    }
    let dx = to.x - from.x;
    let dy = to.y - from.y;
    proof {
        assert(dx * dx + dy * dy == d2) by (nonlinear_arith)
            requires
                dx == to.x - from.x,
                dy == to.y - from.y,
                d2 == (from.x - to.x) * (from.x - to.x) + (from.y - to.y) * (from.y - to.y),
        ;
        lemma_component_le_len(dx as int, dy as int, len as int);
        lemma_component_le_len(dy as int, dx as int, len as int);
        lemma_scaled_bound(dx as int, speed as int, len as int);
        lemma_scaled_bound(dy as int, speed as int, len as int);
        assert(speed * len <= 0x2000_0000 * 0x8000_0000) by (nonlinear_arith)
            requires
                0 <= speed <= 0x2000_0000,
                0 <= len <= 0x8000_0000,
        ;
    }
    proof {
        if dx != 0 && speed > 0 {
            lemma_adiv_nonzero(dx as int, speed as int, len as int);
        }
        if dy != 0 && speed > 0 {
            lemma_adiv_nonzero(dy as int, speed as int, len as int);
        }
    }
    let x = div_away_from_zero(dx * speed, len as i64);
    let y = div_away_from_zero(dy * speed, len as i64);
    Vec2 { x, y }
}

proof fn lemma_adiv_nonzero(a: int, speed: int, len: int)
    requires
        a != 0,
        speed > 0,
        len > 0,
    ensures
        adiv(a * speed, len) != 0,
{
    if a > 0 {
        assert(a * speed >= 1) by (nonlinear_arith)
            requires
                a >= 1,
                speed >= 1,
        ;
        assert((a * speed + len - 1) / len >= 1) by (nonlinear_arith)
            requires
                a * speed >= 1,
                len > 0,
        ;
    } else {
        assert(a * speed <= -1) by (nonlinear_arith)
            requires
                a <= -1,
                speed >= 1,
        ;
        assert((-(a * speed) + len - 1) / len >= 1) by (nonlinear_arith)
            requires
                -(a * speed) >= 1,
                len > 0,
        ;
    }
}

/// The integer square root of a non-negative integer.
pub open spec fn isqrt_of(n: int) -> int {
    choose|r: int| is_isqrt(n, r)
}

proof fn lemma_isqrt_unique(n: int, r: int)
    requires
        is_isqrt(n, r),
    ensures
        isqrt_of(n) == r,
{
    let s = isqrt_of(n);
    assert(is_isqrt(n, s));
    if s < r {
        assert((s + 1) * (s + 1) <= r * r) by (nonlinear_arith)
            requires
                0 <= s < r,
        ;
    } else if r < s {
        assert((r + 1) * (r + 1) <= s * s) by (nonlinear_arith)
            requires
                0 <= r < s,
        ;
    }
}

proof fn lemma_component_le_len(a: int, b: int, len: int)
    requires
        len >= 0,
        a * a + b * b < (len + 1) * (len + 1),
    ensures
        -len <= a <= len,
{
    assert(b * b >= 0) by (nonlinear_arith);
    if a > len {
        assert(a * a >= (len + 1) * (len + 1)) by (nonlinear_arith)
            requires
                a >= len + 1,
                len >= 0,
        ;
    }
    if a < -len {
        assert(a * a >= (len + 1) * (len + 1)) by (nonlinear_arith)
            requires
                -a >= len + 1,
                len >= 0,
        ;
    }
}

proof fn lemma_scaled_bound(a: int, speed: int, len: int)
    requires
        len > 0,
        -len <= a <= len,
        0 <= speed,
    ensures
        -(speed * len) <= a * speed <= speed * len,
        -speed <= adiv(a * speed, len) <= speed,
{
    assert(-(speed * len) <= a * speed <= speed * len) by (nonlinear_arith)
        requires
            -len <= a <= len,
            0 <= speed,
    ;
    if a * speed >= 0 {
        assert((a * speed + len - 1) / len <= speed) by (nonlinear_arith)
            requires
                0 <= a * speed <= speed * len,
                len > 0,
        ;
        assert((a * speed + len - 1) / len >= 0) by (nonlinear_arith)
            requires
                0 <= a * speed,
                len > 0,
        ;
    } else {
        assert((-(a * speed) + len - 1) / len <= speed) by (nonlinear_arith)
            requires
                0 <= -(a * speed) <= speed * len,
                len > 0,
        ;
        assert((-(a * speed) + len - 1) / len >= 0) by (nonlinear_arith)
            requires
                0 <= -(a * speed),
                len > 0,
        ;
    }
}

} // verus!
