//! Integer plane geometry: points in world units, squared distances, an
//! integer square root and bounded steps toward a target.
use vstd::prelude::*;

verus! {

/// Side of one tile, in world units.
pub const TILE_SIZE: i64 = 50;

/// Largest absolute coordinate of a point inside the playable world.
pub const WORLD_LIMIT: i64 = 16_777_216;

/// A point (or a vector) of the plane, in world units.
#[derive(Clone, Copy, Debug, PartialEq, Eq, Structural)]
pub struct Point {
    pub x: i64,
    pub y: i64,
}

pub open spec fn abs(v: int) -> nat {
    if v < 0 { (-v) as nat } else { v as nat }
}

/// A point whose coordinates lie inside the world square.
pub open spec fn in_world(p: Point) -> bool {
    -WORLD_LIMIT <= p.x <= WORLD_LIMIT && -WORLD_LIMIT <= p.y <= WORLD_LIMIT
}

/// Squared Euclidean distance between two points.
pub open spec fn dist2(a: Point, b: Point) -> int {
    (b.x - a.x) * (b.x - a.x) + (b.y - a.y) * (b.y - a.y)
}

/// Manhattan distance between two points.
pub open spec fn manhattan(a: Point, b: Point) -> nat {
    abs(b.x - a.x) + abs(b.y - a.y)
}

/// `q` lies in the closed box spanned by `p` and `t` and no farther from `t`
/// than `p` is, coordinate by coordinate.
pub open spec fn between(p: Point, q: Point, t: Point) -> bool {
    &&& (p.x <= q.x <= t.x || t.x <= q.x <= p.x)
    &&& (p.y <= q.y <= t.y || t.y <= q.y <= p.y)
}

impl Point {
    pub fn new(x: i64, y: i64) -> (r: Point)
        ensures
            r.x == x,
            r.y == y,
    {
        Point { x, y }
    }

    /// Whether the point lies inside the world square.
    pub fn is_in_world(&self) -> (r: bool)
        ensures
            r == in_world(*self),
    {
        -WORLD_LIMIT <= self.x && self.x <= WORLD_LIMIT && -WORLD_LIMIT <= self.y && self.y
            <= WORLD_LIMIT
    }
}

proof fn lemma_square_bound(d: int)
    requires
        -2 * WORLD_LIMIT <= d <= 2 * WORLD_LIMIT,
    ensures
        0 <= d * d <= 4 * WORLD_LIMIT * WORLD_LIMIT,
{
    assert(0 <= d * d <= 4 * WORLD_LIMIT * WORLD_LIMIT) by (nonlinear_arith)
        requires
            -2 * WORLD_LIMIT <= d <= 2 * WORLD_LIMIT,
    ;
}

/// Squared distance between two points of the world.
pub fn distance_squared(a: Point, b: Point) -> (r: u64)
    requires
        in_world(a),
        in_world(b),
    ensures
        r == dist2(a, b),
        r <= 8 * WORLD_LIMIT * WORLD_LIMIT,
{
    let dx = b.x - a.x;
    let dy = b.y - a.y;
    proof {
        lemma_square_bound(dx as int);
        lemma_square_bound(dy as int);
    }
    let r = (dx * dx + dy * dy) as u64;
    r
}

/// `r` is the integer square root of `n`.
pub open spec fn is_isqrt(n: int, r: int) -> bool {
    0 <= r && r * r <= n && n < (r + 1) * (r + 1)
}

/// The integer square root of `n`: the largest `r` with `r * r <= n`.
pub open spec fn sqrt_floor(n: int) -> int {
    choose|r: int| is_isqrt(n, r)
}

/// Integer square root: the largest `r` with `r * r <= n`.
pub fn isqrt(n: u64) -> (r: u64)
    ensures
        r * r <= n,
        n < (r + 1) * (r + 1),
        r == sqrt_floor(n as int),
{
    let mut lo: u64 = 0;
    let mut hi: u64 = 4_294_967_296;
    assert(n < hi * hi) by (nonlinear_arith)
        requires
            hi == 4_294_967_296,
            n <= u64::MAX,
    ;
    while hi - lo > 1
        invariant
            lo < hi <= 4_294_967_296,
            lo * lo <= n,
            n < hi * hi,
        decreases hi - lo,
    {
        let mid = lo + (hi - lo) / 2;
        assert(mid * mid <= 4_294_967_295 * 4_294_967_295) by (nonlinear_arith)
            requires
                mid < 4_294_967_296,
        ;
        if mid * mid <= n {
            lo = mid;
        } else {
            hi = mid;
        }
    }
    assert(is_isqrt(n as int, lo as int)) by (nonlinear_arith)
        requires
            lo * lo <= n,
            n < hi * hi,
            hi == lo + 1,
    ;
    proof {
        assert(is_isqrt(n as int, sqrt_floor(n as int)));
        lemma_isqrt_unique(n as int, lo as int, sqrt_floor(n as int));
    }
    lo
}


/// `d` scaled by `s / len`, rounded toward zero.
pub open spec fn scaled(d: int, s: int, len: int) -> int {
    if d < 0 { -((-d) * s / len) } else { d * s / len }
}

/// Where a step of at most `max_step` from `from` toward `to` ends, when the
/// integer length of the remaining way is `len`: on `to` itself when it lies
/// within reach, else each coordinate advanced by its share of `max_step`,
/// rounded toward `from`.
pub open spec fn step_end(from: Point, to: Point, max_step: int, len: int) -> Point {
    if dist2(from, to) <= max_step * max_step {
        to
    } else {
        Point {
            x: (from.x + scaled(to.x - from.x, max_step, len)) as i64,
            y: (from.y + scaled(to.y - from.y, max_step, len)) as i64,
        }
    }
}

proof fn lemma_isqrt_unique(n: int, r1: int, r2: int)
    requires
        is_isqrt(n, r1),
        is_isqrt(n, r2),
    ensures
        r1 == r2,
{
    if r1 < r2 {
        assert((r1 + 1) * (r1 + 1) <= r2 * r2) by (nonlinear_arith)
            requires
                0 <= r1 < r2,
        ;
    } else if r2 < r1 {
        assert((r2 + 1) * (r2 + 1) <= r1 * r1) by (nonlinear_arith)
            requires
                0 <= r2 < r1,
        ;
    }
}

/// The share `s / len` of the coordinate `d` of a vector of integer length
/// `len`, rounded toward zero.
pub fn share(d: i64, s: u64, len: u64) -> (r: i64)
    requires
        abs(d as int) <= len,
        0 < len <= 4 * WORLD_LIMIT,
        s <= 4 * WORLD_LIMIT,
    ensures
        r == scaled(d as int, s as int, len as int),
        abs(r as int) <= s,
        d >= 0 ==> r >= 0,
        d <= 0 ==> r <= 0,
{
    let a: u64 = if d < 0 { (-d) as u64 } else { d as u64 };
    assert(a * s <= 4_503_599_627_370_496) by (nonlinear_arith)
        requires
            a <= 67_108_864,
            s <= 67_108_864,
    ;
    if a == 0 {
        assert(scaled(d as int, s as int, len as int) == 0);
        return 0;
    }
    let q = a * s / len;
    assert(q <= s) by (nonlinear_arith)
        requires
            q == (a * s) as int / (len as int),
            a <= len,
            len > 0,
    ;
    if d < 0 {
        -(q as i64)
    } else {
        q as i64
    }
}

/// Every natural number has an integer square root.
pub proof fn lemma_isqrt_exists(n: nat)
    ensures
        exists|r: int| is_isqrt(n as int, r),
        is_isqrt(n as int, sqrt_floor(n as int)),
    decreases n,
{
    if n == 0 {
        assert(is_isqrt(0, 0));
    } else {
        lemma_isqrt_exists((n - 1) as nat);
        let r = sqrt_floor(n - 1);
        if (r + 1) * (r + 1) <= n {
            assert(n < (r + 2) * (r + 2)) by (nonlinear_arith)
                requires
                    n - 1 < (r + 1) * (r + 1),
                    r >= 0,
            ;
            assert(is_isqrt(n as int, r + 1));
        } else {
            assert(is_isqrt(n as int, r));
        }
    }
}

/// A step toward `to` ends between `from` and `to`.
pub proof fn lemma_step_end_between(from: Point, to: Point, max_step: int)
    requires
        in_world(from),
        in_world(to),
        max_step >= 0,
    ensures
        between(from, step_end(from, to, max_step, sqrt_floor(dist2(from, to))), to),
        manhattan(step_end(from, to, max_step, sqrt_floor(dist2(from, to))), to) <= manhattan(from, to),
{
    let n = dist2(from, to);
    let dx = to.x - from.x;
    let dy = to.y - from.y;
    assert(n >= 0) by (nonlinear_arith)
        requires
            n == dx * dx + dy * dy,
    ;
    lemma_isqrt_exists(n as nat);
    let len = sqrt_floor(n);
    if n > max_step * max_step {
        assert(max_step <= len && len > 0) by (nonlinear_arith)
            requires
                n > max_step * max_step,
                n < (len + 1) * (len + 1),
                len >= 0,
                max_step >= 0,
        ;
        assert(abs(dx) <= len && abs(dy) <= len) by (nonlinear_arith)
            requires
                n == dx * dx + dy * dy,
                n < (len + 1) * (len + 1),
                len >= 0,
        ;
        lemma_scaled_bounds(dx, max_step, len);
        lemma_scaled_bounds(dy, max_step, len);
    }
}

/// A step of at least two world units toward a point farther than one unit
/// away gets strictly closer to it in Manhattan distance (a one-unit step can
/// round to nothing along a diagonal).
pub proof fn lemma_step_end_progress(from: Point, to: Point, max_step: int)
    requires
        in_world(from),
        in_world(to),
        max_step >= 2,
        dist2(from, to) > 1,
    ensures
        manhattan(step_end(from, to, max_step, sqrt_floor(dist2(from, to))), to) < manhattan(from, to),
{
    let n = dist2(from, to);
    let dx = to.x - from.x;
    let dy = to.y - from.y;
    lemma_step_end_between(from, to, max_step);
    assert(n >= 0) by (nonlinear_arith)
        requires
            n == dx * dx + dy * dy,
    ;
    lemma_isqrt_exists(n as nat);
    let len = sqrt_floor(n);
    if n > max_step * max_step {
        assert(max_step <= len && len > 0) by (nonlinear_arith)
            requires
                n > max_step * max_step,
                n < (len + 1) * (len + 1),
                len >= 0,
                max_step >= 0,
        ;
        assert(abs(dx) <= len && abs(dy) <= len) by (nonlinear_arith)
            requires
                n == dx * dx + dy * dy,
                n < (len + 1) * (len + 1),
                len >= 0,
        ;
        lemma_scaled_bounds(dx, max_step, len);
        lemma_scaled_bounds(dy, max_step, len);
        assert(abs(dx) * abs(dx) == dx * dx && abs(dy) * abs(dy) == dy * dy) by (nonlinear_arith)
            requires
                abs(dx) == dx || abs(dx) == -dx,
                abs(dy) == dy || abs(dy) == -dy,
        ;
        let a: int = if abs(dx) >= abs(dy) { abs(dx) as int } else { abs(dy) as int };
        assert(len * len <= 2 * a * a) by (nonlinear_arith)
            requires
                len * len <= n,
                n == dx * dx + dy * dy,
                a == abs(dx) || a == abs(dy),
                a >= abs(dx),
                a >= abs(dy),
                abs(dx) * abs(dx) == dx * dx,
                abs(dy) * abs(dy) == dy * dy,
        ;
        lemma_long_side_moves(a, max_step, len);
    } else {
        assert(dx != 0 || dy != 0) by (nonlinear_arith)
            requires
                n == dx * dx + dy * dy,
                n > 1,
        ;
    }
}

proof fn lemma_long_side_moves(a: int, s: int, len: int)
    requires
        a >= 0,
        s >= 2,
        len > 0,
        len * len <= 2 * a * a,
    ensures
        a * s / len >= 1,
{
    assert(a * s >= len) by (nonlinear_arith)
        requires
            a >= 0,
            s >= 2,
            len > 0,
            len * len <= 2 * a * a,
    ;
    assert(a * s / len >= 1) by (nonlinear_arith)
        requires
            a * s >= len,
            len > 0,
    ;
}

proof fn lemma_scaled_bounds(d: int, s: int, len: int)
    requires
        0 <= s <= len,
        len > 0,
        abs(d) <= len,
    ensures
        abs(scaled(d, s, len)) <= abs(d),
        d >= 0 ==> scaled(d, s, len) >= 0,
        d <= 0 ==> scaled(d, s, len) <= 0,
{
    let a = abs(d) as int;
    assert(0 <= a * s / len <= a) by (nonlinear_arith)
        requires
            0 <= s <= len,
            len > 0,
            a >= 0,
    ;
}

/// Moves `from` toward `to` by at most `max_step` world units (the last unit
/// may be rounded up when the target lies within reach).
pub fn step_toward(from: Point, to: Point, max_step: u64) -> (r: Point)
    requires
        in_world(from),
        in_world(to),
    ensures
        r == step_end(from, to, max_step as int, sqrt_floor(dist2(from, to))),
        between(from, r, to),
        in_world(r),
{
    let d2 = distance_squared(from, to);
    let len = isqrt(d2);
    assert(len <= 4 * WORLD_LIMIT) by (nonlinear_arith)
        requires
            len * len <= 8 * WORLD_LIMIT * WORLD_LIMIT,
    ;
    if max_step > len {
        assert(d2 <= max_step * max_step) by (nonlinear_arith)
            requires
                d2 < (len + 1) * (len + 1),
                max_step >= len + 1,
        ;
        return to;
    }
    assert(max_step * max_step <= 16 * WORLD_LIMIT * WORLD_LIMIT) by (nonlinear_arith)
        requires
            max_step <= 4 * WORLD_LIMIT,
    ;
    let s2 = max_step * max_step;
    if d2 <= s2 {
        return to;
    }
    assert(len > 0) by (nonlinear_arith)
        requires
            d2 < (len + 1) * (len + 1),
            d2 > 0,
    ;
    let dx = to.x - from.x;
    let dy = to.y - from.y;
    assert(abs(dx as int) <= len && abs(dy as int) <= len) by (nonlinear_arith)
        requires
            d2 == dx * dx + dy * dy,
            d2 < (len + 1) * (len + 1),
            len >= 0,
    ;
    proof {
        lemma_scaled_bounds(dx as int, max_step as int, len as int);
        lemma_scaled_bounds(dy as int, max_step as int, len as int);
    }
    Point { x: from.x + share(dx, max_step, len), y: from.y + share(dy, max_step, len) }
}

} // verus!
