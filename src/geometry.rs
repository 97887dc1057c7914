//! Whole-unit plane geometry: points and vectors, squared distances, integer
//! square roots, scaling a vector to a given length and segment/disc contact.
use vstd::prelude::*;

verus! {

/// Largest absolute coordinate, or velocity component, for which the arithmetic
/// of this crate is exact. The playing field is a few hundred units across.
pub const WORLD_LIMIT: i32 = 1_000_000;

/// A point or a vector of the plane, in whole world units.
#[derive(PartialEq, Eq, Structural, Clone, Copy, Debug)]
pub struct Vec2i {
    pub x: i32,
    pub y: i32,
}

impl Vec2i {
    /// Both components lie within `WORLD_LIMIT` of zero.
    pub open spec fn in_world(self) -> bool {
        &&& -WORLD_LIMIT <= self.x <= WORLD_LIMIT
        &&& -WORLD_LIMIT <= self.y <= WORLD_LIMIT
    }

    /// Both components lie within twice `WORLD_LIMIT` of zero: a point of the
    /// world moved by no more than `WORLD_LIMIT`.
    pub open spec fn near_world(self) -> bool {
        &&& -2 * WORLD_LIMIT <= self.x <= 2 * WORLD_LIMIT
        &&& -2 * WORLD_LIMIT <= self.y <= 2 * WORLD_LIMIT
    }

    /// The point `(x, y)`.
    pub fn new(x: i32, y: i32) -> (r: Vec2i)
        ensures
            r.x == x,
            r.y == y,
    {
        Vec2i { x, y }
    }

    /// The origin, or the zero vector.
    pub fn zero() -> (r: Vec2i)
        ensures
            r.x == 0,
            r.y == 0,
    {
        Vec2i { x: 0, y: 0 }
    }
}

/// The square of the distance between `a` and `b`.
pub open spec fn dist_sq(a: Vec2i, b: Vec2i) -> int {
    (a.x - b.x) * (a.x - b.x) + (a.y - b.y) * (a.y - b.y)
}

/// A number no farther from zero than `b` has a square no larger than `b * b`.
pub proof fn lemma_square_le(a: int, b: int)
    requires
        -b <= a <= b,
    ensures
        0 <= a * a <= b * b,
{
    assert(0 <= a * a <= b * b) by (nonlinear_arith)
        requires
            -b <= a <= b,
    ;
}

/// The square of the distance between `a` and `b`.
pub fn distance_squared(a: Vec2i, b: Vec2i) -> (r: i64)
    requires
        a.in_world(),
        b.in_world(),
    ensures
        r == dist_sq(a, b),
        0 <= r <= 8_000_000_000_000,
{
    let dx = a.x as i64 - b.x as i64;
    let dy = a.y as i64 - b.y as i64;
    proof {
        lemma_square_le(dx as int, 2_000_000);
        lemma_square_le(dy as int, 2_000_000);
    }
    dx * dx + dy * dy
}

/// `r` is the square root of `n` rounded down.
pub open spec fn is_root_floor(n: int, r: int) -> bool {
    &&& 0 <= r
    &&& r * r <= n
    &&& n < (r + 1) * (r + 1)
}

/// The square root of `n` rounded down.
pub open spec fn root_floor(n: int) -> int {
    choose|r: int| is_root_floor(n, r)
}

/// The rounded-down square root is the only one of its kind.
pub proof fn lemma_root_floor_unique(n: int, r: int)
    requires
        is_root_floor(n, r),
    ensures
        root_floor(n) == r,
{
    let s = root_floor(n);
    assert(is_root_floor(n, s));
    if s < r {
        assert((s + 1) * (s + 1) <= r * r) by (nonlinear_arith)
            requires
                0 <= s < r,
        ;
    } else if r < s {
        assert((r + 1) * (r + 1) <= s * s) by (nonlinear_arith)
            requires
                0 <= r < s,
        ;
    }
}

/// The square root of `n` rounded down.
pub fn isqrt(n: u128) -> (r: u64)
    ensures
        is_root_floor(n as int, r as int),
        r == root_floor(n as int),
{
    let mut lo: u128 = 0;
    let mut hi: u128 = 0x1_0000_0000_0000_0000;
    assert(n < hi * hi) by (nonlinear_arith)
        requires
            n < 0x1_0000_0000_0000_0000_0000_0000_0000_0000,
            hi == 0x1_0000_0000_0000_0000,
    ;
    while hi - lo > 1
        invariant
            lo < hi <= 0x1_0000_0000_0000_0000,
            lo * lo <= n,
            n < hi * hi,
        decreases hi - lo,
    {
        let mid = lo + (hi - lo) / 2;
        assert(mid * mid < 0x1_0000_0000_0000_0000_0000_0000_0000_0000) by (nonlinear_arith)
            requires
                mid < 0x1_0000_0000_0000_0000,
        ;
        if mid * mid <= n {
            lo = mid;
        } else {
            hi = mid;
        }
    }
    proof {
        lemma_root_floor_unique(n as int, lo as int);
    }
    lo as u64
}

/// `a / b` rounded toward zero, for positive `b`.
pub open spec fn div_trunc(a: int, b: int) -> int {
    if a >= 0 {
        a / b
    } else {
        -((-a) / b)
    }
}

/// Dividing toward zero never moves away from zero, nor past the dividend.
pub proof fn lemma_div_trunc_bound(a: int, b: int)
    requires
        b > 0,
    ensures
        a <= b * div_trunc(a, b) <= 0 || 0 <= b * div_trunc(a, b) <= a,
        div_trunc(a, b) * div_trunc(a, b) * (b * b) <= a * a,
{
    let q = div_trunc(a, b);
    if a >= 0 {
        vstd::arithmetic::div_mod::lemma_fundamental_div_mod(a, b);
        vstd::arithmetic::div_mod::lemma_mod_pos_bound(a, b);
        vstd::arithmetic::div_mod::lemma_div_pos_is_pos(a, b);
        assert(0 <= b * q) by (nonlinear_arith)
            requires
                b > 0,
                q >= 0,
        ;
    } else {
        let na = -a;
        vstd::arithmetic::div_mod::lemma_fundamental_div_mod(na, b);
        vstd::arithmetic::div_mod::lemma_mod_pos_bound(na, b);
        vstd::arithmetic::div_mod::lemma_div_pos_is_pos(na, b);
        let p = na / b;
        assert(q == -p);
        assert(b * q == -(b * p)) by (nonlinear_arith)
            requires
                q == -p,
        ;
        assert(0 <= b * p) by (nonlinear_arith)
            requires
                b > 0,
                p >= 0,
        ;
    }
    let m = b * q;
    assert(m * m <= a * a) by (nonlinear_arith)
        requires
            a <= m <= 0 || 0 <= m <= a,
    ;
    assert(q * q * (b * b) == m * m) by (nonlinear_arith)
        requires
            m == b * q,
    ;
}

/// `a / b` rounded toward zero.
pub fn div_trunc_i128(a: i128, b: i128) -> (r: i128)
    requires
        b > 0,
        a > i128::MIN,
    ensures
        r == div_trunc(a as int, b as int),
{
    if a >= 0 {
        ((a as u128) / (b as u128)) as i128
    } else {
        -((((-a) as u128) / (b as u128)) as i128)
    }
}

/// The vector of length about `len` that points along `(dx, dy)`: each component
/// scaled by `len / n`, with `n` the length of `(dx, dy)` rounded down and the
/// quotient rounded toward zero. Zero where `(dx, dy)` is zero.
pub open spec fn scaled(dx: int, dy: int, len: int) -> (int, int) {
    let n = root_floor(dx * dx + dy * dy);
    if n == 0 {
        (0, 0)
    } else {
        (div_trunc(dx * len, n), div_trunc(dy * len, n))
    }
}

/// The vector of length about `len` from `from` toward `to`.
pub open spec fn toward(from: Vec2i, to: Vec2i, len: int) -> (int, int) {
    scaled(to.x - from.x, to.y - from.y, len)
}

/// Each component of a vector is no longer than the vector's rounded-down
/// length.
pub proof fn lemma_component_le_root(d: int, e: int)
    ensures
        (d <= 0 || d <= root_floor(d * d + e * e)),
        (-d <= root_floor(d * d + e * e)),
{
    let n = d * d + e * e;
    let r = root_floor(n);
    assert(n >= 0) by (nonlinear_arith)
        requires
            n == d * d + e * e,
    ;
    assert(exists|s: int| is_root_floor(n, s)) by {
        let s = isqrt_witness(n);
        assert(is_root_floor(n, s));
    }
    assert(is_root_floor(n, r));
    assert(d * d <= n) by (nonlinear_arith)
        requires
            n == d * d + e * e,
    ;
    if d > r {
        assert((r + 1) * (r + 1) <= d * d) by (nonlinear_arith)
            requires
                0 <= r < d,
        ;
    }
    if -d > r {
        assert((r + 1) * (r + 1) <= d * d) by (nonlinear_arith)
            requires
                0 <= r < -d,
        ;
    }
}

/// Some root of a non-negative `n`, found by induction.
proof fn isqrt_witness(n: int) -> (r: int)
    requires
        n >= 0,
    ensures
        is_root_floor(n, r),
    decreases n,
{
    if n == 0 {
        assert(is_root_floor(0, 0));
        0
    } else {
        let s = isqrt_witness(n - 1);
        if (s + 1) * (s + 1) <= n {
            assert(n < (s + 2) * (s + 2)) by (nonlinear_arith)
                requires
                    n - 1 < (s + 1) * (s + 1),
                    s >= 0,
            ;
            assert(is_root_floor(n, s + 1));
            s + 1
        } else {
            assert(s * s <= n);
            assert(is_root_floor(n, s));
            s
        }
    }
}

/// Scales `(dx, dy)` to length about `len`; see `scaled`.
pub fn scale_to_length(dx: i64, dy: i64, len: i64) -> (r: (i64, i64))
    requires
        -50_000_000_000 <= dx <= 50_000_000_000,
        -50_000_000_000 <= dy <= 50_000_000_000,
        0 <= len <= 1_000_000,
    ensures
        r.0 == scaled(dx as int, dy as int, len as int).0,
        r.1 == scaled(dx as int, dy as int, len as int).1,
        -len <= r.0 <= len,
        -len <= r.1 <= len,
{
    proof {
        lemma_square_le(dx as int, 50_000_000_000);
        lemma_square_le(dy as int, 50_000_000_000);
    }
    let nn = (dx as i128 * dx as i128 + dy as i128 * dy as i128) as u128;
    let n = isqrt(nn);
    if n == 0 {
        return (0, 0);
    }
    proof {
        lemma_component_le_root(dx as int, dy as int);
        lemma_component_le_root(dy as int, dx as int);
        assert(dy * dy + dx * dx == dx * dx + dy * dy);
        lemma_div_trunc_bound(dx * len, n as int);
        lemma_div_trunc_bound(dy * len, n as int);
        assert(-(n as int) <= dx <= n as int);
        assert(-(n as int) <= dy <= n as int);
        assert(-(n * len) <= dx * len <= n * len) by (nonlinear_arith)
            requires
                -(n as int) <= dx <= n as int,
                len >= 0,
        ;
        assert(-(n * len) <= dy * len <= n * len) by (nonlinear_arith)
            requires
                -(n as int) <= dy <= n as int,
                len >= 0,
        ;
        let qx = div_trunc(dx * len, n as int);
        let qy = div_trunc(dy * len, n as int);
        let nn = n as int;
        assert(-(nn * len) <= nn * qx <= nn * len);
        assert(-(nn * len) <= nn * qy <= nn * len);
        assert(-len <= qx <= len) by (nonlinear_arith)
            requires
                -(nn * len) <= nn * qx <= nn * len,
                nn > 0,
        ;
        assert(-len <= qy <= len) by (nonlinear_arith)
            requires
                -(nn * len) <= nn * qy <= nn * len,
                nn > 0,
        ;
        assert(-50_000_000_000_000_000 <= dx * len <= 50_000_000_000_000_000) by (nonlinear_arith)
            requires
                -50_000_000_000 <= dx <= 50_000_000_000,
                0 <= len <= 1_000_000,
        ;
        assert(-50_000_000_000_000_000 <= dy * len <= 50_000_000_000_000_000) by (nonlinear_arith)
            requires
                -50_000_000_000 <= dy <= 50_000_000_000,
                0 <= len <= 1_000_000,
        ;
    }
    let qx = div_trunc_i128(dx as i128 * len as i128, n as i128);
    let qy = div_trunc_i128(dy as i128 * len as i128, n as i128);
    (qx as i64, qy as i64)
}

/// Whether the segment from `a` to `b` passes within `r` of `c`, ends included:
/// the point of the segment nearest to `c` is found from the projection of
/// `c - a` on `b - a`.
pub open spec fn segment_meets_disc(a: Vec2i, b: Vec2i, c: Vec2i, r: int) -> bool {
    let sx = b.x - a.x;
    let sy = b.y - a.y;
    let qx = c.x - a.x;
    let qy = c.y - a.y;
    let dot = qx * sx + qy * sy;
    let ss = sx * sx + sy * sy;
    if dot <= 0 {
        dist_sq(c, a) <= r * r
    } else if dot >= ss {
        dist_sq(c, b) <= r * r
    } else {
        dist_sq(c, a) * ss - dot * dot <= r * r * ss
    }
}

/// Whether the segment from `a` to `b` passes within `r` of `c`.
pub fn segment_meets_disc_exec(a: Vec2i, b: Vec2i, c: Vec2i, r: i64) -> (res: bool)
    requires
        a.near_world(),
        b.near_world(),
        c.near_world(),
        0 <= r <= WORLD_LIMIT,
    ensures
        res == segment_meets_disc(a, b, c, r as int),
{
    let sx = b.x as i128 - a.x as i128;
    let sy = b.y as i128 - a.y as i128;
    let qx = c.x as i128 - a.x as i128;
    let qy = c.y as i128 - a.y as i128;
    proof {
        lemma_square_le(sx as int, 4_000_000);
        lemma_square_le(sy as int, 4_000_000);
        lemma_square_le(qx as int, 4_000_000);
        lemma_square_le(qy as int, 4_000_000);
        assert(-16_000_000_000_000 <= qx * sx <= 16_000_000_000_000) by (nonlinear_arith)
            requires
                -4_000_000 <= qx <= 4_000_000,
                -4_000_000 <= sx <= 4_000_000,
        ;
        assert(-16_000_000_000_000 <= qy * sy <= 16_000_000_000_000) by (nonlinear_arith)
            requires
                -4_000_000 <= qy <= 4_000_000,
                -4_000_000 <= sy <= 4_000_000,
        ;
    }
    let dot = qx * sx + qy * sy;
    let ss = sx * sx + sy * sy;
    proof {
        lemma_square_le(r as int, 1_000_000);
    }
    let rr = r as i128 * r as i128;
    let qq = qx * qx + qy * qy;
    if dot <= 0 {
        qq <= rr
    } else if dot >= ss {
        let ex = c.x as i128 - b.x as i128;
        let ey = c.y as i128 - b.y as i128;
        proof {
            lemma_square_le(ex as int, 4_000_000);
            lemma_square_le(ey as int, 4_000_000);
        }
        ex * ex + ey * ey <= rr
    } else {
        proof {
            lemma_square_le(dot as int, 32_000_000_000_000);
            assert(qq * ss <= 32_000_000_000_000 * 32_000_000_000_000) by (nonlinear_arith)
                requires
                    0 <= qq <= 32_000_000_000_000,
                    0 <= ss <= 32_000_000_000_000,
            ;
            assert(rr * ss <= 1_000_000_000_000 * 32_000_000_000_000) by (nonlinear_arith)
                requires
                    0 <= rr <= 1_000_000_000_000,
                    0 <= ss <= 32_000_000_000_000,
            ;
        }
        qq * ss - dot * dot <= rr * ss
    }
}

} // verus!
