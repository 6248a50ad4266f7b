use vstd::prelude::*;

verus! {

/// Largest magnitude of a vector component that `scale_to` accepts.
pub const COMPONENT_LIMIT: i64 = 0x100_0000_0000;

/// Factor by which `scale_to` enlarges a vector before measuring it, so that the
/// rounding of its length costs at most a millionth of the result.
pub const PRECISION: i64 = 0x10_0000;

/// A point on the plane, in thousandths of a pixel.
#[derive(Clone, Copy, Debug, PartialEq, Eq, Structural)]
pub struct Pos {
    pub x: i32,
    pub y: i32,
}

/// A velocity, in thousandths of a pixel per second.
#[derive(Clone, Copy, Debug, PartialEq, Eq, Structural)]
pub struct Vel {
    pub x: i64,
    pub y: i64,
}

/// `r` is the integer square root of `n`: the largest `r` with `r * r <= n`.
pub open spec fn is_isqrt(n: int, r: int) -> bool {
    0 <= r && r * r <= n && n < (r + 1) * (r + 1)
}

/// `a / d` rounded toward zero, as Rust's integer division rounds.
pub open spec fn div_trunc(a: int, d: int) -> int {
    if a >= 0 {
        a / d
    } else {
        -((-a) / d)
    }
}

pub open spec fn clamp(v: int, lo: int, hi: int) -> int {
    if v < lo {
        lo
    } else if v > hi {
        hi
    } else {
        v
    }
}

pub open spec fn abs(v: int) -> int {
    if v < 0 {
        -v
    } else {
        v
    }
}

/// Length of the vector `(dx, dy)`, rounded down.
pub open spec fn length_of(dx: int, dy: int) -> int
    recommends
        dx * dx + dy * dy >= 0,
{
    choose|r: int| #[trigger] is_isqrt(dx * dx + dy * dy, r)
}

/// The vector `(dx, dy)` turned to length `magnitude`, each component rounded toward
/// zero; the zero vector stays zero. The length is measured on the vector enlarged
/// by `PRECISION`.
pub open spec fn scaled_to(dx: int, dy: int, magnitude: int) -> (int, int) {
    if dx == 0 && dy == 0 {
        (0, 0)
    } else {
        let (x, y) = (dx * PRECISION, dy * PRECISION);
        let len = length_of(x, y);
        (div_trunc(x * magnitude, len), div_trunc(y * magnitude, len))
    }
}

/// Integer square root by bisection.
pub fn isqrt(n: u128) -> (r: u64)
    requires
        n < 0x4000_0000_0000_0000_0000_0000_0000_0000,
    ensures
        is_isqrt(n as int, r as int),
{
    let mut lo: u128 = 0;
    let mut hi: u128 = 0x8000_0000_0000_0000;
    assert(hi * hi == 0x4000_0000_0000_0000_0000_0000_0000_0000);
    while hi - lo > 1
        invariant
            lo < hi <= 0x8000_0000_0000_0000,
            lo * lo <= n < hi * hi,
        decreases hi - lo,
    {
        let mid: u128 = lo + (hi - lo) / 2;
        assert(mid * mid <= 0x8000_0000_0000_0000 * 0x8000_0000_0000_0000) by (nonlinear_arith)
            requires
                mid < 0x8000_0000_0000_0000,
        ;
        if mid * mid <= n {
            lo = mid;
        } else {
            hi = mid;
        }
    }
    assert(hi == lo + 1);
    lo as u64
}

proof fn lemma_component_within_length(d: int, e: int, len: int)
    requires
        is_isqrt(d * d + e * e, len),
    ensures
        abs(d) <= len,
{
    assert(d * d == abs(d) * abs(d)) by (nonlinear_arith);
    assert(e * e >= 0) by (nonlinear_arith);
    if abs(d) > len {
        assert((len + 1) * (len + 1) <= abs(d) * abs(d)) by (nonlinear_arith)
            requires
                abs(d) >= len + 1,
                len >= 0,
        ;
    }
}

proof fn lemma_abs_mul(d: int, m: int)
    ensures
        abs(d * m) == abs(d) * abs(m),
{
    if d >= 0 && m >= 0 {
        assert(d * m >= 0) by (nonlinear_arith)
            requires
                d >= 0,
                m >= 0,
        ;
    } else if d >= 0 {
        assert(d * m <= 0 && -(d * m) == d * (-m)) by (nonlinear_arith)
            requires
                d >= 0,
                m < 0,
        ;
    } else if m >= 0 {
        assert(d * m <= 0 && -(d * m) == (-d) * m) by (nonlinear_arith)
            requires
                d < 0,
                m >= 0,
        ;
    } else {
        assert(d * m > 0 && d * m == (-d) * (-m)) by (nonlinear_arith)
            requires
                d < 0,
                m < 0,
        ;
    }
}

proof fn lemma_scaled_component(d: int, m: int, len: int)
    requires
        abs(d) <= len,
        len > 0,
    ensures
        abs(div_trunc(d * m, len)) <= abs(m),
{
    let p = abs(d * m);
    let am = abs(m);
    let ad = abs(d);
    lemma_abs_mul(d, m);
    assert(p <= len * am) by (nonlinear_arith)
        requires
            p == ad * am,
            ad <= len,
            am >= 0,
    ;
    assert(p / len <= am) by (nonlinear_arith)
        requires
            p <= len * am,
            len > 0,
            p >= 0,
    ;
    assert(abs(div_trunc(d * m, len)) == p / len);
}

/// Turns `(dx, dy)` to length `magnitude`; the zero vector stays zero, so that a
/// pursuer on top of its target gets no velocity rather than a division by zero.
pub fn scale_to(dx: i64, dy: i64, magnitude: i64) -> (r: Vel)
    requires
        -COMPONENT_LIMIT <= dx <= COMPONENT_LIMIT,
        -COMPONENT_LIMIT <= dy <= COMPONENT_LIMIT,
        -COMPONENT_LIMIT <= magnitude <= COMPONENT_LIMIT,
    ensures
        (r.x as int, r.y as int) == scaled_to(dx as int, dy as int, magnitude as int),
        abs(r.x as int) <= abs(magnitude as int),
        abs(r.y as int) <= abs(magnitude as int),
{
    if dx == 0 && dy == 0 {
        return Vel { x: 0, y: 0 };
    }
    let sx: i128 = dx as i128 * PRECISION as i128;
    let sy: i128 = dy as i128 * PRECISION as i128;
    let ghost (x, y) = (dx * PRECISION, dy * PRECISION);
    assert(-0x1000_0000_0000_0000 <= sx <= 0x1000_0000_0000_0000 && -0x1000_0000_0000_0000 <= sy
        <= 0x1000_0000_0000_0000) by (nonlinear_arith)
        requires
            -0x100_0000_0000 <= dx <= 0x100_0000_0000,
            -0x100_0000_0000 <= dy <= 0x100_0000_0000,
            sx == dx * 0x10_0000,
            sy == dy * 0x10_0000,
    ;
    assert(sx * sx <= 0x1000_0000_0000_0000 * 0x1000_0000_0000_0000) by (nonlinear_arith)
        requires
            -0x1000_0000_0000_0000 <= sx <= 0x1000_0000_0000_0000,
    ;
    assert(sy * sy <= 0x1000_0000_0000_0000 * 0x1000_0000_0000_0000) by (nonlinear_arith)
        requires
            -0x1000_0000_0000_0000 <= sy <= 0x1000_0000_0000_0000,
    ;
    assert(sx * sx >= 0 && sy * sy >= 0) by (nonlinear_arith);
    let n: u128 = (sx * sx + sy * sy) as u128;
    let len = isqrt(n);
    proof {
        assert(n as int == x * x + y * y);
        assert(is_isqrt(x * x + y * y, len as int));
        assert(length_of(x, y) == len as int) by {
            let c = length_of(x, y);
            assert(is_isqrt(x * x + y * y, c));
            lemma_isqrt_unique(x * x + y * y, c, len as int);
        }
        if len == 0 {
            let l = len as int;
            let q = x * x + y * y;
            assert(q < (l + 1) * (l + 1));
            assert(q < 1) by (nonlinear_arith)
                requires
                    q < (l + 1) * (l + 1),
                    l == 0,
            ;
            assert(x * x >= 0 && y * y >= 0) by (nonlinear_arith);
            assert(x == 0 && y == 0) by (nonlinear_arith)
                requires
                    x * x + y * y < 1,
                    x * x >= 0,
                    y * y >= 0,
            ;
            assert(dx == 0 && dy == 0);
        }
        lemma_component_within_length(x, y, len as int);
        lemma_component_within_length(y, x, len as int);
        lemma_scaled_component(x, magnitude as int, len as int);
        lemma_scaled_component(y, magnitude as int, len as int);
    }
    let m: i128 = magnitude as i128;
    assert(-0x1000_0000_0000_0000 * 0x100_0000_0000 <= sx * m <= 0x1000_0000_0000_0000
        * 0x100_0000_0000 && -0x1000_0000_0000_0000 * 0x100_0000_0000 <= sy * m
        <= 0x1000_0000_0000_0000 * 0x100_0000_0000) by (nonlinear_arith)
        requires
            -0x1000_0000_0000_0000 <= sx <= 0x1000_0000_0000_0000,
            -0x1000_0000_0000_0000 <= sy <= 0x1000_0000_0000_0000,
            -0x100_0000_0000 <= m <= 0x100_0000_0000,
    ;
    let x: i64 = div_toward_zero(sx * m, len as i128) as i64;
    let y: i64 = div_toward_zero(sy * m, len as i128) as i64;
    Vel { x, y }
}

proof fn lemma_isqrt_unique(n: int, a: int, b: int)
    requires
        is_isqrt(n, a),
        is_isqrt(n, b),
    ensures
        a == b,
{
    if a < b {
        assert((a + 1) * (a + 1) <= b * b) by (nonlinear_arith)
            requires
                a + 1 <= b,
                a >= 0,
        ;
    } else if b < a {
        assert((b + 1) * (b + 1) <= a * a) by (nonlinear_arith)
            requires
                b + 1 <= a,
                b >= 0,
        ;
    }
}

/// Integer division rounding toward zero.
pub fn div_toward_zero(a: i128, d: i128) -> (r: i128)
    requires
        d > 0,
        a > i128::MIN,
    ensures
        r as int == div_trunc(a as int, d as int),
{
    if a >= 0 {
        ((a as u128) / (d as u128)) as i128
    } else {
        let q: u128 = ((-a) as u128) / (d as u128);
        assert(q <= (-a) as u128) by (nonlinear_arith)
            requires
                q == ((-a) as u128) / (d as u128),
                d > 0,
        ;
        -(q as i128)
    }
}

/// Squared distance between two points.
pub open spec fn distance_sq(a: Pos, b: Pos) -> int {
    (a.x - b.x) * (a.x - b.x) + (a.y - b.y) * (a.y - b.y)
}

/// Whether `a` lies farther than `range` from `b`.
pub fn farther_than(a: Pos, b: Pos, range: i32) -> (r: bool)
    ensures
        r == (range < 0 || distance_sq(a, b) > range * range),
{
    if range < 0 {
        return true;
    }
    let dx: i128 = a.x as i128 - b.x as i128;
    let dy: i128 = a.y as i128 - b.y as i128;
    assert(dx * dx <= 0x1_0000_0000 * 0x1_0000_0000 && dy * dy <= 0x1_0000_0000 * 0x1_0000_0000)
        by (nonlinear_arith)
        requires
            -0x1_0000_0000 <= dx <= 0x1_0000_0000,
            -0x1_0000_0000 <= dy <= 0x1_0000_0000,
    ;
    assert(dx * dx >= 0 && dy * dy >= 0) by (nonlinear_arith);
    let r: i128 = range as i128;
    assert(0 <= r * r <= 0x1_0000_0000 * 0x1_0000_0000) by (nonlinear_arith)
        requires
            0 <= r <= 0x1_0000_0000,
    ;
    dx * dx + dy * dy > r * r
}

} // verus!
