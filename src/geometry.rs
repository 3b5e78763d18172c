use vstd::prelude::*;

verus! {

/// Headings are stored in millionths: a unit vector has length `DIR_SCALE`.
pub const DIR_SCALE: i64 = 1_000_000;

/// A heading's length stays within this many millionths of `DIR_SCALE`.
pub const HEADING_TOLERANCE: i64 = 10;

/// Every position in the world lies within this distance of the origin on each axis.
pub const WORLD_LIMIT: i64 = 1_000_000_000;

/// Side length of the square hit box of the player and of every tofu.
pub const BOX_SIZE: i64 = 64;

/// A point in the plane, in world units.
#[derive(Clone, Copy, Debug, PartialEq, Eq, Structural)]
pub struct Vec2 {
    pub x: i64,
    pub y: i64,
}

pub open spec fn abs(a: int) -> int {
    if a < 0 { -a } else { a }
}

pub open spec fn in_world(p: Vec2) -> bool {
    -WORLD_LIMIT <= p.x <= WORLD_LIMIT && -WORLD_LIMIT <= p.y <= WORLD_LIMIT
}

/// A coordinate clamped into the world.
pub open spec fn clamp_coord(c: int) -> int {
    if c < -WORLD_LIMIT {
        -WORLD_LIMIT as int
    } else if c > WORLD_LIMIT {
        WORLD_LIMIT as int
    } else {
        c
    }
}

/// Two boxes of side `BOX_SIZE` centred at `a` and `b` overlap on both axes.
/// Boxes that only touch along an edge do not overlap.
pub open spec fn boxes_overlap(a: Vec2, b: Vec2) -> bool {
    abs(a.x - b.x) < BOX_SIZE && abs(a.y - b.y) < BOX_SIZE
}

/// Axis-aligned hit test between two boxes of side `BOX_SIZE`.
pub fn collide(a: Vec2, b: Vec2) -> (r: bool)
    ensures
        r == boxes_overlap(a, b),
{
    let dx: i128 = a.x as i128 - b.x as i128;
    let dy: i128 = a.y as i128 - b.y as i128;
    let adx: i128 = if dx < 0 { -dx } else { dx };
    let ady: i128 = if dy < 0 { -dy } else { dy };
    adx < BOX_SIZE as i128 && ady < BOX_SIZE as i128
}

/// Clamps a coordinate into the world.
pub fn clamp(c: i128) -> (r: i64)
    ensures
        r == clamp_coord(c as int),
{
    if c < -(WORLD_LIMIT as i128) {
        -WORLD_LIMIT
    } else if c > WORLD_LIMIT as i128 {
        WORLD_LIMIT
    } else {
        c as i64
    }
}

pub open spec fn is_floor_sqrt(r: int, n: int) -> bool {
    0 <= r && r * r <= n && n < (r + 1) * (r + 1)
}

/// The largest natural number whose square does not exceed `n`.
pub open spec fn floor_sqrt(n: nat) -> nat {
    choose|r: nat| is_floor_sqrt(r as int, n as int)
}

proof fn lemma_floor_sqrt_unique(r: nat, n: nat)
    requires
        is_floor_sqrt(r as int, n as int),
    ensures
        floor_sqrt(n) == r,
{
    let s = floor_sqrt(n);
    assert(is_floor_sqrt(s as int, n as int));
    if s < r {
        assert((s + 1) * (s + 1) <= r * r) by (nonlinear_arith)
            requires
                s + 1 <= r,
        ;
    } else if r < s {
        assert((r + 1) * (r + 1) <= s * s) by (nonlinear_arith)
            requires
                r + 1 <= s,
        ;
    }
}

/// Integer square root, rounded down.
pub fn isqrt(n: u128) -> (r: u128)
    ensures
        r == floor_sqrt(n as nat),
        is_floor_sqrt(r as int, n as int),
{
    let mut lo: u128 = 0;
    let mut hi: u128 = 0x1_0000_0000_0000_0000;
    assert(hi * hi > n) by (nonlinear_arith)
        requires
            hi == 0x1_0000_0000_0000_0000u128,
            n <= u128::MAX,
    ;
    while hi - lo > 1
        invariant
            lo < hi <= 0x1_0000_0000_0000_0000u128,
            lo * lo <= n,
            n < hi * hi,
        decreases hi - lo,
    {
        let mid: u128 = lo + (hi - lo) / 2;
        assert(mid * mid <= (0x1_0000_0000_0000_0000u128 - 1) * (0x1_0000_0000_0000_0000u128 - 1))
            by (nonlinear_arith)
            requires
                mid < 0x1_0000_0000_0000_0000u128,
        ;
        if mid * mid <= n {
            lo = mid;
        } else {
            hi = mid;
        }
    }
    assert(hi == lo + 1);
    proof {
        lemma_floor_sqrt_unique(lo as nat, n as nat);
    }
    lo
}

/// A heading in millionths; `(0, 0)` when there is nowhere to go.
#[derive(Clone, Copy, Debug, PartialEq, Eq, Structural)]
pub struct Direction {
    pub x: i64,
    pub y: i64,
}

/// The length of `(dx, dy)` scaled up by `DIR_SCALE`, rounded down.
pub open spec fn heading_norm(dx: int, dy: int) -> nat {
    let ax = abs(dx) * DIR_SCALE;
    let ay = abs(dy) * DIR_SCALE;
    floor_sqrt((ax * ax + ay * ay) as nat)
}

/// One component of the heading of `(dx, dy)`: the component divided by the
/// length, scaled to millionths and rounded toward zero. A zero vector has
/// a zero heading, where a float version would need a guard against dividing by zero.
pub open spec fn heading_component(d: int, norm: nat) -> int {
    if norm == 0 {
        0
    } else if d >= 0 {
        (d * DIR_SCALE * DIR_SCALE) / (norm as int)
    } else {
        -(((-d) * DIR_SCALE * DIR_SCALE) / (norm as int))
    }
}

/// The heading of the vector `(dx, dy)`.
pub open spec fn heading(dx: int, dy: int) -> Direction {
    let n = heading_norm(dx, dy);
    Direction { x: heading_component(dx, n) as i64, y: heading_component(dy, n) as i64 }
}

/// Largest difference of two coordinates inside the world.
pub open spec fn raw_fits(d: Direction) -> bool {
    abs(d.x as int) <= 2 * WORLD_LIMIT && abs(d.y as int) <= 2 * WORLD_LIMIT
}

proof fn lemma_div_bounds(a: int, n: int)
    requires
        a >= 0,
        n > 0,
    ensures
        a / n >= 0,
        (a / n) * n <= a,
        a < (a / n + 1) * n,
{
    vstd::arithmetic::div_mod::lemma_fundamental_div_mod(a, n);
    vstd::arithmetic::div_mod::lemma_mod_pos_bound(a, n);
    vstd::arithmetic::div_mod::lemma_div_pos_is_pos(a, n);
    assert((a / n + 1) * n == (a / n) * n + n) by (nonlinear_arith);
    assert(n * (a / n) == (a / n) * n) by (nonlinear_arith);
}

proof fn lemma_sq_le(u: int, v: int)
    requires
        0 <= u <= v,
    ensures
        u * u <= v * v,
{
    assert(u * u <= v * v) by (nonlinear_arith)
        requires
            0 <= u <= v,
    ;
}

proof fn lemma_sq_lt(u: int, v: int)
    requires
        0 <= u < v,
    ensures
        u * u < v * v,
{
    assert(u * u < v * v) by (nonlinear_arith)
        requires
            0 <= u < v,
    ;
}

/// A coordinate whose square stays below the square of `n + 1` is at most `n`.
proof fn lemma_root_bound(a: int, n: int)
    requires
        a >= 0,
        n >= 0,
        a * a < (n + 1) * (n + 1),
    ensures
        a <= n,
{
    if a > n {
        lemma_sq_le(n + 1, a);
    }
}

/// Each component of a heading has magnitude at most `DIR_SCALE`.
pub proof fn lemma_heading_bounded(dx: int, dy: int)
    ensures
        abs(heading_component(dx, heading_norm(dx, dy))) <= DIR_SCALE,
        abs(heading_component(dy, heading_norm(dx, dy))) <= DIR_SCALE,
{
    let ax = abs(dx) * DIR_SCALE;
    let ay = abs(dy) * DIR_SCALE;
    let d = ax * ax + ay * ay;
    assert(ax * ax >= 0 && ay * ay >= 0) by (nonlinear_arith);
    let n = heading_norm(dx, dy);
    isqrt_witness(d as nat);
    if n > 0 {
        lemma_root_bound(ax, n as int);
        lemma_root_bound(ay, n as int);
        lemma_component_bounded(abs(dx), n as int);
        lemma_component_bounded(abs(dy), n as int);
    }
}

/// Rounding down `m * DIR_SCALE * DIR_SCALE / n` with `m * DIR_SCALE <= n` gives at most `DIR_SCALE`.
proof fn lemma_component_bounded(m: int, n: int)
    requires
        m >= 0,
        n > 0,
        m * DIR_SCALE <= n,
    ensures
        (m * DIR_SCALE * DIR_SCALE) / n <= DIR_SCALE,
{
    let a = m * DIR_SCALE * DIR_SCALE;
    lemma_div_bounds(a, n);
    let q = a / n;
    if q > DIR_SCALE {
        assert(q * n >= (DIR_SCALE + 1) * n) by (nonlinear_arith)
            requires
                q >= DIR_SCALE + 1,
                n > 0,
        ;
        assert(a <= n * DIR_SCALE) by (nonlinear_arith)
            requires
                a == m * DIR_SCALE * DIR_SCALE,
                m * DIR_SCALE <= n,
        ;
    }
}

/// Every natural number has a rounded-down square root.
proof fn isqrt_witness(n: nat) -> (r: nat)
    ensures
        is_floor_sqrt(r as int, n as int),
        floor_sqrt(n) == r,
    decreases n,
{
    if n == 0 {
        assert(is_floor_sqrt(0, 0));
        lemma_floor_sqrt_unique(0, 0);
        0
    } else {
        let p = isqrt_witness((n - 1) as nat);
        let r: nat = if (p + 1) * (p + 1) <= n { p + 1 } else { p };
        if r == p + 1 {
            assert((p + 1) * (p + 1) <= n);
            assert((p + 2) * (p + 2) > n) by (nonlinear_arith)
                requires
                    n - 1 < (p + 1) * (p + 1),
                    p >= 0,
            ;
        }
        lemma_floor_sqrt_unique(r, n);
        r
    }
}

/// A heading has unit length up to rounding: its squared length stays below
/// `(DIR_SCALE + 1)^2`, adding one unit of rounding to each component brings
/// it above `DIR_SCALE^2`, and so its length is within `HEADING_TOLERANCE`
/// millionths of one. The zero vector has the zero heading.
pub proof fn lemma_heading_unit(dx: int, dy: int)
    ensures
        ({
            let hx = heading_component(dx, heading_norm(dx, dy));
            let hy = heading_component(dy, heading_norm(dx, dy));
            &&& (dx == 0 && dy == 0) ==> hx == 0 && hy == 0
            &&& (dx != 0 || dy != 0) ==> hx * hx + hy * hy < (DIR_SCALE + 1) * (DIR_SCALE + 1)
            &&& (dx != 0 || dy != 0) ==> DIR_SCALE * DIR_SCALE < (abs(hx) + 1) * (abs(hx) + 1) + (
            abs(hy) + 1) * (abs(hy) + 1)
            &&& (dx != 0 || dy != 0) ==> (DIR_SCALE - HEADING_TOLERANCE) * (DIR_SCALE - HEADING_TOLERANCE)
                <= hx * hx + hy * hy <= (DIR_SCALE + HEADING_TOLERANCE) * (DIR_SCALE + HEADING_TOLERANCE)
        }),
{
    let s = DIR_SCALE as int;
    let ax = abs(dx) * s;
    let ay = abs(dy) * s;
    let d = ax * ax + ay * ay;
    assert(ax * ax >= 0 && ay * ay >= 0) by (nonlinear_arith);
    let n = heading_norm(dx, dy) as int;
    isqrt_witness(d as nat);
    if dx == 0 && dy == 0 {
        assert(d == 0);
        assert(n == 0) by (nonlinear_arith)
            requires
                n * n <= d,
                d == 0,
                n >= 0,
        ;
    } else {
        // the norm is at least DIR_SCALE, since one component is
        if dx != 0 {
            assert(ax >= s);
            lemma_sq_le(s, ax);
            if n < s {
                lemma_sq_le(n + 1, s);
            }
        } else {
            assert(ay >= s);
            lemma_sq_le(s, ay);
            if n < s {
                lemma_sq_le(n + 1, s);
            }
        }
        assert(n >= s);
        let qx = (ax * s) / n;
        let qy = (ay * s) / n;
        assert(ax * s == abs(dx) * s * s) by (nonlinear_arith)
            requires
                ax == abs(dx) * s,
        ;
        assert(ay * s == abs(dy) * s * s) by (nonlinear_arith)
            requires
                ay == abs(dy) * s,
        ;
        let hx = heading_component(dx, n as nat);
        let hy = heading_component(dy, n as nat);
        assert(abs(hx) == qx && abs(hy) == qy) by {
            lemma_div_bounds(ax * s, n);
            lemma_div_bounds(ay * s, n);
        }
        assert(hx * hx == qx * qx && hy * hy == qy * qy) by (nonlinear_arith)
            requires
                abs(hx) == qx,
                abs(hy) == qy,
        ;
        lemma_div_bounds(ax * s, n);
        lemma_div_bounds(ay * s, n);
        // upper bound
        lemma_sq_le(qx * n, ax * s);
        lemma_sq_le(qy * n, ay * s);
        assert((qx * qx + qy * qy) * (n * n) == (qx * n) * (qx * n) + (qy * n) * (qy * n))
            by (nonlinear_arith);
        assert((ax * s) * (ax * s) + (ay * s) * (ay * s) == d * (s * s)) by (nonlinear_arith)
            requires
                d == ax * ax + ay * ay,
        ;
        assert(d * (s * s) < (n + 1) * (n + 1) * (s * s)) by (nonlinear_arith)
            requires
                d < (n + 1) * (n + 1),
                s > 0,
        ;
        lemma_sq_le((n + 1) * s, n * (s + 1));
        assert((n + 1) * (n + 1) * (s * s) == ((n + 1) * s) * ((n + 1) * s)) by (nonlinear_arith);
        assert((n * (s + 1)) * (n * (s + 1)) == ((s + 1) * (s + 1)) * (n * n))
            by (nonlinear_arith);
        let m = qx * qx + qy * qy;
        assert(m < (s + 1) * (s + 1)) by (nonlinear_arith)
            requires
                m * (n * n) < ((s + 1) * (s + 1)) * (n * n),
                n > 0,
        ;
        // lower bound
        lemma_sq_lt(ax * s, (qx + 1) * n);
        lemma_sq_lt(ay * s, (qy + 1) * n);
        let l = (qx + 1) * (qx + 1) + (qy + 1) * (qy + 1);
        assert(l * (n * n) == ((qx + 1) * n) * ((qx + 1) * n) + ((qy + 1) * n) * ((qy + 1) * n))
            by (nonlinear_arith)
            requires
                l == (qx + 1) * (qx + 1) + (qy + 1) * (qy + 1),
        ;
        assert(d * (s * s) >= (n * n) * (s * s)) by (nonlinear_arith)
            requires
                n * n <= d,
                s > 0,
        ;
        assert(l > s * s) by (nonlinear_arith)
            requires
                l * (n * n) > (n * n) * (s * s),
                n > 0,
        ;
        // each component is at most DIR_SCALE, so the rounding adds little
        lemma_heading_bounded(dx, dy);
        assert(qx <= s && qy <= s && qx >= 0 && qy >= 0);
        assert(l == m + 2 * qx + 2 * qy + 2) by (nonlinear_arith)
            requires
                l == (qx + 1) * (qx + 1) + (qy + 1) * (qy + 1),
                m == qx * qx + qy * qy,
        ;
        let t = HEADING_TOLERANCE as int;
        assert((s - t) * (s - t) <= m) by (nonlinear_arith)
            requires
                m + 2 * qx + 2 * qy + 2 > s * s,
                qx <= s,
                qy <= s,
                s == 1_000_000,
                t == 10,
        ;
        assert(m <= (s + t) * (s + t)) by (nonlinear_arith)
            requires
                m < (s + 1) * (s + 1),
                s == 1_000_000,
                t == 10,
        ;
    }
}

/// Replaces the raw vector held in `direction` by its heading.
pub fn normalize_direction(direction: &mut Direction)
    requires
        raw_fits(*old(direction)),
    ensures
        *final(direction) == heading(old(direction).x as int, old(direction).y as int),
{
    let dx = direction.x;
    let dy = direction.y;
    let ax: u128 = (if dx < 0 { -(dx as i128) } else { dx as i128 }) as u128 * DIR_SCALE as u128;
    let ay: u128 = (if dy < 0 { -(dy as i128) } else { dy as i128 }) as u128 * DIR_SCALE as u128;
    assert(ax * ax <= 2_000_000_000_000_000u128 * 2_000_000_000_000_000u128) by (nonlinear_arith)
        requires
            ax <= 2_000_000_000_000_000u128,
    ;
    assert(ay * ay <= 2_000_000_000_000_000u128 * 2_000_000_000_000_000u128) by (nonlinear_arith)
        requires
            ay <= 2_000_000_000_000_000u128,
    ;
    let n = isqrt(ax * ax + ay * ay);
    proof {
        lemma_heading_bounded(dx as int, dy as int);
    }
    if n == 0 {
        direction.x = 0;
        direction.y = 0;
    } else {
        let qx: u128 = ax * DIR_SCALE as u128 / n;
        let qy: u128 = ay * DIR_SCALE as u128 / n;
        direction.x = if dx < 0 { -(qx as i64) } else { qx as i64 };
        direction.y = if dy < 0 { -(qy as i64) } else { qy as i64 };
    }
}

} // verus!
