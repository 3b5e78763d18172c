use vstd::prelude::*;
use crate::geometry::{
    abs, clamp, clamp_coord, heading, in_world, lemma_heading_bounded, normalize_direction,
    Direction, Vec2, DIR_SCALE,
};

verus! {

/// Speed of a tofu, in world units per second.
pub const TOFU_SPEED: i64 = 400;

/// Largest speed of anything that moves, in world units per second.
pub const MAX_SPEED: i64 = 1_000_000;

/// The edges of the spawn band.
pub const TOFU_TOP_BOUNDARY: i64 = 2400;
pub const TOFU_LEFT_BOUNDARY: i64 = -3200;
pub const TOFU_RIGHT_BOUNDARY: i64 = 3200;

/// Spawn rolls are drawn from `[0, ROLL_RANGE)`.
pub const ROLL_RANGE: i64 = 1000;

/// Rolls above this spawn on the top edge.
pub const TOP_ROLL: i64 = 660;

/// Rolls above this (and not above `TOP_ROLL`) spawn on the left edge; the rest on the right.
pub const LEFT_ROLL: i64 = 330;

/// Milliseconds in a second.
pub const MS_PER_SECOND: i64 = 1000;

/// The three edges a tofu can appear on. The bottom edge is never used.
#[derive(Clone, Copy, Debug, PartialEq, Eq, Structural)]
pub enum Edge {
    Top,
    Left,
    Right,
}

/// A one-shot countdown, in milliseconds.
#[derive(Clone, Copy, Debug, PartialEq, Eq, Structural)]
pub struct Timer {
    pub elapsed_ms: u64,
    pub duration_ms: u64,
}

/// A homing enemy.
#[derive(Clone, Copy, Debug, PartialEq, Eq, Structural)]
pub struct Tofu {
    pub position: Vec2,
    pub direction: Direction,
    pub lifetime: Timer,
}

pub open spec fn edge_of(roll: int) -> Edge {
    if roll > TOP_ROLL {
        Edge::Top
    } else if roll > LEFT_ROLL {
        Edge::Left
    } else {
        Edge::Right
    }
}

/// Lowest coordinate drawn along an edge.
pub open spec fn edge_lo(e: Edge) -> int {
    match e {
        Edge::Top => TOFU_LEFT_BOUNDARY as int,
        _ => 0,
    }
}

/// One past the highest coordinate drawn along an edge.
pub open spec fn edge_hi(e: Edge) -> int {
    match e {
        Edge::Top => TOFU_RIGHT_BOUNDARY as int,
        _ => TOFU_TOP_BOUNDARY as int,
    }
}

/// The point at coordinate `t` along edge `e`.
pub open spec fn spawn_point(e: Edge, t: i64) -> Vec2 {
    match e {
        Edge::Top => Vec2 { x: t, y: TOFU_TOP_BOUNDARY },
        Edge::Left => Vec2 { x: TOFU_LEFT_BOUNDARY, y: t },
        Edge::Right => Vec2 { x: TOFU_RIGHT_BOUNDARY, y: t },
    }
}

/// `p` lies on the top, left or right edge of the spawn band.
pub open spec fn on_spawn_edge(p: Vec2) -> bool {
    ||| (p.y == TOFU_TOP_BOUNDARY && TOFU_LEFT_BOUNDARY <= p.x < TOFU_RIGHT_BOUNDARY)
    ||| (p.x == TOFU_LEFT_BOUNDARY && 0 <= p.y < TOFU_TOP_BOUNDARY)
    ||| (p.x == TOFU_RIGHT_BOUNDARY && 0 <= p.y < TOFU_TOP_BOUNDARY)
}

/// A fresh tofu: zero heading, nothing of its lifetime elapsed.
pub open spec fn new_tofu(p: Vec2, duration_ms: u64) -> Tofu {
    Tofu {
        position: p,
        direction: Direction { x: 0, y: 0 },
        lifetime: Timer { elapsed_ms: 0, duration_ms },
    }
}

/// `a / b` rounded toward zero, for `b > 0`.
pub open spec fn trunc_div(a: int, b: int) -> int {
    if a >= 0 {
        a / b
    } else {
        -((-a) / b)
    }
}

/// Where something at `p` ends up after moving along heading `d` at `speed`
/// units per second for `dt_ms` milliseconds, kept inside the world.
pub open spec fn moved(p: Vec2, d: Direction, speed: int, dt_ms: int) -> Vec2 {
    let div = DIR_SCALE * MS_PER_SECOND;
    Vec2 {
        x: clamp_coord(p.x + trunc_div(d.x * speed * dt_ms, div)) as i64,
        y: clamp_coord(p.y + trunc_div(d.y * speed * dt_ms, div)) as i64,
    }
}

/// A tofu after one tick of homing on `target`.
pub open spec fn homed(t: Tofu, target: Vec2, dt_ms: int) -> Tofu {
    let d = heading(target.x - t.position.x, target.y - t.position.y);
    Tofu { position: moved(t.position, d, TOFU_SPEED as int, dt_ms), direction: d, ..t }
}

/// The lifetime of `t` runs out within the next `dt_ms` milliseconds.
pub open spec fn expires(t: Tofu, dt_ms: int) -> bool {
    t.lifetime.elapsed_ms + dt_ms >= t.lifetime.duration_ms
}

/// `t` after `dt_ms` more milliseconds of its lifetime.
pub open spec fn aged(t: Tofu, dt_ms: int) -> Tofu {
    Tofu { lifetime: Timer { elapsed_ms: (t.lifetime.elapsed_ms + dt_ms) as u64, ..t.lifetime }, ..t }
}

/// The tofu of `s` that outlive the next `dt_ms` milliseconds, aged, in order.
pub open spec fn survivors(s: Seq<Tofu>, dt_ms: int) -> Seq<Tofu>
    decreases s.len(),
{
    if s.len() == 0 {
        Seq::empty()
    } else {
        let rest = survivors(s.drop_last(), dt_ms);
        if expires(s.last(), dt_ms) {
            rest
        } else {
            rest.push(aged(s.last(), dt_ms))
        }
    }
}

/// How many tofu of `s` run out within the next `dt_ms` milliseconds.
pub open spec fn expired_count(s: Seq<Tofu>, dt_ms: int) -> nat
    decreases s.len(),
{
    if s.len() == 0 {
        0
    } else {
        expired_count(s.drop_last(), dt_ms) + if expires(s.last(), dt_ms) { 1nat } else { 0 }
    }
}

/// A live tofu: inside the world, with lifetime left.
pub open spec fn tofu_ok(t: Tofu) -> bool {
    in_world(t.position) && t.lifetime.elapsed_ms < t.lifetime.duration_ms
}

/// The edge picked by a roll from `[0, ROLL_RANGE)`.
pub fn edge_for(roll: i64) -> (e: Edge)
    ensures
        e == edge_of(roll as int),
{
    if roll > TOP_ROLL {
        Edge::Top
    } else if roll > LEFT_ROLL {
        Edge::Left
    } else {
        Edge::Right
    }
}

/// The range `[lo, hi)` of coordinates drawn along an edge.
pub fn edge_range(e: Edge) -> (r: (i64, i64))
    ensures
        r.0 == edge_lo(e),
        r.1 == edge_hi(e),
        r.0 < r.1,
{
    match e {
        Edge::Top => (TOFU_LEFT_BOUNDARY, TOFU_RIGHT_BOUNDARY),
        _ => (0, TOFU_TOP_BOUNDARY),
    }
}

/// The point at coordinate `t` along edge `e`.
pub fn edge_point(e: Edge, t: i64) -> (p: Vec2)
    requires
        edge_lo(e) <= t < edge_hi(e),
    ensures
        p == spawn_point(e, t),
        on_spawn_edge(p),
        in_world(p),
{
    match e {
        Edge::Top => Vec2 { x: t, y: TOFU_TOP_BOUNDARY },
        Edge::Left => Vec2 { x: TOFU_LEFT_BOUNDARY, y: t },
        Edge::Right => Vec2 { x: TOFU_RIGHT_BOUNDARY, y: t },
    }
}

/// One component of a move: `c + d * speed * dt_ms / (DIR_SCALE * 1000)`, clamped to the world.
fn advance_coord(c: i64, d: i64, speed: i64, dt_ms: u64) -> (r: i64)
    requires
        abs(d as int) <= DIR_SCALE,
        0 <= speed <= MAX_SPEED,
    ensures
        r == clamp_coord(c + trunc_div(d * speed * dt_ms, DIR_SCALE * MS_PER_SECOND)),
{
    let ad: u128 = if d < 0 { (-(d as i128)) as u128 } else { d as u128 };
    assert(ad * (speed as u128) <= 1_000_000 * 1_000_000) by (nonlinear_arith)
        requires
            ad <= 1_000_000,
            0 <= speed <= 1_000_000,
    ;
    assert(ad * (speed as u128) * (dt_ms as u128) <= 1_000_000_000_000u128 * 0xffff_ffff_ffff_ffffu128)
        by (nonlinear_arith)
        requires
            ad * (speed as u128) <= 1_000_000_000_000,
            dt_ms <= 0xffff_ffff_ffff_ffffu64,
    ;
    let m: u128 = ad * (speed as u128) * (dt_ms as u128) / ((DIR_SCALE * MS_PER_SECOND) as u128);
    assert(m <= 1_000_000_000_000u128 * 0xffff_ffff_ffff_ffffu128);
    let off: i128 = if d < 0 { -(m as i128) } else { m as i128 };
    proof {
        if d < 0 {
            assert(-(d * speed * dt_ms) == ad * speed * dt_ms) by (nonlinear_arith)
                requires
                    ad == -d,
            ;
        } else {
            assert(d * speed * dt_ms == ad * speed * dt_ms) by (nonlinear_arith)
                requires
                    ad == d,
            ;
        }
    }
    clamp(c as i128 + off)
}

/// Moves `p` along heading `d` at `speed` units per second for `dt_ms` milliseconds.
pub fn advance(p: Vec2, d: Direction, speed: i64, dt_ms: u64) -> (r: Vec2)
    requires
        abs(d.x as int) <= DIR_SCALE,
        abs(d.y as int) <= DIR_SCALE,
        0 <= speed <= MAX_SPEED,
    ensures
        r == moved(p, d, speed as int, dt_ms as int),
        in_world(r),
{
    Vec2 { x: advance_coord(p.x, d.x, speed, dt_ms), y: advance_coord(p.y, d.y, speed, dt_ms) }
}

/// Points `t` at `target` and moves it one tick along that heading.
pub fn home_on(t: &mut Tofu, target: Vec2, dt_ms: u64)
    requires
        in_world(old(t).position),
        in_world(target),
    ensures
        *final(t) == homed(*old(t), target, dt_ms as int),
{
    let mut d = Direction { x: target.x - t.position.x, y: target.y - t.position.y };
    normalize_direction(&mut d);
    proof {
        lemma_heading_bounded(target.x - old(t).position.x, target.y - old(t).position.y);
    }
    t.direction = d;
    t.position = advance(t.position, d, TOFU_SPEED, dt_ms);
}

} // verus!
