use vstd::prelude::*;
use crate::game::{
    affordable, buy_step, collision_step, fresh_player, frame_events, hit, lifetime_step,
    restart_step, spawn_due, spawn_player_step, spawn_step, valid_draw, world_ok, AppState, Keys,
    WorldView,
};
use crate::geometry::{
    abs, lemma_heading_bounded, lemma_heading_unit, Direction, Vec2, DIR_SCALE, HEADING_TOLERANCE,
};
use crate::tofu::{homed, aged, expired_count, expires, on_spawn_edge, survivors, Tofu};

verus! {

/// A timed spawn that is due, with room left, adds exactly one tofu: it stands
/// on the top, left or right edge, has a zero heading and a fresh lifetime,
/// and the spawn clock starts over.
pub proof fn lemma_timed_spawn(v: WorldView, dt_ms: int, roll: int, coord: i64)
    requires
        world_ok(v),
        v.state == AppState::InGame,
        dt_ms >= 0,
        v.tofus.len() < v.rules.max_tofu_count,
        spawn_due(v, dt_ms),
        valid_draw(roll, coord),
    ensures
        ({
            let w = spawn_step(v, dt_ms, roll, coord);
            let t = w.tofus.last();
            &&& w.tofus.len() == v.tofus.len() + 1
            &&& on_spawn_edge(t.position)
            &&& t.direction == Direction { x: 0, y: 0 }
            &&& t.lifetime.elapsed_ms == 0
            &&& t.lifetime.duration_ms == v.rules.tofu_lifetime_ms
            &&& w.time_since_ms == 0
        }),
{
}

/// A bought spawn takes exactly the cost from the counter and adds one tofu;
/// a declined one changes nothing.
pub proof fn lemma_spend(v: WorldView, roll: int, coord: i64)
    ensures
        affordable(v) ==> buy_step(v, roll, coord).money == v.money - v.rules.spend_cost
            && buy_step(v, roll, coord).tofus.len() == v.tofus.len() + 1,
        !affordable(v) ==> buy_step(v, roll, coord) == v,
{
}

/// Every tofu whose lifetime runs out is removed and pays the reward once:
/// the survivors and the payouts add up to the tofu there were, no survivor
/// has reached its duration, and the counter grows by the reward per payout.
pub proof fn lemma_rewards_match_removals(v: WorldView, dt_ms: int)
    requires
        dt_ms >= 0,
    ensures
        survivors(v.tofus, dt_ms).len() + expired_count(v.tofus, dt_ms) == v.tofus.len(),
        forall|j: int|
            0 <= j < survivors(v.tofus, dt_ms).len() ==> #[trigger] survivors(v.tofus, dt_ms)[j].lifetime.elapsed_ms
                < survivors(v.tofus, dt_ms)[j].lifetime.duration_ms,
        lifetime_step(v, dt_ms).money == v.money + v.rules.reward * expired_count(v.tofus, dt_ms),
        lifetime_step(v, dt_ms).tofus == survivors(v.tofus, dt_ms),
{
    lemma_survivors(v.tofus, dt_ms);
}

proof fn lemma_survivors(s: Seq<Tofu>, dt_ms: int)
    requires
        dt_ms >= 0,
    ensures
        survivors(s, dt_ms).len() + expired_count(s, dt_ms) == s.len(),
        forall|j: int|
            0 <= j < survivors(s, dt_ms).len() ==> #[trigger] survivors(s, dt_ms)[j].lifetime.elapsed_ms
                < survivors(s, dt_ms)[j].lifetime.duration_ms,
    decreases s.len(),
{
    if s.len() > 0 {
        lemma_survivors(s.drop_last(), dt_ms);
        let rest = survivors(s.drop_last(), dt_ms);
        if !expires(s.last(), dt_ms) {
            let a = aged(s.last(), dt_ms);
            assert forall|j: int| 0 <= j < rest.push(a).len() implies #[trigger] rest.push(a)[j].lifetime.elapsed_ms
                < rest.push(a)[j].lifetime.duration_ms by {
                if j < rest.len() {
                    assert(rest.push(a)[j] == rest[j]);
                }
            }
        }
    }
}

/// The game's states: a start press creates the player and begins play; a
/// hit ends play, removes the player, and signals the end only once, since the
/// next frame no longer checks for hits; a start press after the end clears
/// the tofu, the counter and the spawn clock and waits for a new start.
pub proof fn lemma_state_machine(v: WorldView, k: Keys, dt_ms: int, roll: int, coord: i64)
    requires
        world_ok(v),
    ensures
        v.state == AppState::GameStart ==> v.player.is_none() && spawn_player_step(v, true).state
            == AppState::InGame && spawn_player_step(v, true).player == Some(fresh_player()),
        v.state == AppState::InGame && hit(v) ==> collision_step(v).state == AppState::GameOver
            && collision_step(v).player.is_none() && !frame_events(
            collision_step(v),
            k,
            dt_ms,
            roll,
            coord,
        ).game_over,
        v.state == AppState::GameOver ==> {
            let w = restart_step(v, true);
            &&& w.state == AppState::GameStart
            &&& w.money == 0
            &&& w.time_since_ms == 0
            &&& w.tofus.len() == 0
        },
{
}

/// Clearing the tofu after the game is over, with none left and no start
/// press, changes nothing.
pub proof fn lemma_cleanup_idle(v: WorldView)
    requires
        world_ok(v),
        v.state == AppState::GameOver,
        v.tofus.len() == 0,
    ensures
        restart_step(v, false) == v,
{
    assert(restart_step(v, false).tofus =~= v.tofus);
}

/// After homing, a tofu's heading has unit length up to rounding, within
/// `HEADING_TOLERANCE` millionths, except when it sits exactly on its target,
/// where the heading is zero.
pub proof fn lemma_homing_unit(t: Tofu, target: Vec2, dt_ms: int)
    ensures
        ({
            let d = homed(t, target, dt_ms).direction;
            &&& target == t.position ==> d == Direction { x: 0, y: 0 }
            &&& target != t.position ==> d.x * d.x + d.y * d.y < (DIR_SCALE + 1) * (DIR_SCALE + 1)
            &&& target != t.position ==> DIR_SCALE * DIR_SCALE < (abs(d.x as int) + 1) * (abs(d.x as int) + 1)
                + (abs(d.y as int) + 1) * (abs(d.y as int) + 1)
            &&& target != t.position ==> (DIR_SCALE - HEADING_TOLERANCE) * (DIR_SCALE - HEADING_TOLERANCE)
                <= d.x * d.x + d.y * d.y <= (DIR_SCALE + HEADING_TOLERANCE) * (DIR_SCALE
                + HEADING_TOLERANCE)
        }),
{
    let dx = target.x - t.position.x;
    let dy = target.y - t.position.y;
    lemma_heading_bounded(dx, dy);
    lemma_heading_unit(dx, dy);
}

} // verus!
