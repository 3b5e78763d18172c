use vstd::prelude::*;
use crate::geometry::{boxes_overlap, collide, in_world, Direction, Vec2, DIR_SCALE};
use crate::rng::Rng;
use crate::tofu::{
    advance, edge_for, edge_hi, edge_lo, edge_of, edge_point, edge_range, expired_count,
    home_on, homed, moved, new_tofu, on_spawn_edge, spawn_point, survivors, tofu_ok, Tofu,
    Timer, MAX_SPEED, ROLL_RANGE,
};

verus! {

/// Largest reward or spawn cost a rule set may name.
pub const MAX_AMOUNT: i64 = 1_000_000_000;

/// Speed of a freshly spawned player, in world units per second.
pub const PLAYER_SPEED: i64 = 500;

/// Which systems run on a frame.
#[derive(Clone, Copy, Debug, PartialEq, Eq, Structural)]
pub enum AppState {
    GameStart,
    InGame,
    GameOver,
}

/// Kept on the player; no system reads or changes it.
#[derive(Clone, Copy, Debug, PartialEq, Eq, Structural)]
pub struct Health {
    pub max: i64,
    pub current: i64,
}

#[derive(Clone, Copy, Debug, PartialEq, Eq, Structural)]
pub struct Player {
    pub position: Vec2,
    pub speed: i64,
    pub health: Health,
}

/// The currency counter, in whole coins.
#[derive(Clone, Copy, Debug, PartialEq, Eq, Structural)]
pub struct Money(pub i64);

/// The tunable numbers of a game.
#[derive(Clone, Copy, Debug, PartialEq, Eq, Structural)]
pub struct Rules {
    /// Time that must gather between two timed spawns.
    pub spawn_interval_ms: u64,
    /// No timed spawn happens while this many tofu are alive.
    pub max_tofu_count: usize,
    /// How long a tofu lives before it pays out.
    pub tofu_lifetime_ms: u64,
    /// Paid when a tofu's lifetime runs out.
    pub reward: i64,
    /// Price of a bought spawn.
    pub spend_cost: i64,
}

/// Which keys are held on a frame.
#[derive(Clone, Copy, Debug, PartialEq, Eq, Structural)]
pub struct Keys {
    pub start: bool,
    pub up: bool,
    pub down: bool,
    pub left: bool,
    pub right: bool,
}

/// Everything the simulation owns.
pub struct World {
    pub state: AppState,
    pub player: Option<Player>,
    pub tofus: Vec<Tofu>,
    pub money: Money,
    /// Time gathered toward the next timed spawn.
    pub time_since_ms: u64,
    pub rules: Rules,
}

pub ghost struct WorldView {
    pub state: AppState,
    pub player: Option<Player>,
    pub tofus: Seq<Tofu>,
    pub money: int,
    pub time_since_ms: int,
    pub rules: Rules,
}

impl View for World {
    type V = WorldView;

    open spec fn view(&self) -> WorldView {
        WorldView {
            state: self.state,
            player: self.player,
            tofus: self.tofus@,
            money: self.money.0 as int,
            time_since_ms: self.time_since_ms as int,
            rules: self.rules,
        }
    }
}

pub open spec fn rules_ok(r: Rules) -> bool {
    &&& r.spawn_interval_ms > 0
    &&& r.tofu_lifetime_ms > 0
    &&& 0 <= r.reward <= MAX_AMOUNT
    &&& 0 <= r.spend_cost <= MAX_AMOUNT
}

pub open spec fn player_ok(p: Player) -> bool {
    in_world(p.position) && 0 <= p.speed <= MAX_SPEED
}

/// The invariant of a world between frames.
pub open spec fn world_ok(v: WorldView) -> bool {
    &&& rules_ok(v.rules)
    &&& (v.state == AppState::InGame) == v.player.is_some()
    &&& v.player.is_some() ==> player_ok(v.player.unwrap())
    &&& v.state == AppState::GameStart ==> v.tofus.len() == 0
    &&& 0 <= v.time_since_ms < v.rules.spawn_interval_ms
    &&& forall|i: int| 0 <= i < v.tofus.len() ==> #[trigger] tofu_ok(v.tofus[i])
}

/// Paying every live tofu, and `extra` more, keeps the counter within `i64`.
pub open spec fn room_for_rewards(v: WorldView, extra: nat) -> bool {
    v.money + (v.tofus.len() + extra) * v.rules.reward <= i64::MAX
}

pub open spec fn fresh_player() -> Player {
    Player {
        position: Vec2 { x: 0, y: 0 },
        speed: PLAYER_SPEED,
        health: Health { max: 10, current: 2 },
    }
}

pub open spec fn spawn_player_step(v: WorldView, start_held: bool) -> WorldView {
    if start_held {
        WorldView { state: AppState::InGame, player: Some(fresh_player()), ..v }
    } else {
        v
    }
}

/// `DIR_SCALE` toward the positive key, less `DIR_SCALE` toward the negative one.
pub open spec fn key_axis(pos: bool, neg: bool) -> int {
    (if pos { DIR_SCALE as int } else { 0 }) - (if neg { DIR_SCALE as int } else { 0 })
}

pub open spec fn key_direction(k: Keys) -> Direction {
    Direction { x: key_axis(k.right, k.left) as i64, y: key_axis(k.up, k.down) as i64 }
}

pub open spec fn movement_step(v: WorldView, k: Keys, dt_ms: int) -> WorldView {
    let p = v.player.unwrap();
    WorldView {
        player: Some(Player { position: moved(p.position, key_direction(k), p.speed as int, dt_ms), ..p }),
        ..v
    }
}

/// Some tofu overlaps the player.
pub open spec fn hit(v: WorldView) -> bool {
    exists|i: int|
        0 <= i < v.tofus.len() && boxes_overlap(v.player.unwrap().position, #[trigger] v.tofus[i].position)
}

pub open spec fn collision_step(v: WorldView) -> WorldView {
    if hit(v) {
        WorldView { state: AppState::GameOver, player: None, ..v }
    } else {
        v
    }
}

pub open spec fn all_homed(s: Seq<Tofu>, target: Vec2, dt_ms: int) -> Seq<Tofu> {
    Seq::new(s.len(), |i: int| homed(s[i], target, dt_ms))
}

/// Time gathered toward a spawn reaches the interval this tick.
pub open spec fn spawn_due(v: WorldView, dt_ms: int) -> bool {
    v.time_since_ms + dt_ms >= v.rules.spawn_interval_ms
}

/// Homing of every tofu and the spawn clock, before any spawn.
pub open spec fn home_step(v: WorldView, dt_ms: int) -> WorldView {
    WorldView {
        tofus: all_homed(v.tofus, v.player.unwrap().position, dt_ms),
        time_since_ms: if spawn_due(v, dt_ms) { 0 } else { v.time_since_ms + dt_ms },
        ..v
    }
}

pub open spec fn place_step(v: WorldView, roll: int, coord: i64) -> WorldView {
    WorldView {
        tofus: v.tofus.push(new_tofu(spawn_point(edge_of(roll), coord), v.rules.tofu_lifetime_ms)),
        ..v
    }
}

/// A timed spawn happens this tick.
pub open spec fn spawns(v: WorldView, dt_ms: int) -> bool {
    spawn_due(v, dt_ms) && v.tofus.len() < v.rules.max_tofu_count
}

pub open spec fn spawn_step(v: WorldView, dt_ms: int, roll: int, coord: i64) -> WorldView {
    let h = home_step(v, dt_ms);
    if spawns(v, dt_ms) {
        place_step(h, roll, coord)
    } else {
        h
    }
}

/// `roll` and `coord` are draws that the spawner can make.
pub open spec fn valid_draw(roll: int, coord: i64) -> bool {
    0 <= roll < ROLL_RANGE && edge_lo(edge_of(roll)) <= coord < edge_hi(edge_of(roll))
}

pub open spec fn lifetime_step(v: WorldView, dt_ms: int) -> WorldView {
    WorldView {
        tofus: survivors(v.tofus, dt_ms),
        money: v.money + v.rules.reward * expired_count(v.tofus, dt_ms),
        ..v
    }
}

pub open spec fn restart_step(v: WorldView, start_held: bool) -> WorldView {
    if start_held {
        WorldView {
            state: AppState::GameStart,
            tofus: Seq::empty(),
            money: 0,
            time_since_ms: 0,
            ..v
        }
    } else {
        WorldView { tofus: Seq::empty(), ..v }
    }
}

pub open spec fn digit_char(d: int) -> char {
    if d == 0 { '0' } else if d == 1 { '1' } else if d == 2 { '2' } else if d == 3 { '3' }
    else if d == 4 { '4' } else if d == 5 { '5' } else if d == 6 { '6' } else if d == 7 { '7' }
    else if d == 8 { '8' } else { '9' }
}

/// The decimal digits of `n`, most significant first, with no leading zeros.
pub open spec fn digits(n: nat) -> Seq<char>
    decreases n,
{
    if n < 10 {
        seq![digit_char(n as int)]
    } else {
        digits(n / 10).push(digit_char((n % 10) as int))
    }
}

/// `n` written in decimal, with a leading `-` when negative.
pub open spec fn decimal(n: int) -> Seq<char> {
    if n < 0 {
        seq!['-'] + digits((-n) as nat)
    } else {
        digits(n as nat)
    }
}

/// Relies on std's `Display` for `i64`, which writes the number in decimal.
#[verifier::external_body]
fn i64_to_text(n: i64) -> (r: String)
    ensures
        r@ == decimal(n as int),
{
    format!("{}", n)
}

/// The text of the score display: the counter in decimal.
pub fn update_scoreboard(money: &Money) -> (r: String)
    ensures
        r@ == decimal(money.0 as int),
{
    i64_to_text(money.0)
}

/// What a frame hands back besides the new world.
#[derive(Clone, Copy, Debug, PartialEq, Eq, Structural)]
pub struct FrameEvents {
    /// A tofu hit the player on this frame.
    pub game_over: bool,
    /// How many tofu paid out on this frame.
    pub payouts: usize,
}

/// One frame while playing: the player moves; a hit ends the game at once,
/// otherwise the spawner and then the lifetimes run.
pub open spec fn in_game_step(v: WorldView, k: Keys, dt_ms: int, roll: int, coord: i64) -> WorldView {
    let m = movement_step(v, k, dt_ms);
    if hit(m) {
        collision_step(m)
    } else {
        lifetime_step(spawn_step(m, dt_ms, roll, coord), dt_ms)
    }
}

/// One frame: the systems of the current state, in order.
pub open spec fn frame_step(v: WorldView, k: Keys, dt_ms: int, roll: int, coord: i64) -> WorldView {
    match v.state {
        AppState::GameStart => spawn_player_step(v, k.start),
        AppState::InGame => in_game_step(v, k, dt_ms, roll, coord),
        AppState::GameOver => restart_step(v, k.start),
    }
}

/// The frame draws a spawn point: it is in play, nothing hits the player
/// after the move, and a timed spawn happens.
pub open spec fn frame_draws(v: WorldView, k: Keys, dt_ms: int) -> bool {
    let m = movement_step(v, k, dt_ms);
    v.state == AppState::InGame && !hit(m) && spawns(m, dt_ms)
}

/// The events of that frame.
pub open spec fn frame_events(v: WorldView, k: Keys, dt_ms: int, roll: int, coord: i64) -> FrameEvents {
    let m = movement_step(v, k, dt_ms);
    if v.state == AppState::InGame && hit(m) {
        FrameEvents { game_over: true, payouts: 0 }
    } else if v.state == AppState::InGame {
        FrameEvents {
            game_over: false,
            payouts: expired_count(spawn_step(m, dt_ms, roll, coord).tofus, dt_ms) as usize,
        }
    } else {
        FrameEvents { game_over: false, payouts: 0 }
    }
}

/// The player can afford a bought spawn.
pub open spec fn affordable(v: WorldView) -> bool {
    v.money >= v.rules.spend_cost
}

pub open spec fn buy_step(v: WorldView, roll: int, coord: i64) -> WorldView {
    if affordable(v) {
        place_step(WorldView { money: v.money - v.rules.spend_cost, ..v }, roll, coord)
    } else {
        v
    }
}

impl Rules {
    /// The numbers the game ships with: a spawn every 400 ms, at most 20 tofu,
    /// 20 s lifetimes, 15 coins per survivor, 10 coins per bought spawn.
    pub fn standard() -> (r: Rules)
        ensures
            rules_ok(r),
            r.spawn_interval_ms == 400,
            r.max_tofu_count == 20,
            r.tofu_lifetime_ms == 20_000,
            r.reward == 15,
            r.spend_cost == 10,
    {
        Rules {
            spawn_interval_ms: 400,
            max_tofu_count: 20,
            tofu_lifetime_ms: 20_000,
            reward: 15,
            spend_cost: 10,
        }
    }
}

impl World {
    pub open spec fn wf(&self) -> bool {
        world_ok(self@)
    }

    /// A world waiting for the start key: no player, no tofu, no money.
    pub fn new(rules: Rules) -> (w: World)
        requires
            rules_ok(rules),
        ensures
            w.wf(),
            w@.state == AppState::GameStart,
            w@.player.is_none(),
            w@.tofus.len() == 0,
            w@.money == 0,
            w@.time_since_ms == 0,
            w@.rules == rules,
    {
        World {
            state: AppState::GameStart,
            player: None,
            tofus: Vec::new(),
            money: Money(0),
            time_since_ms: 0,
            rules,
        }
    }

    /// While waiting to start: on the start key, create the player and begin the game.
    pub fn spawn_player(&mut self, start_held: bool)
        requires
            old(self).wf(),
            old(self)@.state == AppState::GameStart,
        ensures
            final(self).wf(),
            final(self)@ == spawn_player_step(old(self)@, start_held),
    {
        if start_held {
            self.player = Some(
                Player {
                    position: Vec2 { x: 0, y: 0 },
                    speed: PLAYER_SPEED,
                    health: Health { max: 10, current: 2 },
                },
            );
            self.state = AppState::InGame;
        }
    }

    /// Moves the player along the held arrow keys.
    pub fn character_movement(&mut self, keys: Keys, dt_ms: u64)
        requires
            old(self).wf(),
            old(self)@.state == AppState::InGame,
        ensures
            final(self).wf(),
            final(self)@ == movement_step(old(self)@, keys, dt_ms as int),
    {
        let dx: i64 = (if keys.right { DIR_SCALE } else { 0 }) - (if keys.left { DIR_SCALE } else { 0 });
        let dy: i64 = (if keys.up { DIR_SCALE } else { 0 }) - (if keys.down { DIR_SCALE } else { 0 });
        let p = self.player.unwrap();
        let position = advance(p.position, Direction { x: dx, y: dy }, p.speed, dt_ms);
        self.player = Some(Player { position, ..p });
    }

    /// Ends the game when a tofu touches the player. Returns whether it did,
    /// which is the one game-over signal of the frame.
    pub fn check_collision(&mut self) -> (game_over: bool)
        requires
            old(self).wf(),
            old(self)@.state == AppState::InGame,
        ensures
            final(self).wf(),
            game_over == hit(old(self)@),
            final(self)@ == collision_step(old(self)@),
    {
        let p = self.player.unwrap().position;
        let mut i: usize = 0;
        while i < self.tofus.len()
            invariant
                self@ == old(self)@,
                world_ok(old(self)@),
                old(self)@.state == AppState::InGame,
                i <= self.tofus.len(),
                self@.player.is_some(),
                p == self@.player.unwrap().position,
                forall|j: int| 0 <= j < i ==> !boxes_overlap(p, #[trigger] self.tofus@[j].position),
            decreases self.tofus.len() - i,
        {
            if collide(p, self.tofus[i].position) {
                self.state = AppState::GameOver;
                self.player = None;
                return true;
            }
            i += 1;
        }
        false
    }

    /// Turns every tofu toward the player and moves it, and advances the spawn
    /// clock. Returns whether a timed spawn is due this tick.
    fn home_tofus(&mut self, dt_ms: u64) -> (due: bool)
        requires
            old(self).wf(),
            old(self)@.state == AppState::InGame,
        ensures
            final(self).wf(),
            due == spawn_due(old(self)@, dt_ms as int),
            final(self)@ == home_step(old(self)@, dt_ms as int),
    {
        let target = self.player.unwrap().position;
        let mut moved_tofus: Vec<Tofu> = Vec::new();
        let mut i: usize = 0;
        while i < self.tofus.len()
            invariant
                self@ == old(self)@,
                world_ok(old(self)@),
                old(self)@.state == AppState::InGame,
                self@.player.is_some(),
                target == self@.player.unwrap().position,
                i <= self.tofus.len(),
                moved_tofus@.len() == i,
                forall|j: int| 0 <= j < i ==> #[trigger] moved_tofus@[j] == homed(self.tofus@[j], target, dt_ms as int),
                forall|j: int| 0 <= j < i ==> tofu_ok(#[trigger] moved_tofus@[j]),
            decreases self.tofus.len() - i,
        {
            let mut t = self.tofus[i];
            assert(tofu_ok(old(self)@.tofus[i as int]));
            home_on(&mut t, target, dt_ms);
            moved_tofus.push(t);
            i += 1;
        }
        self.tofus = moved_tofus;
        assert(self.tofus@ =~= all_homed(old(self)@.tofus, target, dt_ms as int));
        let interval = self.rules.spawn_interval_ms;
        if dt_ms >= interval - self.time_since_ms {
            self.time_since_ms = 0;
            true
        } else {
            self.time_since_ms = self.time_since_ms + dt_ms;
            false
        }
    }

    /// Adds a fresh tofu at the point that the draws `roll` and `coord` pick.
    pub fn place_tofu(&mut self, roll: i64, coord: i64)
        requires
            old(self).wf(),
            old(self)@.state == AppState::InGame,
            valid_draw(roll as int, coord),
        ensures
            final(self).wf(),
            final(self)@ == place_step(old(self)@, roll as int, coord),
            on_spawn_edge(spawn_point(edge_of(roll as int), coord)),
    {
        let p = edge_point(edge_for(roll), coord);
        self.tofus.push(
            Tofu {
                position: p,
                direction: Direction { x: 0, y: 0 },
                lifetime: Timer { elapsed_ms: 0, duration_ms: self.rules.tofu_lifetime_ms },
            },
        );
        assert(tofu_ok(self.tofus@[self.tofus@.len() - 1]));
    }

    /// Draws a spawn point: a roll that picks the edge, then a coordinate along it.
    fn draw_spawn(rng: &mut Rng) -> (r: (i64, i64))
        ensures
            valid_draw(r.0 as int, r.1),
    {
        let roll = rng.gen_rand(0, ROLL_RANGE);
        let (lo, hi) = edge_range(edge_for(roll));
        let coord = rng.gen_rand(lo, hi);
        (roll, coord)
    }

    /// The timed spawner: homes every tofu on the player, then, when the spawn
    /// clock is due and fewer than the maximum are alive, adds one tofu on an edge.
    pub fn spawn_tofu(&mut self, rng: &mut Rng, dt_ms: u64)
        requires
            old(self).wf(),
            old(self)@.state == AppState::InGame,
        ensures
            final(self).wf(),
            exists|roll: int, coord: i64|
                valid_draw(roll, coord) && final(self)@ == #[trigger] spawn_step(old(self)@, dt_ms as int, roll, coord),
            !spawns(old(self)@, dt_ms as int) ==> *final(rng) == *old(rng),
    {
        let due = self.home_tofus(dt_ms);
        if due && self.tofus.len() < self.rules.max_tofu_count {
            let (roll, coord) = World::draw_spawn(rng);
            self.place_tofu(roll, coord);
            assert(final(self)@ == spawn_step(old(self)@, dt_ms as int, roll as int, coord));
        } else {
            assert(valid_draw(0, 0));
            assert(final(self)@ == spawn_step(old(self)@, dt_ms as int, 0, 0));
        }
    }

    /// The spend-gated spawn, with its draws given: when the counter covers
    /// the cost, pays it and adds a tofu at the drawn point; otherwise changes nothing.
    pub fn buy_tofu_at(&mut self, roll: i64, coord: i64) -> (bought: bool)
        requires
            old(self).wf(),
            old(self)@.state == AppState::InGame,
            valid_draw(roll as int, coord),
        ensures
            final(self).wf(),
            bought == affordable(old(self)@),
            final(self)@ == buy_step(old(self)@, roll as int, coord),
    {
        if self.money.0 >= self.rules.spend_cost {
            self.money = Money(self.money.0 - self.rules.spend_cost);
            self.place_tofu(roll, coord);
            true
        } else {
            false
        }
    }

    /// The spend-gated spawn: draws a point only when the counter covers the cost.
    pub fn buy_tofu(&mut self, rng: &mut Rng) -> (bought: bool)
        requires
            old(self).wf(),
            old(self)@.state == AppState::InGame,
        ensures
            final(self).wf(),
            bought == affordable(old(self)@),
            exists|roll: int, coord: i64|
                valid_draw(roll, coord) && final(self)@ == #[trigger] buy_step(old(self)@, roll, coord),
            !affordable(old(self)@) ==> *final(rng) == *old(rng),
    {
        if self.money.0 >= self.rules.spend_cost {
            let (roll, coord) = World::draw_spawn(rng);
            let bought = self.buy_tofu_at(roll, coord);
            assert(final(self)@ == buy_step(old(self)@, roll as int, coord));
            bought
        } else {
            assert(valid_draw(0, 0));
            assert(final(self)@ == buy_step(old(self)@, 0, 0));
            false
        }
    }

    /// Ages every tofu by `dt_ms`. Each one whose lifetime runs out pays the
    /// reward and is removed. Returns how many paid out.
    pub fn tofu_lifetime(&mut self, dt_ms: u64) -> (payouts: usize)
        requires
            old(self).wf(),
            room_for_rewards(old(self)@, 0),
        ensures
            final(self).wf(),
            payouts == expired_count(old(self)@.tofus, dt_ms as int),
            final(self)@ == lifetime_step(old(self)@, dt_ms as int),
    {
        let ghost s = self.tofus@;
        let mut kept: Vec<Tofu> = Vec::new();
        let mut count: usize = 0;
        let mut i: usize = 0;
        while i < self.tofus.len()
            invariant
                self@ == old(self)@,
                world_ok(old(self)@),
                s == self.tofus@,
                i <= s.len(),
                count <= i,
                kept@ == survivors(s.take(i as int), dt_ms as int),
                count == expired_count(s.take(i as int), dt_ms as int),
                forall|j: int| 0 <= j < kept@.len() ==> tofu_ok(#[trigger] kept@[j]),
            decreases s.len() - i,
        {
            let t = self.tofus[i];
            assert(s.take(i + 1).drop_last() =~= s.take(i as int));
            assert(s.take(i + 1).last() == t);
            assert(tofu_ok(old(self)@.tofus[i as int]));
            if t.lifetime.elapsed_ms >= t.lifetime.duration_ms || dt_ms >= t.lifetime.duration_ms - t.lifetime.elapsed_ms {
                count = count + 1;
            } else {
                let aged_tofu = Tofu {
                    lifetime: Timer { elapsed_ms: t.lifetime.elapsed_ms + dt_ms, ..t.lifetime },
                    ..t
                };
                kept.push(aged_tofu);
            }
            i += 1;
        }
        assert(s.take(s.len() as int) =~= s);
        let reward = self.rules.reward;
        assert(count * reward <= s.len() * reward) by (nonlinear_arith)
            requires
                count <= s.len(),
                reward >= 0,
        ;
        assert(0 <= count * reward <= 0xffff_ffff_ffff_ffff * 1_000_000_000) by (nonlinear_arith)
            requires
                0 <= reward <= 1_000_000_000,
                0 <= count <= 0xffff_ffff_ffff_ffff,
        ;
        assert(reward * count == count * reward) by (nonlinear_arith);
        let total: i128 = self.money.0 as i128 + reward as i128 * count as i128;
        self.money = Money(total as i64);
        self.tofus = kept;
        count
    }

    /// While the game is over: clears every tofu, and on the start key resets
    /// the counter and the spawn clock and goes back to waiting for a start.
    pub fn game_restarter(&mut self, start_held: bool)
        requires
            old(self).wf(),
            old(self)@.state == AppState::GameOver,
        ensures
            final(self).wf(),
            final(self)@ == restart_step(old(self)@, start_held),
    {
        self.tofus = Vec::new();
        if start_held {
            self.state = AppState::GameStart;
            self.time_since_ms = 0;
            self.money = Money(0);
        }
        assert(self.tofus@ =~= Seq::empty());
    }

    /// Runs one frame of `dt_ms` milliseconds with `keys` held.
    pub fn frame(&mut self, rng: &mut Rng, keys: Keys, dt_ms: u64) -> (events: FrameEvents)
        requires
            old(self).wf(),
            room_for_rewards(old(self)@, 1),
        ensures
            final(self).wf(),
            exists|roll: int, coord: i64|
                valid_draw(roll, coord) && final(self)@ == #[trigger] frame_step(old(self)@, keys, dt_ms as int, roll, coord)
                    && events == frame_events(old(self)@, keys, dt_ms as int, roll, coord),
            !frame_draws(old(self)@, keys, dt_ms as int) ==> *final(rng) == *old(rng),
    {
        match self.state {
            AppState::GameStart => {
                self.spawn_player(keys.start);
                assert(valid_draw(0, 0));
                assert(final(self)@ == frame_step(old(self)@, keys, dt_ms as int, 0, 0));
                FrameEvents { game_over: false, payouts: 0 }
            },
            AppState::GameOver => {
                self.game_restarter(keys.start);
                assert(valid_draw(0, 0));
                assert(final(self)@ == frame_step(old(self)@, keys, dt_ms as int, 0, 0));
                FrameEvents { game_over: false, payouts: 0 }
            },
            AppState::InGame => {
                self.character_movement(keys, dt_ms);
                let ghost m = self@;
                if self.check_collision() {
                    assert(valid_draw(0, 0));
                    assert(final(self)@ == frame_step(old(self)@, keys, dt_ms as int, 0, 0));
                    return FrameEvents { game_over: true, payouts: 0 };
                }
                self.spawn_tofu(rng, dt_ms);
                let ghost (roll, coord) = choose|roll: int, coord: i64|
                    valid_draw(roll, coord) && self@ == #[trigger] spawn_step(m, dt_ms as int, roll, coord);
                let ghost sp = self@;
                proof {
                    let r = self.rules.reward as int;
                    assert(sp.tofus.len() <= m.tofus.len() + 1);
                    assert(sp.tofus.len() * r <= (m.tofus.len() + 1) * r) by (nonlinear_arith)
                        requires
                            sp.tofus.len() <= m.tofus.len() + 1,
                            r >= 0,
                    ;
                }
                let payouts = self.tofu_lifetime(dt_ms);
                assert(final(self)@ == frame_step(old(self)@, keys, dt_ms as int, roll, coord));
                FrameEvents { game_over: false, payouts }
            },
        }
    }
}

} // verus!
