use tofu_dodge::game::{update_scoreboard, AppState, Keys, Money, Rules, World};
use tofu_dodge::geometry::{collide, isqrt, normalize_direction, Direction, Vec2, WORLD_LIMIT};
use tofu_dodge::rng::Rng;
use tofu_dodge::tofu::{
    advance, edge_for, edge_point, edge_range, home_on, Edge, Timer, Tofu, TOFU_LEFT_BOUNDARY,
    TOFU_RIGHT_BOUNDARY, TOFU_TOP_BOUNDARY,
};

fn no_keys() -> Keys {
    Keys { start: false, up: false, down: false, left: false, right: false }
}

fn start_key() -> Keys {
    Keys { start: true, ..no_keys() }
}

fn tofu_at(x: i64, y: i64, elapsed_ms: u64, duration_ms: u64) -> Tofu {
    Tofu {
        position: Vec2 { x, y },
        direction: Direction { x: 0, y: 0 },
        lifetime: Timer { elapsed_ms, duration_ms },
    }
}

fn playing_world(rules: Rules) -> World {
    let mut w = World::new(rules);
    w.spawn_player(true);
    w
}

fn on_spawn_edge(p: Vec2) -> bool {
    (p.y == TOFU_TOP_BOUNDARY && TOFU_LEFT_BOUNDARY <= p.x && p.x < TOFU_RIGHT_BOUNDARY)
        || (p.x == TOFU_LEFT_BOUNDARY && 0 <= p.y && p.y < TOFU_TOP_BOUNDARY)
        || (p.x == TOFU_RIGHT_BOUNDARY && 0 <= p.y && p.y < TOFU_TOP_BOUNDARY)
}

#[test]
fn collide_overlapping_boxes() {
    assert!(collide(Vec2 { x: 0, y: 0 }, Vec2 { x: 0, y: 0 }));
    assert!(collide(Vec2 { x: 10, y: -20 }, Vec2 { x: 73, y: 43 }));
    assert!(collide(Vec2 { x: 0, y: 0 }, Vec2 { x: -63, y: 63 }));
}

#[test]
fn collide_touching_edges_is_no_hit() {
    assert!(!collide(Vec2 { x: 0, y: 0 }, Vec2 { x: 64, y: 0 }));
    assert!(!collide(Vec2 { x: 0, y: 0 }, Vec2 { x: 0, y: -64 }));
    assert!(!collide(Vec2 { x: 0, y: 0 }, Vec2 { x: 64, y: 64 }));
}

#[test]
fn collide_needs_overlap_on_both_axes() {
    assert!(!collide(Vec2 { x: 0, y: 0 }, Vec2 { x: 10, y: 100 }));
    assert!(!collide(Vec2 { x: 0, y: 0 }, Vec2 { x: 100, y: 10 }));
    assert!(!collide(Vec2 { x: i64::MIN, y: 0 }, Vec2 { x: i64::MAX, y: 0 }));
}

#[test]
fn isqrt_rounds_down() {
    assert_eq!(isqrt(0), 0);
    assert_eq!(isqrt(1), 1);
    assert_eq!(isqrt(15), 3);
    assert_eq!(isqrt(16), 4);
    assert_eq!(isqrt(1_000_000), 1000);
    assert_eq!(isqrt(u128::MAX), u64::MAX as u128);
}

#[test]
fn normalize_three_four_five() {
    let mut d = Direction { x: 3, y: 4 };
    normalize_direction(&mut d);
    assert_eq!(d, Direction { x: 600_000, y: 800_000 });
    let mut d = Direction { x: -3, y: -4 };
    normalize_direction(&mut d);
    assert_eq!(d, Direction { x: -600_000, y: -800_000 });
}

#[test]
fn normalize_axis_and_zero() {
    let mut d = Direction { x: 0, y: -7 };
    normalize_direction(&mut d);
    assert_eq!(d, Direction { x: 0, y: -1_000_000 });
    let mut d = Direction { x: 0, y: 0 };
    normalize_direction(&mut d);
    assert_eq!(d, Direction { x: 0, y: 0 });
}

#[test]
fn normalized_headings_have_unit_length() {
    let raws = [(1, 1), (2, 3), (-5, 12), (1_999_999_999, -1), (7, -2_000_000_000), (-1, 0)];
    for (x, y) in raws {
        let mut d = Direction { x, y };
        normalize_direction(&mut d);
        let len = ((d.x * d.x + d.y * d.y) as f64).sqrt();
        assert!((len / 1_000_000.0 - 1.0).abs() <= 1e-5, "{x} {y} gave {d:?}");
    }
    let mut d = Direction { x: 1, y: 1 };
    normalize_direction(&mut d);
    assert_eq!(d, Direction { x: 707_107, y: 707_107 });
}

#[test]
fn gen_rand_on_an_empty_range_gives_its_bound() {
    let mut rng = Rng::seeded(8);
    assert_eq!(rng.gen_rand(5, 5), 5);
    assert_eq!(rng.gen_rand(-3200, -3200), -3200);
}

#[test]
fn edges_follow_the_roll() {
    assert_eq!(edge_for(999), Edge::Top);
    assert_eq!(edge_for(661), Edge::Top);
    assert_eq!(edge_for(660), Edge::Left);
    assert_eq!(edge_for(331), Edge::Left);
    assert_eq!(edge_for(330), Edge::Right);
    assert_eq!(edge_for(0), Edge::Right);
}

#[test]
fn edge_ranges_and_points() {
    assert_eq!(edge_range(Edge::Top), (-3200, 3200));
    assert_eq!(edge_range(Edge::Left), (0, 2400));
    assert_eq!(edge_range(Edge::Right), (0, 2400));
    assert_eq!(edge_point(Edge::Top, -5), Vec2 { x: -5, y: 2400 });
    assert_eq!(edge_point(Edge::Left, 17), Vec2 { x: -3200, y: 17 });
    assert_eq!(edge_point(Edge::Right, 2399), Vec2 { x: 3200, y: 2399 });
}

#[test]
fn advance_moves_by_speed_times_time() {
    let p = Vec2 { x: 10, y: 20 };
    let r = advance(p, Direction { x: 1_000_000, y: 0 }, 400, 1000);
    assert_eq!(r, Vec2 { x: 410, y: 20 });
    let r = advance(p, Direction { x: 0, y: -1_000_000 }, 500, 16);
    assert_eq!(r, Vec2 { x: 10, y: 12 });
    let r = advance(p, Direction { x: -600_000, y: 800_000 }, 400, 100);
    assert_eq!(r, Vec2 { x: -14, y: 52 });
}

#[test]
fn advance_stays_in_the_world() {
    let p = Vec2 { x: WORLD_LIMIT - 1, y: -WORLD_LIMIT + 1 };
    let r = advance(p, Direction { x: 1_000_000, y: -1_000_000 }, 1_000_000, u64::MAX);
    assert_eq!(r, Vec2 { x: WORLD_LIMIT, y: -WORLD_LIMIT });
}

#[test]
fn home_on_turns_and_moves() {
    let mut t = tofu_at(300, 400, 5, 20_000);
    home_on(&mut t, Vec2 { x: 0, y: 0 }, 100);
    assert_eq!(t.direction, Direction { x: -600_000, y: -800_000 });
    assert_eq!(t.position, Vec2 { x: 276, y: 368 });
    assert_eq!(t.lifetime, Timer { elapsed_ms: 5, duration_ms: 20_000 });
}

#[test]
fn home_on_target_reached_stays_put() {
    let mut t = tofu_at(5, 5, 0, 100);
    home_on(&mut t, Vec2 { x: 5, y: 5 }, 1000);
    assert_eq!(t.direction, Direction { x: 0, y: 0 });
    assert_eq!(t.position, Vec2 { x: 5, y: 5 });
}

#[test]
fn new_world_waits_for_start() {
    let w = World::new(Rules::standard());
    assert_eq!(w.state, AppState::GameStart);
    assert!(w.player.is_none());
    assert!(w.tofus.is_empty());
    assert_eq!(w.money, Money(0));
    assert_eq!(w.time_since_ms, 0);
}

#[test]
fn start_key_spawns_one_player() {
    let mut w = World::new(Rules::standard());
    w.spawn_player(false);
    assert_eq!(w.state, AppState::GameStart);
    assert!(w.player.is_none());
    w.spawn_player(true);
    assert_eq!(w.state, AppState::InGame);
    let p = w.player.unwrap();
    assert_eq!(p.position, Vec2 { x: 0, y: 0 });
    assert_eq!(p.speed, 500);
}

#[test]
fn player_moves_with_keys() {
    let mut w = playing_world(Rules::standard());
    let keys = Keys { up: true, right: true, ..no_keys() };
    w.character_movement(keys, 100);
    assert_eq!(w.player.unwrap().position, Vec2 { x: 50, y: 50 });
    let keys = Keys { up: true, down: true, left: true, ..no_keys() };
    w.character_movement(keys, 100);
    assert_eq!(w.player.unwrap().position, Vec2 { x: 0, y: 50 });
}

#[test]
fn collision_ends_the_game() {
    let mut w = playing_world(Rules::standard());
    w.tofus.push(tofu_at(1000, 1000, 0, 20_000));
    w.tofus.push(tofu_at(30, -30, 0, 20_000));
    assert!(w.check_collision());
    assert_eq!(w.state, AppState::GameOver);
    assert!(w.player.is_none());
    assert_eq!(w.tofus.len(), 2);
}

#[test]
fn touching_tofu_does_not_end_the_game() {
    let mut w = playing_world(Rules::standard());
    w.tofus.push(tofu_at(64, 0, 0, 20_000));
    assert!(!w.check_collision());
    assert_eq!(w.state, AppState::InGame);
    assert!(w.player.is_some());
}

#[test]
fn spawner_waits_for_the_interval() {
    let mut w = playing_world(Rules::standard());
    let mut rng = Rng::seeded(7);
    w.spawn_tofu(&mut rng, 399);
    assert!(w.tofus.is_empty());
    assert_eq!(w.time_since_ms, 399);
    w.spawn_tofu(&mut rng, 1);
    assert_eq!(w.tofus.len(), 1);
    assert_eq!(w.time_since_ms, 0);
    let t = w.tofus[0];
    assert!(on_spawn_edge(t.position));
    assert_eq!(t.direction, Direction { x: 0, y: 0 });
    assert_eq!(t.lifetime, Timer { elapsed_ms: 0, duration_ms: 20_000 });
}

#[test]
fn spawner_homes_existing_tofu() {
    let mut w = playing_world(Rules::standard());
    w.tofus.push(tofu_at(0, 1000, 0, 20_000));
    let mut rng = Rng::seeded(1);
    w.spawn_tofu(&mut rng, 100);
    assert_eq!(w.tofus.len(), 1);
    assert_eq!(w.tofus[0].position, Vec2 { x: 0, y: 960 });
    assert_eq!(w.tofus[0].direction, Direction { x: 0, y: -1_000_000 });
}

#[test]
fn spawner_respects_the_cap() {
    let mut w = playing_world(Rules::standard());
    for i in 0..20 {
        w.tofus.push(tofu_at(3000, 100 * i, 0, 20_000));
    }
    let mut rng = Rng::seeded(3);
    w.spawn_tofu(&mut rng, 1000);
    assert_eq!(w.tofus.len(), 20);
    assert_eq!(w.time_since_ms, 0);
}

#[test]
fn fresh_spawns_are_on_an_edge() {
    let mut rng = Rng::seeded(9);
    for _ in 0..100 {
        let mut w = playing_world(Rules::standard());
        w.spawn_tofu(&mut rng, 400);
        assert_eq!(w.tofus.len(), 1);
        assert!(on_spawn_edge(w.tofus[0].position));
    }
}

#[test]
fn place_tofu_uses_the_draws() {
    let mut w = playing_world(Rules::standard());
    w.place_tofu(700, 123);
    w.place_tofu(400, 7);
    w.place_tofu(12, 2399);
    assert_eq!(w.tofus[0].position, Vec2 { x: 123, y: 2400 });
    assert_eq!(w.tofus[1].position, Vec2 { x: -3200, y: 7 });
    assert_eq!(w.tofus[2].position, Vec2 { x: 3200, y: 2399 });
}

#[test]
fn expired_tofu_pay_and_leave() {
    let mut w = playing_world(Rules::standard());
    w.tofus.push(tofu_at(1000, 1000, 19_990, 20_000));
    w.tofus.push(tofu_at(2000, 1000, 0, 20_000));
    w.tofus.push(tofu_at(3000, 1000, 19_995, 20_000));
    let paid = w.tofu_lifetime(10);
    assert_eq!(paid, 2);
    assert_eq!(w.money, Money(30));
    assert_eq!(w.tofus.len(), 1);
    assert_eq!(w.tofus[0].position, Vec2 { x: 2000, y: 1000 });
    assert_eq!(w.tofus[0].lifetime.elapsed_ms, 10);
}

#[test]
fn lifetime_below_duration_pays_nothing() {
    let mut w = playing_world(Rules::standard());
    w.tofus.push(tofu_at(1000, 1000, 0, 20_000));
    assert_eq!(w.tofu_lifetime(19_999), 0);
    assert_eq!(w.money, Money(0));
    assert_eq!(w.tofus[0].lifetime.elapsed_ms, 19_999);
    assert_eq!(w.tofu_lifetime(1), 1);
    assert_eq!(w.money, Money(15));
    assert!(w.tofus.is_empty());
}

#[test]
fn game_over_clears_tofu_every_frame() {
    let mut w = playing_world(Rules::standard());
    w.money = Money(40);
    w.tofus.push(tofu_at(0, 0, 0, 20_000));
    assert!(w.check_collision());
    w.game_restarter(false);
    assert!(w.tofus.is_empty());
    assert_eq!(w.state, AppState::GameOver);
    assert_eq!(w.money, Money(40));
}

#[test]
fn cleanup_with_no_tofu_is_a_no_op() {
    let mut w = playing_world(Rules::standard());
    w.money = Money(25);
    w.time_since_ms = 100;
    w.tofus.push(tofu_at(0, 0, 0, 20_000));
    assert!(w.check_collision());
    w.game_restarter(false);
    w.game_restarter(false);
    assert_eq!(w.state, AppState::GameOver);
    assert_eq!(w.money, Money(25));
    assert_eq!(w.time_since_ms, 100);
    assert!(w.tofus.is_empty());
    assert!(w.player.is_none());
}

#[test]
fn restart_resets_money_and_clock() {
    let mut w = playing_world(Rules::standard());
    w.money = Money(25);
    w.time_since_ms = 100;
    w.tofus.push(tofu_at(0, 0, 0, 20_000));
    w.tofus.push(tofu_at(500, 0, 0, 20_000));
    assert!(w.check_collision());
    w.game_restarter(true);
    assert_eq!(w.state, AppState::GameStart);
    assert_eq!(w.money, Money(0));
    assert_eq!(w.time_since_ms, 0);
    assert!(w.tofus.is_empty());
    assert!(w.player.is_none());
}

#[test]
fn bought_spawn_costs_exactly_the_price() {
    let mut w = playing_world(Rules::standard());
    w.money = Money(10);
    assert!(w.buy_tofu_at(100, 50));
    assert_eq!(w.money, Money(0));
    assert_eq!(w.tofus.len(), 1);
    assert_eq!(w.tofus[0].position, Vec2 { x: 3200, y: 50 });
    assert!(!w.buy_tofu_at(900, 0));
    assert_eq!(w.money, Money(0));
    assert_eq!(w.tofus.len(), 1);
}

#[test]
fn declined_spawn_changes_nothing() {
    let mut w = playing_world(Rules::standard());
    w.money = Money(9);
    let mut rng = Rng::seeded(5);
    assert!(!w.buy_tofu(&mut rng));
    assert_eq!(w.money, Money(9));
    assert!(w.tofus.is_empty());
}

#[test]
fn spend_then_survive_scenario() {
    let rules = Rules { tofu_lifetime_ms: 2000, reward: 15, spend_cost: 10, ..Rules::standard() };
    let mut w = playing_world(rules);
    w.money = Money(100);
    let mut rng = Rng::seeded(11);
    assert!(w.buy_tofu(&mut rng));
    assert_eq!(w.money, Money(90));
    assert_eq!(w.tofus.len(), 1);
    assert!(on_spawn_edge(w.tofus[0].position));
    assert!(!w.check_collision());
    assert_eq!(w.tofu_lifetime(2000), 1);
    assert!(w.tofus.is_empty());
    assert_eq!(w.money, Money(105));
}

#[test]
fn frames_run_the_state_machine() {
    let mut w = World::new(Rules::standard());
    let mut rng = Rng::seeded(2);
    let e = w.frame(&mut rng, no_keys(), 16);
    assert_eq!(w.state, AppState::GameStart);
    assert!(!e.game_over);
    w.frame(&mut rng, start_key(), 16);
    assert_eq!(w.state, AppState::InGame);
    assert!(w.player.is_some());
    let e = w.frame(&mut rng, no_keys(), 400);
    assert!(!e.game_over);
    assert_eq!(w.tofus.len(), 1);
    w.tofus.push(tofu_at(10, 10, 0, 20_000));
    let e = w.frame(&mut rng, no_keys(), 16);
    assert!(e.game_over);
    assert_eq!(w.state, AppState::GameOver);
    assert!(w.player.is_none());
    let e = w.frame(&mut rng, no_keys(), 16);
    assert!(!e.game_over);
    assert!(w.tofus.is_empty());
    w.frame(&mut rng, start_key(), 16);
    assert_eq!(w.state, AppState::GameStart);
    assert_eq!(w.money, Money(0));
}

#[test]
fn frames_pay_out_surviving_tofu() {
    let rules = Rules { tofu_lifetime_ms: 2000, max_tofu_count: 0, ..Rules::standard() };
    let mut w = playing_world(rules);
    w.tofus.push(tofu_at(3000, 2000, 0, 2000));
    let mut rng = Rng::seeded(4);
    let e = w.frame(&mut rng, no_keys(), 1000);
    assert_eq!(e.payouts, 0);
    let e = w.frame(&mut rng, no_keys(), 1000);
    assert_eq!(e.payouts, 1);
    assert_eq!(w.money, Money(15));
    assert!(w.tofus.is_empty());
}

#[test]
fn scoreboard_shows_the_counter() {
    assert_eq!(update_scoreboard(&Money(105)), "105");
    assert_eq!(update_scoreboard(&Money(0)), "0");
    assert_eq!(update_scoreboard(&Money(-7)), "-7");
}

#[test]
fn seeded_rng_draws_in_range() {
    let mut rng = Rng::seeded(123);
    for _ in 0..1000 {
        let r = rng.gen_rand(-3, 4);
        assert!((-3..4).contains(&r));
    }
}
