use shooting::{
    button, cleanup_boundaries, cleanup_colliders, ingame, scoreboard_reset, time_left_secs, timer_system, AppState,
    Balls, Body, Cannon, Collider, Direction, Enemies, EnemyRoll, EnemyShips, Energy, Keys, Params, Particle,
    Particles, TickInput, Vec2, Walls, World,
};

fn v(x: i64, y: i64) -> Vec2 {
    Vec2 { x, y }
}

fn params() -> Params {
    Params::shooter(v(76_800, 43_200))
}

fn burst() -> Particles {
    Particles {
        speed: 100,
        size: 30_720,
        shrink_percent: 90,
        directions: vec![v(1000, 0), v(707, 707), v(0, 1000), v(-707, 707), v(-1000, 0), v(-707, -707), v(0, -1000), v(707, -707)],
    }
}

fn world() -> World {
    World::new(params(), burst())
}

fn playing() -> World {
    let mut w = world();
    button(&mut w, true);
    // Start with an empty field: the energy cells are placed at drawn points.
    w.bodies.clear();
    w
}

fn body(collider: Collider, pos: Vec2, vel: Vec2, half: Vec2) -> Body {
    Body { pos, vel, half, collider, spin: 0, aim: v(0, 0), alive: true }
}

fn idle(delta_ms: u64) -> TickInput {
    TickInput { delta_ms, keys: Keys { up: false, down: false, left: false, right: false }, clicked: false, cursor: v(0, 0) }
}

#[test]
fn new_world_waits_in_start_menu() {
    let w = world();
    assert_eq!(w.state, AppState::Start);
    assert_eq!(w.scoreboard.score, 0);
    assert_eq!(w.scoreboard.health, 5);
    assert_eq!(w.cannon.half, v(2_400, 1_440));
    assert_eq!(w.cannon.direction, Direction::Right);
    assert!(w.bodies.is_empty());
}

#[test]
fn start_click_begins_game_with_cleared_score() {
    let mut w = world();
    w.scoreboard.score = 42;
    w.main_timer.tick(5_000);
    button(&mut w, true);
    assert_eq!(w.state, AppState::InGame);
    assert_eq!(w.scoreboard.score, 0);
    assert_eq!(w.scoreboard.health, 3);
    assert_eq!(w.main_timer.elapsed_ms, 0);
    assert_eq!(w.enemy_timer.duration_ms, 1_000);
    assert_eq!(w.enemy_ship_timer.duration_ms, 5_000);
    assert_eq!(w.enemy_shot_timer.duration_ms, 1_000);
    assert_eq!(w.bodies.len(), 5);
    assert!(w.bodies.iter().all(|b| b.collider == Collider::Energy));
}

#[test]
fn shooter_params_are_valid_sizes() {
    let p = params();
    assert_eq!(p.background, v(184_320, 138_240));
    assert_eq!(p.bounds, v(76_800, 43_200));
    assert_eq!(p.wall, 1_200);
    assert_eq!(p.num_of_energies, 5);
}

#[test]
fn game_clock_ends_game_within_a_tick() {
    let mut w = playing();
    w.main_timer.tick(179_990);
    ingame(&mut w, idle(16));
    assert_eq!(w.state, AppState::Finish);
    assert_eq!(w.main_timer.elapsed_ms, 180_000);
}

#[test]
fn one_shot_over_two_enemies_takes_one() {
    let mut w = playing();
    w.bodies.push(body(Collider::Selfball, v(0, 0), v(0, 0), v(480, 480)));
    w.bodies.push(body(Collider::Spacejunk, v(0, 0), v(0, 0), v(3_000, 3_000)));
    w.bodies.push(body(Collider::Enemyship, v(300, 0), v(0, 0), v(1_728, 2_250)));
    Balls::collision(&mut w);
    assert_eq!(w.scoreboard.score, 1);
    assert!(!w.bodies[0].alive);
    assert!(!w.bodies[1].alive);
    assert!(w.bodies[2].alive);
    assert_eq!(w.particles.len(), 8);
}

#[test]
fn cannon_hit_burst_starts_at_cannon() {
    let mut w = playing();
    w.scoreboard = shooting::Scoreboard { score: 3, health: 1 };
    w.bodies.push(body(Collider::Spacejunk, v(600, 0), v(0, 0), v(1_500, 1_500)));
    Cannon::collision(&mut w);
    assert_eq!(w.scoreboard, shooting::Scoreboard { score: 3, health: 0 });
    assert!(!w.bodies[0].alive);
    assert_eq!(w.particles.len(), 8);
    assert!(w.particles.iter().all(|p| p.pos == v(0, 0)));
}

#[test]
fn button_without_click_or_in_game_does_nothing() {
    let mut w = world();
    button(&mut w, false);
    assert_eq!(w.state, AppState::Start);
    let mut g = playing();
    g.scoreboard.score = 7;
    button(&mut g, true);
    assert_eq!(g.state, AppState::InGame);
    assert_eq!(g.scoreboard.score, 7);
}

#[test]
fn finish_click_tears_down_and_returns_to_start() {
    let mut w = playing();
    w.bodies.push(body(Collider::Spacejunk, v(10_000, 0), v(0, 0), v(100, 100)));
    w.cannon.pos = v(500, 500);
    w.scoreboard.score = 9;
    w.state = AppState::Finish;
    button(&mut w, true);
    assert_eq!(w.state, AppState::Start);
    assert!(w.bodies.is_empty());
    assert!(w.particles.is_empty());
    assert_eq!(w.cannon.pos, v(0, 0));
    assert_eq!(w.scoreboard.score, 0);
    assert_eq!(w.scoreboard.health, 3);
}

#[test]
fn scoreboard_reset_sets_counters() {
    let mut w = playing();
    w.scoreboard.score = 12;
    w.scoreboard.health = 1;
    w.main_timer.tick(60_000);
    scoreboard_reset(&mut w);
    assert_eq!(w.scoreboard.score, 0);
    assert_eq!(w.scoreboard.health, 3);
    assert_eq!(w.main_timer.elapsed_ms, 0);
}

#[test]
fn game_clock_ends_the_game() {
    let mut w = playing();
    timer_system(&mut w, 179_000);
    assert_eq!(w.state, AppState::InGame);
    assert_eq!(time_left_secs(&w), 1);
    timer_system(&mut w, 1_000);
    assert_eq!(w.state, AppState::Finish);
    assert_eq!(time_left_secs(&w), 0);
}

#[test]
fn time_left_counts_whole_seconds() {
    let mut w = playing();
    assert_eq!(time_left_secs(&w), 180);
    timer_system(&mut w, 1_500);
    assert_eq!(time_left_secs(&w), 179);
}

#[test]
fn shot_consumes_one_enemy_and_scores() {
    let mut w = playing();
    w.bodies.push(body(Collider::Selfball, v(0, 0), v(0, 0), v(480, 480)));
    w.bodies.push(body(Collider::Spacejunk, v(500, 0), v(0, 0), v(480, 480)));
    w.bodies.push(body(Collider::Enemyship, v(-500, 0), v(0, 0), v(480, 480)));
    w.bodies.push(body(Collider::Spacejunk, v(50_000, 0), v(0, 0), v(480, 480)));
    Balls::collision(&mut w);
    assert_eq!(w.scoreboard.score, 1);
    assert!(!w.bodies[0].alive);
    // Only the first enemy the shot touches goes with it.
    assert!(!w.bodies[1].alive);
    assert!(w.bodies[2].alive);
    assert!(w.bodies[3].alive);
    assert_eq!(w.particles.len(), 8);
    assert_eq!(w.particles[0].pos, v(0, 0));
    assert_eq!(w.particles[0].vel, v(100, 0));
    assert_eq!(w.particles[1].vel, v(70, 70));
    // A second pass finds nothing left to react.
    Balls::collision(&mut w);
    assert_eq!(w.scoreboard.score, 1);
    assert!(w.bodies[2].alive);
}

#[test]
fn two_shots_two_enemies() {
    let mut w = playing();
    w.bodies.push(body(Collider::Selfball, v(0, 0), v(0, 0), v(480, 480)));
    w.bodies.push(body(Collider::Selfball, v(10_000, 0), v(0, 0), v(480, 480)));
    w.bodies.push(body(Collider::Spacejunk, v(500, 0), v(0, 0), v(480, 480)));
    w.bodies.push(body(Collider::Enemyship, v(10_500, 0), v(0, 0), v(480, 480)));
    w.bodies.push(body(Collider::Energy, v(0, 500), v(0, 0), v(480, 480)));
    Balls::collision(&mut w);
    assert_eq!(w.scoreboard.score, 2);
    assert!(w.bodies[..4].iter().all(|b| !b.alive));
    assert!(w.bodies[4].alive);
}

#[test]
fn score_saturates() {
    let mut w = playing();
    w.scoreboard.score = u64::MAX;
    w.bodies.push(body(Collider::Selfball, v(0, 0), v(0, 0), v(480, 480)));
    w.bodies.push(body(Collider::Spacejunk, v(500, 0), v(0, 0), v(480, 480)));
    Balls::collision(&mut w);
    assert_eq!(w.scoreboard.score, u64::MAX);
}

#[test]
fn enemy_hit_costs_health_and_ends_game() {
    // Health one, one piece of junk on the cannon: the hit takes the last
    // point, never goes below zero, and the next tick ends the game.
    let mut w = playing();
    w.scoreboard.health = 1;
    w.bodies.push(body(Collider::Spacejunk, v(1_000, 0), v(0, 0), v(1_000, 1_000)));
    w.bodies.push(body(Collider::Enemyball, v(-1_500, 0), v(0, 0), v(480, 480)));
    Cannon::collision(&mut w);
    assert_eq!(w.scoreboard.health, 0);
    assert!(!w.bodies[0].alive);
    assert!(!w.bodies[1].alive);
    assert_eq!(w.particles.len(), 16);
    assert_eq!(w.state, AppState::InGame);
    Cannon::update(&mut w, Keys { up: false, down: false, left: false, right: true });
    assert_eq!(w.state, AppState::Finish);
    assert_eq!(w.cannon.pos, v(0, 0));
}

#[test]
fn last_health_point_through_ticks() {
    let mut w = playing();
    w.scoreboard.health = 1;
    w.bodies.push(body(Collider::Spacejunk, v(1_000, 0), v(0, 0), v(1_000, 1_000)));
    ingame(&mut w, idle(16));
    assert_eq!(w.scoreboard.health, 0);
    assert!(w.state == AppState::InGame || w.state == AppState::Finish);
    ingame(&mut w, idle(16));
    assert_eq!(w.state, AppState::Finish);
    assert_eq!(w.scoreboard.health, 0);
}

#[test]
fn shots_of_the_player_do_not_hurt_the_cannon() {
    let mut w = playing();
    w.bodies.push(body(Collider::Selfball, v(0, 0), v(0, 0), v(480, 480)));
    Cannon::collision(&mut w);
    assert_eq!(w.scoreboard.health, 3);
    assert!(w.bodies[0].alive);
}

#[test]
fn cannon_hitbox_is_shrunk() {
    let mut w = playing();
    // Cannon half-extent 2400 shrinks to 1680; junk half 1000 shrinks to 700.
    w.bodies.push(body(Collider::Spacejunk, v(2_390, 0), v(0, 0), v(1_000, 1_000)));
    w.bodies.push(body(Collider::Spacejunk, v(2_370, 0), v(0, 0), v(1_000, 1_000)));
    Cannon::collision(&mut w);
    assert!(w.bodies[0].alive);
    assert!(!w.bodies[1].alive);
    assert_eq!(w.scoreboard.health, 2);
}

#[test]
fn cannon_moves_and_stays_on_field() {
    let mut w = playing();
    Cannon::update(&mut w, Keys { up: true, down: false, left: true, right: false });
    assert_eq!(w.cannon.pos, v(-500, 500));
    assert_eq!(w.cannon.direction, Direction::Left);
    Cannon::update(&mut w, Keys { up: false, down: false, left: true, right: true });
    assert_eq!(w.cannon.pos, v(-500, 500));
    assert_eq!(w.cannon.direction, Direction::Right);
    w.cannon.pos = v(89_900, -66_500);
    Cannon::update(&mut w, Keys { up: false, down: true, left: false, right: true });
    // Limits: 92160 - 2400 and 69120 - 1440.
    assert_eq!(w.cannon.pos, v(89_760, -67_000));
    Cannon::update(&mut w, Keys { up: false, down: true, left: false, right: true });
    assert_eq!(w.cannon.pos, v(89_760, -67_500));
    Cannon::update(&mut w, Keys { up: false, down: true, left: false, right: true });
    assert_eq!(w.cannon.pos, v(89_760, -67_680));
    Cannon::reset(&mut w);
    assert_eq!(w.cannon.pos, v(0, 0));
}

#[test]
fn player_shoots_toward_cursor_with_cooldown() {
    let mut w = playing();
    Balls::spawner(&mut w, 16, true, v(300, 400));
    assert_eq!(w.bodies.len(), 1);
    let b = w.bodies[0];
    assert_eq!(b.collider, Collider::Selfball);
    assert_eq!(b.pos, v(2_400, 0));
    assert_eq!(b.vel, v(300, 400));
    assert_eq!(b.half, v(480, 480));
    assert!(w.ball_timer.is_some());
    // Within the half second cooldown a click does nothing.
    Balls::spawner(&mut w, 16, true, v(300, 400));
    assert_eq!(w.bodies.len(), 1);
    Balls::spawner(&mut w, 500, false, v(300, 400));
    assert_eq!(w.bodies.len(), 1);
    w.cannon.direction = Direction::Left;
    Balls::spawner(&mut w, 16, true, v(-1, 0));
    assert_eq!(w.bodies.len(), 2);
    assert_eq!(w.bodies[1].pos, v(-2_400, 0));
    assert_eq!(w.bodies[1].vel, v(-500, 0));
}

#[test]
fn balls_move_by_their_velocity() {
    let mut w = playing();
    w.bodies.push(body(Collider::Selfball, v(0, 0), v(3, -4), v(480, 480)));
    w.bodies.push(body(Collider::Enemyball, v(10, 10), v(-1, 1), v(480, 480)));
    w.bodies.push(body(Collider::Spacejunk, v(10, 10), v(-1, 1), v(480, 480)));
    Balls::update(&mut w);
    assert_eq!(w.bodies[0].pos, v(3, -4));
    assert_eq!(w.bodies[1].pos, v(9, 11));
    assert_eq!(w.bodies[2].pos, v(10, 10));
    Balls::spawn(&mut w, v(1, 2), v(5, 6));
    assert_eq!(w.bodies[3], body(Collider::Enemyball, v(1, 2), v(5, 6), v(480, 480)));
}

#[test]
fn junk_wraps_top_to_bottom() {
    let mut w = playing();
    let roll = EnemyRoll { from_right: true, y: 69_000, speed: v(-200, 50), size_percent: 40, spin: 30, next_secs: 2 };
    Enemies::spawn_rolled(&mut w, roll);
    let j = w.bodies[0];
    assert_eq!(j.pos, v(92_160 + 2_400, 69_000));
    assert_eq!(j.half, v(3_000, 2_376));
    assert_eq!(j.vel, v(-200, 50));
    assert_eq!(j.spin, 30);
    Enemies::update(&mut w);
    assert_eq!(w.bodies[0].pos, v(94_360, 69_050));
    for _ in 0..50 {
        Enemies::update(&mut w);
    }
    // maxy = 69120 + 2376 = 71496; the junk crossed it and re-entered below.
    assert!(w.bodies[0].pos.y < 0);
    let roll = EnemyRoll { from_right: false, y: 0, speed: v(150, 0), size_percent: 30, spin: 0, next_secs: 1 };
    Enemies::spawn_rolled(&mut w, roll);
    assert_eq!(w.bodies[1].pos.x, -94_560);
}

#[test]
fn junk_spawner_draws_in_range() {
    let mut w = playing();
    Enemies::spawner(&mut w, 500);
    assert!(w.bodies.is_empty());
    Enemies::spawner(&mut w, 500);
    assert_eq!(w.bodies.len(), 1);
    let j = w.bodies[0];
    assert_eq!(j.collider, Collider::Spacejunk);
    assert!(j.pos.x == 94_560 || j.pos.x == -94_560);
    assert!(j.pos.y >= -67_680 && j.pos.y < 67_680);
    assert!(j.vel.y >= -100 && j.vel.y < 100);
    assert!(j.vel.x.abs() >= 100 && j.vel.x.abs() < 300);
    assert!([1_000, 2_000, 3_000].contains(&w.enemy_timer.duration_ms));
    assert_eq!(w.enemy_timer.elapsed_ms, 0);
}

#[test]
fn ship_heads_for_cannon_and_fires() {
    let mut w = playing();
    EnemyShips::spawn_at(&mut w, v(-92_160, 0));
    let s = w.bodies[0];
    assert_eq!(s.collider, Collider::Enemyship);
    assert_eq!(s.vel, v(100, 0));
    assert_eq!(s.aim, v(500, 0));
    assert_eq!(s.half, v(1_728, 2_250));
    EnemyShips::update(&mut w);
    assert_eq!(w.bodies[0].pos, v(-92_060, 0));
    EnemyShips::shoot(&mut w, 999);
    assert_eq!(w.bodies.len(), 1);
    EnemyShips::shoot(&mut w, 1);
    assert_eq!(w.bodies.len(), 2);
    assert_eq!(w.bodies[1], body(Collider::Enemyball, v(-92_060, 0), v(500, 0), v(480, 480)));
    assert_eq!(w.enemy_shot_timer.elapsed_ms, 0);
    EnemyShips::shoot(&mut w, 999);
    assert_eq!(w.bodies.len(), 2);
    EnemyShips::shoot(&mut w, 1);
    assert_eq!(w.bodies.len(), 3);
}

#[test]
fn ship_spawner_uses_an_edge() {
    let mut w = playing();
    EnemyShips::spawner(&mut w, 4_999);
    assert!(w.bodies.is_empty());
    EnemyShips::spawner(&mut w, 1);
    assert_eq!(w.bodies.len(), 1);
    let p = w.bodies[0].pos;
    assert!(p.x.abs() == 92_160 || p.y.abs() == 69_120);
    let d = w.enemy_ship_timer.duration_ms;
    assert!(d >= 5_000 && d < 10_000 && d % 1_000 == 0);
}

#[test]
fn energy_absorbs_enemy_shots_only() {
    let mut w = playing();
    Energy::spawn_at(&mut w, v(0, 0));
    w.bodies.push(body(Collider::Enemyball, v(2_000, 0), v(0, 0), v(480, 480)));
    w.bodies.push(body(Collider::Selfball, v(-2_000, 0), v(0, 0), v(480, 480)));
    w.bodies.push(body(Collider::Enemyball, v(9_000, 0), v(0, 0), v(480, 480)));
    Energy::collision(&mut w);
    assert!(w.bodies[0].alive);
    assert!(!w.bodies[1].alive);
    assert!(w.bodies[2].alive);
    assert!(w.bodies[3].alive);
}

#[test]
fn energy_setup_places_cells_inside() {
    let mut w = playing();
    Energy::setup(&mut w);
    assert_eq!(w.bodies.len(), 5);
    for b in &w.bodies {
        assert_eq!(b.collider, Collider::Energy);
        assert_eq!(b.half, v(1_920, 1_920));
        assert!(b.pos.x >= -90_240 && b.pos.x < 90_240);
        assert!(b.pos.y >= -67_200 && b.pos.y < 67_200);
    }
}

#[test]
fn walls_surround_the_window() {
    let mut w = playing();
    Walls::setup(&mut w);
    assert_eq!(w.bodies.len(), 4);
    assert_eq!(w.bodies[0].pos, v(-38_400, 0));
    assert_eq!(w.bodies[0].half, v(600, 22_200));
    assert_eq!(w.bodies[3].pos, v(0, 21_600));
    assert_eq!(w.bodies[3].half, v(39_000, 600));
    assert!(w.bodies.iter().all(|b| b.collider == Collider::Wall));
}

#[test]
fn bodies_far_outside_are_despawned() {
    let mut w = playing();
    w.bodies.push(body(Collider::Spacejunk, v(92_160 + 1_000, 0), v(0, 0), v(480, 480)));
    w.bodies.push(body(Collider::Spacejunk, v(92_160 + 961, 0), v(0, 0), v(480, 480)));
    w.bodies.push(body(Collider::Selfball, v(0, -69_120 - 960), v(0, 0), v(480, 480)));
    cleanup_boundaries(&mut w);
    assert!(!w.bodies[0].alive);
    assert!(!w.bodies[1].alive);
    assert!(w.bodies[2].alive);
    w.compact();
    assert_eq!(w.bodies.len(), 1);
    assert_eq!(w.bodies[0].collider, Collider::Selfball);
    cleanup_colliders(&mut w);
    assert!(w.bodies.is_empty());
}

#[test]
fn compact_keeps_order_of_live_bodies() {
    let mut w = playing();
    for i in 0..6 {
        let mut b = body(Collider::Energy, v(i, 0), v(0, 0), v(1, 1));
        b.alive = i % 2 == 0;
        w.bodies.push(b);
    }
    w.compact();
    let xs: Vec<i64> = w.bodies.iter().map(|b| b.pos.x).collect();
    assert_eq!(xs, vec![0, 2, 4]);
}

#[test]
fn particles_shrink_and_vanish() {
    let mut ps: Vec<Particle> = Vec::new();
    Particles::spawn(&mut ps, v(10, 20), &burst());
    assert_eq!(ps.len(), 8);
    assert_eq!(ps[4].vel, v(-100, 0));
    assert_eq!(ps[6].vel, v(0, -100));
    Particles::update(&mut ps, &burst());
    assert_eq!(ps.len(), 8);
    assert_eq!(ps[0].pos, v(110, 20));
    assert_eq!(ps[0].size, 27_648);
    for _ in 0..100 {
        Particles::update(&mut ps, &burst());
    }
    assert!(ps.is_empty());
}

#[test]
fn particle_below_five_pixels_goes() {
    let mut ps = vec![
        Particle { pos: v(0, 0), vel: v(1, 1), size: 333 },
        Particle { pos: v(0, 0), vel: v(1, 1), size: 334 },
    ];
    Particles::update(&mut ps, &burst());
    assert_eq!(ps.len(), 1);
    assert_eq!(ps[0].size, 300);
}

#[test]
fn slow_burst_shrinks_by_one_percent() {
    let mut slow = burst();
    slow.shrink_percent = 99;
    slow.size = 600;
    let mut ps: Vec<Particle> = Vec::new();
    Particles::spawn(&mut ps, v(0, 0), &slow);
    Particles::update(&mut ps, &slow);
    assert_eq!(ps[0].size, 594);
    let mut ticks = 1;
    while !ps.is_empty() {
        Particles::update(&mut ps, &slow);
        ticks += 1;
    }
    // 600 units (ten pixels), rounded down each tick, fall below five pixels
    // after 62 ticks.
    assert_eq!(ticks, 62);
}

#[test]
fn a_tick_keeps_score_and_drops_the_dead() {
    let mut w = playing();
    w.scoreboard.score = 4;
    w.bodies.push(body(Collider::Selfball, v(0, 10_000), v(0, 0), v(480, 480)));
    w.bodies.push(body(Collider::Spacejunk, v(500, 10_000), v(0, 0), v(480, 480)));
    w.bodies.push(body(Collider::Spacejunk, v(200_000, 0), v(0, 0), v(480, 480)));
    assert!(w.can_step());
    ingame(&mut w, idle(16));
    assert_eq!(w.scoreboard.score, 5);
    assert!(w.bodies.iter().all(|b| b.alive));
    assert!(w.bodies.iter().all(|b| b.collider != Collider::Selfball));
    assert_eq!(w.bodies.iter().filter(|b| b.pos.x == 200_000).count(), 0);
    for _ in 0..200 {
        let before = w.scoreboard.score;
        assert!(w.can_step());
        ingame(&mut w, idle(16));
        assert!(w.scoreboard.score >= before);
        assert!(w.bodies.iter().all(|b| b.alive));
    }
}

#[test]
fn can_step_refuses_overflow() {
    let mut w = playing();
    w.bodies.push(body(Collider::Selfball, v(i64::MAX, 0), v(1, 0), v(480, 480)));
    assert!(!w.can_step());
}
