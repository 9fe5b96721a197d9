use shooting::{Block, Breakout, Countdown, Keys, Obstacle, Paddle, Vec2};

fn v(x: i64, y: i64) -> Vec2 {
    Vec2 { x, y }
}

fn no_keys() -> Keys {
    Keys { up: false, down: false, left: false, right: false }
}

fn game_with(blocks: Vec<Block>) -> Breakout {
    Breakout {
        ball_pos: v(0, -3_000),
        ball_vel: v(200, -200),
        ball_half: v(600, 600),
        paddle: Paddle { speed: 500, direction: v(0, 0), pos: v(0, 40_000), half: v(3_600, 900) },
        blocks,
        score: 0,
    }
}

#[test]
fn ball_bounces_once_off_bottom_wall() {
    // Ball at (0, -50) px moving (200, -200) px/s; the bottom wall at
    // y = -300 px is 10 px thick on each side of its centre line. Lengths are
    // in sixtieths of a pixel, so the velocity reads the same per tick.
    let wall = Block { pos: v(0, -18_000), half: v(60_000, 600), kind: Obstacle::Solid, alive: true };
    let mut g = game_with(vec![wall]);
    let mut flips = 0;
    let mut ticks = 0;
    while flips == 0 {
        g.ball_movement_system();
        let before = g.ball_vel;
        g.ball_collision_system();
        ticks += 1;
        if g.ball_vel != before {
            flips += 1;
            // The flip comes on the first tick on which the ball's bottom
            // edge has gone below the wall's top edge.
            assert!(g.ball_pos.y - 600 < -17_400);
            assert!(g.ball_pos.y + 200 - 600 >= -17_400);
            assert_eq!(g.ball_vel, v(200, 200));
            // Meeting the same wall again in the same tick changes nothing.
            g.ball_collision_system();
            assert_eq!(g.ball_vel, v(200, 200));
        } else {
            assert!(g.ball_pos.y - 600 >= -17_400);
        }
        assert!(ticks < 200);
    }
    assert_eq!(ticks, 70);
    g.ball_movement_system();
    g.ball_collision_system();
    assert_eq!(g.ball_vel, v(200, 200));
}

#[test]
fn collectible_brick_scores_and_disappears() {
    let brick = Block { pos: v(0, -3_000), half: v(900, 900), kind: Obstacle::Scorable, alive: true };
    let far = Block { pos: v(50_000, 0), half: v(900, 900), kind: Obstacle::Scorable, alive: true };
    let mut g = game_with(vec![brick, far]);
    g.ball_collision_system();
    assert_eq!(g.score, 1);
    assert!(!g.blocks[0].alive);
    assert!(g.blocks[1].alive);
    assert_eq!(g.ball_vel, v(200, -200));
    g.ball_collision_system();
    assert_eq!(g.score, 1);
    g.compact();
    assert_eq!(g.blocks.len(), 1);
    assert_eq!(g.blocks[0].pos, v(50_000, 0));
}

#[test]
fn paddle_bounces_ball() {
    let mut g = game_with(vec![]);
    g.paddle.pos = v(0, -4_200);
    g.ball_collision_system();
    assert_eq!(g.ball_vel, v(200, 200));
    let speed = |u: Vec2| u.x * u.x + u.y * u.y;
    assert_eq!(speed(g.ball_vel), speed(v(200, -200)));
}

#[test]
fn setup_places_ball_paddle_and_walls() {
    let g = Breakout::setup(v(76_800, 43_200));
    assert_eq!(g.ball_pos, v(0, -3_000));
    assert_eq!(g.ball_vel, v(282, -282));
    assert_eq!(g.paddle.pos, v(0, 0));
    assert_eq!(g.blocks.len(), 4);
    assert_eq!(g.blocks[2].pos, v(0, -21_600));
    assert_eq!(g.blocks[2].half, v(39_000, 600));
    assert!(g.blocks.iter().all(|b| b.kind == Obstacle::Solid));
    assert_eq!(g.score, 0);
}

#[test]
fn paddle_steers_and_is_kept_in_window() {
    let mut g = Breakout::setup(v(76_800, 43_200));
    g.paddle_movement_system(Keys { up: false, down: false, left: true, right: true }, v(76_800, 43_200));
    assert_eq!(g.paddle.direction, v(-1_000, 0));
    assert_eq!(g.paddle.pos, v(-500, 0));
    g.paddle_movement_system(Keys { up: true, down: false, left: false, right: false }, v(76_800, 43_200));
    assert_eq!(g.paddle.direction, v(-707, 707));
    assert_eq!(g.paddle.pos, v(-853, 353));
    g.paddle_movement_system(no_keys(), v(76_800, 43_200));
    assert_eq!(g.paddle.direction, v(-707, 707));
    g.paddle.pos = v(-34_700, 0);
    g.paddle_movement_system(no_keys(), v(76_800, 43_200));
    // The paddle stops at 38400 - 3600 from the middle.
    assert_eq!(g.paddle.pos.x, -34_800);
}

#[test]
fn brick_spawner_adds_scorable_brick() {
    let mut g = Breakout::setup(v(76_800, 43_200));
    let mut t = Countdown::new(2_000);
    for _ in 0..250 {
        if t.fire(16) {
            g.brick_spawner(v(76_800, 43_200));
        }
    }
    assert_eq!(g.blocks.len(), 6);
    for b in &g.blocks[4..] {
        assert_eq!(b.kind, Obstacle::Scorable);
        assert_eq!(b.half, v(900, 900));
        assert!(b.pos.x >= -38_400 && b.pos.x < 38_400);
        assert!(b.pos.y >= -21_600 && b.pos.y < 21_600);
    }
}
