use vstd::prelude::*;
use crate::body::{fits_step, step, stepped};
use crate::cannon::{clamp_sym, Keys};
use crate::geom::{lemma_floor_sqrt_exists, abs, collide, collision_of, floor_sqrt, is_floor_sqrt, length_sq, reflect, reflected, scale_to_length, scaled_component, scaled_to_length, Collision, Vec2};
use crate::random::random_in;
use crate::world::{bump, capped_add, SIZE_LIMIT};

verus! {

/// What a block of the breakout field does to the ball: walls and the paddle
/// bounce it, scorable bricks are collected.
#[derive(Clone, Copy, Debug, PartialEq, Eq, Structural)]
pub enum Obstacle {
    Solid,
    Scorable,
    Paddle,
}

/// A block of the breakout field.
#[derive(Clone, Copy, Debug, PartialEq, Eq, Structural)]
pub struct Block {
    pub pos: Vec2,
    pub half: Vec2,
    pub kind: Obstacle,
    pub alive: bool,
}

/// The player's paddle: speed per tick, the way it moves scaled to
/// `DIRECTION_SCALE`, centre and half-extent.
#[derive(Clone, Copy, Debug, PartialEq, Eq, Structural)]
pub struct Paddle {
    pub speed: i64,
    pub direction: Vec2,
    pub pos: Vec2,
    pub half: Vec2,
}

/// The breakout game: one ball, the paddle, the blocks and the score.
pub struct Breakout {
    pub ball_pos: Vec2,
    pub ball_vel: Vec2,
    pub ball_half: Vec2,
    pub paddle: Paddle,
    pub blocks: Vec<Block>,
    pub score: u64,
}

/// The length to which the paddle's direction is scaled.
pub const DIRECTION_SCALE: i64 = 1000;

/// The velocity after the ball has met, in order, the blocks of `s` that
/// bounce it.
pub open spec fn bounce_through(pos: Vec2, half: Vec2, v: Vec2, s: Seq<Block>) -> Vec2
    decreases s.len(),
{
    if s.len() == 0 {
        v
    } else {
        let v1 = bounce_through(pos, half, v, s.drop_last());
        let b = s.last();
        if b.alive && b.kind != Obstacle::Scorable {
            match collision_of(pos, half, b.pos, b.half) {
                Some(side) => reflected(v1, side),
                None => v1,
            }
        } else {
            v1
        }
    }
}

/// The block is a scorable brick that the ball touches.
pub open spec fn collected(pos: Vec2, half: Vec2, b: Block) -> bool {
    b.alive && b.kind == Obstacle::Scorable && collision_of(pos, half, b.pos, b.half) is Some
}

/// How many of the first `n` blocks the ball collects.
pub open spec fn count_collected(pos: Vec2, half: Vec2, s: Seq<Block>, n: int) -> nat
    decreases n,
{
    if n <= 0 {
        0
    } else {
        count_collected(pos, half, s, n - 1) + if collected(pos, half, s[n - 1]) { 1nat } else { 0nat }
    }
}

/// The paddle as a block that bounces the ball.
pub open spec fn paddle_block(p: Paddle) -> Block {
    Block { pos: p.pos, half: p.half, kind: Obstacle::Paddle, alive: true }
}

/// Bouncing twice off the same side is bouncing once: a velocity that
/// already points away from the side is left alone.
pub proof fn lemma_reflect_once(v: Vec2, side: Collision)
    requires
        v.x > i64::MIN,
        v.y > i64::MIN,
    ensures
        reflected(reflected(v, side), side) == reflected(v, side),
{
}

/// A bounce off any number of blocks keeps the speed of the ball, and the
/// size of each component of its velocity.
pub proof fn lemma_bounce_keeps_speed(pos: Vec2, half: Vec2, v: Vec2, s: Seq<Block>)
    requires
        v.x > i64::MIN,
        v.y > i64::MIN,
    ensures
        abs(bounce_through(pos, half, v, s).x as int) == abs(v.x as int),
        abs(bounce_through(pos, half, v, s).y as int) == abs(v.y as int),
        length_sq(bounce_through(pos, half, v, s)) == length_sq(v),
    decreases s.len(),
{
    if s.len() > 0 {
        lemma_bounce_keeps_speed(pos, half, v, s.drop_last());
    }
    let r = bounce_through(pos, half, v, s);
    assert(length_sq(r) == length_sq(v)) by (nonlinear_arith)
        requires
            abs(r.x as int) == abs(v.x as int),
            abs(r.y as int) == abs(v.y as int),
    ;
}

impl Breakout {
    /// Moves the ball one tick along its velocity.
    pub fn ball_movement_system(&mut self)
        requires
            fits_step(old(self).ball_pos, old(self).ball_vel, 1),
        ensures
            final(self).ball_pos == stepped(old(self).ball_pos, old(self).ball_vel, 1),
            final(self).ball_pos.x == old(self).ball_pos.x + old(self).ball_vel.x,
            final(self).ball_pos.y == old(self).ball_pos.y + old(self).ball_vel.y,
            final(self).ball_vel == old(self).ball_vel,
            final(self).blocks@ == old(self).blocks@,
            final(self).paddle == old(self).paddle,
            final(self).score == old(self).score,
    {
        self.ball_pos = step(self.ball_pos, self.ball_vel, 1);
    }

    /// Meets the paddle and then every block in order: a scorable brick that
    /// the ball touches is collected and scores a point; any other block it
    /// touches bounces it off the side it hit, unless the ball already moves
    /// away from that side. The speed of the ball never changes.
    pub fn ball_collision_system(&mut self)
        requires
            old(self).ball_vel.x > i64::MIN,
            old(self).ball_vel.y > i64::MIN,
        ensures
            final(self).ball_vel == bounce_through(
                old(self).ball_pos,
                old(self).ball_half,
                old(self).ball_vel,
                seq![paddle_block(old(self).paddle)] + old(self).blocks@,
            ),
            abs(final(self).ball_vel.x as int) == abs(old(self).ball_vel.x as int),
            abs(final(self).ball_vel.y as int) == abs(old(self).ball_vel.y as int),
            length_sq(final(self).ball_vel) == length_sq(old(self).ball_vel),
            final(self).blocks@.len() == old(self).blocks@.len(),
            forall|k: int| 0 <= k < old(self).blocks@.len() ==> #[trigger] final(self).blocks@[k] == if collected(
                old(self).ball_pos,
                old(self).ball_half,
                old(self).blocks@[k],
            ) {
                Block { alive: false, ..old(self).blocks@[k] }
            } else {
                old(self).blocks@[k]
            },
            final(self).score == capped_add(
                old(self).score as int,
                count_collected(old(self).ball_pos, old(self).ball_half, old(self).blocks@, old(self).blocks@.len() as int) as int,
            ),
            final(self).ball_pos == old(self).ball_pos,
            final(self).ball_half == old(self).ball_half,
            final(self).paddle == old(self).paddle,
    {
        let ghost all = seq![paddle_block(self.paddle)] + self.blocks@;
        let ghost before = self.blocks@;
        let pos = self.ball_pos;
        let half = self.ball_half;
        let p = self.paddle;
        let mut vel = self.ball_vel;
        match collide(pos, half, p.pos, p.half) {
            Some(side) => {
                vel = reflect(vel, side);
            },
            None => {},
        }
        proof {
            assert(all.subrange(0, 1).drop_last() =~= Seq::<Block>::empty());
            assert(all.subrange(0, 1).last() == paddle_block(p));
            assert(bounce_through(pos, half, old(self).ball_vel, Seq::<Block>::empty()) == old(self).ball_vel);
        }
        let n = self.blocks.len();
        let mut i: usize = 0;
        while i < n
            invariant
                0 <= i <= n,
                n == before.len(),
                n == self.blocks@.len(),
                all == seq![paddle_block(old(self).paddle)] + before,
                before == old(self).blocks@,
                pos == old(self).ball_pos,
                half == old(self).ball_half,
                self.ball_pos == pos,
                self.ball_half == half,
                self.ball_vel == old(self).ball_vel,
                self.paddle == old(self).paddle,
                vel == bounce_through(pos, half, old(self).ball_vel, all.subrange(0, i as int + 1)),
                abs(vel.x as int) == abs(old(self).ball_vel.x as int),
                abs(vel.y as int) == abs(old(self).ball_vel.y as int),
                old(self).ball_vel.x > i64::MIN,
                old(self).ball_vel.y > i64::MIN,
                forall|k: int| 0 <= k < i ==> #[trigger] self.blocks@[k] == if collected(pos, half, before[k]) {
                    Block { alive: false, ..before[k] }
                } else {
                    before[k]
                },
                forall|k: int| i <= k < n ==> #[trigger] self.blocks@[k] == before[k],
                self.score == capped_add(old(self).score as int, count_collected(pos, half, before, i as int) as int),
            decreases n - i,
        {
            let b = self.blocks[i];
            let ghost prefix = all.subrange(0, i as int + 2);
            proof {
                assert(prefix.drop_last() =~= all.subrange(0, i as int + 1));
                assert(prefix.last() == before[i as int]);
            }
            match collide(pos, half, b.pos, b.half) {
                Some(side) => {
                    if b.alive {
                        match b.kind {
                            Obstacle::Scorable => {
                                self.blocks.set(i, Block { alive: false, ..b });
                                self.score = bump(self.score);
                            },
                            _ => {
                                vel = reflect(vel, side);
                            },
                        }
                    }
                },
                None => {},
            }
            i = i + 1;
        }
        proof {
            assert(all.subrange(0, n as int + 1) =~= all);
            lemma_bounce_keeps_speed(pos, half, old(self).ball_vel, all);
        }
        self.ball_vel = vel;
    }
}

/// A component scaled by `len / norm` is no larger than `len` when `norm`
/// is the rounded-down length of a vector that has that component.
proof fn lemma_scaled_component_bounded(c: int, d: int, len: int, norm: int)
    requires
        is_floor_sqrt(c * c + d * d, norm),
        norm > 0,
        len >= 0,
    ensures
        abs(scaled_component(c, len, norm)) <= len,
{
    let m = abs(c);
    assert(m * m == c * c && d * d >= 0) by (nonlinear_arith)
        requires
            m == abs(c),
    ;
    assert(m <= norm) by (nonlinear_arith)
        requires
            m * m <= c * c + d * d,
            c * c + d * d < (norm + 1) * (norm + 1),
            m >= 0,
            norm >= 0,
            m == abs(c),
    {
        if m > norm {
            assert(m * m >= (norm + 1) * (norm + 1));
        }
    }
    assert(m * len / norm <= len) by (nonlinear_arith)
        requires
            0 <= m <= norm,
            norm > 0,
            len >= 0,
    {
        assert(m * len <= norm * len);
    }
}

/// The paddle's direction, speed and size are sane.
pub open spec fn paddle_ok(p: Paddle) -> bool {
    &&& -DIRECTION_SCALE <= p.direction.x <= DIRECTION_SCALE
    &&& -DIRECTION_SCALE <= p.direction.y <= DIRECTION_SCALE
    &&& 0 <= p.speed <= SIZE_LIMIT
    &&& 0 < p.half.x <= SIZE_LIMIT
    &&& 0 < p.half.y <= SIZE_LIMIT
    &&& -SIZE_LIMIT <= p.pos.x <= SIZE_LIMIT
    &&& -SIZE_LIMIT <= p.pos.y <= SIZE_LIMIT
}

/// The direction after a key press: only the first held key of left, right,
/// up and down counts, and the result is scaled back to unit length.
pub open spec fn steered(d: Vec2, k: Keys) -> (int, int) {
    let pushed = if k.left {
        Vec2 { x: (d.x - DIRECTION_SCALE) as i64, y: d.y }
    } else if k.right {
        Vec2 { x: (d.x + DIRECTION_SCALE) as i64, y: d.y }
    } else if k.up {
        Vec2 { x: d.x, y: (d.y + DIRECTION_SCALE) as i64 }
    } else if k.down {
        Vec2 { x: d.x, y: (d.y - DIRECTION_SCALE) as i64 }
    } else {
        d
    };
    scaled_to_length(pushed, DIRECTION_SCALE as int)
}

/// The paddle after one tick: steered, moved by its direction times its
/// speed, and kept inside the window of the given full size.
pub open spec fn paddle_moved(p: Paddle, k: Keys, window: Vec2) -> Paddle {
    let d = steered(p.direction, k);
    let x = p.pos.x + scaled_component(d.0, p.speed as int, DIRECTION_SCALE as int);
    let y = p.pos.y + scaled_component(d.1, p.speed as int, DIRECTION_SCALE as int);
    let xmax = window.x / 2 - p.half.x;
    let ymax = window.y / 2 - p.half.y;
    Paddle {
        direction: Vec2 { x: d.0 as i64, y: d.1 as i64 },
        pos: Vec2 { x: clamp_sym(x, xmax) as i64, y: clamp_sym(y, ymax) as i64 },
        ..p
    }
}

/// A scorable brick of the given full size centred at `pos`.
pub open spec fn brick(pos: Vec2, size: int) -> Block {
    Block { pos, half: Vec2 { x: (size / 2) as i64, y: (size / 2) as i64 }, kind: Obstacle::Scorable, alive: true }
}

/// The full size of a brick, in units.
pub const BRICK_SIZE: i64 = 1800;

fn move_component(d: i64, speed: i64) -> (r: i64)
    requires
        -DIRECTION_SCALE <= d <= DIRECTION_SCALE,
        0 <= speed <= SIZE_LIMIT,
    ensures
        r == scaled_component(d as int, speed as int, DIRECTION_SCALE as int),
        -SIZE_LIMIT <= r <= SIZE_LIMIT,
{
    let m: i64 = if d < 0 { -d } else { d };
    assert(0 <= m * speed <= DIRECTION_SCALE * SIZE_LIMIT) by (nonlinear_arith)
        requires
            0 <= m <= DIRECTION_SCALE,
            0 <= speed <= SIZE_LIMIT,
    ;
    let prod: i64 = m * speed;
    let q: i64 = prod / DIRECTION_SCALE;
    assert(q <= SIZE_LIMIT) by (nonlinear_arith)
        requires
            prod == m * speed,
            q == prod / 1000,
            0 <= m <= DIRECTION_SCALE,
            0 <= speed <= SIZE_LIMIT,
    {
        assert(m * speed <= DIRECTION_SCALE * SIZE_LIMIT);
    }
    if d < 0 {
        -q
    } else {
        q
    }
}

impl Breakout {
    /// Steers the paddle with the first held arrow key, moves it, and keeps it
    /// inside the window of the given full size.
    pub fn paddle_movement_system(&mut self, keys: Keys, window: Vec2)
        requires
            paddle_ok(old(self).paddle),
            0 < window.x <= SIZE_LIMIT,
            0 < window.y <= SIZE_LIMIT,
            old(self).paddle.half.x <= window.x / 2,
            old(self).paddle.half.y <= window.y / 2,
        ensures
            final(self).paddle == paddle_moved(old(self).paddle, keys, window),
            paddle_ok(final(self).paddle),
            final(self).ball_pos == old(self).ball_pos,
            final(self).ball_vel == old(self).ball_vel,
            final(self).blocks@ == old(self).blocks@,
            final(self).score == old(self).score,
    {
        let p = self.paddle;
        let d = p.direction;
        let pushed = if keys.left {
            Vec2 { x: d.x - DIRECTION_SCALE, y: d.y }
        } else if keys.right {
            Vec2 { x: d.x + DIRECTION_SCALE, y: d.y }
        } else if keys.up {
            Vec2 { x: d.x, y: d.y + DIRECTION_SCALE }
        } else if keys.down {
            Vec2 { x: d.x, y: d.y - DIRECTION_SCALE }
        } else {
            d
        };
        let dir = scale_to_length(pushed, DIRECTION_SCALE);
        proof {
            let n = floor_sqrt(length_sq(pushed));
            if n != 0 {
                assert(length_sq(pushed) >= 0) by (nonlinear_arith);
                lemma_floor_sqrt_exists(length_sq(pushed));
                lemma_scaled_component_bounded(pushed.x as int, pushed.y as int, DIRECTION_SCALE as int, n);
                lemma_scaled_component_bounded(pushed.y as int, pushed.x as int, DIRECTION_SCALE as int, n);
                assert(pushed.y * pushed.y + pushed.x * pushed.x == length_sq(pushed));
            }
        }
        let x: i64 = p.pos.x + move_component(dir.x, p.speed);
        let y: i64 = p.pos.y + move_component(dir.y, p.speed);
        let xmax: i64 = window.x / 2 - p.half.x;
        let ymax: i64 = window.y / 2 - p.half.y;
        let x1 = if x < xmax { x } else { xmax };
        let x2 = if x1 > -xmax { x1 } else { -xmax };
        let y1 = if y < ymax { y } else { ymax };
        let y2 = if y1 > -ymax { y1 } else { -ymax };
        self.paddle = Paddle { direction: dir, pos: Vec2 { x: x2, y: y2 }, ..p };
    }

    /// Adds a scorable brick at a drawn point of the window of the given full
    /// size.
    pub fn brick_spawner(&mut self, window: Vec2)
        requires
            0 < window.x <= SIZE_LIMIT,
            0 < window.y <= SIZE_LIMIT,
        ensures
            final(self).blocks@.len() == old(self).blocks@.len() + 1,
            final(self).blocks@.drop_last() == old(self).blocks@,
            exists|pos: Vec2| #[trigger] brick(pos, BRICK_SIZE as int) == final(self).blocks@.last()
                && -(window.x / 2) <= pos.x < window.x - window.x / 2
                && -(window.y / 2) <= pos.y < window.y - window.y / 2,
            final(self).ball_pos == old(self).ball_pos,
            final(self).ball_vel == old(self).ball_vel,
            final(self).paddle == old(self).paddle,
            final(self).score == old(self).score,
    {
        let x = random_in(0, window.x) - window.x / 2;
        let y = random_in(0, window.y) - window.y / 2;
        let pos = Vec2 { x, y };
        self.blocks.push(Block { pos, half: Vec2 { x: BRICK_SIZE / 2, y: BRICK_SIZE / 2 }, kind: Obstacle::Scorable, alive: true });
        assert(brick(pos, BRICK_SIZE as int) == self.blocks@.last());
    }
}

/// The ball's speed, the paddle's speed, and the thickness of the walls.
pub const BREAKOUT_BALL_SPEED: i64 = 400;

pub const PADDLE_SPEED: i64 = 500;

pub const WALL_THICKNESS: i64 = 1200;

/// A solid wall centred at `pos` with the given full size.
pub open spec fn solid(pos: (int, int), size: (int, int)) -> Block {
    Block {
        pos: Vec2 { x: pos.0 as i64, y: pos.1 as i64 },
        half: Vec2 { x: (size.0 / 2) as i64, y: (size.1 / 2) as i64 },
        kind: Obstacle::Solid,
        alive: true,
    }
}

/// The left, right, bottom and top walls of a window of the given full size.
pub open spec fn window_walls(window: Vec2) -> Seq<Block> {
    let t = WALL_THICKNESS as int;
    seq![
        solid((-(window.x / 2), 0), (t, window.y + t)),
        solid((window.x / 2, 0), (t, window.y + t)),
        solid((0, -(window.y / 2)), (window.x + t, t)),
        solid((0, window.y / 2), (window.x + t, t)),
    ]
}

fn solid_block(x: i64, y: i64, w: i64, h: i64) -> (r: Block)
    requires
        0 <= w,
        0 <= h,
    ensures
        r == solid((x as int, y as int), (w as int, h as int)),
{
    Block { pos: Vec2 { x, y }, half: Vec2 { x: w / 2, y: h / 2 }, kind: Obstacle::Solid, alive: true }
}

/// Adds the four walls around a window of the given full size.
pub fn setup_walls(blocks: &mut Vec<Block>, window: Vec2)
    requires
        0 < window.x <= SIZE_LIMIT,
        0 < window.y <= SIZE_LIMIT,
    ensures
        final(blocks)@ == old(blocks)@ + window_walls(window),
{
    let t = WALL_THICKNESS;
    blocks.push(solid_block(-(window.x / 2), 0, t, window.y + t));
    blocks.push(solid_block(window.x / 2, 0, t, window.y + t));
    blocks.push(solid_block(0, -(window.y / 2), window.x + t, t));
    blocks.push(solid_block(0, window.y / 2, window.x + t, t));
    assert(blocks@ =~= old(blocks)@ + window_walls(window));
}

impl Breakout {
    /// A new game in a window of the given full size: the ball below the
    /// middle heading down and to the right, the paddle in the middle, the
    /// four walls, and no score.
    pub fn setup(window: Vec2) -> (g: Breakout)
        requires
            0 < window.x <= SIZE_LIMIT,
            0 < window.y <= SIZE_LIMIT,
        ensures
            g.ball_pos == (Vec2 { x: 0, y: -3000i64 }),
            (g.ball_vel.x as int, g.ball_vel.y as int) == scaled_to_length(
                Vec2 { x: 1000, y: -1000i64 },
                BREAKOUT_BALL_SPEED as int,
            ),
            g.ball_half == (Vec2 { x: 900, y: 900 }),
            g.paddle == (Paddle {
                speed: PADDLE_SPEED,
                direction: Vec2 { x: 0, y: 0 },
                pos: Vec2 { x: 0, y: 0 },
                half: Vec2 { x: 3600, y: 900 },
            }),
            g.blocks@ == window_walls(window),
            g.score == 0,
    {
        let mut blocks: Vec<Block> = Vec::new();
        setup_walls(&mut blocks, window);
        assert(blocks@ =~= window_walls(window));
        Breakout {
            ball_pos: Vec2 { x: 0, y: -3000 },
            ball_vel: scale_to_length(Vec2 { x: 1000, y: -1000 }, BREAKOUT_BALL_SPEED),
            ball_half: Vec2 { x: 900, y: 900 },
            paddle: Paddle {
                speed: PADDLE_SPEED,
                direction: Vec2 { x: 0, y: 0 },
                pos: Vec2 { x: 0, y: 0 },
                half: Vec2 { x: 3600, y: 900 },
            },
            blocks,
            score: 0,
        }
    }
}

pub open spec fn block_alive() -> spec_fn(Block) -> bool {
    |b: Block| b.alive
}

impl Breakout {
    /// Drops the bricks collected during the tick; the other blocks keep their
    /// order.
    pub fn compact(&mut self)
        ensures
            final(self).blocks@ == old(self).blocks@.filter(block_alive()),
            forall|i: int| 0 <= i < final(self).blocks@.len() ==> #[trigger] final(self).blocks@[i].alive,
            final(self).ball_pos == old(self).ball_pos,
            final(self).ball_vel == old(self).ball_vel,
            final(self).ball_half == old(self).ball_half,
            final(self).paddle == old(self).paddle,
            final(self).score == old(self).score,
    {
        let ghost s = self.blocks@;
        let ghost pred = block_alive();
        let mut kept: Vec<Block> = Vec::new();
        let n = self.blocks.len();
        let mut i: usize = 0;
        while i < n
            invariant
                n == s.len(),
                self.blocks@ == s,
                pred == block_alive(),
                0 <= i <= n,
                kept@ == s.subrange(0, i as int).filter(pred),
            decreases n - i,
        {
            let b = self.blocks[i];
            let ghost prefix = s.subrange(0, i as int + 1);
            proof {
                assert(prefix.drop_last() =~= s.subrange(0, i as int));
                assert(prefix.last() == b);
                reveal(Seq::filter);
                assert(prefix.filter(pred) == if pred(b) {
                    s.subrange(0, i as int).filter(pred).push(b)
                } else {
                    s.subrange(0, i as int).filter(pred)
                });
            }
            if b.alive {
                kept.push(b);
            }
            i = i + 1;
        }
        proof {
            assert(s.subrange(0, n as int) =~= s);
            broadcast use vstd::seq_lib::group_filter_ensures;
        }
        self.blocks = kept;
    }
}

} // verus!
