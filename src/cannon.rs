use vstd::prelude::*;
use crate::body::{Body, Collider, Direction};
use crate::geom::{overlap, overlaps, scaled_component, Vec2};
use crate::stages::AppState;
use crate::world::{despawned, only_cannon_changed, Cannon, Particles, World, SIZE_LIMIT};

verus! {

/// The speed of the cannon, in units per tick.
pub const CANNON_SPEED: i64 = 500;

/// The arrow keys held down during a tick.
#[derive(Clone, Copy, Debug, PartialEq, Eq, Structural)]
pub struct Keys {
    pub up: bool,
    pub down: bool,
    pub left: bool,
    pub right: bool,
}

/// Seven tenths of a half-extent, rounded toward zero: collisions with the
/// cannon use boxes smaller than the sprites.
pub open spec fn shrunk(h: Vec2) -> Vec2 {
    Vec2 { x: scaled_component(h.x as int, 7, 10) as i64, y: scaled_component(h.y as int, 7, 10) as i64 }
}

fn shrink_component(c: i64) -> (r: i64)
    ensures
        r == scaled_component(c as int, 7, 10),
{
    let m: i128 = if c < 0 { -(c as i128) } else { c as i128 };
    let q: i128 = m * 7 / 10;
    if c < 0 {
        -(q as i64)
    } else {
        q as i64
    }
}

fn shrink(h: Vec2) -> (r: Vec2)
    ensures
        r == shrunk(h),
{
    Vec2 { x: shrink_component(h.x), y: shrink_component(h.y) }
}

/// The body is alive, is not a shot of the player, and touches the cannon. A
/// shot of the enemy is tested with its full box, anything else shrunk.
pub open spec fn hurts(c: Cannon, b: Body) -> bool {
    let other = if b.collider == Collider::Enemyball { b.half } else { shrunk(b.half) };
    &&& b.alive
    &&& b.collider != Collider::Selfball
    &&& overlaps(c.pos, shrunk(c.half), b.pos, other)
}

/// How many of the first `n` bodies hurt the cannon.
pub open spec fn count_hurts(c: Cannon, s: Seq<Body>, n: int) -> nat
    decreases n,
{
    if n <= 0 {
        0
    } else {
        count_hurts(c, s, n - 1) + if hurts(c, s[n - 1]) { 1nat } else { 0nat }
    }
}

/// The cannon's position, `n` times: one burst starts there per hit.
pub open spec fn at_cannon(c: Cannon, n: int) -> Seq<Vec2> {
    Seq::new(n as nat, |k: int| c.pos)
}

/// `a - k`, held at zero.
pub open spec fn floored_sub(a: int, k: int) -> int {
    if a - k < 0 { 0 } else { a - k }
}

/// The sum of the keys held, on each axis.
pub open spec fn key_dir(k: Keys) -> (int, int) {
    (
        (if k.right { 1int } else { 0int }) - (if k.left { 1int } else { 0int }),
        (if k.up { 1int } else { 0int }) - (if k.down { 1int } else { 0int }),
    )
}

/// The way the cannon faces after the keys: right wins over left.
pub open spec fn facing(k: Keys, d: Direction) -> Direction {
    if k.right {
        Direction::Right
    } else if k.left {
        Direction::Left
    } else {
        d
    }
}

/// `v` clamped to `-m..=m` as `min(m)` then `max(-m)` do it.
pub open spec fn clamp_sym(v: int, m: int) -> int {
    let lo = if v < m { v } else { m };
    if lo > -m { lo } else { -m }
}

/// The cannon after one tick of the given keys.
pub open spec fn cannon_moved(world: World, k: Keys) -> Cannon {
    let c = world.cannon;
    let xmax = world.params.background.x / 2 - world.params.cannon.x / 2;
    let ymax = world.params.background.y / 2 - world.params.cannon.y / 2;
    let x = c.pos.x + key_dir(k).0 * c.speed;
    let y = c.pos.y + key_dir(k).1 * c.speed;
    Cannon {
        direction: facing(k, c.direction),
        pos: Vec2 { x: clamp_sym(x, xmax) as i64, y: clamp_sym(y, ymax) as i64 },
        ..c
    }
}

impl Cannon {
    /// The cannon at the start of a game: in the middle, facing right.
    pub open spec fn fresh(world: World) -> Cannon {
        Cannon {
            speed: CANNON_SPEED,
            direction: Direction::Right,
            pos: Vec2 { x: 0, y: 0 },
            half: Vec2 { x: (world.params.cannon.x / 2) as i64, y: (world.params.cannon.y / 2) as i64 },
        }
    }

    /// Places a fresh cannon.
    pub fn setup(world: &mut World)
        requires
            old(world).wf(),
        ensures
            final(world).wf(),
            final(world).cannon == Cannon::fresh(*old(world)),
            only_cannon_changed(*old(world), *final(world)),
            final(world).state == old(world).state,
    {
        world.cannon = Cannon {
            speed: CANNON_SPEED,
            direction: Direction::Right,
            pos: Vec2 { x: 0, y: 0 },
            half: Vec2 { x: world.params.cannon.x / 2, y: world.params.cannon.y / 2 },
        };
    }

    /// Brings the cannon back to the middle.
    pub fn reset(world: &mut World)
        requires
            old(world).wf(),
        ensures
            final(world).wf(),
            final(world).cannon == (Cannon { pos: Vec2 { x: 0, y: 0 }, ..old(world).cannon }),
            only_cannon_changed(*old(world), *final(world)),
            final(world).state == old(world).state,
    {
        world.cannon.pos = Vec2 { x: 0, y: 0 };
    }

    /// Despawns every body that hurts the cannon; each one costs a point of
    /// health (never below zero) and starts a burst of particles at the cannon.
    pub fn collision(world: &mut World)
        requires
            old(world).burst.wf(),
        ensures
            final(world).bodies@.len() == old(world).bodies@.len(),
            forall|k: int| 0 <= k < old(world).bodies@.len() ==> #[trigger] final(world).bodies@[k] == if hurts(
                old(world).cannon,
                old(world).bodies@[k],
            ) {
                despawned(old(world).bodies@[k])
            } else {
                old(world).bodies@[k]
            },
            final(world).scoreboard.health == floored_sub(
                old(world).scoreboard.health as int,
                count_hurts(old(world).cannon, old(world).bodies@, old(world).bodies@.len() as int) as int,
            ),
            final(world).scoreboard.score == old(world).scoreboard.score,
            final(world).particles@ == old(world).particles@ + old(world).burst.bursts_of(
                at_cannon(
                    old(world).cannon,
                    count_hurts(old(world).cannon, old(world).bodies@, old(world).bodies@.len() as int) as int,
                ),
            ),
            final(world).params == old(world).params,
            final(world).burst == old(world).burst,
            final(world).cannon == old(world).cannon,
            final(world).state == old(world).state,
            final(world).main_timer == old(world).main_timer,
            final(world).enemy_timer == old(world).enemy_timer,
            final(world).enemy_ship_timer == old(world).enemy_ship_timer,
            final(world).enemy_shot_timer == old(world).enemy_shot_timer,
            final(world).ball_timer == old(world).ball_timer,
    {
        let ghost before = world.bodies@;
        let ghost particles_before = world.particles@;
        let cannon = world.cannon;
        let own = shrink(cannon.half);
        let n = world.bodies.len();
        let mut i: usize = 0;
        while i < n
            invariant
                0 <= i <= n,
                n == before.len(),
                n == world.bodies@.len(),
                own == shrunk(cannon.half),
                cannon == world.cannon,
                world.burst.wf(),
                forall|k: int| 0 <= k < i ==> #[trigger] world.bodies@[k] == if hurts(cannon, before[k]) {
                    despawned(before[k])
                } else {
                    before[k]
                },
                forall|k: int| i <= k < n ==> #[trigger] world.bodies@[k] == before[k],
                world.scoreboard.health == floored_sub(
                    old(world).scoreboard.health as int,
                    count_hurts(cannon, before, i as int) as int,
                ),
                world.scoreboard.score == old(world).scoreboard.score,
                world.particles@ == particles_before + world.burst.bursts_of(
                    at_cannon(cannon, count_hurts(cannon, before, i as int) as int),
                ),
                before == old(world).bodies@,
                particles_before == old(world).particles@,
                world.params == old(world).params,
                world.burst == old(world).burst,
                world.cannon == old(world).cannon,
                world.state == old(world).state,
                world.main_timer == old(world).main_timer,
                world.enemy_timer == old(world).enemy_timer,
                world.enemy_ship_timer == old(world).enemy_ship_timer,
                world.enemy_shot_timer == old(world).enemy_shot_timer,
                world.ball_timer == old(world).ball_timer,
            decreases n - i,
        {
            let b = world.bodies[i];
            let other = if b.collider == Collider::Enemyball { b.half } else { shrink(b.half) };
            if b.alive && b.collider != Collider::Selfball && overlap(cannon.pos, own, b.pos, other) {
                world.bodies.set(i, Body { alive: false, ..b });
                let ghost c = count_hurts(cannon, before, i as int) as int;
                Particles::spawn(&mut world.particles, cannon.pos, &world.burst);
                proof {
                    assert(at_cannon(cannon, c + 1).drop_last() =~= at_cannon(cannon, c));
                    assert(world.particles@ =~= particles_before + world.burst.bursts_of(at_cannon(cannon, c + 1)));
                }
                if world.scoreboard.health > 0 {
                    world.scoreboard.health = world.scoreboard.health - 1;
                }
            }
            i = i + 1;
        }
    }

    /// Moves the cannon with the keys held and keeps it on the play field; a
    /// player out of health ends the game instead.
    pub fn update(world: &mut World, keys: Keys)
        requires
            old(world).wf(),
        ensures
            final(world).wf(),
            if old(world).scoreboard.health == 0 {
                &&& final(world).state == AppState::Finish
                &&& final(world).cannon == old(world).cannon
            } else {
                &&& final(world).state == old(world).state
                &&& final(world).cannon == cannon_moved(*old(world), keys)
            },
            only_cannon_changed(*old(world), *final(world)),
    {
        if world.scoreboard.health == 0 {
            world.state = AppState::Finish;
            return;
        }
        let c = world.cannon;
        let mut dx: i64 = 0;
        let mut dy: i64 = 0;
        let mut facing = c.direction;
        if keys.up {
            dy = dy + 1;
        }
        if keys.down {
            dy = dy - 1;
        }
        if keys.left {
            dx = dx - 1;
            facing = Direction::Left;
        }
        if keys.right {
            dx = dx + 1;
            facing = Direction::Right;
        }
        assert(-SIZE_LIMIT <= dx * c.speed <= SIZE_LIMIT && -SIZE_LIMIT <= dy * c.speed <= SIZE_LIMIT) by (nonlinear_arith)
            requires
                -1 <= dx <= 1,
                -1 <= dy <= 1,
                0 <= c.speed <= SIZE_LIMIT,
        ;
        let x: i64 = c.pos.x + dx * c.speed;
        let y: i64 = c.pos.y + dy * c.speed;
        let xmax: i64 = world.params.background.x / 2 - world.params.cannon.x / 2;
        let ymax: i64 = world.params.background.y / 2 - world.params.cannon.y / 2;
        let x1 = if x < xmax { x } else { xmax };
        let x2 = if x1 > -xmax { x1 } else { -xmax };
        let y1 = if y < ymax { y } else { ymax };
        let y2 = if y1 > -ymax { y1 } else { -ymax };
        world.cannon = Cannon { direction: facing, pos: Vec2 { x: x2, y: y2 }, ..c };
    }
}

} // verus!
