use vstd::prelude::*;
use crate::balls::{ball_body, BALL_SPEED};
use crate::body::{advance, advanced, can_advance, Body, Collider};
use crate::geom::{scale_to_length, scaled_to_length, Vec2};
use crate::random::random_in;
use crate::timer::Countdown;
use crate::world::{only_bodies_changed, World};

verus! {

/// The speed of an enemy ship, in units per tick.
pub const SHIP_SPEED: i64 = 100;

/// The ships that fly toward the cannon and shoot at it.
pub struct EnemyShips;

pub open spec fn to_vec(v: (int, int)) -> Vec2 {
    Vec2 { x: v.0 as i64, y: v.1 as i64 }
}

/// The point lies on the play field, edges included.
pub open spec fn on_field(world: World, p: Vec2) -> bool {
    &&& -(world.params.background.x / 2) <= p.x <= world.params.background.x / 2
    &&& -(world.params.background.y / 2) <= p.y <= world.params.background.y / 2
}

/// The point lies on an edge of the play field.
pub open spec fn on_edge(world: World, p: Vec2) -> bool {
    &&& on_field(world, p)
    &&& {
        ||| p.x == -(world.params.background.x / 2)
        ||| p.x == world.params.background.x / 2
        ||| p.y == -(world.params.background.y / 2)
        ||| p.y == world.params.background.y / 2
    }
}

/// A ship at `pos` heading for the cannon; it shoots along the same line.
pub open spec fn ship_body(world: World, pos: Vec2) -> Body {
    let to_cannon = Vec2 {
        x: (world.cannon.pos.x - pos.x) as i64,
        y: (world.cannon.pos.y - pos.y) as i64,
    };
    Body {
        pos,
        vel: to_vec(scaled_to_length(to_cannon, SHIP_SPEED as int)),
        half: Vec2 { x: (world.params.enemyship.x / 2) as i64, y: (world.params.enemyship.y / 2) as i64 },
        collider: Collider::Enemyship,
        spin: 0,
        aim: to_vec(scaled_to_length(to_cannon, BALL_SPEED as int)),
        alive: true,
    }
}

pub open spec fn is_live_ship() -> spec_fn(Body) -> bool {
    |b: Body| b.alive && b.collider == Collider::Enemyship
}

/// The enemy shots fired by the ships among `s`, in order.
pub open spec fn volley(world: World, s: Seq<Body>) -> Seq<Body> {
    s.filter(is_live_ship()).map_values(|b: Body| ball_body(world, b.pos, b.aim, Collider::Enemyball))
}

impl EnemyShips {
    /// Adds a ship at `pos` heading for the cannon.
    pub fn spawn_at(world: &mut World, pos: Vec2)
        requires
            old(world).wf(),
            on_field(*old(world), pos),
        ensures
            final(world).bodies@ == old(world).bodies@.push(ship_body(*old(world), pos)),
            only_bodies_changed(*old(world), *final(world)),
    {
        let to_cannon = Vec2 { x: world.cannon.pos.x - pos.x, y: world.cannon.pos.y - pos.y };
        let vel = scale_to_length(to_cannon, SHIP_SPEED);
        let aim = scale_to_length(to_cannon, BALL_SPEED);
        let half = Vec2 { x: world.params.enemyship.x / 2, y: world.params.enemyship.y / 2 };
        world.bodies.push(Body { pos, vel, half, collider: Collider::Enemyship, spin: 0, aim, alive: true });
    }

    /// Advances the ship timer by `delta_ms`; when it runs out, a ship enters
    /// at a drawn point of a drawn edge and the timer is re-armed for a drawn
    /// number of whole seconds.
    pub fn spawner(world: &mut World, delta_ms: u64)
        requires
            old(world).wf(),
        ensures
            final(world).wf(),
            ({
                let ticked = old(world).enemy_ship_timer.ticked(delta_ms as int);
                if ticked.finished {
                    &&& final(world).bodies@.len() == old(world).bodies@.len() + 1
                    &&& final(world).bodies@.drop_last() == old(world).bodies@
                    &&& exists|p: Vec2| #[trigger] on_edge(*old(world), p)
                        && final(world).bodies@.last() == ship_body(*old(world), p)
                    &&& exists|secs: int| 5 <= secs < 10 && #[trigger] (secs * 1000) == final(world).enemy_ship_timer.duration_ms
                    &&& final(world).enemy_ship_timer == (Countdown {
                            duration_ms: final(world).enemy_ship_timer.duration_ms,
                            elapsed_ms: 0,
                            finished: false,
                            just_finished: false,
                            ..ticked
                        })
                } else {
                    &&& final(world).bodies@ == old(world).bodies@
                    &&& final(world).enemy_ship_timer == ticked
                }
            }),
            final(world).params == old(world).params,
            final(world).particles@ == old(world).particles@,
            final(world).burst == old(world).burst,
            final(world).cannon == old(world).cannon,
            final(world).scoreboard == old(world).scoreboard,
            final(world).state == old(world).state,
            final(world).main_timer == old(world).main_timer,
            final(world).enemy_timer == old(world).enemy_timer,
            final(world).enemy_shot_timer == old(world).enemy_shot_timer,
            final(world).ball_timer == old(world).ball_timer,
    {
        world.enemy_ship_timer.tick(delta_ms);
        if !world.enemy_ship_timer.finished() {
            return;
        }
        let side = random_in(0, 4);
        let maxx: i64 = world.params.background.x / 2;
        let maxy: i64 = world.params.background.y / 2;
        let rand_x = random_in(-maxx, maxx);
        let rand_y = random_in(-maxy, maxy);
        let pos = if side == 0 {
            Vec2 { x: -maxx, y: rand_y }
        } else if side == 1 {
            Vec2 { x: maxx, y: rand_y }
        } else if side == 2 {
            Vec2 { x: rand_x, y: -maxy }
        } else {
            Vec2 { x: rand_x, y: maxy }
        };
        assert(on_edge(*old(world), pos));
        EnemyShips::spawn_at(world, pos);
        let secs = random_in(5, 10);
        world.enemy_ship_timer.rearm((secs * 1000) as u64);
        assert((secs * 1000) == world.enemy_ship_timer.duration_ms);
    }

    /// Moves every ship one tick toward where the cannon was when it entered.
    pub fn update(world: &mut World)
        requires
            can_advance(old(world).bodies@, Collider::Enemyship, Collider::Enemyship),
        ensures
            final(world).bodies@.len() == old(world).bodies@.len(),
            forall|k: int| 0 <= k < old(world).bodies@.len() ==> #[trigger] final(world).bodies@[k] == advanced(
                old(world).bodies@[k],
                Collider::Enemyship,
                Collider::Enemyship,
            ),
            only_bodies_changed(*old(world), *final(world)),
    {
        advance(&mut world.bodies, Collider::Enemyship, Collider::Enemyship);
    }

    /// Advances the shot timer by `delta_ms`; each time it runs out it starts
    /// over and every ship fires an enemy shot along its aim.
    pub fn shoot(world: &mut World, delta_ms: u64)
        requires
            old(world).wf(),
        ensures
            final(world).wf(),
            ({
                let ticked = old(world).enemy_shot_timer.ticked(delta_ms as int);
                if ticked.finished {
                    &&& final(world).enemy_shot_timer == ticked.restarted()
                    &&& final(world).bodies@ == old(world).bodies@ + volley(*old(world), old(world).bodies@)
                } else {
                    &&& final(world).enemy_shot_timer == ticked
                    &&& final(world).bodies@ == old(world).bodies@
                }
            }),
            final(world).params == old(world).params,
            final(world).particles@ == old(world).particles@,
            final(world).burst == old(world).burst,
            final(world).cannon == old(world).cannon,
            final(world).scoreboard == old(world).scoreboard,
            final(world).state == old(world).state,
            final(world).main_timer == old(world).main_timer,
            final(world).enemy_timer == old(world).enemy_timer,
            final(world).enemy_ship_timer == old(world).enemy_ship_timer,
            final(world).ball_timer == old(world).ball_timer,
    {
        if !world.enemy_shot_timer.fire(delta_ms) {
            return;
        }
        let ghost w1 = *world;
        let ghost start = world.bodies@;
        let ghost pred = is_live_ship();
        let ghost f = |b: Body| ball_body(w1, b.pos, b.aim, Collider::Enemyball);
        let n = world.bodies.len();
        let half = Vec2 { x: world.params.ball.x / 2, y: world.params.ball.y / 2 };
        let mut i: usize = 0;
        while i < n
            invariant
                0 <= i <= n,
                n == start.len(),
                pred == is_live_ship(),
                f == (|b: Body| ball_body(w1, b.pos, b.aim, Collider::Enemyball)),
                half == (Vec2 { x: (w1.params.ball.x / 2) as i64, y: (w1.params.ball.y / 2) as i64 }),
                w1.params.wf(),
                world.bodies@ == start + start.subrange(0, i as int).filter(pred).map_values(f),
                only_bodies_changed(w1, *world),
            decreases n - i,
        {
            let b = world.bodies[i];
            let ghost prefix = start.subrange(0, i as int + 1);
            proof {
                assert(world.bodies@[i as int] == start[i as int]);
                assert(prefix.drop_last() =~= start.subrange(0, i as int));
                assert(prefix.last() == b);
                reveal(Seq::filter);
                assert(prefix.filter(pred) == if pred(b) {
                    start.subrange(0, i as int).filter(pred).push(b)
                } else {
                    start.subrange(0, i as int).filter(pred)
                });
            }
            if b.alive && b.collider == Collider::Enemyship {
                world.bodies.push(
                    Body {
                        pos: b.pos,
                        vel: b.aim,
                        half,
                        collider: Collider::Enemyball,
                        spin: 0,
                        aim: Vec2 { x: 0, y: 0 },
                        alive: true,
                    },
                );
                proof {
                    assert(prefix.filter(pred).map_values(f) =~= start.subrange(0, i as int).filter(pred).map_values(
                        f,
                    ).push(f(b)));
                }
            }
            i = i + 1;
        }
        proof {
            assert(start.subrange(0, n as int) =~= start);
        }
    }
}

} // verus!
