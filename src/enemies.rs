use vstd::prelude::*;
use crate::body::{fits_step, stepped, step, Body, Collider};
use crate::geom::Vec2;
use crate::random::random_in;
use crate::timer::Countdown;
use crate::world::{only_bodies_changed, World, SIZE_LIMIT};

verus! {

/// The space junk drifting across the field.
pub struct Enemies;

/// The values drawn for one piece of junk: whether it enters from the right
/// and flies left, its height, its velocity, its size in percent of the
/// full junk sprite, its spin, and the seconds until the next one.
#[derive(Clone, Copy, Debug, PartialEq, Eq, Structural)]
pub struct EnemyRoll {
    pub from_right: bool,
    pub y: i64,
    pub speed: Vec2,
    pub size_percent: i64,
    pub spin: i64,
    pub next_secs: i64,
}

/// The half-height of the band in which junk enters.
pub open spec fn junk_band(world: World) -> int {
    world.params.background.y / 2 - world.params.cannon.y / 2
}

/// The drawn values lie in the ranges that junk is drawn from.
pub open spec fn roll_in_range(world: World, r: EnemyRoll) -> bool {
    &&& -junk_band(world) <= r.y < junk_band(world)
    &&& -100 <= r.speed.y < 100
    &&& if r.from_right { -300 <= r.speed.x < -100 } else { 100 <= r.speed.x < 300 }
    &&& 30 <= r.size_percent < 50
    &&& -100 <= r.spin < 100
    &&& 1 <= r.next_secs < 4
}

/// The piece of junk made from the drawn values: it enters just beyond the
/// left or the right edge.
pub open spec fn junk_body(world: World, r: EnemyRoll) -> Body {
    let edge = world.params.background.x / 2 + world.params.cannon.x / 2;
    Body {
        pos: Vec2 { x: (if r.from_right { edge } else { -edge }) as i64, y: r.y },
        vel: r.speed,
        half: Vec2 {
            x: (world.params.spacejunk.x * r.size_percent / 100 / 2) as i64,
            y: (world.params.spacejunk.y * r.size_percent / 100 / 2) as i64,
        },
        collider: Collider::Spacejunk,
        spin: r.spin,
        aim: Vec2 { x: 0, y: 0 },
        alive: true,
    }
}

/// Junk one tick later: moved by its velocity and, once it leaves the field
/// at the top or the bottom, brought in again at the other side.
pub open spec fn junk_moved(world: World, b: Body) -> Body {
    if b.alive && b.collider == Collider::Spacejunk {
        let p = stepped(b.pos, b.vel, 1);
        let maxy = world.params.background.y / 2 + b.half.y;
        let y = if p.y < -maxy { maxy } else if p.y > maxy { -maxy } else { p.y as int };
        Body { pos: Vec2 { x: p.x, y: y as i64 }, ..b }
    } else {
        b
    }
}

/// Each piece of junk can take one step, and its half-height is sane.
pub open spec fn junk_can_move(s: Seq<Body>) -> bool {
    forall|k: int|
        0 <= k < s.len() && #[trigger] s[k].alive && s[k].collider == Collider::Spacejunk ==> {
            &&& fits_step(s[k].pos, s[k].vel, 1)
            &&& 0 <= s[k].half.y <= crate::world::SIZE_LIMIT
        }
}

impl Enemies {
    /// Adds the piece of junk made from the drawn values.
    pub fn spawn_rolled(world: &mut World, roll: EnemyRoll)
        requires
            old(world).params.wf(),
            0 <= roll.size_percent <= 100,
        ensures
            final(world).bodies@ == old(world).bodies@.push(junk_body(*old(world), roll)),
            only_bodies_changed(*old(world), *final(world)),
    {
        assert(0 <= world.params.spacejunk.x * roll.size_percent <= 100 * SIZE_LIMIT
            && 0 <= world.params.spacejunk.y * roll.size_percent <= 100 * SIZE_LIMIT) by (nonlinear_arith)
            requires
                0 < world.params.spacejunk.x <= SIZE_LIMIT,
                0 < world.params.spacejunk.y <= SIZE_LIMIT,
                0 <= roll.size_percent <= 100,
        ;
        let edge: i64 = world.params.background.x / 2 + world.params.cannon.x / 2;
        let x = if roll.from_right { edge } else { -edge };
        let half = Vec2 {
            x: world.params.spacejunk.x * roll.size_percent / 100 / 2,
            y: world.params.spacejunk.y * roll.size_percent / 100 / 2,
        };
        world.bodies.push(
            Body {
                pos: Vec2 { x, y: roll.y },
                vel: roll.speed,
                half,
                collider: Collider::Spacejunk,
                spin: roll.spin,
                aim: Vec2 { x: 0, y: 0 },
                alive: true,
            },
        );
    }

    /// Advances the junk timer by `delta_ms`; when it runs out, a new piece of
    /// junk enters with drawn values and the timer is re-armed for a drawn
    /// number of whole seconds.
    pub fn spawner(world: &mut World, delta_ms: u64)
        requires
            old(world).wf(),
        ensures
            final(world).wf(),
            ({
                let ticked = old(world).enemy_timer.ticked(delta_ms as int);
                if ticked.finished {
                    &&& final(world).bodies@.len() == old(world).bodies@.len() + 1
                    &&& final(world).bodies@.drop_last() == old(world).bodies@
                    &&& exists|r: EnemyRoll| #[trigger] roll_in_range(*old(world), r)
                        && final(world).bodies@.last() == junk_body(*old(world), r)
                        && final(world).enemy_timer == (Countdown {
                            duration_ms: (r.next_secs * 1000) as u64,
                            elapsed_ms: 0,
                            finished: false,
                            just_finished: false,
                            ..ticked
                        })
                } else {
                    &&& final(world).bodies@ == old(world).bodies@
                    &&& final(world).enemy_timer == ticked
                }
            }),
            final(world).params == old(world).params,
            final(world).particles@ == old(world).particles@,
            final(world).burst == old(world).burst,
            final(world).cannon == old(world).cannon,
            final(world).scoreboard == old(world).scoreboard,
            final(world).state == old(world).state,
            final(world).main_timer == old(world).main_timer,
            final(world).enemy_ship_timer == old(world).enemy_ship_timer,
            final(world).enemy_shot_timer == old(world).enemy_shot_timer,
            final(world).ball_timer == old(world).ball_timer,
    {
        world.enemy_timer.tick(delta_ms);
        if !world.enemy_timer.finished() {
            return;
        }
        let from_right = random_in(0, 2) == 1;
        let band: i64 = world.params.background.y / 2 - world.params.cannon.y / 2;
        let y = random_in(-band, band);
        let speed_y = random_in(-100, 100);
        let speed_x = if from_right { random_in(-300, -100) } else { random_in(100, 300) };
        let size_percent = random_in(30, 50);
        let spin = random_in(-100, 100);
        let next_secs = random_in(1, 4);
        let roll = EnemyRoll { from_right, y, speed: Vec2 { x: speed_x, y: speed_y }, size_percent, spin, next_secs };
        assert(roll_in_range(*old(world), roll));
        Enemies::spawn_rolled(world, roll);
        world.enemy_timer.rearm((next_secs * 1000) as u64);
    }

    /// Moves every piece of junk one tick; junk that leaves at the top or the
    /// bottom comes back at the other side.
    pub fn update(world: &mut World)
        requires
            old(world).params.wf(),
            junk_can_move(old(world).bodies@),
        ensures
            final(world).bodies@.len() == old(world).bodies@.len(),
            forall|k: int| 0 <= k < old(world).bodies@.len() ==> #[trigger] final(world).bodies@[k] == junk_moved(
                *old(world),
                old(world).bodies@[k],
            ),
            only_bodies_changed(*old(world), *final(world)),
    {
        let ghost before = world.bodies@;
        let ghost w0 = *old(world);
        let hy: i64 = world.params.background.y / 2;
        let n = world.bodies.len();
        let mut i: usize = 0;
        while i < n
            invariant
                0 <= i <= n,
                n == before.len(),
                n == world.bodies@.len(),
                hy == world.params.background.y / 2,
                world.params.wf(),
                junk_can_move(before),
                w0.params == world.params,
                forall|k: int| 0 <= k < i ==> #[trigger] world.bodies@[k] == junk_moved(w0, before[k]),
                forall|k: int| i <= k < n ==> #[trigger] world.bodies@[k] == before[k],
                before == old(world).bodies@,
                only_bodies_changed(*old(world), *world),
            decreases n - i,
        {
            let b = world.bodies[i];
            if b.alive && b.collider == Collider::Spacejunk {
                assert(junk_can_move(before) && before[i as int].alive);
                let p = step(b.pos, b.vel, 1);
                let maxy: i64 = hy + b.half.y;
                let y = if p.y < -maxy { maxy } else if p.y > maxy { -maxy } else { p.y };
                world.bodies.set(i, Body { pos: Vec2 { x: p.x, y }, ..b });
            }
            i = i + 1;
        }
    }
}

} // verus!
