use vstd::prelude::*;
use crate::body::{Body, Direction};
use crate::geom::Vec2;
use crate::stages::AppState;
use crate::timer::Countdown;

verus! {

/// The largest size, in units, that a parameter of the play field may take.
pub const SIZE_LIMIT: i64 = 0x100_0000;

/// Sizes of the play field and of each kind of sprite, each the full width
/// and height, in units.
#[derive(Clone, Copy, Debug, PartialEq, Eq, Structural)]
pub struct Params {
    pub background: Vec2,
    pub bounds: Vec2,
    pub cannon: Vec2,
    pub wall: i64,
    pub ball: Vec2,
    pub spacejunk: Vec2,
    pub enemyship: Vec2,
    pub energy: Vec2,
    pub num_of_energies: u64,
}

/// A full size that is at least two units and at most `SIZE_LIMIT` on each axis.
pub open spec fn size_ok(v: Vec2) -> bool {
    2 <= v.x <= SIZE_LIMIT && 2 <= v.y <= SIZE_LIMIT
}

impl Params {
    /// Every size is sane, and the cannon and the energy cells fit inside the
    /// play field with room to move.
    pub open spec fn wf(self) -> bool {
        &&& size_ok(self.background)
        &&& size_ok(self.bounds)
        &&& size_ok(self.cannon)
        &&& size_ok(self.ball)
        &&& size_ok(self.spacejunk)
        &&& size_ok(self.enemyship)
        &&& size_ok(self.energy)
        &&& self.cannon.x + 2 <= self.background.x
        &&& self.cannon.y + 2 <= self.background.y
        &&& self.energy.x + 2 <= self.background.x
        &&& self.energy.y + 2 <= self.background.y
        &&& 2 <= self.wall <= SIZE_LIMIT
        &&& 7 <= self.spacejunk.x
        &&& 7 <= self.spacejunk.y
        &&& self.num_of_energies <= 0x1_0000
    }
}

impl Params {
    /// The shooter's field for a window of the given full size: a background
    /// of 3072 by 2304 pixels, and the sprite sizes of the game, in units.
    pub fn shooter(bounds: Vec2) -> (p: Params)
        requires
            size_ok(bounds),
        ensures
            p.wf(),
            p == (Params {
                background: Vec2 { x: 184_320, y: 138_240 },
                bounds,
                cannon: Vec2 { x: 4_800, y: 2_880 },
                wall: 1_200,
                ball: Vec2 { x: 960, y: 960 },
                spacejunk: Vec2 { x: 15_000, y: 11_880 },
                enemyship: Vec2 { x: 3_456, y: 4_500 },
                energy: Vec2 { x: 3_840, y: 3_840 },
                num_of_energies: 5,
            }),
    {
        Params {
            background: Vec2 { x: 184_320, y: 138_240 },
            bounds,
            cannon: Vec2 { x: 4_800, y: 2_880 },
            wall: 1_200,
            ball: Vec2 { x: 960, y: 960 },
            spacejunk: Vec2 { x: 15_000, y: 11_880 },
            enemyship: Vec2 { x: 3_456, y: 4_500 },
            energy: Vec2 { x: 3_840, y: 3_840 },
            num_of_energies: 5,
        }
    }
}

/// The score and the health of the player for one session.
#[derive(Clone, Copy, Debug, PartialEq, Eq, Structural)]
pub struct Scoreboard {
    pub score: u64,
    pub health: u64,
}

/// The player's cannon: speed per tick, facing, centre and half-extent.
#[derive(Clone, Copy, Debug, PartialEq, Eq, Structural)]
pub struct Cannon {
    pub speed: i64,
    pub direction: Direction,
    pub pos: Vec2,
    pub half: Vec2,
}

/// A particle of an explosion: it moves and shrinks until it is too small.
#[derive(Clone, Copy, Debug, PartialEq, Eq, Structural)]
pub struct Particle {
    pub pos: Vec2,
    pub vel: Vec2,
    pub size: i64,
}

/// How explosions burst: the speed of each particle, its size at birth, the
/// percentage of its size it keeps each tick, and the directions in which the
/// particles fly (one particle per direction).
#[derive(Clone, Debug)]
pub struct Particles {
    pub speed: i64,
    pub size: i64,
    pub shrink_percent: i64,
    pub directions: Vec<Vec2>,
}

/// One play session of the shooter: every body, the player, the counters,
/// the phase and the timers.
pub struct World {
    pub params: Params,
    pub bodies: Vec<Body>,
    pub particles: Vec<Particle>,
    pub burst: Particles,
    pub cannon: Cannon,
    pub scoreboard: Scoreboard,
    pub state: AppState,
    pub main_timer: Countdown,
    pub enemy_timer: Countdown,
    pub enemy_ship_timer: Countdown,
    pub enemy_shot_timer: Countdown,
    pub ball_timer: Option<Countdown>,
}

pub open spec fn is_alive() -> spec_fn(Body) -> bool {
    |b: Body| b.alive
}

/// A body lies beyond the play field by more than its own size.
pub open spec fn out_of_field(params: Params, b: Body) -> bool {
    let maxx = params.background.x / 2 + 2 * b.half.x;
    let maxy = params.background.y / 2 + 2 * b.half.y;
    b.pos.x < -maxx || b.pos.x > maxx || b.pos.y < -maxy || b.pos.y > maxy
}

pub open spec fn despawned(b: Body) -> Body {
    Body { alive: false, ..b }
}

/// Removes every body that has a collider.
pub fn cleanup_colliders(world: &mut World)
    ensures
        final(world).bodies@.len() == 0,
        only_bodies_changed(*old(world), *final(world)),
{
    world.bodies = Vec::new();
}

/// Despawns every body that has left the play field by more than its size.
pub fn cleanup_boundaries(world: &mut World)
    requires
        old(world).params.wf(),
    ensures
        final(world).bodies@.len() == old(world).bodies@.len(),
        forall|i: int| 0 <= i < old(world).bodies@.len() ==> #[trigger] final(world).bodies@[i] == if out_of_field(old(world).params, old(world).bodies@[i]) {
            despawned(old(world).bodies@[i])
        } else {
            old(world).bodies@[i]
        },
        only_bodies_changed(*old(world), *final(world)),
{
    let n = world.bodies.len();
    let hx: i64 = world.params.background.x / 2;
    let hy: i64 = world.params.background.y / 2;
    let mut i: usize = 0;
    while i < n
        invariant
            n == world.bodies@.len(),
            n == old(world).bodies@.len(),
            0 <= i <= n,
            hx == world.params.background.x / 2,
            hy == world.params.background.y / 2,
            only_bodies_changed(*old(world), *world),
            forall|k: int| 0 <= k < i ==> #[trigger] world.bodies@[k] == if out_of_field(old(world).params, old(world).bodies@[k]) {
                despawned(old(world).bodies@[k])
            } else {
                old(world).bodies@[k]
            },
            forall|k: int| i <= k < n ==> #[trigger] world.bodies@[k] == old(world).bodies@[k],
        decreases n - i,
    {
        let b = world.bodies[i];
        let maxx: i128 = hx as i128 + 2 * (b.half.x as i128);
        let maxy: i128 = hy as i128 + 2 * (b.half.y as i128);
        let x = b.pos.x as i128;
        let y = b.pos.y as i128;
        if x < -maxx || x > maxx || y < -maxy || y > maxy {
            world.bodies.set(i, Body { alive: false, ..b });
        }
        i = i + 1;
    }
}

impl World {
    /// Drops the bodies despawned during the tick; the others keep their order.
    pub fn compact(&mut self)
        ensures
            final(self).bodies@ == old(self).bodies@.filter(is_alive()),
            forall|i: int| 0 <= i < final(self).bodies@.len() ==> #[trigger] final(self).bodies@[i].alive,
            only_bodies_changed(*old(self), *final(self)),
    {
        let ghost s = self.bodies@;
        let ghost pred = is_alive();
        let mut kept: Vec<Body> = Vec::new();
        let n = self.bodies.len();
        let mut i: usize = 0;
        while i < n
            invariant
                n == s.len(),
                self.bodies@ == s,
                pred == is_alive(),
                0 <= i <= n,
                kept@ == s.subrange(0, i as int).filter(pred),
            decreases n - i,
        {
            let b = self.bodies[i];
            let ghost prefix = s.subrange(0, i as int + 1);
            proof {
                assert(prefix.drop_last() =~= s.subrange(0, i as int));
                assert(prefix.last() == b);
                reveal(Seq::filter);
                assert(prefix.filter(pred) == if pred(b) {
                    s.subrange(0, i as int).filter(pred).push(b)
                } else {
                    s.subrange(0, i as int).filter(pred)
                });
            }
            if b.alive {
                kept.push(b);
            }
            i = i + 1;
        }
        proof {
            assert(s.subrange(0, n as int) =~= s);
            broadcast use vstd::seq_lib::group_filter_ensures;
        }
        self.bodies = kept;
    }
}

} // verus!

verus! {

impl World {
    /// The parameters are sane, the timers are consistent and the cannon is
    /// on the play field.
    pub open spec fn wf(self) -> bool {
        &&& self.params.wf()
        &&& self.burst.wf()
        &&& self.main_timer.wf()
        &&& self.enemy_timer.wf()
        &&& self.enemy_ship_timer.wf()
        &&& self.enemy_shot_timer.wf()
        &&& (self.ball_timer matches Some(t) ==> t.wf())
        &&& 0 < self.cannon.half.x <= SIZE_LIMIT
        &&& 0 < self.cannon.half.y <= SIZE_LIMIT
        &&& 0 <= self.cannon.speed <= SIZE_LIMIT
        &&& -(self.params.background.x / 2) <= self.cannon.pos.x <= self.params.background.x / 2
        &&& -(self.params.background.y / 2) <= self.cannon.pos.y <= self.params.background.y / 2
    }
}

/// Everything but the bodies is as it was.
pub open spec fn only_bodies_changed(a: World, b: World) -> bool {
    &&& a.params == b.params
    &&& a.particles@ == b.particles@
    &&& a.burst == b.burst
    &&& a.cannon == b.cannon
    &&& a.scoreboard == b.scoreboard
    &&& a.state == b.state
    &&& a.main_timer == b.main_timer
    &&& a.enemy_timer == b.enemy_timer
    &&& a.enemy_ship_timer == b.enemy_ship_timer
    &&& a.enemy_shot_timer == b.enemy_shot_timer
    &&& a.ball_timer == b.ball_timer
}

/// Everything but the cannon and the phase is as it was.
pub open spec fn only_cannon_changed(a: World, b: World) -> bool {
    &&& a.params == b.params
    &&& a.bodies@ == b.bodies@
    &&& a.particles@ == b.particles@
    &&& a.burst == b.burst
    &&& a.scoreboard == b.scoreboard
    &&& a.main_timer == b.main_timer
    &&& a.enemy_timer == b.enemy_timer
    &&& a.enemy_ship_timer == b.enemy_ship_timer
    &&& a.enemy_shot_timer == b.enemy_shot_timer
    &&& a.ball_timer == b.ball_timer
}

/// Both bodies are alive and their boxes overlap.
pub open spec fn touching(a: Body, b: Body) -> bool {
    a.alive && b.alive && crate::geom::overlaps(a.pos, a.half, b.pos, b.half)
}

/// `a + k`, held at the largest `u64`.
pub open spec fn capped_add(a: int, k: int) -> int {
    if a + k > u64::MAX { u64::MAX as int } else { a + k }
}

/// Adds one to a counter, holding it at the largest `u64`.
pub fn bump(c: u64) -> (r: u64)
    ensures
        r == capped_add(c as int, 1),
{
    if c < u64::MAX { c + 1 } else { c }
}

} // verus!
