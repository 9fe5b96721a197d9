use vstd::prelude::*;
use crate::body::Direction;
use crate::cannon::CANNON_SPEED;
use crate::geom::Vec2;
use crate::timer::Countdown;
use crate::balls::{resolve, Balls};
use crate::body::{advanced, can_advance, fits_step, selected, Body, Collider};
use crate::cannon::{at_cannon, cannon_moved, count_hurts, floored_sub, hurts, Keys};
use crate::enemies::{junk_moved, Enemies};
use crate::enemyship::EnemyShips;
use crate::energy::{absorbed, placed_energy, Energy};
use crate::geom::SCALE_LIMIT;
use crate::particle::{particle_can_move, particle_moved, particle_survives};
use crate::world::{capped_add, cleanup_boundaries, despawned, is_alive, out_of_field, Cannon, Params, Particle, Particles, Scoreboard, World, SIZE_LIMIT};

verus! {

/// The phase of a play session.
#[derive(Clone, Copy, Debug, PartialEq, Eq, Hash, Structural)]
pub enum AppState {
    Start,
    InGame,
    Finish,
}

/// How long one game lasts.
pub const GAME_MS: u64 = 180_000;

/// The health of the player in the first game of a run.
pub const FIRST_HEALTH: u64 = 5;

/// The health of the player at the start of each game after a reset.
pub const RESET_HEALTH: u64 = 3;

/// The first piece of junk comes after this long, the first ship after
/// `FIRST_SHIP_MS`, and ships fire every `SHOT_PERIOD_MS`.
pub const FIRST_JUNK_MS: u64 = 1000;

pub const FIRST_SHIP_MS: u64 = 5000;

pub const SHOT_PERIOD_MS: u64 = 1000;

/// A fresh countdown.
pub open spec fn fresh(duration_ms: u64) -> Countdown {
    Countdown { duration_ms, elapsed_ms: 0, finished: false, just_finished: false }
}

/// The spawn timers as a new game starts.
pub open spec fn timers_armed(w: World) -> bool {
    &&& w.enemy_timer == fresh(FIRST_JUNK_MS)
    &&& w.enemy_ship_timer == fresh(FIRST_SHIP_MS)
    &&& w.enemy_shot_timer == fresh(SHOT_PERIOD_MS)
    &&& w.ball_timer is None
}

/// The scoreboard and the game clock after a reset.
pub open spec fn scores_reset(old: World, new: World) -> bool {
    &&& new.scoreboard == (Scoreboard { score: 0, health: RESET_HEALTH })
    &&& new.main_timer == (Countdown { elapsed_ms: 0, finished: false, just_finished: false, ..old.main_timer })
}

impl World {
    /// A world in the start menu, with nothing on the field yet.
    pub fn new(params: Params, burst: Particles) -> (w: World)
        requires
            params.wf(),
            burst.wf(),
        ensures
            w.wf(),
            w.params == params,
            w.burst == burst,
            w.bodies@.len() == 0,
            w.particles@.len() == 0,
            w.state == AppState::Start,
            w.scoreboard == (Scoreboard { score: 0, health: FIRST_HEALTH }),
            w.main_timer == fresh(GAME_MS),
            timers_armed(w),
            w.cannon == Cannon::fresh(w),
    {
        World {
            params,
            bodies: Vec::new(),
            particles: Vec::new(),
            burst,
            cannon: Cannon {
                speed: CANNON_SPEED,
                direction: Direction::Right,
                pos: Vec2 { x: 0, y: 0 },
                half: Vec2 { x: params.cannon.x / 2, y: params.cannon.y / 2 },
            },
            scoreboard: Scoreboard { score: 0, health: FIRST_HEALTH },
            state: AppState::Start,
            main_timer: Countdown::new(GAME_MS),
            enemy_timer: Countdown::new(FIRST_JUNK_MS),
            enemy_ship_timer: Countdown::new(FIRST_SHIP_MS),
            enemy_shot_timer: Countdown::new(SHOT_PERIOD_MS),
            ball_timer: None,
        }
    }
}

/// Clears the score, restores the health and restarts the game clock.
pub fn scoreboard_reset(world: &mut World)
    requires
        old(world).wf(),
    ensures
        final(world).wf(),
        scores_reset(*old(world), *final(world)),
        final(world).bodies@ == old(world).bodies@,
        final(world).particles@ == old(world).particles@,
        final(world).params == old(world).params,
        final(world).burst == old(world).burst,
        final(world).cannon == old(world).cannon,
        final(world).state == old(world).state,
        final(world).enemy_timer == old(world).enemy_timer,
        final(world).enemy_ship_timer == old(world).enemy_ship_timer,
        final(world).enemy_shot_timer == old(world).enemy_shot_timer,
        final(world).ball_timer == old(world).ball_timer,
{
    world.scoreboard.score = 0;
    world.scoreboard.health = RESET_HEALTH;
    world.main_timer.reset();
}

/// The menu button. In the start menu a click begins a game: the score and
/// health are reset, the game clock and the spawn timers are armed, the
/// cannon is placed and the energy cells are set out at drawn points. After a game a click tears the field down, resets the
/// counters and returns to the start menu. Anything else changes nothing.
pub fn button(world: &mut World, clicked: bool)
    requires
        old(world).wf(),
    ensures
        final(world).wf(),
        final(world).params == old(world).params,
        final(world).burst == old(world).burst,
        clicked && old(world).state == AppState::Start ==> {
            &&& final(world).state == AppState::InGame
            &&& scores_reset(*old(world), *final(world))
            &&& timers_armed(*final(world))
            &&& final(world).cannon == Cannon::fresh(*old(world))
            &&& final(world).bodies@.len() == old(world).bodies@.len() + old(world).params.num_of_energies
            &&& final(world).bodies@.subrange(0, old(world).bodies@.len() as int) == old(world).bodies@
            &&& forall|k: int| old(world).bodies@.len() <= k < final(world).bodies@.len() ==> #[trigger] placed_energy(
                *old(world),
                final(world).bodies@[k],
            )
            &&& final(world).particles@ == old(world).particles@
        },
        clicked && old(world).state == AppState::Finish ==> {
            &&& final(world).state == AppState::Start
            &&& scores_reset(*old(world), *final(world))
            &&& final(world).bodies@.len() == 0
            &&& final(world).particles@.len() == 0
            &&& final(world).cannon == (Cannon { pos: Vec2 { x: 0, y: 0 }, ..old(world).cannon })
            &&& final(world).enemy_timer == old(world).enemy_timer
            &&& final(world).enemy_ship_timer == old(world).enemy_ship_timer
            &&& final(world).enemy_shot_timer == old(world).enemy_shot_timer
            &&& final(world).ball_timer == old(world).ball_timer
        },
        !(clicked && (old(world).state == AppState::Start || old(world).state == AppState::Finish)) ==> {
            &&& final(world).state == old(world).state
            &&& final(world).scoreboard == old(world).scoreboard
            &&& final(world).main_timer == old(world).main_timer
            &&& final(world).cannon == old(world).cannon
            &&& final(world).bodies@ == old(world).bodies@
            &&& final(world).particles@ == old(world).particles@
        },
{
    if !clicked {
        return;
    }
    match world.state {
        AppState::Start => {
            scoreboard_reset(world);
            world.enemy_timer = Countdown::new(FIRST_JUNK_MS);
            world.enemy_ship_timer = Countdown::new(FIRST_SHIP_MS);
            world.enemy_shot_timer = Countdown::new(SHOT_PERIOD_MS);
            world.ball_timer = None;
            Cannon::setup(world);
            let ghost mid = *world;
            Energy::setup(world);
            world.state = AppState::InGame;
            assert forall|k: int| old(world).bodies@.len() <= k < world.bodies@.len() implies #[trigger] placed_energy(
                *old(world),
                world.bodies@[k],
            ) by {
                assert(placed_energy(mid, world.bodies@[k]));
                assert(mid.params == old(world).params);
            }
        },
        AppState::Finish => {
            crate::world::cleanup_colliders(world);
            world.particles = Vec::new();
            Cannon::reset(world);
            scoreboard_reset(world);
            world.state = AppState::Start;
        },
        AppState::InGame => {},
    }
}

/// Advances the game clock; the game ends on the tick the clock runs out.
pub fn timer_system(world: &mut World, delta_ms: u64)
    requires
        old(world).wf(),
    ensures
        final(world).wf(),
        final(world).main_timer == old(world).main_timer.ticked(delta_ms as int),
        final(world).state == if final(world).main_timer.just_finished {
            AppState::Finish
        } else {
            old(world).state
        },
        final(world).bodies@ == old(world).bodies@,
        final(world).particles@ == old(world).particles@,
        final(world).scoreboard == old(world).scoreboard,
        final(world).params == old(world).params,
        final(world).burst == old(world).burst,
        final(world).cannon == old(world).cannon,
        final(world).enemy_timer == old(world).enemy_timer,
        final(world).enemy_ship_timer == old(world).enemy_ship_timer,
        final(world).enemy_shot_timer == old(world).enemy_shot_timer,
        final(world).ball_timer == old(world).ball_timer,
{
    world.main_timer.tick(delta_ms);
    if world.main_timer.just_finished() {
        world.state = AppState::Finish;
    }
}

/// Whole seconds left on the game clock, as the scoreboard shows them.
pub fn time_left_secs(world: &World) -> (r: u64)
    requires
        world.main_timer.wf(),
    ensures
        r == world.main_timer.duration_ms / 1000 - world.main_timer.elapsed_ms / 1000,
{
    world.main_timer.duration_ms / 1000 - world.main_timer.elapsed_ms / 1000
}

/// What the player does during one tick, and how long the tick lasted.
#[derive(Clone, Copy, Debug, PartialEq, Eq, Structural)]
pub struct TickInput {
    pub delta_ms: u64,
    pub keys: Keys,
    pub clicked: bool,
    pub cursor: Vec2,
}

/// Every alive body and every particle can take one step, and each piece of
/// junk has a sane height.
pub open spec fn steppable(w: World) -> bool {
    &&& forall|k: int| 0 <= k < w.bodies@.len() && #[trigger] w.bodies@[k].alive ==> {
        &&& fits_step(w.bodies@[k].pos, w.bodies@[k].vel, 1)
        &&& 0 <= w.bodies@[k].half.y <= SIZE_LIMIT
    }
    &&& forall|k: int| 0 <= k < w.particles@.len() ==> particle_can_move(#[trigger] w.particles@[k])
}

fn fits_one_step(p: Vec2, v: Vec2) -> (r: bool)
    ensures
        r == fits_step(p, v, 1),
{
    let x: i128 = p.x as i128 + v.x as i128;
    let y: i128 = p.y as i128 + v.y as i128;
    x >= i64::MIN as i128 && x <= i64::MAX as i128 && y >= i64::MIN as i128 && y <= i64::MAX as i128
}

impl World {
    /// Whether one more tick can run without leaving the range of `i64`.
    pub fn can_step(&self) -> (r: bool)
        ensures
            r == steppable(*self),
    {
        let n = self.bodies.len();
        let mut i: usize = 0;
        while i < n
            invariant
                0 <= i <= n,
                n == self.bodies@.len(),
                forall|k: int| 0 <= k < i && #[trigger] self.bodies@[k].alive ==> {
                    &&& fits_step(self.bodies@[k].pos, self.bodies@[k].vel, 1)
                    &&& 0 <= self.bodies@[k].half.y <= SIZE_LIMIT
                },
            decreases n - i,
        {
            let b = self.bodies[i];
            if b.alive && !(fits_one_step(b.pos, b.vel) && 0 <= b.half.y && b.half.y <= SIZE_LIMIT) {
                return false;
            }
            i = i + 1;
        }
        let m = self.particles.len();
        let mut j: usize = 0;
        while j < m
            invariant
                0 <= j <= m,
                m == self.particles@.len(),
                forall|k: int| 0 <= k < n && #[trigger] self.bodies@[k].alive ==> {
                    &&& fits_step(self.bodies@[k].pos, self.bodies@[k].vel, 1)
                    &&& 0 <= self.bodies@[k].half.y <= SIZE_LIMIT
                },
                n == self.bodies@.len(),
                forall|k: int| 0 <= k < j ==> particle_can_move(#[trigger] self.particles@[k]),
            decreases m - j,
        {
            let p = self.particles[j];
            if !(fits_one_step(p.pos, p.vel) && 0 <= p.size && p.size <= SIZE_LIMIT) {
                return false;
            }
            j = j + 1;
        }
        true
    }
}

/// The cannon after the tick's steering: it stays put when the player is out
/// of health.
pub open spec fn cannon_after(w: World, keys: Keys) -> Cannon {
    if w.scoreboard.health == 0 {
        w.cannon
    } else {
        cannon_moved(w, keys)
    }
}

/// A body after the tick's moves: shots, junk and ships each take their step.
pub open spec fn tick_moved(w: World, b: Body) -> Body {
    advanced(
        junk_moved(w, advanced(b, Collider::Selfball, Collider::Enemyball)),
        Collider::Enemyship,
        Collider::Enemyship,
    )
}

/// The bodies after the tick's moves.
pub open spec fn moved_bodies(w: World) -> Seq<Body> {
    w.bodies@.map_values(|b: Body| tick_moved(w, b))
}

/// The moved bodies after the cannon has met them.
pub open spec fn after_cannon(w: World, keys: Keys) -> Seq<Body> {
    moved_bodies(w).map_values(
        |b: Body|
            if hurts(cannon_after(w, keys), b) {
                despawned(b)
            } else {
                b
            },
    )
}

/// Those bodies after the player's shots have met them, and where the bursts
/// of the shots started.
pub open spec fn after_shots(w: World, keys: Keys) -> (Seq<Body>, Seq<Vec2>) {
    resolve(after_cannon(w, keys), after_cannon(w, keys).len() as int)
}

/// Each enemy shot that an energy cell touches, despawned.
pub open spec fn absorb_all(s: Seq<Body>) -> Seq<Body> {
    Seq::new(s.len(), |k: int| if absorbed(s, k) { despawned(s[k]) } else { s[k] })
}

/// A body despawned if it has left the play field by more than its size.
pub open spec fn cleaned(params: Params, b: Body) -> Body {
    if out_of_field(params, b) {
        despawned(b)
    } else {
        b
    }
}

/// The bodies that were there before the tick and are still there after it,
/// in their order, each moved one step.
pub open spec fn survivors(w: World, keys: Keys) -> Seq<Body> {
    absorb_all(after_shots(w, keys).0).map_values(|b: Body| cleaned(w.params, b)).filter(is_alive())
}

/// One tick of play, running the systems in a fixed order: the cannon
/// steers (or the game ends if the player is out of health), everything moves,
/// the cannon, the player's shots and the energy cells meet what they touch,
/// new shots, junk and ships appear, the ships fire, the game clock runs, and
/// bodies that left the field or were consumed are dropped. The bodies that
/// were there before and survive lead the registry, in order; new ones follow.
#[verifier::rlimit(100)]
pub fn ingame(world: &mut World, input: TickInput)
    requires
        old(world).wf(),
        steppable(*old(world)),
        -SCALE_LIMIT <= input.cursor.x <= SCALE_LIMIT,
        -SCALE_LIMIT <= input.cursor.y <= SCALE_LIMIT,
    ensures
        final(world).wf(),
        final(world).main_timer == old(world).main_timer.ticked(input.delta_ms as int),
        final(world).state == if old(world).scoreboard.health == 0 || old(world).main_timer.ticked(
            input.delta_ms as int,
        ).just_finished {
            AppState::Finish
        } else {
            old(world).state
        },
        final(world).cannon == cannon_after(*old(world), input.keys),
        final(world).bodies@.len() >= survivors(*old(world), input.keys).len(),
        final(world).bodies@.subrange(0, survivors(*old(world), input.keys).len() as int) == survivors(
            *old(world),
            input.keys,
        ),
        forall|k: int| 0 <= k < final(world).bodies@.len() ==> #[trigger] final(world).bodies@[k].alive,
        final(world).scoreboard.score == capped_add(
            old(world).scoreboard.score as int,
            after_shots(*old(world), input.keys).1.len() as int,
        ),
        final(world).scoreboard.score >= old(world).scoreboard.score,
        final(world).scoreboard.health == floored_sub(
            old(world).scoreboard.health as int,
            count_hurts(
                cannon_after(*old(world), input.keys),
                moved_bodies(*old(world)),
                old(world).bodies@.len() as int,
            ) as int,
        ),
        final(world).scoreboard.health <= old(world).scoreboard.health,
        final(world).particles@ == old(world).particles@.map_values(
            |p: Particle| particle_moved(p, old(world).burst.shrink_percent as int),
        ).filter(particle_survives()) + old(world).burst.bursts_of(
            at_cannon(
                cannon_after(*old(world), input.keys),
                count_hurts(
                    cannon_after(*old(world), input.keys),
                    moved_bodies(*old(world)),
                    old(world).bodies@.len() as int,
                ) as int,
            ),
        ) + old(world).burst.bursts_of(after_shots(*old(world), input.keys).1),
        final(world).params == old(world).params,
        final(world).burst == old(world).burst,
{
    let ghost w0 = *world;
    Cannon::update(world, input.keys);
    Particles::update(&mut world.particles, &world.burst);
    let ghost w1 = *world;
    assert(can_advance(w1.bodies@, Collider::Selfball, Collider::Enemyball));
    Balls::update(world);
    let ghost w2 = *world;
    assert forall|k: int| 0 <= k < w2.bodies@.len() && #[trigger] w2.bodies@[k].alive && w2.bodies@[k].collider == Collider::Spacejunk implies {
        &&& fits_step(w2.bodies@[k].pos, w2.bodies@[k].vel, 1)
        &&& 0 <= w2.bodies@[k].half.y <= SIZE_LIMIT
    } by {
        assert(w2.bodies@[k] == advanced(w1.bodies@[k], Collider::Selfball, Collider::Enemyball));
    }
    Enemies::update(world);
    let ghost w3 = *world;
    assert forall|k: int| 0 <= k < w3.bodies@.len() && #[trigger] selected(w3.bodies@[k], Collider::Enemyship, Collider::Enemyship) implies
        fits_step(w3.bodies@[k].pos, w3.bodies@[k].vel, 1) by {
        assert(w3.bodies@[k] == junk_moved(w2, w2.bodies@[k]));
        assert(w2.bodies@[k] == advanced(w1.bodies@[k], Collider::Selfball, Collider::Enemyball));
    }
    EnemyShips::update(world);
    let ghost w4 = *world;
    proof {
        assert forall|k: int| 0 <= k < w4.bodies@.len() implies #[trigger] w4.bodies@[k] == moved_bodies(w0)[k] by {
            assert(w3.bodies@[k] == junk_moved(w2, w2.bodies@[k]));
            assert(w2.bodies@[k] == advanced(w1.bodies@[k], Collider::Selfball, Collider::Enemyball));
            assert(w1.bodies@[k] == w0.bodies@[k]);
            assert(w2.params == w0.params);
        }
        assert(w4.bodies@ =~= moved_bodies(w0));
        assert(w4.cannon == cannon_after(w0, input.keys));
    }
    Cannon::collision(world);
    let ghost w5 = *world;
    assert(w5.bodies@ =~= after_cannon(w0, input.keys));
    Balls::collision(world);
    let ghost w6 = *world;
    Energy::collision(world);
    let ghost w7 = *world;
    let ghost reacted = absorb_all(after_shots(w0, input.keys).0);
    let ghost len = reacted.len();
    assert(w7.bodies@ =~= reacted);
    Balls::spawner(world, input.delta_ms, input.clicked, input.cursor);
    assert(world.bodies@.subrange(0, len as int) =~= reacted);
    let ghost w8 = *world;
    Enemies::spawner(world, input.delta_ms);
    assert(world.bodies@.subrange(0, len as int) =~= w8.bodies@.subrange(0, len as int));
    let ghost w9 = *world;
    EnemyShips::spawner(world, input.delta_ms);
    assert(world.bodies@.subrange(0, len as int) =~= w9.bodies@.subrange(0, len as int));
    let ghost w10 = *world;
    EnemyShips::shoot(world, input.delta_ms);
    assert(world.bodies@.subrange(0, len as int) =~= w10.bodies@.subrange(0, len as int));
    timer_system(world, input.delta_ms);
    let ghost w11 = *world;
    cleanup_boundaries(world);
    let ghost w12 = *world;
    let ghost front = w12.bodies@.subrange(0, len as int);
    let ghost back = w12.bodies@.subrange(len as int, w12.bodies@.len() as int);
    proof {
        assert(front =~= reacted.map_values(|b: Body| cleaned(w0.params, b)));
        assert(w12.bodies@ =~= front + back);
    }
    world.compact();
    proof {
        broadcast use vstd::seq_lib::group_filter_ensures;
        Seq::filter_distributes_over_add(front, back, is_alive());
        assert(world.bodies@ == front.filter(is_alive()) + back.filter(is_alive()));
        assert(world.bodies@.subrange(0, front.filter(is_alive()).len() as int) =~= front.filter(is_alive()));
        assert(world.particles@ =~= w0.particles@.map_values(
            |p: Particle| particle_moved(p, w0.burst.shrink_percent as int),
        ).filter(particle_survives()) + w0.burst.bursts_of(
            at_cannon(
                cannon_after(w0, input.keys),
                count_hurts(cannon_after(w0, input.keys), moved_bodies(w0), w0.bodies@.len() as int) as int,
            ),
        ) + w0.burst.bursts_of(after_shots(w0, input.keys).1));
    }
}

} // verus!
