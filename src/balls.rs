use vstd::prelude::*;
use crate::body::{advance, advanced, can_advance, Body, Collider, Direction};
use crate::geom::{overlap, scale_to_length, scaled_to_length, Vec2, SCALE_LIMIT};
use crate::timer::Countdown;
use crate::world::{Particle, only_bodies_changed, bump, capped_add, despawned, touching, Cannon, Particles, World};

verus! {

/// The speed of every ball, in units per tick.
pub const BALL_SPEED: i64 = 500;

/// The time the player waits between two shots.
pub const BALL_COOLDOWN_MS: u64 = 500;

/// The player's shots and the enemies' shots.
pub struct Balls;

/// What a shot of the player can destroy.
pub open spec fn is_enemy(c: Collider) -> bool {
    c == Collider::Spacejunk || c == Collider::Enemyship
}

/// A shot of the player that was alive before and has been consumed.
pub open spec fn consumed(before: Body, after: Body) -> bool {
    consumed_as(before, after, false)
}

/// A body that was alive before and has been consumed: an enemy when `enemy`
/// holds, a shot of the player otherwise.
pub open spec fn consumed_as(before: Body, after: Body, enemy: bool) -> bool {
    &&& before.alive
    &&& !after.alive
    &&& if enemy { is_enemy(before.collider) } else { before.collider == Collider::Selfball }
}

/// How many of the first `n` bodies are enemies (when `enemy` holds) or shots
/// of the player (otherwise) consumed between `before` and `after`.
pub open spec fn count_consumed(before: Seq<Body>, after: Seq<Body>, n: int, enemy: bool) -> nat
    decreases n,
{
    if n <= 0 {
        0
    } else {
        count_consumed(before, after, n - 1, enemy) + if consumed_as(before[n - 1], after[n - 1], enemy) {
            1nat
        } else {
            0nat
        }
    }
}

proof fn lemma_count_update(before: Seq<Body>, after: Seq<Body>, n: int, j: int, b: Body, enemy: bool)
    requires
        0 <= j < n <= after.len(),
    ensures
        count_consumed(before, after.update(j, b), n, enemy) + (if consumed_as(before[j], after[j], enemy) {
            1int
        } else {
            0int
        }) == count_consumed(before, after, n, enemy) + (if consumed_as(before[j], b, enemy) { 1int } else { 0int }),
    decreases n,
{
    if n - 1 > j {
        lemma_count_update(before, after, n - 1, j, b, enemy);
        assert(after.update(j, b)[n - 1] == after[n - 1]);
    } else {
        assert forall|k: int| 0 <= k < n - 1 implies after.update(j, b)[k] == after[k] by {}
        lemma_count_same(before, after.update(j, b), after, n - 1, enemy);
    }
}

proof fn lemma_count_none(s: Seq<Body>, n: int, enemy: bool)
    ensures
        count_consumed(s, s, n, enemy) == 0,
    decreases n,
{
    if n > 0 {
        lemma_count_none(s, n - 1, enemy);
    }
}

proof fn lemma_count_same(before: Seq<Body>, a1: Seq<Body>, a2: Seq<Body>, n: int, enemy: bool)
    requires
        forall|k: int| 0 <= k < n ==> a1[k] == a2[k],
    ensures
        count_consumed(before, a1, n, enemy) == count_consumed(before, a2, n, enemy),
    decreases n,
{
    if n > 0 {
        lemma_count_same(before, a1, a2, n - 1, enemy);
    }
}

/// The first alive enemy at index `j` or later whose box the given box
/// overlaps.
pub open spec fn first_enemy_from(s: Seq<Body>, pos: Vec2, half: Vec2, j: int) -> Option<int>
    decreases s.len() - j,
{
    if j < 0 || j >= s.len() {
        None
    } else if s[j].alive && is_enemy(s[j].collider) && crate::geom::overlaps(pos, half, s[j].pos, s[j].half) {
        Some(j)
    } else {
        first_enemy_from(s, pos, half, j + 1)
    }
}

/// The bodies after the first `i` of them have been met as shots, in order,
/// and where the bursts started: an alive shot of the player takes the first
/// alive enemy it touches with it, and a burst starts where the shot was.
pub open spec fn resolve(s: Seq<Body>, i: int) -> (Seq<Body>, Seq<Vec2>)
    decreases i,
{
    if i <= 0 {
        (s, Seq::empty())
    } else {
        let prev = resolve(s, i - 1);
        let cur = prev.0;
        let b = cur[i - 1];
        if b.alive && b.collider == Collider::Selfball {
            match first_enemy_from(cur, b.pos, b.half, 0) {
                Some(j) => (cur.update(i - 1, despawned(b)).update(j, despawned(cur[j])), prev.1.push(b.pos)),
                None => prev,
            }
        } else {
            prev
        }
    }
}

/// The shot of the player and the enemy were both alive and overlapping, and
/// both have been consumed.
pub open spec fn pair_consumed(before: Seq<Body>, after: Seq<Body>, k: int, m: int) -> bool {
    &&& 0 <= m < before.len()
    &&& before[k].collider == Collider::Selfball
    &&& is_enemy(before[m].collider)
    &&& touching(before[k], before[m])
    &&& !after[k].alive
    &&& !after[m].alive
}

/// Each body is as it was, or was alive, may react in this pass, and has been
/// consumed.
pub open spec fn kept_or_consumed(before: Seq<Body>, after: Seq<Body>) -> bool {
    &&& after.len() == before.len()
    &&& forall|k: int| 0 <= k < before.len() ==> {
        ||| #[trigger] after[k] == before[k]
        ||| {
            &&& after[k] == despawned(before[k])
            &&& before[k].alive
            &&& (before[k].collider == Collider::Selfball || is_enemy(before[k].collider))
        }
    }
}

/// Every consumed body was consumed together with a partner it touched.
pub open spec fn consumed_in_pairs(before: Seq<Body>, after: Seq<Body>) -> bool {
    &&& forall|k: int| 0 <= k < before.len() && #[trigger] consumed(before[k], after[k]) ==>
        exists|m: int| #[trigger] pair_consumed(before, after, k, m)
    &&& forall|m: int| 0 <= m < before.len() && before[m].alive && !after[m].alive && is_enemy(
        #[trigger] before[m].collider,
    ) ==> exists|k: int| 0 <= k < before.len() && #[trigger] pair_consumed(before, after, k, m)
}

/// No shot of the player still touches an enemy.
pub open spec fn no_shot_touches_enemy(s: Seq<Body>) -> bool {
    forall|k: int, m: int|
        0 <= k < s.len() && 0 <= m < s.len() && #[trigger] s[k].collider == Collider::Selfball && is_enemy(
            #[trigger] s[m].collider,
        ) ==> !touching(s[k], s[m])
}

/// The first alive enemy that a box overlaps, if any.
fn find_enemy_hit(bodies: &Vec<Body>, pos: Vec2, half: Vec2) -> (r: Option<usize>)
    ensures
        match r {
            Some(j) => {
                &&& j < bodies@.len()
                &&& bodies@[j as int].alive
                &&& is_enemy(bodies@[j as int].collider)
                &&& crate::geom::overlaps(pos, half, bodies@[j as int].pos, bodies@[j as int].half)
            },
            None => forall|m: int|
                0 <= m < bodies@.len() && #[trigger] bodies@[m].alive && is_enemy(bodies@[m].collider)
                    ==> !crate::geom::overlaps(pos, half, bodies@[m].pos, bodies@[m].half),
        },
        match r {
            Some(j) => first_enemy_from(bodies@, pos, half, 0) == Some(j as int),
            None => first_enemy_from(bodies@, pos, half, 0) is None,
        },
{
    let n = bodies.len();
    let mut j: usize = 0;
    while j < n
        invariant
            n == bodies@.len(),
            0 <= j <= n,
            forall|m: int|
                0 <= m < j && #[trigger] bodies@[m].alive && is_enemy(bodies@[m].collider)
                    ==> !crate::geom::overlaps(pos, half, bodies@[m].pos, bodies@[m].half),
            first_enemy_from(bodies@, pos, half, 0) == first_enemy_from(bodies@, pos, half, j as int),
        decreases n - j,
    {
        let b = bodies[j];
        if b.alive && (b.collider == Collider::Spacejunk || b.collider == Collider::Enemyship) && overlap(
            pos,
            half,
            b.pos,
            b.half,
        ) {
            return Some(j);
        }
        j = j + 1;
    }
    None
}

impl Balls {
    /// Consumes each shot of the player that touches an enemy together with
    /// the first alive enemy it touches: both are despawned, the score goes up
    /// by one and a burst of particles starts where the shot was. Shots are
    /// met in registry order, and a body consumed in this pass takes part in
    /// no other reaction, so as many enemies as shots are consumed.
    pub fn collision(world: &mut World)
        requires
            old(world).burst.wf(),
        ensures
            final(world).bodies@ == resolve(old(world).bodies@, old(world).bodies@.len() as int).0,
            final(world).particles@ == old(world).particles@ + old(world).burst.bursts_of(
                resolve(old(world).bodies@, old(world).bodies@.len() as int).1,
            ),
            final(world).scoreboard.score == capped_add(
                old(world).scoreboard.score as int,
                resolve(old(world).bodies@, old(world).bodies@.len() as int).1.len() as int,
            ),
            count_consumed(old(world).bodies@, final(world).bodies@, old(world).bodies@.len() as int, false)
                == resolve(old(world).bodies@, old(world).bodies@.len() as int).1.len(),
            count_consumed(old(world).bodies@, final(world).bodies@, old(world).bodies@.len() as int, true)
                == resolve(old(world).bodies@, old(world).bodies@.len() as int).1.len(),
            kept_or_consumed(old(world).bodies@, final(world).bodies@),
            consumed_in_pairs(old(world).bodies@, final(world).bodies@),
            no_shot_touches_enemy(final(world).bodies@),
            final(world).scoreboard.health == old(world).scoreboard.health,
            final(world).params == old(world).params,
            final(world).burst == old(world).burst,
            final(world).cannon == old(world).cannon,
            final(world).state == old(world).state,
            final(world).main_timer == old(world).main_timer,
            final(world).enemy_timer == old(world).enemy_timer,
            final(world).enemy_ship_timer == old(world).enemy_ship_timer,
            final(world).enemy_shot_timer == old(world).enemy_shot_timer,
            final(world).ball_timer == old(world).ball_timer,
    {
        let ghost before = world.bodies@;
        let ghost particles_before = world.particles@;
        let n = world.bodies.len();
        proof {
            lemma_count_none(before, n as int, false);
            lemma_count_none(before, n as int, true);
            assert(world.burst.bursts_of(Seq::<Vec2>::empty()) =~= Seq::<Particle>::empty());
            assert(particles_before + Seq::<Particle>::empty() =~= particles_before);
        }
        let mut i: usize = 0;
        while i < n
            invariant
                0 <= i <= n,
                n == before.len(),
                world.burst.wf(),
                world.bodies@ == resolve(before, i as int).0,
                world.particles@ == particles_before + world.burst.bursts_of(resolve(before, i as int).1),
                world.scoreboard.score == capped_add(
                    old(world).scoreboard.score as int,
                    resolve(before, i as int).1.len() as int,
                ),
                count_consumed(before, world.bodies@, n as int, false) == resolve(before, i as int).1.len(),
                count_consumed(before, world.bodies@, n as int, true) == resolve(before, i as int).1.len(),
                kept_or_consumed(before, world.bodies@),
                consumed_in_pairs(before, world.bodies@),
                forall|k: int| i <= k < n && before[k].collider == Collider::Selfball ==> #[trigger] world.bodies@[k] == before[k],
                forall|k: int, m: int|
                    0 <= k < i && 0 <= m < n && #[trigger] world.bodies@[k].collider == Collider::Selfball && is_enemy(
                        #[trigger] world.bodies@[m].collider,
                    ) ==> !touching(world.bodies@[k], world.bodies@[m]),
                world.scoreboard.health == old(world).scoreboard.health,
                before == old(world).bodies@,
                particles_before == old(world).particles@,
                world.params == old(world).params,
                world.burst == old(world).burst,
                world.cannon == old(world).cannon,
                world.state == old(world).state,
                world.main_timer == old(world).main_timer,
                world.enemy_timer == old(world).enemy_timer,
                world.enemy_ship_timer == old(world).enemy_ship_timer,
                world.enemy_shot_timer == old(world).enemy_shot_timer,
                world.ball_timer == old(world).ball_timer,
            decreases n - i,
        {
            let b = world.bodies[i];
            let ghost prev = resolve(before, i as int);
            if b.alive && b.collider == Collider::Selfball {
                match find_enemy_hit(&world.bodies, b.pos, b.half) {
                    Some(j) => {
                        let e = world.bodies[j];
                        let ghost mid = world.bodies@;
                        world.bodies.set(i, Body { alive: false, ..b });
                        let ghost mid2 = world.bodies@;
                        world.bodies.set(j, Body { alive: false, ..e });
                        proof {
                            lemma_count_update(before, mid, n as int, i as int, despawned(b), false);
                            lemma_count_update(before, mid2, n as int, j as int, despawned(e), false);
                            lemma_count_update(before, mid, n as int, i as int, despawned(b), true);
                            lemma_count_update(before, mid2, n as int, j as int, despawned(e), true);
                            assert(mid[i as int] == before[i as int]);
                            assert(mid2[j as int] == mid[j as int]);
                            let after = world.bodies@;
                            assert(after =~= resolve(before, i as int + 1).0);
                            assert(pair_consumed(before, after, i as int, j as int));
                            assert forall|k: int| 0 <= k < before.len() && #[trigger] consumed(before[k], after[k]) implies
                                exists|m: int| #[trigger] pair_consumed(before, after, k, m) by {
                                if k != i {
                                    assert(consumed(before[k], mid[k]));
                                    let m = choose|m: int| #[trigger] pair_consumed(before, mid, k, m);
                                    assert(pair_consumed(before, after, k, m));
                                }
                            }
                            assert forall|m: int| 0 <= m < before.len() && before[m].alive && !after[m].alive && is_enemy(
                                #[trigger] before[m].collider,
                            ) implies exists|k: int| 0 <= k < before.len() && #[trigger] pair_consumed(before, after, k, m) by {
                                if m != j {
                                    assert(!mid[m].alive);
                                    let k = choose|k: int| 0 <= k < before.len() && #[trigger] pair_consumed(before, mid, k, m);
                                    assert(pair_consumed(before, after, k, m));
                                } else {
                                    assert(pair_consumed(before, after, i as int, m));
                                }
                            }
                        }
                        world.scoreboard.score = bump(world.scoreboard.score);
                        let ghost p0 = world.particles@;
                        Particles::spawn(&mut world.particles, b.pos, &world.burst);
                        proof {
                            let at = prev.1.push(b.pos);
                            assert(at.drop_last() =~= prev.1);
                            assert(world.burst.bursts_of(at) == world.burst.bursts_of(prev.1) + world.burst.burst_at(b.pos));
                            assert(world.particles@ =~= particles_before + world.burst.bursts_of(at));
                        }
                    },
                    None => {},
                }
            }
            i = i + 1;
        }
    }
}

/// The point from which the cannon shoots: the middle of the side it faces.
pub open spec fn muzzle(c: Cannon) -> Vec2 {
    match c.direction {
        Direction::Right => Vec2 { x: (c.pos.x + c.half.x) as i64, y: c.pos.y },
        Direction::Left => Vec2 { x: (c.pos.x - c.half.x) as i64, y: c.pos.y },
    }
}

/// A ball of the given role, alive, at `pos` with velocity `vel`.
pub open spec fn ball_body(world: World, pos: Vec2, vel: Vec2, collider: Collider) -> Body {
    Body {
        pos,
        vel,
        half: Vec2 { x: (world.params.ball.x / 2) as i64, y: (world.params.ball.y / 2) as i64 },
        collider,
        spin: 0,
        aim: Vec2 { x: 0, y: 0 },
        alive: true,
    }
}

/// The shot of the player toward `cursor`, given relative to the cannon.
pub open spec fn player_shot(world: World, cursor: Vec2) -> Body {
    let v = scaled_to_length(cursor, BALL_SPEED as int);
    ball_body(world, muzzle(world.cannon), Vec2 { x: v.0 as i64, y: v.1 as i64 }, Collider::Selfball)
}

/// The cooldown after `delta` more milliseconds; none before the first shot.
pub open spec fn cooldown_ticked(t: Option<Countdown>, delta: int) -> Option<Countdown> {
    match t {
        Some(c) => Some(c.ticked(delta)),
        None => None,
    }
}

/// The player may shoot: never shot yet, or the cooldown is over.
pub open spec fn may_shoot(t: Option<Countdown>) -> bool {
    match t {
        Some(c) => c.finished,
        None => true,
    }
}

/// The cooldown right after a shot.
pub open spec fn cooldown_restarted(t: Option<Countdown>) -> Option<Countdown> {
    match t {
        Some(c) => Some(Countdown { elapsed_ms: 0, finished: false, just_finished: false, ..c }),
        None => Some(Countdown {
            duration_ms: BALL_COOLDOWN_MS,
            elapsed_ms: 0,
            finished: false,
            just_finished: false,
        }),
    }
}

impl Balls {
    /// Adds an enemy shot at `pos` flying with velocity `vel`.
    pub fn spawn(world: &mut World, pos: Vec2, vel: Vec2)
        requires
            old(world).params.wf(),
        ensures
            final(world).bodies@ == old(world).bodies@.push(ball_body(*old(world), pos, vel, Collider::Enemyball)),
            final(world).params == old(world).params,
            final(world).scoreboard == old(world).scoreboard,
            final(world).cannon == old(world).cannon,
            final(world).state == old(world).state,
            final(world).particles@ == old(world).particles@,
    {
        let half = Vec2 { x: world.params.ball.x / 2, y: world.params.ball.y / 2 };
        world.bodies.push(
            Body { pos, vel, half, collider: Collider::Enemyball, spin: 0, aim: Vec2 { x: 0, y: 0 }, alive: true },
        );
    }

    /// Advances the shot cooldown by `delta_ms` and, when the player clicks
    /// and may shoot, fires a ball from the cannon toward `cursor` (given
    /// relative to the cannon) and restarts the cooldown.
    pub fn spawner(world: &mut World, delta_ms: u64, clicked: bool, cursor: Vec2)
        requires
            old(world).wf(),
            -SCALE_LIMIT <= cursor.x <= SCALE_LIMIT,
            -SCALE_LIMIT <= cursor.y <= SCALE_LIMIT,
        ensures
            final(world).wf(),
            ({
                let ticked = cooldown_ticked(old(world).ball_timer, delta_ms as int);
                if clicked && may_shoot(ticked) {
                    &&& final(world).bodies@ == old(world).bodies@.push(player_shot(*old(world), cursor))
                    &&& final(world).ball_timer == cooldown_restarted(ticked)
                } else {
                    &&& final(world).bodies@ == old(world).bodies@
                    &&& final(world).ball_timer == ticked
                }
            }),
            final(world).params == old(world).params,
            final(world).scoreboard == old(world).scoreboard,
            final(world).cannon == old(world).cannon,
            final(world).state == old(world).state,
            final(world).particles@ == old(world).particles@,
            final(world).burst == old(world).burst,
            final(world).main_timer == old(world).main_timer,
            final(world).enemy_timer == old(world).enemy_timer,
            final(world).enemy_ship_timer == old(world).enemy_ship_timer,
            final(world).enemy_shot_timer == old(world).enemy_shot_timer,
    {
        let mut can_shoot = true;
        let mut cooldown = world.ball_timer;
        match &mut cooldown {
            Some(t) => {
                t.tick(delta_ms);
                if !t.finished() {
                    can_shoot = false;
                }
            },
            None => {},
        }
        world.ball_timer = cooldown;
        let cannon = world.cannon;
        let from = match cannon.direction {
            Direction::Right => Vec2 { x: cannon.pos.x + cannon.half.x, y: cannon.pos.y },
            Direction::Left => Vec2 { x: cannon.pos.x - cannon.half.x, y: cannon.pos.y },
        };
        if clicked && can_shoot {
            let vel = scale_to_length(cursor, BALL_SPEED);
            let half = Vec2 { x: world.params.ball.x / 2, y: world.params.ball.y / 2 };
            world.bodies.push(
                Body {
                    pos: from,
                    vel,
                    half,
                    collider: Collider::Selfball,
                    spin: 0,
                    aim: Vec2 { x: 0, y: 0 },
                    alive: true,
                },
            );
            let restarted = match world.ball_timer {
                Some(t) => {
                    let mut t = t;
                    t.reset();
                    t
                },
                None => Countdown::new(BALL_COOLDOWN_MS),
            };
            world.ball_timer = Some(restarted);
        }
    }

    /// Moves every shot, the player's and the enemies', one tick.
    pub fn update(world: &mut World)
        requires
            can_advance(old(world).bodies@, Collider::Selfball, Collider::Enemyball),
        ensures
            final(world).bodies@.len() == old(world).bodies@.len(),
            forall|k: int| 0 <= k < old(world).bodies@.len() ==> #[trigger] final(world).bodies@[k] == advanced(
                old(world).bodies@[k],
                Collider::Selfball,
                Collider::Enemyball,
            ),
            only_bodies_changed(*old(world), *final(world)),
    {
        advance(&mut world.bodies, Collider::Selfball, Collider::Enemyball);
    }
}

} // verus!
