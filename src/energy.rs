use vstd::prelude::*;
use crate::body::{Body, Collider};
use crate::geom::{overlap, Vec2};
use crate::random::random_in;
use crate::world::{despawned, only_bodies_changed, touching, World};

verus! {

/// Energy cells: they sit still and absorb the enemies' shots.
pub struct Energy;

/// An energy cell at `pos`.
pub open spec fn energy_body(world: World, pos: Vec2) -> Body {
    Body {
        pos,
        vel: Vec2 { x: 0, y: 0 },
        half: Vec2 { x: (world.params.energy.x / 2) as i64, y: (world.params.energy.y / 2) as i64 },
        collider: Collider::Energy,
        spin: 0,
        aim: Vec2 { x: 0, y: 0 },
        alive: true,
    }
}

/// The half-extent of the box in which energy cells are placed.
pub open spec fn energy_box(world: World) -> (int, int) {
    (
        world.params.background.x / 2 - world.params.energy.x / 2,
        world.params.background.y / 2 - world.params.energy.y / 2,
    )
}

/// The body is an energy cell placed inside that box.
pub open spec fn placed_energy(world: World, b: Body) -> bool {
    &&& b == energy_body(world, b.pos)
    &&& -energy_box(world).0 <= b.pos.x < energy_box(world).0
    &&& -energy_box(world).1 <= b.pos.y < energy_box(world).1
}

/// The body is an alive enemy shot that some alive energy cell touches.
pub open spec fn absorbed(s: Seq<Body>, k: int) -> bool {
    &&& s[k].alive
    &&& s[k].collider == Collider::Enemyball
    &&& exists|e: int| 0 <= e < s.len() && s[e].collider == Collider::Energy && #[trigger] touching(s[e], s[k])
}

/// The first alive energy cell that touches the box, if any.
fn find_energy(bodies: &Vec<Body>, b: Body) -> (r: Option<usize>)
    requires
        b.alive,
    ensures
        match r {
            Some(e) => e < bodies@.len() && bodies@[e as int].collider == Collider::Energy && touching(bodies@[e as int], b),
            None => forall|e: int| 0 <= e < bodies@.len() && bodies@[e].collider == Collider::Energy ==> !#[trigger] touching(bodies@[e], b),
        },
{
    let n = bodies.len();
    let mut e: usize = 0;
    while e < n
        invariant
            n == bodies@.len(),
            0 <= e <= n,
            b.alive,
            forall|m: int| 0 <= m < e && bodies@[m].collider == Collider::Energy ==> !#[trigger] touching(bodies@[m], b),
        decreases n - e,
    {
        let c = bodies[e];
        if c.alive && c.collider == Collider::Energy && overlap(c.pos, c.half, b.pos, b.half) {
            return Some(e);
        }
        e = e + 1;
    }
    None
}

impl Energy {
    /// Adds an energy cell at `pos`.
    pub fn spawn_at(world: &mut World, pos: Vec2)
        requires
            old(world).params.wf(),
        ensures
            final(world).bodies@ == old(world).bodies@.push(energy_body(*old(world), pos)),
            only_bodies_changed(*old(world), *final(world)),
    {
        let half = Vec2 { x: world.params.energy.x / 2, y: world.params.energy.y / 2 };
        world.bodies.push(
            Body {
                pos,
                vel: Vec2 { x: 0, y: 0 },
                half,
                collider: Collider::Energy,
                spin: 0,
                aim: Vec2 { x: 0, y: 0 },
                alive: true,
            },
        );
    }

    /// Places as many energy cells as the parameters ask for, each at a drawn
    /// point inside the play field.
    pub fn setup(world: &mut World)
        requires
            old(world).params.wf(),
        ensures
            final(world).bodies@.len() == old(world).bodies@.len() + old(world).params.num_of_energies,
            final(world).bodies@.subrange(0, old(world).bodies@.len() as int) == old(world).bodies@,
            forall|k: int| old(world).bodies@.len() <= k < final(world).bodies@.len() ==> #[trigger] placed_energy(
                *old(world),
                final(world).bodies@[k],
            ),
            only_bodies_changed(*old(world), *final(world)),
    {
        let ghost start = world.bodies@;
        let bx: i64 = world.params.background.x / 2 - world.params.energy.x / 2;
        let by: i64 = world.params.background.y / 2 - world.params.energy.y / 2;
        let count = world.params.num_of_energies;
        let mut i: u64 = 0;
        while i < count
            invariant
                0 <= i <= count,
                count == old(world).params.num_of_energies,
                bx == energy_box(*old(world)).0,
                by == energy_box(*old(world)).1,
                world.params.wf(),
                world.bodies@.len() == start.len() + i,
                world.bodies@.subrange(0, start.len() as int) == start,
                start == old(world).bodies@,
                forall|k: int| start.len() <= k < world.bodies@.len() ==> #[trigger] placed_energy(
                    *old(world),
                    world.bodies@[k],
                ),
                only_bodies_changed(*old(world), *world),
            decreases count - i,
        {
            let x = random_in(-bx, bx);
            let y = random_in(-by, by);
            let ghost b0 = world.bodies@;
            Energy::spawn_at(world, Vec2 { x, y });
            proof {
                assert(world.bodies@.subrange(0, start.len() as int) =~= b0.subrange(0, start.len() as int));
            }
            i = i + 1;
        }
    }

    /// Despawns every enemy shot that an energy cell touches; the cells stay.
    pub fn collision(world: &mut World)
        ensures
            final(world).bodies@.len() == old(world).bodies@.len(),
            forall|k: int| 0 <= k < old(world).bodies@.len() ==> #[trigger] final(world).bodies@[k] == if absorbed(
                old(world).bodies@,
                k,
            ) {
                despawned(old(world).bodies@[k])
            } else {
                old(world).bodies@[k]
            },
            only_bodies_changed(*old(world), *final(world)),
    {
        let ghost before = world.bodies@;
        let n = world.bodies.len();
        let mut i: usize = 0;
        while i < n
            invariant
                0 <= i <= n,
                n == before.len(),
                n == world.bodies@.len(),
                before == old(world).bodies@,
                forall|k: int| 0 <= k < i ==> #[trigger] world.bodies@[k] == if absorbed(before, k) {
                    despawned(before[k])
                } else {
                    before[k]
                },
                forall|k: int| i <= k < n ==> #[trigger] world.bodies@[k] == before[k],
                forall|k: int| 0 <= k < n && before[k].collider == Collider::Energy ==> #[trigger] world.bodies@[k] == before[k],
                only_bodies_changed(*old(world), *world),
            decreases n - i,
        {
            let b = world.bodies[i];
            if b.alive && b.collider == Collider::Enemyball {
                match find_energy(&world.bodies, b) {
                    Some(e) => {
                        assert(world.bodies@[e as int] == before[e as int]);
                        assert(touching(before[e as int], before[i as int]));
                        world.bodies.set(i, Body { alive: false, ..b });
                    },
                    None => {
                        assert forall|e: int| 0 <= e < n && before[e].collider == Collider::Energy implies !#[trigger] touching(
                            before[e],
                            before[i as int],
                        ) by {
                            assert(world.bodies@[e] == before[e]);
                        }
                    },
                }
            }
            i = i + 1;
        }
    }
}

} // verus!
