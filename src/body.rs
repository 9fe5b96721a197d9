use vstd::prelude::*;
use crate::geom::Vec2;

verus! {

/// The role of a body in the shooter, which decides how collisions treat it.
#[derive(Clone, Copy, Debug, PartialEq, Eq, Structural)]
pub enum Collider {
    Spacejunk,
    Enemyship,
    Enemyball,
    Selfball,
    Energy,
    Wall,
}

/// The way the cannon faces.
#[derive(Clone, Copy, Debug, PartialEq, Eq, Structural)]
pub enum Direction {
    Left,
    Right,
}

/// A moving body: centre, velocity per tick, half-extent and role. A body
/// consumed during a tick is marked not `alive` and is dropped when the tick
/// ends; `spin` is how fast its sprite turns and `aim` the velocity of what it
/// shoots.
#[derive(Clone, Copy, Debug, PartialEq, Eq, Structural)]
pub struct Body {
    pub pos: Vec2,
    pub vel: Vec2,
    pub half: Vec2,
    pub collider: Collider,
    pub spin: i64,
    pub aim: Vec2,
    pub alive: bool,
}

/// Moving from `p` at velocity `v` for `dt` ticks stays within `i64`.
pub open spec fn fits_step(p: Vec2, v: Vec2, dt: int) -> bool {
    &&& i64::MIN <= v.x * dt <= i64::MAX
    &&& i64::MIN <= v.y * dt <= i64::MAX
    &&& i64::MIN <= p.x + v.x * dt <= i64::MAX
    &&& i64::MIN <= p.y + v.y * dt <= i64::MAX
}

/// The position reached from `p` at velocity `v` after `dt` ticks.
pub open spec fn stepped(p: Vec2, v: Vec2, dt: int) -> Vec2 {
    Vec2 { x: (p.x + v.x * dt) as i64, y: (p.y + v.y * dt) as i64 }
}

/// Advances a position by `velocity * dt`, exactly.
pub fn step(p: Vec2, v: Vec2, dt: i64) -> (r: Vec2)
    requires
        fits_step(p, v, dt as int),
    ensures
        r == stepped(p, v, dt as int),
        r.x == p.x + v.x * dt,
        r.y == p.y + v.y * dt,
{
    Vec2 { x: p.x + v.x * dt, y: p.y + v.y * dt }
}

impl Body {
    /// Moves the body by its velocity times `dt`; nothing else changes.
    pub fn integrate(&mut self, dt: i64)
        requires
            fits_step(old(self).pos, old(self).vel, dt as int),
        ensures
            *final(self) == (Body { pos: stepped(old(self).pos, old(self).vel, dt as int), ..*old(self) }),
            final(self).pos.x == old(self).pos.x + old(self).vel.x * dt,
            final(self).pos.y == old(self).pos.y + old(self).vel.y * dt,
    {
        self.pos = step(self.pos, self.vel, dt);
    }
}

/// The body is alive and plays one of the two roles.
pub open spec fn selected(b: Body, first: Collider, second: Collider) -> bool {
    b.alive && (b.collider == first || b.collider == second)
}

/// The body one tick later if it is selected; as it was otherwise.
pub open spec fn advanced(b: Body, first: Collider, second: Collider) -> Body {
    if selected(b, first, second) {
        Body { pos: stepped(b.pos, b.vel, 1), ..b }
    } else {
        b
    }
}

/// Every selected body can take one step.
pub open spec fn can_advance(s: Seq<Body>, first: Collider, second: Collider) -> bool {
    forall|k: int| 0 <= k < s.len() && #[trigger] selected(s[k], first, second) ==> fits_step(s[k].pos, s[k].vel, 1)
}

/// Moves every alive body that plays one of the two roles by its velocity.
pub fn advance(bodies: &mut Vec<Body>, first: Collider, second: Collider)
    requires
        can_advance(old(bodies)@, first, second),
    ensures
        final(bodies)@.len() == old(bodies)@.len(),
        forall|k: int| 0 <= k < old(bodies)@.len() ==> #[trigger] final(bodies)@[k] == advanced(old(bodies)@[k], first, second),
{
    let n = bodies.len();
    let ghost before = bodies@;
    let mut i: usize = 0;
    while i < n
        invariant
            0 <= i <= n,
            n == before.len(),
            n == bodies@.len(),
            can_advance(before, first, second),
            forall|k: int| 0 <= k < i ==> #[trigger] bodies@[k] == advanced(before[k], first, second),
            forall|k: int| i <= k < n ==> #[trigger] bodies@[k] == before[k],
        decreases n - i,
    {
        let b = bodies[i];
        if b.alive && (b.collider == first || b.collider == second) {
            assert(selected(before[i as int], first, second));
            let mut moved = b;
            moved.integrate(1);
            bodies.set(i, moved);
        }
        i = i + 1;
    }
}

} // verus!
