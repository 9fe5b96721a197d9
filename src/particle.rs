use vstd::prelude::*;
use crate::body::{fits_step, stepped, step};
use crate::geom::{scale_to_length, scaled_to_length, Vec2, SCALE_LIMIT};
use crate::world::{Particle, Particles, SIZE_LIMIT};

verus! {

/// A particle vanishes once it is smaller than this many units (five pixels).
pub const PARTICLE_MIN_SIZE: i64 = 300;

impl Particles {
    /// Speed, size, shrink rate and directions are small enough for the
    /// arithmetic of a burst.
    pub open spec fn wf(self) -> bool {
        &&& 0 <= self.speed <= SCALE_LIMIT
        &&& 0 < self.size <= SIZE_LIMIT
        &&& 0 <= self.shrink_percent <= 100
        &&& forall|k: int| 0 <= k < self.directions@.len() ==> {
            &&& -SCALE_LIMIT <= #[trigger] self.directions@[k].x <= SCALE_LIMIT
            &&& -SCALE_LIMIT <= self.directions@[k].y <= SCALE_LIMIT
        }
    }

    /// The particle that flies from `pos` along `dir` at this burst's speed.
    pub open spec fn particle_at(self, pos: Vec2, dir: Vec2) -> Particle {
        let v = scaled_to_length(dir, self.speed as int);
        Particle { pos, vel: Vec2 { x: v.0 as i64, y: v.1 as i64 }, size: self.size }
    }

    /// The particles of one burst at `pos`, one for each direction.
    pub open spec fn burst_at(self, pos: Vec2) -> Seq<Particle> {
        Seq::new(self.directions@.len(), |k: int| self.particle_at(pos, self.directions@[k]))
    }

    /// The particles of one burst at each of the points, in order.
    pub open spec fn bursts_of(self, at: Seq<Vec2>) -> Seq<Particle>
        decreases at.len(),
    {
        if at.len() == 0 {
            Seq::empty()
        } else {
            self.bursts_of(at.drop_last()) + self.burst_at(at.last())
        }
    }

    /// Adds a burst of particles at `pos`, one per direction.
    pub fn spawn(particles: &mut Vec<Particle>, pos: Vec2, me: &Particles)
        requires
            me.wf(),
        ensures
            final(particles)@ == old(particles)@ + me.burst_at(pos),
    {
        let ghost start = particles@;
        let n = me.directions.len();
        let mut i: usize = 0;
        while i < n
            invariant
                me.wf(),
                n == me.directions@.len(),
                0 <= i <= n,
                particles@ == start + me.burst_at(pos).subrange(0, i as int),
            decreases n - i,
        {
            let dir = me.directions[i];
            let v = scale_to_length(dir, me.speed);
            particles.push(Particle { pos, vel: v, size: me.size });
            proof {
                assert(me.burst_at(pos).subrange(0, i as int + 1) =~= me.burst_at(pos).subrange(0, i as int).push(
                    me.particle_at(pos, dir),
                ));
            }
            i = i + 1;
        }
        proof {
            assert(me.burst_at(pos).subrange(0, n as int) =~= me.burst_at(pos));
        }
    }

    /// Moves every particle one tick, shrinks it by this burst's rate, and
    /// drops those that have become too small.
    pub fn update(particles: &mut Vec<Particle>, me: &Particles)
        requires
            me.wf(),
            forall|k: int| 0 <= k < old(particles)@.len() ==> particle_can_move(#[trigger] old(particles)@[k]),
        ensures
            final(particles)@ == old(particles)@.map_values(|p: Particle| particle_moved(p, me.shrink_percent as int)).filter(
                particle_survives(),
            ),
    {
        let rate = me.shrink_percent;
        let ghost s = particles@.map_values(|p: Particle| particle_moved(p, rate as int));
        let ghost pred = particle_survives();
        let mut kept: Vec<Particle> = Vec::new();
        let n = particles.len();
        let mut i: usize = 0;
        while i < n
            invariant
                n == particles@.len(),
                0 <= rate <= 100,
                s == particles@.map_values(|p: Particle| particle_moved(p, rate as int)),
                pred == particle_survives(),
                forall|k: int| 0 <= k < particles@.len() ==> particle_can_move(#[trigger] particles@[k]),
                0 <= i <= n,
                kept@ == s.subrange(0, i as int).filter(pred),
            decreases n - i,
        {
            let p = particles[i];
            assert(particle_can_move(particles@[i as int]));
            assert(0 <= p.size * rate <= 100 * SIZE_LIMIT) by (nonlinear_arith)
                requires
                    0 <= p.size <= SIZE_LIMIT,
                    0 <= rate <= 100,
            ;
            let moved = Particle { pos: step(p.pos, p.vel, 1), vel: p.vel, size: p.size * rate / 100 };
            let ghost prefix = s.subrange(0, i as int + 1);
            proof {
                assert(prefix.drop_last() =~= s.subrange(0, i as int));
                assert(prefix.last() == moved);
                reveal(Seq::filter);
                assert(prefix.filter(pred) == if pred(moved) {
                    s.subrange(0, i as int).filter(pred).push(moved)
                } else {
                    s.subrange(0, i as int).filter(pred)
                });
            }
            if moved.size >= PARTICLE_MIN_SIZE {
                kept.push(moved);
            }
            i = i + 1;
        }
        proof {
            assert(s.subrange(0, n as int) =~= s);
        }
        *particles = kept;
    }
}

/// A particle can take one step without leaving `i64`, and its size is sane.
pub open spec fn particle_can_move(p: Particle) -> bool {
    fits_step(p.pos, p.vel, 1) && 0 <= p.size <= SIZE_LIMIT
}

/// A particle one tick later: moved by its velocity and shrunk to `rate`
/// percent of its size.
pub open spec fn particle_moved(p: Particle, rate: int) -> Particle {
    Particle { pos: stepped(p.pos, p.vel, 1), vel: p.vel, size: (p.size * rate / 100) as i64 }
}

pub open spec fn particle_survives() -> spec_fn(Particle) -> bool {
    |p: Particle| p.size >= PARTICLE_MIN_SIZE
}

} // verus!
