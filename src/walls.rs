use vstd::prelude::*;
use crate::body::{Body, Collider};
use crate::geom::Vec2;
use crate::world::{only_bodies_changed, World};

verus! {

/// The four walls around the window.
pub struct Walls;

/// A wall centred at `pos` with the given full size.
pub open spec fn wall_body(pos: (int, int), size: (int, int)) -> Body {
    Body {
        pos: Vec2 { x: pos.0 as i64, y: pos.1 as i64 },
        vel: Vec2 { x: 0, y: 0 },
        half: Vec2 { x: (size.0 / 2) as i64, y: (size.1 / 2) as i64 },
        collider: Collider::Wall,
        spin: 0,
        aim: Vec2 { x: 0, y: 0 },
        alive: true,
    }
}

/// The left, right, bottom and top walls, each as thick as the parameters
/// say and long enough to close the corners.
pub open spec fn walls_of(world: World) -> Seq<Body> {
    let b = world.params.bounds;
    let t = world.params.wall as int;
    seq![
        wall_body((-(b.x / 2), 0), (t, b.y + t)),
        wall_body((b.x / 2, 0), (t, b.y + t)),
        wall_body((0, -(b.y / 2)), (b.x + t, t)),
        wall_body((0, b.y / 2), (b.x + t, t)),
    ]
}

fn wall(x: i64, y: i64, w: i64, h: i64) -> (r: Body)
    requires
        0 <= w,
        0 <= h,
    ensures
        r == wall_body((x as int, y as int), (w as int, h as int)),
{
    Body {
        pos: Vec2 { x, y },
        vel: Vec2 { x: 0, y: 0 },
        half: Vec2 { x: w / 2, y: h / 2 },
        collider: Collider::Wall,
        spin: 0,
        aim: Vec2 { x: 0, y: 0 },
        alive: true,
    }
}

impl Walls {
    /// Adds the four walls around the window.
    pub fn setup(world: &mut World)
        requires
            old(world).params.wf(),
        ensures
            final(world).bodies@ == old(world).bodies@ + walls_of(*old(world)),
            only_bodies_changed(*old(world), *final(world)),
    {
        let b = world.params.bounds;
        let t = world.params.wall;
        world.bodies.push(wall(-(b.x / 2), 0, t, b.y + t));
        world.bodies.push(wall(b.x / 2, 0, t, b.y + t));
        world.bodies.push(wall(0, -(b.y / 2), b.x + t, t));
        world.bodies.push(wall(0, b.y / 2, b.x + t, t));
        assert(world.bodies@ =~= old(world).bodies@ + walls_of(*old(world)));
    }
}

} // verus!
