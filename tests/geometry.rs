use shooting::{collide, isqrt, overlap, reflect, scale_to_length, step, Body, Collider, Collision, Vec2};

fn v(x: i64, y: i64) -> Vec2 {
    Vec2 { x, y }
}

#[test]
fn overlap_is_symmetric() {
    let cases = [
        (v(0, 0), v(10, 10), v(15, 0), v(10, 10)),
        (v(0, 0), v(10, 10), v(20, 0), v(10, 10)),
        (v(-5, 7), v(3, 2), v(-3, 8), v(1, 1)),
        (v(100, 100), v(5, 5), v(-100, -100), v(5, 5)),
    ];
    for (ap, ah, bp, bh) in cases {
        assert_eq!(overlap(ap, ah, bp, bh), overlap(bp, bh, ap, ah));
    }
    assert!(overlap(v(0, 0), v(10, 10), v(15, 0), v(10, 10)));
    assert!(!overlap(v(0, 0), v(10, 10), v(20, 0), v(10, 10)));
}

#[test]
fn overlap_needs_both_axes() {
    assert!(!overlap(v(0, 0), v(10, 10), v(5, 25), v(10, 10)));
    assert!(overlap(v(0, 0), v(10, 10), v(5, 19), v(10, 10)));
}

#[test]
fn collide_names_the_side() {
    // The first box comes from the left of the second one.
    assert_eq!(collide(v(-15, 0), v(10, 10), v(0, 0), v(10, 50)), Some(Collision::Left));
    assert_eq!(collide(v(15, 0), v(10, 10), v(0, 0), v(10, 50)), Some(Collision::Right));
    assert_eq!(collide(v(0, 15), v(10, 10), v(0, 0), v(50, 10)), Some(Collision::Top));
    assert_eq!(collide(v(0, -15), v(10, 10), v(0, 0), v(50, 10)), Some(Collision::Bottom));
    assert_eq!(collide(v(0, 0), v(1, 1), v(0, 0), v(50, 50)), Some(Collision::Inside));
    assert_eq!(collide(v(0, 30), v(10, 10), v(0, 0), v(50, 10)), None);
}

#[test]
fn collide_picks_the_shallower_axis() {
    // Corner hit: 2 deep on x, 8 deep on y, so the side is on x.
    assert_eq!(collide(v(-18, 12), v(10, 10), v(0, 0), v(10, 10)), Some(Collision::Left));
    // 8 deep on x, 2 deep on y, so the side is on y.
    assert_eq!(collide(v(-12, 18), v(10, 10), v(0, 0), v(10, 10)), Some(Collision::Top));
}

#[test]
fn reflect_keeps_speed() {
    let vel = v(200, -200);
    let r = reflect(vel, Collision::Top);
    assert_eq!(r, v(200, 200));
    assert_eq!(r.x * r.x + r.y * r.y, vel.x * vel.x + vel.y * vel.y);
    // Already moving away from the side: nothing changes.
    assert_eq!(reflect(r, Collision::Top), r);
    assert_eq!(reflect(v(5, 3), Collision::Left), v(-5, 3));
    assert_eq!(reflect(v(-5, 3), Collision::Left), v(-5, 3));
    assert_eq!(reflect(v(-5, 3), Collision::Right), v(5, 3));
    assert_eq!(reflect(v(5, 3), Collision::Bottom), v(5, -3));
    assert_eq!(reflect(v(5, 3), Collision::Inside), v(5, 3));
}

#[test]
fn isqrt_rounds_down() {
    assert_eq!(isqrt(0), 0);
    assert_eq!(isqrt(1), 1);
    assert_eq!(isqrt(3), 1);
    assert_eq!(isqrt(4), 2);
    assert_eq!(isqrt(15), 3);
    assert_eq!(isqrt(16), 4);
    assert_eq!(isqrt(2_000_000), 1414);
    assert_eq!(isqrt(u64::MAX), 4_294_967_295);
}

#[test]
fn scale_to_length_points_the_same_way() {
    assert_eq!(scale_to_length(v(3, 4), 10), v(6, 8));
    assert_eq!(scale_to_length(v(-3, -4), 10), v(-6, -8));
    assert_eq!(scale_to_length(v(1000, -1000), 400), v(282, -282));
    assert_eq!(scale_to_length(v(0, 0), 500), v(0, 0));
    assert_eq!(scale_to_length(v(0, -7), 500), v(0, -500));
}

#[test]
fn integrate_moves_by_velocity_times_dt() {
    let mut b = Body {
        pos: v(10, -5),
        vel: v(7, 2),
        half: v(1, 1),
        collider: Collider::Selfball,
        spin: 0,
        aim: v(0, 0),
        alive: true,
    };
    b.integrate(3);
    assert_eq!(b.pos, v(31, 1));
    assert_eq!(b.vel, v(7, 2));
    for _ in 0..10 {
        let before = b.pos;
        b.integrate(1);
        assert_eq!(b.pos, v(before.x + 7, before.y + 2));
    }
    assert_eq!(step(v(1, 1), v(-2, 3), 4), v(-7, 13));
}
