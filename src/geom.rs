use vstd::prelude::*;

verus! {

/// An integer 2D vector: a position, a velocity or a half-extent.
#[derive(Clone, Copy, Debug, PartialEq, Eq, Structural)]
pub struct Vec2 {
    pub x: i64,
    pub y: i64,
}

/// The side of the second box on which the first one touches it.
#[derive(Clone, Copy, Debug, PartialEq, Eq, Structural)]
pub enum Collision {
    Left,
    Right,
    Top,
    Bottom,
    Inside,
}

pub open spec fn abs(v: int) -> int {
    if v < 0 { -v } else { v }
}

/// Two boxes, each given by its centre and half-extent, overlap.
pub open spec fn overlaps(a_pos: Vec2, a_half: Vec2, b_pos: Vec2, b_half: Vec2) -> bool {
    &&& abs(a_pos.x - b_pos.x) < a_half.x + b_half.x
    &&& abs(a_pos.y - b_pos.y) < a_half.y + b_half.y
}

/// Overlap on the x axis with the first box entering from the left.
pub open spec fn hits_left(a_pos: Vec2, a_half: Vec2, b_pos: Vec2, b_half: Vec2) -> bool {
    &&& a_pos.x - a_half.x < b_pos.x - b_half.x
    &&& a_pos.x + a_half.x > b_pos.x - b_half.x
    &&& a_pos.x + a_half.x < b_pos.x + b_half.x
}

pub open spec fn hits_right(a_pos: Vec2, a_half: Vec2, b_pos: Vec2, b_half: Vec2) -> bool {
    &&& a_pos.x - a_half.x > b_pos.x - b_half.x
    &&& a_pos.x - a_half.x < b_pos.x + b_half.x
    &&& a_pos.x + a_half.x > b_pos.x + b_half.x
}

pub open spec fn hits_bottom(a_pos: Vec2, a_half: Vec2, b_pos: Vec2, b_half: Vec2) -> bool {
    &&& a_pos.y - a_half.y < b_pos.y - b_half.y
    &&& a_pos.y + a_half.y > b_pos.y - b_half.y
    &&& a_pos.y + a_half.y < b_pos.y + b_half.y
}

pub open spec fn hits_top(a_pos: Vec2, a_half: Vec2, b_pos: Vec2, b_half: Vec2) -> bool {
    &&& a_pos.y - a_half.y > b_pos.y - b_half.y
    &&& a_pos.y - a_half.y < b_pos.y + b_half.y
    &&& a_pos.y + a_half.y > b_pos.y + b_half.y
}

/// How deep the first box has entered the second along x, from the side it hits.
pub open spec fn depth_x(a_pos: Vec2, a_half: Vec2, b_pos: Vec2, b_half: Vec2) -> int {
    if hits_left(a_pos, a_half, b_pos, b_half) {
        (a_pos.x + a_half.x) - (b_pos.x - b_half.x)
    } else {
        (b_pos.x + b_half.x) - (a_pos.x - a_half.x)
    }
}

pub open spec fn depth_y(a_pos: Vec2, a_half: Vec2, b_pos: Vec2, b_half: Vec2) -> int {
    if hits_bottom(a_pos, a_half, b_pos, b_half) {
        (a_pos.y + a_half.y) - (b_pos.y - b_half.y)
    } else {
        (b_pos.y + b_half.y) - (a_pos.y - a_half.y)
    }
}

/// The contact side: on overlap, the axis of least penetration among those
/// on which the first box crosses exactly one edge of the second; `Inside`
/// when it crosses none.
pub open spec fn collision_of(a_pos: Vec2, a_half: Vec2, b_pos: Vec2, b_half: Vec2) -> Option<Collision> {
    if !overlaps(a_pos, a_half, b_pos, b_half) {
        None
    } else {
        let x_side = if hits_left(a_pos, a_half, b_pos, b_half) {
            Some(Collision::Left)
        } else if hits_right(a_pos, a_half, b_pos, b_half) {
            Some(Collision::Right)
        } else {
            None
        };
        let y_side = if hits_bottom(a_pos, a_half, b_pos, b_half) {
            Some(Collision::Bottom)
        } else if hits_top(a_pos, a_half, b_pos, b_half) {
            Some(Collision::Top)
        } else {
            None
        };
        match (x_side, y_side) {
            (Some(xs), Some(ys)) => if depth_y(a_pos, a_half, b_pos, b_half) < depth_x(a_pos, a_half, b_pos, b_half) {
                Some(ys)
            } else {
                Some(xs)
            },
            (Some(xs), None) => Some(xs),
            (None, Some(ys)) => Some(ys),
            (None, None) => Some(Collision::Inside),
        }
    }
}

/// The overlap test does not depend on the order of the two boxes.
pub proof fn lemma_overlaps_symmetric(a_pos: Vec2, a_half: Vec2, b_pos: Vec2, b_half: Vec2)
    ensures
        overlaps(a_pos, a_half, b_pos, b_half) == overlaps(b_pos, b_half, a_pos, a_half),
{
}

/// Whether two boxes overlap.
pub fn overlap(a_pos: Vec2, a_half: Vec2, b_pos: Vec2, b_half: Vec2) -> (r: bool)
    ensures
        r == overlaps(a_pos, a_half, b_pos, b_half),
{
    let dx: i128 = a_pos.x as i128 - b_pos.x as i128;
    let dy: i128 = a_pos.y as i128 - b_pos.y as i128;
    let adx: i128 = if dx < 0 { -dx } else { dx };
    let ady: i128 = if dy < 0 { -dy } else { dy };
    adx < a_half.x as i128 + b_half.x as i128 && ady < a_half.y as i128 + b_half.y as i128
}

/// Tests two boxes for overlap and, when they overlap, names the side of the
/// second box that the first one hits.
pub fn collide(a_pos: Vec2, a_half: Vec2, b_pos: Vec2, b_half: Vec2) -> (r: Option<Collision>)
    ensures
        r == collision_of(a_pos, a_half, b_pos, b_half),
        r is Some <==> overlaps(a_pos, a_half, b_pos, b_half),
{
    if !overlap(a_pos, a_half, b_pos, b_half) {
        return None;
    }
    let a_min_x: i128 = a_pos.x as i128 - a_half.x as i128;
    let a_max_x: i128 = a_pos.x as i128 + a_half.x as i128;
    let b_min_x: i128 = b_pos.x as i128 - b_half.x as i128;
    let b_max_x: i128 = b_pos.x as i128 + b_half.x as i128;
    let a_min_y: i128 = a_pos.y as i128 - a_half.y as i128;
    let a_max_y: i128 = a_pos.y as i128 + a_half.y as i128;
    let b_min_y: i128 = b_pos.y as i128 - b_half.y as i128;
    let b_max_y: i128 = b_pos.y as i128 + b_half.y as i128;
    let (x_side, x_depth): (Option<Collision>, i128) =
        if a_min_x < b_min_x && a_max_x > b_min_x && a_max_x < b_max_x {
            (Some(Collision::Left), a_max_x - b_min_x)
        } else if a_min_x > b_min_x && a_min_x < b_max_x && a_max_x > b_max_x {
            (Some(Collision::Right), b_max_x - a_min_x)
        } else {
            (None, b_max_x - a_min_x)
        };
    let (y_side, y_depth): (Option<Collision>, i128) =
        if a_min_y < b_min_y && a_max_y > b_min_y && a_max_y < b_max_y {
            (Some(Collision::Bottom), a_max_y - b_min_y)
        } else if a_min_y > b_min_y && a_min_y < b_max_y && a_max_y > b_max_y {
            (Some(Collision::Top), b_max_y - a_min_y)
        } else {
            (None, b_max_y - a_min_y)
        };
    match (x_side, y_side) {
        (Some(xs), Some(ys)) => if y_depth < x_depth {
            Some(ys)
        } else {
            Some(xs)
        },
        (Some(xs), None) => Some(xs),
        (None, Some(ys)) => Some(ys),
        (None, None) => Some(Collision::Inside),
    }
}


/// The squared length of a vector.
pub open spec fn length_sq(v: Vec2) -> int {
    v.x * v.x + v.y * v.y
}

/// A velocity after bouncing off the given side of an obstacle: the component
/// that points into the obstacle changes sign, nothing else changes.
pub open spec fn reflected(v: Vec2, side: Collision) -> Vec2 {
    match side {
        Collision::Left => if v.x > 0 { Vec2 { x: -v.x as i64, y: v.y } } else { v },
        Collision::Right => if v.x < 0 { Vec2 { x: -v.x as i64, y: v.y } } else { v },
        Collision::Top => if v.y < 0 { Vec2 { x: v.x, y: -v.y as i64 } } else { v },
        Collision::Bottom => if v.y > 0 { Vec2 { x: v.x, y: -v.y as i64 } } else { v },
        Collision::Inside => v,
    }
}

/// Bounces a velocity off the given side of an obstacle. The speed is kept.
pub fn reflect(v: Vec2, side: Collision) -> (r: Vec2)
    requires
        v.x > i64::MIN,
        v.y > i64::MIN,
    ensures
        r == reflected(v, side),
        length_sq(r) == length_sq(v),
        abs(r.x as int) == abs(v.x as int),
        abs(r.y as int) == abs(v.y as int),
{
    let r = match side {
        Collision::Left => if v.x > 0 { Vec2 { x: -v.x, y: v.y } } else { v },
        Collision::Right => if v.x < 0 { Vec2 { x: -v.x, y: v.y } } else { v },
        Collision::Top => if v.y < 0 { Vec2 { x: v.x, y: -v.y } } else { v },
        Collision::Bottom => if v.y > 0 { Vec2 { x: v.x, y: -v.y } } else { v },
        Collision::Inside => v,
    };
    assert(length_sq(r) == length_sq(v)) by (nonlinear_arith)
        requires
            r.x == v.x || r.x == -v.x,
            r.y == v.y || r.y == -v.y,
    ;
    r
}

/// `r` is the integer square root of `n`, rounded down.
pub open spec fn is_floor_sqrt(n: int, r: int) -> bool {
    0 <= r && r * r <= n < (r + 1) * (r + 1)
}

pub open spec fn floor_sqrt(n: int) -> int {
    choose|r: int| is_floor_sqrt(n, r)
}

proof fn lemma_floor_sqrt_unique(n: int, r: int, s: int)
    requires
        is_floor_sqrt(n, r),
        is_floor_sqrt(n, s),
    ensures
        r == s,
{
    if r < s {
        assert((r + 1) * (r + 1) <= s * s) by (nonlinear_arith)
            requires
                0 <= r,
                r + 1 <= s,
        ;
    } else if s < r {
        assert((s + 1) * (s + 1) <= r * r) by (nonlinear_arith)
            requires
                0 <= s,
                s + 1 <= r,
        ;
    }
}

/// Any integer square root of `n` rounded down is `floor_sqrt(n)`.
pub proof fn lemma_floor_sqrt(n: int, r: int)
    requires
        is_floor_sqrt(n, r),
    ensures
        floor_sqrt(n) == r,
{
    let s = floor_sqrt(n);
    assert(is_floor_sqrt(n, s));
    lemma_floor_sqrt_unique(n, r, s);
}

/// Every natural number has an integer square root.
pub proof fn lemma_floor_sqrt_exists(n: int)
    requires
        n >= 0,
    ensures
        is_floor_sqrt(n, floor_sqrt(n)),
    decreases n,
{
    if n == 0 {
        assert(is_floor_sqrt(0, 0));
        lemma_floor_sqrt(0, 0);
    } else {
        lemma_floor_sqrt_exists(n - 1);
        let r = floor_sqrt(n - 1);
        if (r + 1) * (r + 1) <= n {
            assert((r + 2) * (r + 2) > n) by (nonlinear_arith)
                requires
                    n - 1 < (r + 1) * (r + 1),
                    r >= 0,
            ;
            assert(is_floor_sqrt(n, r + 1));
            lemma_floor_sqrt(n, r + 1);
        } else {
            assert(is_floor_sqrt(n, r));
            lemma_floor_sqrt(n, r);
        }
    }
}

/// The integer square root of `n`, rounded down.
pub fn isqrt(n: u64) -> (r: u64)
    ensures
        is_floor_sqrt(n as int, r as int),
        r as int == floor_sqrt(n as int),
{
    let mut lo: u64 = 0;
    let mut hi: u64 = 0x1_0000_0000;
    assert(n < hi * hi) by (nonlinear_arith)
        requires
            hi == 0x1_0000_0000u64,
            n <= u64::MAX,
    ;
    while hi - lo > 1
        invariant
            lo < hi <= 0x1_0000_0000,
            lo * lo <= n,
            n < hi * hi,
        decreases hi - lo,
    {
        let mid: u64 = lo + (hi - lo) / 2;
        assert(mid * mid <= 0xFFFF_FFFE_0000_0001u64) by (nonlinear_arith)
            requires
                mid < 0x1_0000_0000,
        ;
        if mid * mid <= n {
            lo = mid;
        } else {
            hi = mid;
        }
    }
    proof {
        lemma_floor_sqrt(n as int, lo as int);
    }
    lo
}

/// The largest magnitude of a vector component that `scale_to_length` takes.
pub const SCALE_LIMIT: i64 = 0x4000_0000;

pub open spec fn scaled_component(c: int, len: int, norm: int) -> int {
    if c >= 0 {
        (c * len) / norm
    } else {
        -(((-c) * len) / norm)
    }
}

/// A vector pointing as `v` does with length `len`, each component rounded
/// toward zero; the zero vector for the zero vector.
pub open spec fn scaled_to_length(v: Vec2, len: int) -> (int, int) {
    let norm = floor_sqrt(length_sq(v));
    if norm == 0 {
        (0, 0)
    } else {
        (scaled_component(v.x as int, len, norm), scaled_component(v.y as int, len, norm))
    }
}

fn scale_component(c: i64, len: i64, norm: u64) -> (r: i64)
    requires
        -SCALE_LIMIT <= c <= SCALE_LIMIT,
        0 <= len <= SCALE_LIMIT,
        norm > 0,
    ensures
        r == scaled_component(c as int, len as int, norm as int),
{
    let m: u64 = if c < 0 { (-c) as u64 } else { c as u64 };
    assert(m * (len as u64) <= 0x1000_0000_0000_0000u64) by (nonlinear_arith)
        requires
            m <= 0x4000_0000,
            0 <= len <= 0x4000_0000,
    ;
    let p: u64 = m * (len as u64);
    let q: u64 = p / norm;
    assert(q <= p) by (nonlinear_arith)
        requires
            norm > 0,
            q == p / norm,
    ;
    if c < 0 {
        -(q as i64)
    } else {
        q as i64
    }
}

/// Scales `v` to length `len`, rounding each component toward zero; the zero
/// vector stays zero.
pub fn scale_to_length(v: Vec2, len: i64) -> (r: Vec2)
    requires
        -SCALE_LIMIT <= v.x <= SCALE_LIMIT,
        -SCALE_LIMIT <= v.y <= SCALE_LIMIT,
        0 <= len <= SCALE_LIMIT,
    ensures
        (r.x as int, r.y as int) == scaled_to_length(v, len as int),
{
    let ax: u64 = if v.x < 0 { (-v.x) as u64 } else { v.x as u64 };
    let ay: u64 = if v.y < 0 { (-v.y) as u64 } else { v.y as u64 };
    assert(ax * ax + ay * ay == length_sq(v) && ax * ax + ay * ay <= 0x8000_0000_0000_0000int) by (nonlinear_arith)
        requires
            ax == abs(v.x as int),
            ay == abs(v.y as int),
            ax <= 0x4000_0000,
            ay <= 0x4000_0000,
    ;
    let n: u64 = ax * ax + ay * ay;
    let norm = isqrt(n);
    if norm == 0 {
        Vec2 { x: 0, y: 0 }
    } else {
        Vec2 { x: scale_component(v.x, len, norm), y: scale_component(v.y, len, norm) }
    }
}

} // verus!
