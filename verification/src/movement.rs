//! The movement resolver: advance a mobile entity along its direction vector
//! at a fixed speed per elapsed time, tracking cumulative distance. The same
//! routine moves enemies (toward checkpoints) and projectiles (along a fixed
//! direction).

use vstd::math::abs;
use vstd::prelude::*;

use crate::geometry::{dist_sq, in_bounds, isqrt, sqrt_floor, Coordinate, COORD_LIMIT};
use crate::timer::TIME_LIMIT;

verus! {

/// Largest speed the resolver accepts, in world units per second.
pub const SPEED_LIMIT: u64 = 1_000_000;

/// Largest elapsed time per movement tick, in milliseconds.
pub const DT_LIMIT: u64 = 60_000;

/// Movement state of a mobile entity: its direction vector, scalar speed
/// (world units per second), and cumulative distance travelled.
#[derive(Clone, Copy, Debug)]
pub struct Movement {
    pub direction: Coordinate,
    pub speed: u64,
    pub distance_travelled: u64,
}

impl Movement {
    /// Fresh movement state: nothing travelled yet.
    pub fn new(direction: Coordinate, speed: u64) -> (r: Movement)
        ensures
            r.direction == direction,
            r.speed == speed,
            r.distance_travelled == 0,
    {
        Movement { direction, speed, distance_travelled: 0 }
    }
}

/// A direction vector's components are small enough for the step arithmetic:
/// any difference of two in-bounds points qualifies.
pub open spec fn dir_bounded(c: Coordinate) -> bool {
    abs(c.x as int) <= 2 * COORD_LIMIT && abs(c.y as int) <= 2 * COORD_LIMIT
}

/// There is room to move `step` units from `p` in any direction without
/// leaving the world bounds.
pub open spec fn can_move(p: Coordinate, step: int) -> bool {
    &&& -COORD_LIMIT + step <= p.x <= COORD_LIMIT - step
    &&& -COORD_LIMIT + step <= p.y <= COORD_LIMIT - step
}

/// The distance covered in `dt_ms` milliseconds at `speed` units per second.
pub open spec fn step_of(speed: u64, dt_ms: u64) -> int {
    (speed * dt_ms) / 1000
}

/// Compute the displacement length for one tick.
pub fn step_length(speed: u64, dt_ms: u64) -> (r: u64)
    requires
        speed <= SPEED_LIMIT,
        dt_ms <= TIME_LIMIT,
    ensures
        r == step_of(speed, dt_ms),
        r <= speed * dt_ms,
{
    proof {
        assert(speed * dt_ms <= 1_000_000_000_000_000_000) by (nonlinear_arith)
            requires speed <= 1_000_000 && dt_ms <= 1_000_000_000_000u64;
        assert(speed * dt_ms >= 0) by (nonlinear_arith);
    }
    (speed * dt_ms) / 1000
}

/// The floored length of a direction vector.
pub open spec fn dir_len(dir: Coordinate) -> int {
    sqrt_floor(dist_sq(dir, Coordinate { x: 0, y: 0 }) as nat) as int
}

/// Where a point ends up after moving `step` units along `dir`: each
/// component advances by its share `|component| * step / |dir|` of the step,
/// with the component's sign. A zero direction moves nothing.
pub open spec fn moved_point(p: Coordinate, dir: Coordinate, step: int) -> Coordinate {
    let len = dir_len(dir);
    if len == 0 {
        p
    } else {
        let mx = (abs(dir.x as int) * step) / len;
        let my = (abs(dir.y as int) * step) / len;
        Coordinate {
            x: if dir.x >= 0 { (p.x + mx) as i64 } else { (p.x - mx) as i64 },
            y: if dir.y >= 0 { (p.y + my) as i64 } else { (p.y - my) as i64 },
        }
    }
}

/// Each component of a vector is at most its floored length.
pub proof fn lemma_component_le_len(dir: Coordinate)
    requires
        dir_bounded(dir),
    ensures
        abs(dir.x as int) <= dir_len(dir),
        abs(dir.y as int) <= dir_len(dir),
{
    let d2 = dist_sq(dir, Coordinate { x: 0, y: 0 });
    let len = dir_len(dir);
    let ax = abs(dir.x as int) as int;
    let ay = abs(dir.y as int) as int;
    crate::geometry::lemma_sqrt_floor_bounds(d2 as nat);
    assert(ax * ax <= d2 && ay * ay <= d2) by (nonlinear_arith)
        requires
            ax == dir.x as int || ax == -(dir.x as int),
            ay == dir.y as int || ay == -(dir.y as int),
            d2 == (dir.x as int) * (dir.x as int) + (dir.y as int) * (dir.y as int);
    assert(ax < len + 1) by (nonlinear_arith)
        requires
            ax >= 0,
            ax * ax <= d2,
            d2 < (len + 1) * (len + 1),
            len >= 0;
    assert(ay < len + 1) by (nonlinear_arith)
        requires
            ay >= 0,
            ay * ay <= d2,
            d2 < (len + 1) * (len + 1),
            len >= 0;
}

/// Advance a point `step` units along a direction vector, exactly as
/// `moved_point` describes. With a zero direction the point stays put.
pub fn advance_along(p: Coordinate, dir: Coordinate, step: u64) -> (r: Coordinate)
    requires
        in_bounds(p),
        dir_bounded(dir),
        step <= 100_000_000,
        can_move(p, step as int),
    ensures
        r == moved_point(p, dir, step as int),
        in_bounds(r),
        abs(r.x - p.x) <= step,
        abs(r.y - p.y) <= step,
{
    let ghost zero = Coordinate { x: 0, y: 0 };
    let dx_abs: u64 = if dir.x >= 0 { dir.x as u64 } else { (-dir.x) as u64 };
    let dy_abs: u64 = if dir.y >= 0 { dir.y as u64 } else { (-dir.y) as u64 };
    proof {
        assert(dx_abs * dx_abs + dy_abs * dy_abs == dist_sq(dir, zero)) by (nonlinear_arith)
            requires
                dx_abs == abs(dir.x as int),
                dy_abs == abs(dir.y as int),
                dist_sq(dir, zero) == (dir.x as int) * (dir.x as int) + (dir.y as int) * (dir.y
                    as int);
        assert(dx_abs * dx_abs <= 8_000_000_000_000_000_000) by (nonlinear_arith)
            requires dx_abs <= 2_000_000_000;
        assert(dy_abs * dy_abs <= 8_000_000_000_000_000_000) by (nonlinear_arith)
            requires dy_abs <= 2_000_000_000;
    }
    let d2: u64 = dx_abs * dx_abs + dy_abs * dy_abs;
    let len: u64 = isqrt(d2);
    if len == 0 {
        p
    } else {
        proof {
            lemma_component_le_len(dir);
            assert(dx_abs * step <= 2_000_000_000 * 100_000_000u64) by (nonlinear_arith)
                requires dx_abs <= 2_000_000_000 && step <= 100_000_000u64;
            assert(dy_abs * step <= 2_000_000_000 * 100_000_000u64) by (nonlinear_arith)
                requires dy_abs <= 2_000_000_000 && step <= 100_000_000u64;
            assert((dx_abs as int * step as int) / (len as int) <= step) by (nonlinear_arith)
                requires 0 < len as int && dx_abs as int <= len as int && 0 <= step as int;
            assert((dy_abs as int * step as int) / (len as int) <= step) by (nonlinear_arith)
                requires 0 < len as int && dy_abs as int <= len as int && 0 <= step as int;
        }
        let mx: u64 = (dx_abs * step) / len;
        let my: u64 = (dy_abs * step) / len;
        let x: i64 = if dir.x >= 0 { p.x + mx as i64 } else { p.x - mx as i64 };
        let y: i64 = if dir.y >= 0 { p.y + my as i64 } else { p.y - my as i64 };
        Coordinate { x, y }
    }
}

/// One movement tick for an entity that travels along a fixed direction (a
/// projectile): the position advances `speed * dt / 1000` units along the
/// direction, and the cumulative distance advances by the same step. A zero
/// direction moves nothing and accumulates nothing.
pub fn basic_movement(movement: &mut Movement, position: &mut Coordinate, dt_ms: u64)
    requires
        in_bounds(*old(position)),
        dir_bounded(old(movement).direction),
        old(movement).speed <= SPEED_LIMIT,
        dt_ms <= DT_LIMIT,
        can_move(*old(position), step_of(old(movement).speed, dt_ms)),
        old(movement).distance_travelled + step_of(old(movement).speed, dt_ms) <= u64::MAX,
    ensures
        final(movement).direction == old(movement).direction,
        final(movement).speed == old(movement).speed,
        dir_len(old(movement).direction) == 0 ==> {
            &&& *final(position) == *old(position)
            &&& final(movement).distance_travelled == old(movement).distance_travelled
        },
        dir_len(old(movement).direction) != 0 ==> {
            &&& *final(position) == moved_point(
                *old(position),
                old(movement).direction,
                step_of(old(movement).speed, dt_ms),
            )
            &&& final(movement).distance_travelled == old(movement).distance_travelled
                + step_of(old(movement).speed, dt_ms)
        },
        final(movement).distance_travelled >= old(movement).distance_travelled,
        in_bounds(*final(position)),
        abs(final(position).x - old(position).x) <= step_of(old(movement).speed, dt_ms),
        abs(final(position).y - old(position).y) <= step_of(old(movement).speed, dt_ms),
{
    proof {
        assert(movement.speed * dt_ms <= 1_000_000 * 60_000u64) by (nonlinear_arith)
            requires movement.speed <= 1_000_000 && dt_ms <= 60_000u64;
    }
    let step: u64 = step_length(movement.speed, dt_ms);
    let ghost d2 = dist_sq(movement.direction, Coordinate { x: 0, y: 0 });
    if movement.direction.x == 0 && movement.direction.y == 0 {
        proof {
            let x = movement.direction.x as int;
            let y = movement.direction.y as int;
            assert(d2 == 0) by (nonlinear_arith)
                requires
                    d2 == x * x + y * y,
                    x == 0,
                    y == 0;
            assert(dir_len(movement.direction) == 0);
        }
        return ;
    }
    proof {
        let x = movement.direction.x as int;
        let y = movement.direction.y as int;
        assert(d2 >= 1) by (nonlinear_arith)
            requires
                d2 == x * x + y * y,
                x != 0 || y != 0;
        crate::geometry::lemma_sqrt_floor_bounds(d2 as nat);
        let len = dir_len(movement.direction);
        assert(len >= 1) by (nonlinear_arith)
            requires
                len >= 0,
                d2 >= 1,
                d2 < (len + 1) * (len + 1);
    }
    let new_pos = advance_along(*position, movement.direction, step);
    *position = new_pos;
    movement.distance_travelled = movement.distance_travelled + step;
}

} // verus!
