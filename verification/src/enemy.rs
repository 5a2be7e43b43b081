//! Enemies: health, the checkpoint index along the route, and the per-tick
//! checkpoint-walking step. An enemy advances toward the checkpoint at its
//! index; when a tick's displacement would overshoot it, the enemy snaps onto
//! the checkpoint and its travelled distance grows by exactly the remaining
//! distance, never the overshoot.

use vstd::prelude::*;

use crate::geometry::{dist_sq, in_bounds, sqrt_floor, Coordinate};
use crate::movement::{
    advance_along, can_move, dir_bounded, moved_point, step_length, step_of, Movement,
    DT_LIMIT, SPEED_LIMIT,
};
use crate::targeting_priority::direction_to;

verus! {

/// Largest cumulative travelled distance the accounting accepts.
pub const TRAVEL_LIMIT: u64 = 1_000_000_000_000_000;

/// An enemy's combat state: its remaining health.
#[derive(Clone, Copy, Debug, PartialEq, Eq, Structural)]
pub struct Enemy {
    pub health: i64,
}

impl Enemy {
    /// An enemy with the given health.
    pub fn new(health: i64) -> (r: Enemy)
        ensures
            r.health == health,
    {
        Enemy { health }
    }
}

/// An enemy's progress along the route: the index of the checkpoint it is
/// heading for. Once the index reaches the checkpoint count the enemy has
/// escaped.
#[derive(Clone, Copy, Debug, PartialEq, Eq, Structural)]
pub struct Path {
    pub index: usize,
}

/// Every point of a route lies in world bounds.
pub open spec fn points_in_bounds(points: Seq<Coordinate>) -> bool {
    forall|i: int| 0 <= i < points.len() ==> in_bounds(#[trigger] points[i])
}


/// Where one checkpoint-walking tick takes a travelling enemy: standing
/// exactly on its checkpoint, its index advances and its direction turns to
/// the next checkpoint; a step that would overshoot snaps onto the
/// checkpoint, crediting exactly the remaining distance; otherwise the enemy
/// moves its full step toward the checkpoint. Past the route's end, nothing
/// moves.
pub open spec fn enemy_step(
    position: Coordinate,
    movement: Movement,
    path: Path,
    checkpoints: Seq<Coordinate>,
    dt_ms: u64,
) -> (Coordinate, Movement, Path) {
    if path.index >= checkpoints.len() {
        (position, movement, path)
    } else {
        let cp = checkpoints[path.index as int];
        let d2 = dist_sq(position, cp);
        let step = step_of(movement.speed, dt_ms);
        if d2 == 0 {
            (
                position,
                Movement {
                    direction: if path.index + 1 < checkpoints.len() {
                        direction_to(position, checkpoints[path.index + 1])
                    } else {
                        movement.direction
                    },
                    ..movement
                },
                Path { index: (path.index + 1) as usize },
            )
        } else if step * step > d2 {
            (
                cp,
                Movement {
                    direction: if path.index + 1 < checkpoints.len() {
                        direction_to(cp, checkpoints[path.index + 1])
                    } else {
                        movement.direction
                    },
                    distance_travelled: (movement.distance_travelled + sqrt_floor(
                        d2 as nat,
                    )) as u64,
                    ..movement
                },
                Path { index: (path.index + 1) as usize },
            )
        } else {
            (
                moved_point(position, direction_to(position, cp), step),
                Movement {
                    direction: direction_to(position, cp),
                    distance_travelled: (movement.distance_travelled + step) as u64,
                    ..movement
                },
                path,
            )
        }
    }
}

/// One checkpoint-walking tick for one travelling enemy.
///
/// If the enemy stands exactly on its checkpoint, its index advances and its
/// direction turns toward the next checkpoint (when one exists). If this
/// tick's displacement would overshoot the checkpoint, the enemy snaps onto
/// it, its travelled distance grows by exactly the pre-tick remaining
/// distance, and its index advances. Otherwise it moves its full step toward
/// the checkpoint. An enemy whose index is already past the route is left
/// untouched; the caller resolves its escape.
pub fn update_enemy_checkpoint(
    position: &mut Coordinate,
    movement: &mut Movement,
    path: &mut Path,
    checkpoints: &Vec<Coordinate>,
    dt_ms: u64,
)
    requires
        in_bounds(*old(position)),
        points_in_bounds(checkpoints@),
        old(movement).speed <= SPEED_LIMIT,
        dt_ms <= DT_LIMIT,
        can_move(*old(position), step_of(old(movement).speed, dt_ms)),
        old(movement).distance_travelled <= TRAVEL_LIMIT,
        old(path).index < usize::MAX,
    ensures
        final(movement).speed == old(movement).speed,
        final(movement).distance_travelled >= old(movement).distance_travelled,
        final(path).index >= old(path).index,
        in_bounds(*final(position)),
        (*final(position), *final(movement), *final(path)) == enemy_step(
            *old(position),
            *old(movement),
            *old(path),
            checkpoints@,
            dt_ms,
        ),
        // the enemy never strays outside the box spanned by its old position
        // and its checkpoint
        old(path).index < checkpoints@.len() ==> {
            let cp = checkpoints@[old(path).index as int];
            &&& (old(position).x <= cp.x ==> old(position).x <= final(position).x <= cp.x)
                || *final(position) == *old(position)
            &&& (cp.x <= old(position).x ==> cp.x <= final(position).x <= old(position).x)
                || *final(position) == *old(position)
            &&& (old(position).y <= cp.y ==> old(position).y <= final(position).y <= cp.y)
                || *final(position) == *old(position)
            &&& (cp.y <= old(position).y ==> cp.y <= final(position).y <= old(position).y)
                || *final(position) == *old(position)
        },
{
    if path.index >= checkpoints.len() {
        return ;
    }
    let cp = checkpoints[path.index];
    let d2: u64 = crate::geometry::distance_squared(*position, cp);
    if d2 == 0 {
        path.index = path.index + 1;
        if path.index < checkpoints.len() {
            let next = checkpoints[path.index];
            movement.direction = Coordinate { x: next.x - position.x, y: next.y - position.y };
        }
        return ;
    }
    proof {
        assert(movement.speed * dt_ms <= 1_000_000 * 60_000u64) by (nonlinear_arith)
            requires movement.speed <= 1_000_000 && dt_ms <= 60_000u64;
    }
    let step: u64 = step_length(movement.speed, dt_ms);
    proof {
        assert(step * step <= 60_000_000 * 60_000_000u64) by (nonlinear_arith)
            requires step <= 60_000_000u64;
    }
    if step * step > d2 {
        let remaining: u64 = crate::geometry::isqrt(d2);
        proof {
            crate::geometry::lemma_sqrt_floor_bounds(d2 as nat);
            assert(remaining * remaining <= 3_600_000_000_000_000u64) by (nonlinear_arith)
                requires
                    remaining * remaining <= d2,
                    d2 < step * step,
                    step * step <= 3_600_000_000_000_000u64;
            assert(remaining <= 60_000_000) by (nonlinear_arith)
                requires
                    remaining * remaining <= 3_600_000_000_000_000u64,
                    remaining >= 0;
        }
        *position = cp;
        movement.distance_travelled = movement.distance_travelled + remaining;
        path.index = path.index + 1;
        if path.index < checkpoints.len() {
            let next = checkpoints[path.index];
            movement.direction = Coordinate { x: next.x - cp.x, y: next.y - cp.y };
        }
    } else {
        let ghost p0 = *position;
        let dir = Coordinate { x: cp.x - position.x, y: cp.y - position.y };
        movement.direction = dir;
        proof {
            let zero = Coordinate { x: 0, y: 0 };
            let ddx = dir.x as int;
            let ddy = dir.y as int;
            assert(dist_sq(dir, zero) == d2) by (nonlinear_arith)
                requires
                    ddx == cp.x - p0.x,
                    ddy == cp.y - p0.y,
                    dist_sq(dir, zero) == ddx * ddx + ddy * ddy,
                    d2 == (p0.x - cp.x) * (p0.x - cp.x) + (p0.y - cp.y) * (p0.y - cp.y);
            let len = crate::movement::dir_len(dir);
            crate::geometry::lemma_sqrt_floor_bounds(d2 as nat);
            assert(len >= 1) by (nonlinear_arith)
                requires
                    len >= 0,
                    d2 >= 1,
                    d2 < (len + 1) * (len + 1);
            assert(step <= len) by (nonlinear_arith)
                requires
                    step * step <= d2,
                    d2 < (len + 1) * (len + 1),
                    step >= 0,
                    len >= 0;
            crate::movement::lemma_component_le_len(dir);
            let ax = vstd::math::abs(ddx) as int;
            let ay = vstd::math::abs(ddy) as int;
            assert((ax * step) / (len as int) <= ax && 0 <= (ax * step) / (len as int))
                by (nonlinear_arith)
                requires 0 <= ax && 0 <= step <= len && 0 < len;
            assert((ay * step) / (len as int) <= ay && 0 <= (ay * step) / (len as int))
                by (nonlinear_arith)
                requires 0 <= ay && 0 <= step <= len && 0 < len;
        }
        let new_pos = advance_along(*position, dir, step);
        *position = new_pos;
        movement.distance_travelled = movement.distance_travelled + step;
    }
}

} // verus!
