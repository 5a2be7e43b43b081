//! Targeting policy engine: given the enemies within a tower's range and a
//! policy, select at most one enemy and return the direction from the firing
//! origin to it. Ties are broken by selection order: the first enemy
//! encountered wins (except under the random policy).

use vstd::prelude::*;

use crate::geometry::{dist_sq, in_bounds, Coordinate};

verus! {

/// Largest tower range the engine accepts; keeps `range * range` in `u64`.
pub const RANGE_LIMIT: u64 = 2_000_000_000;

/// The rule a tower uses to pick its target among in-range enemies.
#[allow(non_camel_case_types)]
#[derive(Clone, Copy, Debug, PartialEq, Eq, Structural)]
pub enum TargetingPriority {
    FIRST,
    LAST,
    CLOSE,
    FAR,
    STRONG,
    WEAK,
    RANDOM,
}

/// How many targeting policies there are.
pub const TARGETING_PRIORITY_COUNT: usize = 7;

impl Default for TargetingPriority {
    /// Towers target the enemy furthest along the route by default.
    fn default() -> (r: Self)
        ensures
            r == TargetingPriority::FIRST,
    {
        TargetingPriority::FIRST
    }
}

/// The policy after `p` in the fixed cyclic order
/// FIRST, LAST, CLOSE, FAR, STRONG, WEAK, RANDOM, FIRST, ...
pub open spec fn next_of(p: TargetingPriority) -> TargetingPriority {
    match p {
        TargetingPriority::FIRST => TargetingPriority::LAST,
        TargetingPriority::LAST => TargetingPriority::CLOSE,
        TargetingPriority::CLOSE => TargetingPriority::FAR,
        TargetingPriority::FAR => TargetingPriority::STRONG,
        TargetingPriority::STRONG => TargetingPriority::WEAK,
        TargetingPriority::WEAK => TargetingPriority::RANDOM,
        TargetingPriority::RANDOM => TargetingPriority::FIRST,
    }
}

/// The policy before `p` in the same cyclic order.
pub open spec fn prev_of(p: TargetingPriority) -> TargetingPriority {
    match p {
        TargetingPriority::FIRST => TargetingPriority::RANDOM,
        TargetingPriority::LAST => TargetingPriority::FIRST,
        TargetingPriority::CLOSE => TargetingPriority::LAST,
        TargetingPriority::FAR => TargetingPriority::CLOSE,
        TargetingPriority::STRONG => TargetingPriority::FAR,
        TargetingPriority::WEAK => TargetingPriority::STRONG,
        TargetingPriority::RANDOM => TargetingPriority::WEAK,
    }
}

/// The index of `p` in the cyclic order.
pub open spec fn index_of(p: TargetingPriority) -> int {
    match p {
        TargetingPriority::FIRST => 0,
        TargetingPriority::LAST => 1,
        TargetingPriority::CLOSE => 2,
        TargetingPriority::FAR => 3,
        TargetingPriority::STRONG => 4,
        TargetingPriority::WEAK => 5,
        TargetingPriority::RANDOM => 6,
    }
}

/// The policy at index `i mod 7` of the cyclic order.
pub open spec fn of_index(i: int) -> TargetingPriority {
    let k = i % 7;
    if k == 0 {
        TargetingPriority::FIRST
    } else if k == 1 {
        TargetingPriority::LAST
    } else if k == 2 {
        TargetingPriority::CLOSE
    } else if k == 3 {
        TargetingPriority::FAR
    } else if k == 4 {
        TargetingPriority::STRONG
    } else if k == 5 {
        TargetingPriority::WEAK
    } else {
        TargetingPriority::RANDOM
    }
}

impl TargetingPriority {
    /// Step to the next policy in the cyclic order.
    pub fn next_target(&mut self)
        ensures
            *final(self) == next_of(*old(self)),
    {
        *self = match *self {
            TargetingPriority::FIRST => TargetingPriority::LAST,
            TargetingPriority::LAST => TargetingPriority::CLOSE,
            TargetingPriority::CLOSE => TargetingPriority::FAR,
            TargetingPriority::FAR => TargetingPriority::STRONG,
            TargetingPriority::STRONG => TargetingPriority::WEAK,
            TargetingPriority::WEAK => TargetingPriority::RANDOM,
            TargetingPriority::RANDOM => TargetingPriority::FIRST,
        };
    }

    /// Step to the previous policy in the cyclic order.
    pub fn prev_target(&mut self)
        ensures
            *final(self) == prev_of(*old(self)),
    {
        *self = match *self {
            TargetingPriority::FIRST => TargetingPriority::RANDOM,
            TargetingPriority::LAST => TargetingPriority::FIRST,
            TargetingPriority::CLOSE => TargetingPriority::LAST,
            TargetingPriority::FAR => TargetingPriority::CLOSE,
            TargetingPriority::STRONG => TargetingPriority::FAR,
            TargetingPriority::WEAK => TargetingPriority::STRONG,
            TargetingPriority::RANDOM => TargetingPriority::WEAK,
        };
    }

    /// This policy's position in the cyclic order.
    pub fn as_index(&self) -> (r: usize)
        ensures
            r == index_of(*self),
    {
        match *self {
            TargetingPriority::FIRST => 0,
            TargetingPriority::LAST => 1,
            TargetingPriority::CLOSE => 2,
            TargetingPriority::FAR => 3,
            TargetingPriority::STRONG => 4,
            TargetingPriority::WEAK => 5,
            TargetingPriority::RANDOM => 6,
        }
    }

    /// The policy at position `i` of the cyclic order, wrapping modulo the
    /// number of policies.
    pub fn from_index(i: usize) -> (r: Self)
        ensures
            r == of_index(i as int),
    {
        let k: usize = i % 7;
        if k == 0 {
            TargetingPriority::FIRST
        } else if k == 1 {
            TargetingPriority::LAST
        } else if k == 2 {
            TargetingPriority::CLOSE
        } else if k == 3 {
            TargetingPriority::FAR
        } else if k == 4 {
            TargetingPriority::STRONG
        } else if k == 5 {
            TargetingPriority::WEAK
        } else {
            TargetingPriority::RANDOM
        }
    }
}

/// Stepping forward then backward (or backward then forward) returns to the
/// starting policy.
pub proof fn lemma_next_prev_inverse(p: TargetingPriority)
    ensures
        prev_of(next_of(p)) == p,
        next_of(prev_of(p)) == p,
{
}

/// Stepping forward once per policy — seven times, the enum's cardinality —
/// returns to the starting policy; likewise stepping backward seven times.
pub proof fn lemma_cycle_returns(p: TargetingPriority)
    ensures
        next_of(next_of(next_of(next_of(next_of(next_of(next_of(p))))))) == p,
        prev_of(prev_of(prev_of(prev_of(prev_of(prev_of(prev_of(p))))))) == p,
{
}

/// Indexing is the inverse of the cyclic order's position.
pub proof fn lemma_index_roundtrip(p: TargetingPriority)
    ensures
        of_index(index_of(p)) == p,
{
}

/// What the targeting engine reads of one live enemy: its position, health,
/// and how far it has travelled along the route.
#[derive(Clone, Copy, Debug)]
pub struct TargetInfo {
    pub position: Coordinate,
    pub health: i64,
    pub distance_travelled: u64,
}

/// All enemy positions handed to the engine lie in world bounds.
pub open spec fn targets_in_bounds(enemies: Seq<TargetInfo>) -> bool {
    forall|i: int| 0 <= i < enemies.len() ==> in_bounds(#[trigger] enemies[i].position)
}

/// The enemy at index `i` lies within `range` of `origin`
/// (compared on exact squared distances).
pub open spec fn in_range_at(
    enemies: Seq<TargetInfo>,
    origin: Coordinate,
    range: u64,
    i: int,
) -> bool {
    &&& 0 <= i < enemies.len()
    &&& dist_sq(enemies[i].position, origin) <= (range as int) * (range as int)
}

/// Some enemy lies within range of the origin.
pub open spec fn some_in_range(enemies: Seq<TargetInfo>, origin: Coordinate, range: u64) -> bool {
    exists|i: int| in_range_at(enemies, origin, range, i)
}

/// The vector from `origin` to `target`.
pub open spec fn direction_to(origin: Coordinate, target: Coordinate) -> Coordinate {
    Coordinate { x: (target.x - origin.x) as i64, y: (target.y - origin.y) as i64 }
}

/// Enemy `i` is the pick of the FIRST policy: in range, furthest along its
/// route, first such enemy in selection order.
pub open spec fn first_choice_at(
    enemies: Seq<TargetInfo>,
    origin: Coordinate,
    range: u64,
    i: int,
) -> bool {
    &&& in_range_at(enemies, origin, range, i)
    &&& forall|j: int|
        #[trigger] in_range_at(enemies, origin, range, j)
            ==> enemies[j].distance_travelled <= enemies[i].distance_travelled
    &&& forall|j: int|
        j < i && #[trigger] in_range_at(enemies, origin, range, j)
            ==> enemies[j].distance_travelled < enemies[i].distance_travelled
}

/// Enemy `i` is the pick of the LAST policy: in range, least far along its
/// route, first such enemy in selection order.
pub open spec fn last_choice_at(
    enemies: Seq<TargetInfo>,
    origin: Coordinate,
    range: u64,
    i: int,
) -> bool {
    &&& in_range_at(enemies, origin, range, i)
    &&& forall|j: int|
        #[trigger] in_range_at(enemies, origin, range, j)
            ==> enemies[j].distance_travelled >= enemies[i].distance_travelled
    &&& forall|j: int|
        j < i && #[trigger] in_range_at(enemies, origin, range, j)
            ==> enemies[j].distance_travelled > enemies[i].distance_travelled
}

/// Enemy `i` is the pick of the CLOSE policy: in range, at minimum distance
/// to the firing origin, first such enemy in selection order.
pub open spec fn close_choice_at(
    enemies: Seq<TargetInfo>,
    origin: Coordinate,
    range: u64,
    i: int,
) -> bool {
    &&& in_range_at(enemies, origin, range, i)
    &&& forall|j: int|
        #[trigger] in_range_at(enemies, origin, range, j)
            ==> dist_sq(enemies[j].position, origin) >= dist_sq(enemies[i].position, origin)
    &&& forall|j: int|
        j < i && #[trigger] in_range_at(enemies, origin, range, j)
            ==> dist_sq(enemies[j].position, origin) > dist_sq(enemies[i].position, origin)
}

/// Enemy `i` is the pick of the FAR policy: in range, at maximum distance
/// to the firing origin, first such enemy in selection order.
pub open spec fn far_choice_at(
    enemies: Seq<TargetInfo>,
    origin: Coordinate,
    range: u64,
    i: int,
) -> bool {
    &&& in_range_at(enemies, origin, range, i)
    &&& forall|j: int|
        #[trigger] in_range_at(enemies, origin, range, j)
            ==> dist_sq(enemies[j].position, origin) <= dist_sq(enemies[i].position, origin)
    &&& forall|j: int|
        j < i && #[trigger] in_range_at(enemies, origin, range, j)
            ==> dist_sq(enemies[j].position, origin) < dist_sq(enemies[i].position, origin)
}

/// Enemy `i` is the pick of the STRONG policy: in range, of maximum health,
/// first such enemy in selection order.
pub open spec fn strong_choice_at(
    enemies: Seq<TargetInfo>,
    origin: Coordinate,
    range: u64,
    i: int,
) -> bool {
    &&& in_range_at(enemies, origin, range, i)
    &&& forall|j: int|
        #[trigger] in_range_at(enemies, origin, range, j) ==> enemies[j].health <= enemies[i].health
    &&& forall|j: int|
        j < i && #[trigger] in_range_at(enemies, origin, range, j)
            ==> enemies[j].health < enemies[i].health
}

/// Enemy `i` is the pick of the WEAK policy: in range, of minimum health,
/// first such enemy in selection order.
pub open spec fn weak_choice_at(
    enemies: Seq<TargetInfo>,
    origin: Coordinate,
    range: u64,
    i: int,
) -> bool {
    &&& in_range_at(enemies, origin, range, i)
    &&& forall|j: int|
        #[trigger] in_range_at(enemies, origin, range, j) ==> enemies[j].health >= enemies[i].health
    &&& forall|j: int|
        j < i && #[trigger] in_range_at(enemies, origin, range, j)
            ==> enemies[j].health > enemies[i].health
}

/// Enemy `i` is a pick the given policy allows. The random policy allows any
/// in-range enemy.
pub open spec fn choice_at(
    enemies: Seq<TargetInfo>,
    origin: Coordinate,
    range: u64,
    policy: TargetingPriority,
    i: int,
) -> bool {
    match policy {
        TargetingPriority::FIRST => first_choice_at(enemies, origin, range, i),
        TargetingPriority::LAST => last_choice_at(enemies, origin, range, i),
        TargetingPriority::CLOSE => close_choice_at(enemies, origin, range, i),
        TargetingPriority::FAR => far_choice_at(enemies, origin, range, i),
        TargetingPriority::STRONG => strong_choice_at(enemies, origin, range, i),
        TargetingPriority::WEAK => weak_choice_at(enemies, origin, range, i),
        TargetingPriority::RANDOM => in_range_at(enemies, origin, range, i),
    }
}

/// The engine's result is right for the policy: no direction exactly when no
/// enemy is in range, otherwise the direction from the origin to an enemy
/// the policy allows.
pub open spec fn valid_selection(
    enemies: Seq<TargetInfo>,
    origin: Coordinate,
    range: u64,
    policy: TargetingPriority,
    r: Option<Coordinate>,
) -> bool {
    match r {
        Option::None => !some_in_range(enemies, origin, range),
        Option::Some(dir) => exists|i: int|
            #[trigger] choice_at(enemies, origin, range, policy, i)
                && dir == direction_to(origin, enemies[i].position),
    }
}

/// `range * range`, shown to fit in a `u64`.
fn range_squared(range: u64) -> (r: u64)
    requires
        range <= RANGE_LIMIT,
    ensures
        r == (range as int) * (range as int),
{
    proof {
        assert((range as int) * (range as int) <= 4_000_000_000_000_000_000) by (nonlinear_arith)
            requires range <= 2_000_000_000;
        assert((range as int) * (range as int) >= 0) by (nonlinear_arith);
    }
    range * range
}

/// The vector from `origin` to `target`, computed on in-bounds points.
fn direction_between(origin: Coordinate, target: Coordinate) -> (r: Coordinate)
    requires
        in_bounds(origin),
        in_bounds(target),
    ensures
        r == direction_to(origin, target),
{
    Coordinate { x: target.x - origin.x, y: target.y - origin.y }
}

/// Direction to the in-range enemy that has travelled the furthest along the
/// route (the one closest to the base); no direction when none is in range.
pub fn first_enemy_direction(
    enemies: &Vec<TargetInfo>,
    bullet_spawn_pos: Coordinate,
    tower_range: u64,
) -> (r: Option<Coordinate>)
    requires
        in_bounds(bullet_spawn_pos),
        targets_in_bounds(enemies@),
        tower_range <= RANGE_LIMIT,
    ensures
        valid_selection(enemies@, bullet_spawn_pos, tower_range, TargetingPriority::FIRST, r),
{
    let ghost origin = bullet_spawn_pos;
    let range_sq: u64 = range_squared(tower_range);
    let mut best: Option<usize> = Option::None;
    let mut best_key: u64 = 0;
    let mut i: usize = 0;
    while i < enemies.len()
        invariant
            i <= enemies@.len(),
            origin == bullet_spawn_pos,
            in_bounds(origin),
            targets_in_bounds(enemies@),
            tower_range <= RANGE_LIMIT,
            range_sq == (tower_range as int) * (tower_range as int),
            match best {
                Option::None => forall|j: int|
                    0 <= j < i ==> !in_range_at(enemies@, origin, tower_range, j),
                Option::Some(b) => {
                    &&& 0 <= b < i
                    &&& in_range_at(enemies@, origin, tower_range, b as int)
                    &&& best_key == enemies@[b as int].distance_travelled
                    &&& forall|j: int|
                        j < i && #[trigger] in_range_at(enemies@, origin, tower_range, j)
                            ==> enemies@[j].distance_travelled <= best_key
                    &&& forall|j: int|
                        j < b && #[trigger] in_range_at(enemies@, origin, tower_range, j)
                            ==> enemies@[j].distance_travelled < best_key
                },
            },
        decreases enemies@.len() - i,
    {
        let e = enemies[i];
        let d2: u64 = crate::geometry::distance_squared(e.position, bullet_spawn_pos);
        if d2 <= range_sq {
            match best {
                Option::None => {
                    best = Option::Some(i);
                    best_key = e.distance_travelled;
                },
                Option::Some(_) => {
                    if e.distance_travelled > best_key {
                        best = Option::Some(i);
                        best_key = e.distance_travelled;
                    }
                },
            }
        }
        i = i + 1;
    }
    match best {
        Option::None => Option::None,
        Option::Some(b) => {
            let dir = direction_between(bullet_spawn_pos, enemies[b].position);
            proof {
                assert(first_choice_at(enemies@, origin, tower_range, b as int));
                assert(choice_at(enemies@, origin, tower_range, TargetingPriority::FIRST, b as int));
            }
            Option::Some(dir)
        },
    }
}

/// Direction to the in-range enemy that has travelled the least along the
/// route (the one closest to the spawn); no direction when none is in range.
pub fn last_enemy_direction(
    enemies: &Vec<TargetInfo>,
    bullet_spawn_pos: Coordinate,
    tower_range: u64,
) -> (r: Option<Coordinate>)
    requires
        in_bounds(bullet_spawn_pos),
        targets_in_bounds(enemies@),
        tower_range <= RANGE_LIMIT,
    ensures
        valid_selection(enemies@, bullet_spawn_pos, tower_range, TargetingPriority::LAST, r),
{
    let ghost origin = bullet_spawn_pos;
    let range_sq: u64 = range_squared(tower_range);
    let mut best: Option<usize> = Option::None;
    let mut best_key: u64 = 0;
    let mut i: usize = 0;
    while i < enemies.len()
        invariant
            i <= enemies@.len(),
            origin == bullet_spawn_pos,
            in_bounds(origin),
            targets_in_bounds(enemies@),
            tower_range <= RANGE_LIMIT,
            range_sq == (tower_range as int) * (tower_range as int),
            match best {
                Option::None => forall|j: int|
                    0 <= j < i ==> !in_range_at(enemies@, origin, tower_range, j),
                Option::Some(b) => {
                    &&& 0 <= b < i
                    &&& in_range_at(enemies@, origin, tower_range, b as int)
                    &&& best_key == enemies@[b as int].distance_travelled
                    &&& forall|j: int|
                        j < i && #[trigger] in_range_at(enemies@, origin, tower_range, j)
                            ==> enemies@[j].distance_travelled >= best_key
                    &&& forall|j: int|
                        j < b && #[trigger] in_range_at(enemies@, origin, tower_range, j)
                            ==> enemies@[j].distance_travelled > best_key
                },
            },
        decreases enemies@.len() - i,
    {
        let e = enemies[i];
        let d2: u64 = crate::geometry::distance_squared(e.position, bullet_spawn_pos);
        if d2 <= range_sq {
            match best {
                Option::None => {
                    best = Option::Some(i);
                    best_key = e.distance_travelled;
                },
                Option::Some(_) => {
                    if e.distance_travelled < best_key {
                        best = Option::Some(i);
                        best_key = e.distance_travelled;
                    }
                },
            }
        }
        i = i + 1;
    }
    match best {
        Option::None => Option::None,
        Option::Some(b) => {
            let dir = direction_between(bullet_spawn_pos, enemies[b].position);
            proof {
                assert(last_choice_at(enemies@, origin, tower_range, b as int));
                assert(choice_at(enemies@, origin, tower_range, TargetingPriority::LAST, b as int));
            }
            Option::Some(dir)
        },
    }
}

/// Direction to the in-range enemy at minimum distance to the firing origin;
/// no direction when none is in range.
pub fn closest_enemy_direction(
    enemies: &Vec<TargetInfo>,
    bullet_spawn_pos: Coordinate,
    tower_range: u64,
) -> (r: Option<Coordinate>)
    requires
        in_bounds(bullet_spawn_pos),
        targets_in_bounds(enemies@),
        tower_range <= RANGE_LIMIT,
    ensures
        valid_selection(enemies@, bullet_spawn_pos, tower_range, TargetingPriority::CLOSE, r),
{
    let ghost origin = bullet_spawn_pos;
    let range_sq: u64 = range_squared(tower_range);
    let mut best: Option<usize> = Option::None;
    let mut best_key: u64 = 0;
    let mut i: usize = 0;
    while i < enemies.len()
        invariant
            i <= enemies@.len(),
            origin == bullet_spawn_pos,
            in_bounds(origin),
            targets_in_bounds(enemies@),
            tower_range <= RANGE_LIMIT,
            range_sq == (tower_range as int) * (tower_range as int),
            match best {
                Option::None => forall|j: int|
                    0 <= j < i ==> !in_range_at(enemies@, origin, tower_range, j),
                Option::Some(b) => {
                    &&& 0 <= b < i
                    &&& in_range_at(enemies@, origin, tower_range, b as int)
                    &&& best_key == dist_sq(enemies@[b as int].position, origin)
                    &&& forall|j: int|
                        j < i && #[trigger] in_range_at(enemies@, origin, tower_range, j)
                            ==> dist_sq(enemies@[j].position, origin) >= best_key
                    &&& forall|j: int|
                        j < b && #[trigger] in_range_at(enemies@, origin, tower_range, j)
                            ==> dist_sq(enemies@[j].position, origin) > best_key
                },
            },
        decreases enemies@.len() - i,
    {
        let e = enemies[i];
        let d2: u64 = crate::geometry::distance_squared(e.position, bullet_spawn_pos);
        if d2 <= range_sq {
            match best {
                Option::None => {
                    best = Option::Some(i);
                    best_key = d2;
                },
                Option::Some(_) => {
                    if d2 < best_key {
                        best = Option::Some(i);
                        best_key = d2;
                    }
                },
            }
        }
        i = i + 1;
    }
    match best {
        Option::None => Option::None,
        Option::Some(b) => {
            let dir = direction_between(bullet_spawn_pos, enemies[b].position);
            proof {
                assert(close_choice_at(enemies@, origin, tower_range, b as int));
                assert(choice_at(enemies@, origin, tower_range, TargetingPriority::CLOSE, b as int));
            }
            Option::Some(dir)
        },
    }
}

/// Direction to the in-range enemy at maximum distance to the firing origin;
/// no direction when none is in range.
pub fn farthest_enemy_direction(
    enemies: &Vec<TargetInfo>,
    bullet_spawn_pos: Coordinate,
    tower_range: u64,
) -> (r: Option<Coordinate>)
    requires
        in_bounds(bullet_spawn_pos),
        targets_in_bounds(enemies@),
        tower_range <= RANGE_LIMIT,
    ensures
        valid_selection(enemies@, bullet_spawn_pos, tower_range, TargetingPriority::FAR, r),
{
    let ghost origin = bullet_spawn_pos;
    let range_sq: u64 = range_squared(tower_range);
    let mut best: Option<usize> = Option::None;
    let mut best_key: u64 = 0;
    let mut i: usize = 0;
    while i < enemies.len()
        invariant
            i <= enemies@.len(),
            origin == bullet_spawn_pos,
            in_bounds(origin),
            targets_in_bounds(enemies@),
            tower_range <= RANGE_LIMIT,
            range_sq == (tower_range as int) * (tower_range as int),
            match best {
                Option::None => forall|j: int|
                    0 <= j < i ==> !in_range_at(enemies@, origin, tower_range, j),
                Option::Some(b) => {
                    &&& 0 <= b < i
                    &&& in_range_at(enemies@, origin, tower_range, b as int)
                    &&& best_key == dist_sq(enemies@[b as int].position, origin)
                    &&& forall|j: int|
                        j < i && #[trigger] in_range_at(enemies@, origin, tower_range, j)
                            ==> dist_sq(enemies@[j].position, origin) <= best_key
                    &&& forall|j: int|
                        j < b && #[trigger] in_range_at(enemies@, origin, tower_range, j)
                            ==> dist_sq(enemies@[j].position, origin) < best_key
                },
            },
        decreases enemies@.len() - i,
    {
        let e = enemies[i];
        let d2: u64 = crate::geometry::distance_squared(e.position, bullet_spawn_pos);
        if d2 <= range_sq {
            match best {
                Option::None => {
                    best = Option::Some(i);
                    best_key = d2;
                },
                Option::Some(_) => {
                    if d2 > best_key {
                        best = Option::Some(i);
                        best_key = d2;
                    }
                },
            }
        }
        i = i + 1;
    }
    match best {
        Option::None => Option::None,
        Option::Some(b) => {
            let dir = direction_between(bullet_spawn_pos, enemies[b].position);
            proof {
                assert(far_choice_at(enemies@, origin, tower_range, b as int));
                assert(choice_at(enemies@, origin, tower_range, TargetingPriority::FAR, b as int));
            }
            Option::Some(dir)
        },
    }
}

/// Direction to the in-range enemy with the highest health; no direction
/// when none is in range.
pub fn strongest_enemy_direction(
    enemies: &Vec<TargetInfo>,
    bullet_spawn_pos: Coordinate,
    tower_range: u64,
) -> (r: Option<Coordinate>)
    requires
        in_bounds(bullet_spawn_pos),
        targets_in_bounds(enemies@),
        tower_range <= RANGE_LIMIT,
    ensures
        valid_selection(enemies@, bullet_spawn_pos, tower_range, TargetingPriority::STRONG, r),
{
    let ghost origin = bullet_spawn_pos;
    let range_sq: u64 = range_squared(tower_range);
    let mut best: Option<usize> = Option::None;
    let mut best_key: i64 = 0;
    let mut i: usize = 0;
    while i < enemies.len()
        invariant
            i <= enemies@.len(),
            origin == bullet_spawn_pos,
            in_bounds(origin),
            targets_in_bounds(enemies@),
            tower_range <= RANGE_LIMIT,
            range_sq == (tower_range as int) * (tower_range as int),
            match best {
                Option::None => forall|j: int|
                    0 <= j < i ==> !in_range_at(enemies@, origin, tower_range, j),
                Option::Some(b) => {
                    &&& 0 <= b < i
                    &&& in_range_at(enemies@, origin, tower_range, b as int)
                    &&& best_key == enemies@[b as int].health
                    &&& forall|j: int|
                        j < i && #[trigger] in_range_at(enemies@, origin, tower_range, j)
                            ==> enemies@[j].health <= best_key
                    &&& forall|j: int|
                        j < b && #[trigger] in_range_at(enemies@, origin, tower_range, j)
                            ==> enemies@[j].health < best_key
                },
            },
        decreases enemies@.len() - i,
    {
        let e = enemies[i];
        let d2: u64 = crate::geometry::distance_squared(e.position, bullet_spawn_pos);
        if d2 <= range_sq {
            match best {
                Option::None => {
                    best = Option::Some(i);
                    best_key = e.health;
                },
                Option::Some(_) => {
                    if e.health > best_key {
                        best = Option::Some(i);
                        best_key = e.health;
                    }
                },
            }
        }
        i = i + 1;
    }
    match best {
        Option::None => Option::None,
        Option::Some(b) => {
            let dir = direction_between(bullet_spawn_pos, enemies[b].position);
            proof {
                assert(strong_choice_at(enemies@, origin, tower_range, b as int));
                assert(choice_at(enemies@, origin, tower_range, TargetingPriority::STRONG, b as int));
            }
            Option::Some(dir)
        },
    }
}

/// Direction to the in-range enemy with the lowest health; no direction
/// when none is in range.
pub fn weakest_enemy_direction(
    enemies: &Vec<TargetInfo>,
    bullet_spawn_pos: Coordinate,
    tower_range: u64,
) -> (r: Option<Coordinate>)
    requires
        in_bounds(bullet_spawn_pos),
        targets_in_bounds(enemies@),
        tower_range <= RANGE_LIMIT,
    ensures
        valid_selection(enemies@, bullet_spawn_pos, tower_range, TargetingPriority::WEAK, r),
{
    let ghost origin = bullet_spawn_pos;
    let range_sq: u64 = range_squared(tower_range);
    let mut best: Option<usize> = Option::None;
    let mut best_key: i64 = 0;
    let mut i: usize = 0;
    while i < enemies.len()
        invariant
            i <= enemies@.len(),
            origin == bullet_spawn_pos,
            in_bounds(origin),
            targets_in_bounds(enemies@),
            tower_range <= RANGE_LIMIT,
            range_sq == (tower_range as int) * (tower_range as int),
            match best {
                Option::None => forall|j: int|
                    0 <= j < i ==> !in_range_at(enemies@, origin, tower_range, j),
                Option::Some(b) => {
                    &&& 0 <= b < i
                    &&& in_range_at(enemies@, origin, tower_range, b as int)
                    &&& best_key == enemies@[b as int].health
                    &&& forall|j: int|
                        j < i && #[trigger] in_range_at(enemies@, origin, tower_range, j)
                            ==> enemies@[j].health >= best_key
                    &&& forall|j: int|
                        j < b && #[trigger] in_range_at(enemies@, origin, tower_range, j)
                            ==> enemies@[j].health > best_key
                },
            },
        decreases enemies@.len() - i,
    {
        let e = enemies[i];
        let d2: u64 = crate::geometry::distance_squared(e.position, bullet_spawn_pos);
        if d2 <= range_sq {
            match best {
                Option::None => {
                    best = Option::Some(i);
                    best_key = e.health;
                },
                Option::Some(_) => {
                    if e.health < best_key {
                        best = Option::Some(i);
                        best_key = e.health;
                    }
                },
            }
        }
        i = i + 1;
    }
    match best {
        Option::None => Option::None,
        Option::Some(b) => {
            let dir = direction_between(bullet_spawn_pos, enemies[b].position);
            proof {
                assert(weak_choice_at(enemies@, origin, tower_range, b as int));
                assert(choice_at(enemies@, origin, tower_range, TargetingPriority::WEAK, b as int));
            }
            Option::Some(dir)
        },
    }
}

/// Relies on rand::Rng::gen_range: returns a uniform value in the given
/// non-empty half-open range, here [0, n).
#[verifier::external_body]
fn random_below(n: usize) -> (r: usize)
    requires
        n > 0,
    ensures
        r < n,
{
    rand::Rng::gen_range(&mut rand::thread_rng(), 0..n)
}

/// Direction to a uniformly chosen in-range enemy; no direction when none is
/// in range.
pub fn random_enemy_direction(
    enemies: &Vec<TargetInfo>,
    bullet_spawn_pos: Coordinate,
    tower_range: u64,
) -> (r: Option<Coordinate>)
    requires
        in_bounds(bullet_spawn_pos),
        targets_in_bounds(enemies@),
        tower_range <= RANGE_LIMIT,
    ensures
        valid_selection(enemies@, bullet_spawn_pos, tower_range, TargetingPriority::RANDOM, r),
{
    let ghost origin = bullet_spawn_pos;
    let range_sq: u64 = range_squared(tower_range);
    let mut indices: Vec<usize> = Vec::new();
    let mut i: usize = 0;
    while i < enemies.len()
        invariant
            i <= enemies@.len(),
            origin == bullet_spawn_pos,
            in_bounds(origin),
            targets_in_bounds(enemies@),
            tower_range <= RANGE_LIMIT,
            range_sq == (tower_range as int) * (tower_range as int),
            forall|k: int|
                0 <= k < indices@.len()
                    ==> in_range_at(enemies@, origin, tower_range, #[trigger] indices@[k] as int),
            indices@.len() == 0 ==> forall|j: int|
                0 <= j < i ==> !in_range_at(enemies@, origin, tower_range, j),
        decreases enemies@.len() - i,
    {
        let e = enemies[i];
        let d2: u64 = crate::geometry::distance_squared(e.position, bullet_spawn_pos);
        if d2 <= range_sq {
            indices.push(i);
        }
        i = i + 1;
    }
    if indices.len() == 0 {
        Option::None
    } else {
        let k = random_below(indices.len());
        let b = indices[k];
        let dir = direction_between(bullet_spawn_pos, enemies[b].position);
        proof {
            assert(choice_at(enemies@, origin, tower_range, TargetingPriority::RANDOM, b as int));
        }
        Option::Some(dir)
    }
}

/// Select a target among the enemies in range of the firing origin according
/// to the tower's targeting priority, and return the firing direction.
pub fn get_enemy_direction(
    enemies: &Vec<TargetInfo>,
    bullet_spawn_pos: Coordinate,
    tower_range: u64,
    tower_targeting_priority: &TargetingPriority,
) -> (r: Option<Coordinate>)
    requires
        in_bounds(bullet_spawn_pos),
        targets_in_bounds(enemies@),
        tower_range <= RANGE_LIMIT,
    ensures
        valid_selection(enemies@, bullet_spawn_pos, tower_range, *tower_targeting_priority, r),
{
    match tower_targeting_priority {
        TargetingPriority::FIRST => first_enemy_direction(enemies, bullet_spawn_pos, tower_range),
        TargetingPriority::LAST => last_enemy_direction(enemies, bullet_spawn_pos, tower_range),
        TargetingPriority::CLOSE => closest_enemy_direction(enemies, bullet_spawn_pos, tower_range),
        TargetingPriority::FAR => farthest_enemy_direction(enemies, bullet_spawn_pos, tower_range),
        TargetingPriority::STRONG => strongest_enemy_direction(
            enemies,
            bullet_spawn_pos,
            tower_range,
        ),
        TargetingPriority::WEAK => weakest_enemy_direction(enemies, bullet_spawn_pos, tower_range),
        TargetingPriority::RANDOM => random_enemy_direction(enemies, bullet_spawn_pos, tower_range),
    }
}

} // verus!
