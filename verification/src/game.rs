//! The tick-driven orchestrator: an arena of enemy, tower, and projectile
//! records, the base and the player, the wave scheduler, and the per-tick
//! pass that moves everything, resolves combat, and spawns enemies.
//!
//! Its central invariant is conservation of enemies: every enemy ever
//! spawned is counted exactly once as dead, escaped, or still alive.

use vstd::math::abs;
use vstd::prelude::*;

use crate::base::{damage_base, Base};
use crate::bullet::{apply_bullet_hit, Bullet, BULLET_HALF_HEIGHT, BULLET_HALF_WIDTH,
    ENEMY_HALF_SIZE, TOTAL_DAMAGE_LIMIT};
use crate::enemy::{update_enemy_checkpoint, Enemy, Path, TRAVEL_LIMIT};
use crate::geometry::{boxes_overlap, in_bounds, Coordinate};
use crate::movement::{dir_bounded, step_of, Movement, DT_LIMIT, SPEED_LIMIT};
use crate::player::{
    give_money_on_enemy_death, give_money_on_wave_cleared, Player, KILL_REWARD, WAVE_CLEAR_BONUS,
};
use crate::targeting_priority::TargetInfo;
use crate::timer::GameTimer;
use crate::tower::{
    apply_stats, detection_range, tower_shooting, translate, Tower, Upgrade, BULLET_LIFETIME_MS,
    DAMAGE_LIMIT, MONEY_LIMIT,
};
use crate::wave::{
    sched_wf, spawn_waves, wave_transition, waves_wf, EnemyType, WaveState, Waves,
};

verus! {

/// The play area: every entity position stays within this bound, well inside
/// the world bounds so a tick's movement can never leave them.
pub const ARENA_LIMIT: i64 = 100_000_000;

/// Largest number of entities of one kind the arena accepts.
pub const ENTITY_LIMIT: usize = 1_000_000;

/// Largest enemy health a stat table may give.
pub const HEALTH_LIMIT: i64 = 1_000_000_000_000;

/// A coordinate lies inside the play area.
pub open spec fn in_arena(c: Coordinate) -> bool {
    -ARENA_LIMIT <= c.x <= ARENA_LIMIT && -ARENA_LIMIT <= c.y <= ARENA_LIMIT
}

/// Base stats of one enemy kind: starting health and speed.
#[derive(Clone, Copy, Debug, PartialEq, Eq, Structural)]
pub struct EnemyStats {
    pub health: i64,
    pub speed: u64,
}

/// A stat entry is within the arithmetic limits.
pub open spec fn stats_wf(s: EnemyStats) -> bool {
    &&& 1 <= s.health <= HEALTH_LIMIT
    &&& s.speed <= SPEED_LIMIT
}

/// One enemy record of the arena.
#[derive(Clone, Copy, Debug)]
pub struct EnemyUnit {
    pub enemy: Enemy,
    pub movement: Movement,
    pub position: Coordinate,
    pub path: Path,
    pub alive: bool,
}

/// An enemy record's core consistency: inside the arena and within the stat
/// limits. It holds even mid-tick, when a live enemy's health may already
/// have dropped to zero but its death has not been resolved yet.
pub open spec fn enemy_core_wf(e: EnemyUnit) -> bool {
    &&& in_arena(e.position)
    &&& e.movement.speed <= SPEED_LIMIT
    &&& -(DAMAGE_LIMIT as i64) <= e.enemy.health <= HEALTH_LIMIT
}

/// An enemy record is consistent between ticks: its core consistency, and a
/// live enemy still has health.
pub open spec fn enemy_wf(e: EnemyUnit) -> bool {
    &&& enemy_core_wf(e)
    &&& (e.alive ==> e.enemy.health >= 1)
}

/// One tower record of the arena. A sold tower is no longer alive.
#[derive(Clone, Copy, Debug)]
pub struct TowerUnit {
    pub tower: Tower,
    pub position: Coordinate,
    pub alive: bool,
}

/// A tower record is consistent: the tower's own invariant holds and both
/// the tower and its firing origin lie inside the arena.
pub open spec fn tower_unit_wf(t: TowerUnit) -> bool {
    &&& t.tower.wf()
    &&& in_arena(t.position)
    &&& in_arena(translate(t.position, t.tower.bullet_spawn_offset))
}

/// One projectile record of the arena.
#[derive(Clone, Copy, Debug)]
pub struct BulletUnit {
    pub bullet: Bullet,
    pub movement: Movement,
    pub position: Coordinate,
    pub tower_index: usize,
    pub alive: bool,
}

/// A projectile record is consistent. A live projectile's lifetime has not
/// run out, and its position has drifted from the arena by at most twice the
/// milliseconds it has lived (its speed is under two units per millisecond).
pub open spec fn bullet_wf(b: BulletUnit, n_towers: int) -> bool {
    &&& b.bullet.lifetime.wf()
    &&& !b.bullet.lifetime.repeating
    &&& b.bullet.lifetime.duration_ms <= BULLET_LIFETIME_MS
    &&& b.movement.speed <= 2_000
    &&& b.bullet.damage <= DAMAGE_LIMIT
    &&& (b.alive ==> !b.bullet.lifetime.finished)
    &&& (b.alive ==> abs(b.position.x as int) <= ARENA_LIMIT + 2 * b.bullet.lifetime.elapsed_ms)
    &&& (b.alive ==> abs(b.position.y as int) <= ARENA_LIMIT + 2 * b.bullet.lifetime.elapsed_ms)
    &&& (b.alive ==> b.movement.distance_travelled <= 2 * b.bullet.lifetime.elapsed_ms)
    &&& b.tower_index < n_towers
    &&& dir_bounded(b.movement.direction)
}

/// How many enemy records are still alive.
pub open spec fn alive_count(s: Seq<EnemyUnit>) -> int
    decreases s.len(),
{
    if s.len() == 0 {
        0
    } else {
        alive_count(s.drop_last()) + if s.last().alive {
            1int
        } else {
            0int
        }
    }
}

/// Replacing one record changes the live count exactly by the change of its
/// own liveness.
pub proof fn lemma_alive_count_update(s: Seq<EnemyUnit>, i: int, e: EnemyUnit)
    requires
        0 <= i < s.len(),
    ensures
        alive_count(s.update(i, e)) == alive_count(s) - (if s[i].alive {
            1int
        } else {
            0int
        }) + (if e.alive {
            1int
        } else {
            0int
        }),
    decreases s.len(),
{
    let t = s.update(i, e);
    if i == s.len() - 1 {
        assert(t.drop_last() =~= s.drop_last());
        assert(t.last() == e);
    } else {
        lemma_alive_count_update(s.drop_last(), i, e);
        assert(t.drop_last() =~= s.drop_last().update(i, e));
        assert(t.last() == s.last());
    }
}

/// Appending a record grows the live count exactly by its liveness.
pub proof fn lemma_alive_count_push(s: Seq<EnemyUnit>, e: EnemyUnit)
    ensures
        alive_count(s.push(e)) == alive_count(s) + if e.alive {
            1int
        } else {
            0int
        },
{
    assert(s.push(e).drop_last() =~= s);
    assert(s.push(e).last() == e);
}

/// The whole game: the checkpoint route, the arenas of enemies, towers, and
/// projectiles, the base, the player, the wave scheduler, the enemy stat
/// table, and the lifetime enemy accounting.
pub struct Game {
    pub checkpoints: Vec<Coordinate>,
    pub enemies: Vec<EnemyUnit>,
    pub towers: Vec<TowerUnit>,
    pub bullets: Vec<BulletUnit>,
    pub base: Base,
    pub player: Player,
    pub waves: Waves,
    pub wave_state: WaveState,
    pub stats: Vec<(EnemyType, EnemyStats)>,
    pub spawned: u64,
    pub deaths: u64,
    pub escapes: u64,
}

impl Game {
    /// The game's invariant, held between ticks. Besides each record's own
    /// consistency, it states the conservation of enemies: every enemy ever
    /// spawned is dead, escaped, or still alive — counted exactly once.
    pub open spec fn wf(self) -> bool {
        &&& 2 <= self.checkpoints@.len() < usize::MAX
        &&& forall|i: int|
            0 <= i < self.checkpoints@.len() ==> in_arena(#[trigger] self.checkpoints@[i])
        &&& forall|i: int| 0 <= i < self.enemies@.len() ==> enemy_wf(#[trigger] self.enemies@[i])
        &&& forall|i: int|
            0 <= i < self.enemies@.len() ==> (#[trigger] self.enemies@[i]).path.index
                <= self.checkpoints@.len()
        &&& forall|i: int|
            0 <= i < self.towers@.len() ==> tower_unit_wf(#[trigger] self.towers@[i])
        &&& forall|i: int|
            0 <= i < self.bullets@.len() ==> bullet_wf(
                #[trigger] self.bullets@[i],
                self.towers@.len() as int,
            )
        &&& self.base.health >= 0
        &&& waves_wf(self.waves)
        &&& sched_wf(self.waves, self.wave_state)
        &&& self.waves.current <= self.waves.waves@.len() + 1
        &&& (self.waves.current > self.waves.waves@.len()
            ==> self.wave_state.wave_spawn_timer.finished)
        &&& forall|i: int| 0 <= i < self.stats@.len() ==> stats_wf((#[trigger] self.stats@[i]).1)
        &&& self.spawned as int == self.deaths + self.escapes + alive_count(self.enemies@)
    }

    /// The arithmetic headroom one tick needs: entity counts and running
    /// totals far enough from their limits that a tick cannot overflow.
    /// Callers check it before each tick.
    pub open spec fn headroom(self) -> bool {
        &&& self.player.money <= MONEY_LIMIT
        &&& self.enemies@.len() <= ENTITY_LIMIT
        &&& self.towers@.len() <= ENTITY_LIMIT
        &&& self.bullets@.len() <= ENTITY_LIMIT
        &&& self.waves.waves@.len() <= ENTITY_LIMIT
        &&& forall|i: int|
            0 <= i < self.enemies@.len() ==> (#[trigger] self.enemies@[i]).movement.distance_travelled
                <= TRAVEL_LIMIT
        &&& forall|i: int|
            0 <= i < self.towers@.len() ==> (#[trigger] self.towers@[i]).tower.total_damage
                <= TOTAL_DAMAGE_LIMIT
        &&& self.spawned < u64::MAX
        &&& self.deaths + self.enemies@.len() < u64::MAX
        &&& self.escapes + self.enemies@.len() < u64::MAX
        &&& self.waves.current < usize::MAX
    }

    /// Check the tick's arithmetic headroom.
    pub fn has_headroom(&self) -> (r: bool)
        ensures
            r == self.headroom(),
    {
        if !(self.player.money <= MONEY_LIMIT && self.enemies.len() <= ENTITY_LIMIT
            && self.towers.len() <= ENTITY_LIMIT && self.bullets.len() <= ENTITY_LIMIT
            && self.waves.waves.len() <= ENTITY_LIMIT && self.spawned < u64::MAX && self.deaths
            <= u64::MAX - 1 - self.enemies.len() as u64 && self.escapes <= u64::MAX - 1
            - self.enemies.len() as u64 && self.waves.current < usize::MAX) {
            return false;
        }
        let mut i: usize = 0;
        while i < self.enemies.len()
            invariant
                i <= self.enemies@.len(),
                forall|k: int|
                    0 <= k < i ==> (#[trigger] self.enemies@[k]).movement.distance_travelled
                        <= TRAVEL_LIMIT,
            decreases self.enemies@.len() - i,
        {
            if self.enemies[i].movement.distance_travelled > TRAVEL_LIMIT {
                return false;
            }
            i = i + 1;
        }
        let mut j: usize = 0;
        while j < self.towers.len()
            invariant
                j <= self.towers@.len(),
                forall|k: int|
                    0 <= k < j ==> (#[trigger] self.towers@[k]).tower.total_damage
                        <= TOTAL_DAMAGE_LIMIT,
            decreases self.towers@.len() - j,
        {
            if self.towers[j].tower.total_damage > TOTAL_DAMAGE_LIMIT {
                return false;
            }
            j = j + 1;
        }
        true
    }
}


/// Everything one movement-and-escape pass over the enemy arena does, from
/// record `j` on: each live enemy takes its checkpoint-walking step; an
/// enemy whose index has passed the route's end escapes — exactly then — and
/// despawns, the base losing exactly the smaller of its health and the
/// enemy's. Yields the new records, the new base, how many escaped, and the
/// total damage the base absorbed.
pub open spec fn move_enemies_spec(
    enemies: Seq<EnemyUnit>,
    checkpoints: Seq<Coordinate>,
    base: Base,
    dt: u64,
    j: int,
) -> (Seq<EnemyUnit>, Base, int, int)
    decreases enemies.len() - j,
{
    if j < 0 || j >= enemies.len() {
        (enemies, base, 0, 0)
    } else {
        let e = enemies[j];
        if e.alive {
            let stepped = crate::enemy::enemy_step(e.position, e.movement, e.path, checkpoints, dt);
            let moved = EnemyUnit {
                position: stepped.0,
                movement: stepped.1,
                path: stepped.2,
                ..e
            };
            if stepped.2.index >= checkpoints.len() {
                let loss = if base.health > e.enemy.health {
                    e.enemy.health as int
                } else {
                    base.health as int
                };
                let base2 = Base {
                    health: if base.health > e.enemy.health {
                        (base.health - e.enemy.health) as i64
                    } else {
                        0
                    },
                };
                let rest = move_enemies_spec(
                    enemies.update(j, EnemyUnit { alive: false, ..moved }),
                    checkpoints,
                    base2,
                    dt,
                    j + 1,
                );
                (rest.0, rest.1, rest.2 + 1, rest.3 + loss)
            } else {
                move_enemies_spec(enemies.update(j, moved), checkpoints, base, dt, j + 1)
            }
        } else {
            move_enemies_spec(enemies, checkpoints, base, dt, j + 1)
        }
    }
}

/// Move every live enemy along the route and resolve escapes: an enemy whose
/// checkpoint index passes the route's end damages the base by its remaining
/// health and despawns, counted once as escaped. The sum of escapes and live
/// enemies is unchanged, and no enemy's health changes.
fn stage_move_enemies(
    enemies: &mut Vec<EnemyUnit>,
    checkpoints: &Vec<Coordinate>,
    base: &mut Base,
    escapes: &mut u64,
    dt_ms: u64,
)
    requires
        forall|k: int| 0 <= k < old(enemies)@.len() ==> enemy_wf(#[trigger] old(enemies)@[k]),
        forall|k: int|
            0 <= k < old(enemies)@.len()
                ==> (#[trigger] old(enemies)@[k]).movement.distance_travelled <= TRAVEL_LIMIT,
        2 <= checkpoints@.len() < usize::MAX,
        forall|i: int| 0 <= i < checkpoints@.len() ==> in_arena(#[trigger] checkpoints@[i]),
        forall|k: int|
            0 <= k < old(enemies)@.len() ==> (#[trigger] old(enemies)@[k]).path.index
                <= checkpoints@.len(),
        old(base).health >= 0,
        *old(escapes) + old(enemies)@.len() < u64::MAX,
        dt_ms <= DT_LIMIT,
    ensures
        final(enemies)@.len() == old(enemies)@.len(),
        forall|k: int| 0 <= k < final(enemies)@.len() ==> enemy_wf(#[trigger] final(enemies)@[k]),
        *final(escapes) + alive_count(final(enemies)@) == *old(escapes) + alive_count(
            old(enemies)@,
        ),
        *final(escapes) >= *old(escapes),
        0 <= final(base).health <= old(base).health,
        forall|k: int|
            0 <= k < final(enemies)@.len() ==> (#[trigger] final(enemies)@[k]).enemy == old(
                enemies,
            )@[k].enemy,
        forall|k: int|
            0 <= k < final(enemies)@.len() ==> ((#[trigger] final(enemies)@[k]).alive ==> old(
                enemies,
            )@[k].alive),
        forall|k: int|
            0 <= k < final(enemies)@.len() ==> !old(enemies)@[k].alive ==> (
            #[trigger] final(enemies)@[k]) == old(enemies)@[k],
        forall|k: int|
            0 <= k < final(enemies)@.len() ==> (#[trigger] final(enemies)@[k]).path.index
                <= checkpoints@.len(),
        ({
            let r = move_enemies_spec(old(enemies)@, checkpoints@, *old(base), dt_ms, 0);
            &&& final(enemies)@ == r.0
            &&& *final(base) == r.1
            &&& *final(escapes) == *old(escapes) + r.2
            &&& old(base).health - final(base).health == r.3
        }),
{
    let n = enemies.len();
    let mut j: usize = 0;
    while j < n
        invariant
            j <= n,
            n == enemies@.len() == old(enemies)@.len(),
            forall|k: int| j <= k < n ==> enemies@[k] == old(enemies)@[k],
            forall|k: int| 0 <= k < n ==> enemy_wf(#[trigger] enemies@[k]),
            forall|k: int|
                0 <= k < n ==> (#[trigger] enemies@[k]).enemy == old(enemies)@[k].enemy,
            forall|k: int|
                0 <= k < n ==> ((#[trigger] enemies@[k]).alive ==> old(enemies)@[k].alive),
            forall|k: int|
                0 <= k < n ==> !old(enemies)@[k].alive ==> (#[trigger] enemies@[k]) == old(
                    enemies,
                )@[k],
            forall|k: int|
                0 <= k < n ==> (#[trigger] enemies@[k]).path.index <= checkpoints@.len(),
            *escapes + alive_count(enemies@) == *old(escapes) + alive_count(old(enemies)@),
            *escapes >= *old(escapes),
            *escapes + (n - j) < u64::MAX,
            0 <= base.health <= old(base).health,
            ({
                let f = move_enemies_spec(enemies@, checkpoints@, *base, dt_ms, j as int);
                let g = move_enemies_spec(old(enemies)@, checkpoints@, *old(base), dt_ms, 0);
                &&& f.0 == g.0
                &&& f.1 == g.1
                &&& *escapes + f.2 == *old(escapes) + g.2
                &&& (old(base).health - base.health) + f.3 == g.3
            }),
            2 <= checkpoints@.len() < usize::MAX,
            forall|i: int| 0 <= i < checkpoints@.len() ==> in_arena(#[trigger] checkpoints@[i]),
            forall|k: int|
                0 <= k < old(enemies)@.len()
                    ==> (#[trigger] old(enemies)@[k]).movement.distance_travelled <= TRAVEL_LIMIT,
            dt_ms <= DT_LIMIT,
        decreases n - j,
    {
        let ghost pre = enemies@;
        if enemies[j].alive {
            let mut unit = enemies[j];
            proof {
                assert(step_of(unit.movement.speed, dt_ms) <= 60_000_000) by (nonlinear_arith)
                    requires
                        unit.movement.speed <= 1_000_000,
                        dt_ms <= 60_000u64,
                        step_of(unit.movement.speed, dt_ms) == (unit.movement.speed * dt_ms)
                            / 1000;
            }
            update_enemy_checkpoint(
                &mut unit.position,
                &mut unit.movement,
                &mut unit.path,
                checkpoints,
                dt_ms,
            );
            if unit.path.index >= checkpoints.len() {
                damage_base(base, unit.enemy.health);
                unit.alive = false;
                *escapes = *escapes + 1;
            }
            proof {
                // the step keeps the position inside the arena: it either
                // stays put, snaps onto a checkpoint, or stays inside the
                // box spanned by the old position and a checkpoint
                assert(in_arena(unit.position));
            }
            enemies.set(j, unit);
            proof {
                lemma_alive_count_update(pre, j as int, unit);
            }
        }
        j = j + 1;
    }
}

/// All enemy records of two arenas are pointwise equally alive, so the live
/// counts agree.
pub proof fn lemma_alive_count_pointwise(s1: Seq<EnemyUnit>, s2: Seq<EnemyUnit>)
    requires
        s1.len() == s2.len(),
        forall|k: int| 0 <= k < s1.len() ==> s1[k].alive == s2[k].alive,
    ensures
        alive_count(s1) == alive_count(s2),
    decreases s1.len(),
{
    if s1.len() > 0 {
        lemma_alive_count_pointwise(s1.drop_last(), s2.drop_last());
    }
}


/// The target snapshot the towers see: every live enemy among the first `j`
/// records, in arena order.
pub open spec fn targets_upto(enemies: Seq<EnemyUnit>, j: int) -> Seq<TargetInfo>
    decreases j,
{
    if j <= 0 {
        Seq::empty()
    } else {
        let rest = targets_upto(enemies, j - 1);
        let e = enemies[j - 1];
        if e.alive {
            rest.push(
                TargetInfo {
                    position: e.position,
                    health: e.enemy.health,
                    distance_travelled: e.movement.distance_travelled,
                },
            )
        } else {
            rest
        }
    }
}

/// The target snapshot of the whole arena.
pub open spec fn live_targets(enemies: Seq<EnemyUnit>) -> Seq<TargetInfo> {
    targets_upto(enemies, enemies.len() as int)
}

/// The tower notices an enemy within its detection range this tick.
pub open spec fn tower_gated(t: TowerUnit, targets: Seq<TargetInfo>) -> bool {
    crate::targeting_priority::some_in_range(targets, t.position, detection_range(t.tower))
}

/// The tower fires this tick: it is live, an enemy is within detection range
/// of both the tower and its firing origin, and its fire-rate timer just
/// finished a period or the tower was armed to fire immediately.
pub open spec fn tower_fires(t: TowerUnit, targets: Seq<TargetInfo>) -> bool {
    &&& t.alive
    &&& tower_gated(t, targets)
    &&& crate::targeting_priority::some_in_range(
        targets,
        translate(t.position, t.tower.bullet_spawn_offset),
        detection_range(t.tower),
    )
    &&& (t.tower.shooting_timer.just_finished || t.tower.first_enemy_appeared)
}

/// A tower's state after its combat tick: with nothing in detection range
/// the timer resets and the tower arms itself; otherwise the timer advances
/// and firing disarms it.
pub open spec fn shoot_tower_step(t: TowerUnit, targets: Seq<TargetInfo>, dt: u64) -> TowerUnit {
    if !t.alive {
        t
    } else if !tower_gated(t, targets) {
        TowerUnit {
            tower: Tower {
                shooting_timer: t.tower.shooting_timer.reset_state(),
                first_enemy_appeared: true,
                ..t.tower
            },
            ..t
        }
    } else {
        TowerUnit {
            tower: Tower {
                shooting_timer: t.tower.shooting_timer.ticked(dt),
                first_enemy_appeared: if tower_fires(t, targets) {
                    false
                } else {
                    t.tower.first_enemy_appeared
                },
                ..t.tower
            },
            ..t
        }
    }
}

/// How many of the first `j` towers fire this tick.
pub open spec fn fired_count(towers: Seq<TowerUnit>, targets: Seq<TargetInfo>, j: int) -> int
    decreases j,
{
    if j <= 0 {
        0
    } else {
        fired_count(towers, targets, j - 1) + if tower_fires(towers[j - 1], targets) {
            1int
        } else {
            0int
        }
    }
}


/// Counting fired towers is monotone in the prefix, and a firing tower
/// strictly grows the count past it.
proof fn lemma_fired_count_mono(towers: Seq<TowerUnit>, targets: Seq<TargetInfo>, a: int, b: int)
    requires
        0 <= a <= b,
    ensures
        fired_count(towers, targets, a) <= fired_count(towers, targets, b),
        a < b && tower_fires(towers[a], targets) ==> fired_count(towers, targets, a) + 1
            <= fired_count(towers, targets, b),
    decreases b - a,
{
    if a < b {
        lemma_fired_count_mono(towers, targets, a, b - 1);
    }
}

/// The projectile record tower `t_index` emits: a fresh, live projectile at
/// the firing origin carrying the tower's damage, heading for an enemy its
/// targeting policy allows.
pub open spec fn emitted_bullet_ok(
    b: BulletUnit,
    t: TowerUnit,
    t_index: int,
    targets: Seq<TargetInfo>,
) -> bool {
    &&& b.bullet.damage == t.tower.damage
    &&& b.bullet.lifetime == GameTimer::fresh(BULLET_LIFETIME_MS, false)
    &&& b.movement.speed == crate::tower::BULLET_SPEED
    &&& b.movement.distance_travelled == 0
    &&& b.position == translate(t.position, t.tower.bullet_spawn_offset)
    &&& b.tower_index == t_index
    &&& b.alive
    &&& exists|i: int|
        #[trigger] crate::targeting_priority::choice_at(
            targets,
            translate(t.position, t.tower.bullet_spawn_offset),
            detection_range(t.tower),
            t.tower.target,
            i,
        ) && b.movement.direction == crate::targeting_priority::direction_to(
            translate(t.position, t.tower.bullet_spawn_offset),
            targets[i].position,
        )
}

/// Run every live tower's combat controller against a snapshot of the live
/// enemies, collecting the projectiles fired. Tower stats are untouched; only
/// fire-rate timers and armed flags move. Existing projectiles are untouched;
/// every new one is a live, just-spawned projectile of the firing tower.
fn stage_shoot(
    towers: &mut Vec<TowerUnit>,
    enemies: &Vec<EnemyUnit>,
    bullets: &mut Vec<BulletUnit>,
    dt_ms: u64,
)
    requires
        forall|k: int| 0 <= k < old(towers)@.len() ==> tower_unit_wf(#[trigger] old(towers)@[k]),
        forall|k: int| 0 <= k < enemies@.len() ==> enemy_wf(#[trigger] enemies@[k]),
        forall|k: int|
            0 <= k < old(bullets)@.len() ==> bullet_wf(
                #[trigger] old(bullets)@[k],
                old(towers)@.len() as int,
            ),
        dt_ms <= DT_LIMIT,
    ensures
        final(towers)@.len() == old(towers)@.len(),
        forall|k: int| 0 <= k < final(towers)@.len() ==> tower_unit_wf(#[trigger] final(towers)@[k]),
        forall|k: int|
            0 <= k < final(towers)@.len() ==> {
                let nw = #[trigger] final(towers)@[k];
                let ow = old(towers)@[k];
                nw.position == ow.position && nw.alive == ow.alive && nw.tower.damage
                    == ow.tower.damage && nw.tower.attack_speed == ow.tower.attack_speed
                    && nw.tower.range == ow.tower.range && nw.tower.price == ow.tower.price
                    && nw.tower.sell_price == ow.tower.sell_price && nw.tower.total_spent
                    == ow.tower.total_spent && nw.tower.total_damage == ow.tower.total_damage
                    && nw.tower.target == ow.tower.target && nw.tower.bullet_spawn_offset
                    == ow.tower.bullet_spawn_offset && nw.tower.upgrades == ow.tower.upgrades
            },
        final(bullets)@.len() >= old(bullets)@.len(),
        final(bullets)@.len() <= old(bullets)@.len() + old(towers)@.len(),
        final(bullets)@.subrange(0, old(bullets)@.len() as int) == old(bullets)@,
        forall|k: int|
            0 <= k < final(bullets)@.len() ==> bullet_wf(
                #[trigger] final(bullets)@[k],
                final(towers)@.len() as int,
            ),
        forall|k: int|
            old(bullets)@.len() <= k < final(bullets)@.len() ==> (#[trigger] final(bullets)@[k]).alive,
        forall|k: int|
            0 <= k < final(towers)@.len() ==> (#[trigger] final(towers)@[k]) == shoot_tower_step(
                old(towers)@[k],
                live_targets(enemies@),
                dt_ms,
            ),
        final(bullets)@.len() == old(bullets)@.len() + fired_count(
            old(towers)@,
            live_targets(enemies@),
            old(towers)@.len() as int,
        ),
        forall|k: int|
            0 <= k < final(towers)@.len() && tower_fires(
                #[trigger] old(towers)@[k],
                live_targets(enemies@),
            ) ==> emitted_bullet_ok(
                final(bullets)@[old(bullets)@.len() + fired_count(
                    old(towers)@,
                    live_targets(enemies@),
                    k,
                )],
                old(towers)@[k],
                k,
                live_targets(enemies@),
            ),
{
    let ghost t0 = towers@;
    let ghost b0 = bullets@;
    let mut targets: Vec<TargetInfo> = Vec::new();
    let mut i: usize = 0;
    while i < enemies.len()
        invariant
            i <= enemies@.len(),
            forall|k: int| 0 <= k < enemies@.len() ==> enemy_wf(#[trigger] enemies@[k]),
            forall|k: int| 0 <= k < targets@.len() ==> in_bounds(#[trigger] targets@[k].position),
            targets@ == targets_upto(enemies@, i as int),
        decreases enemies@.len() - i,
    {
        let e = enemies[i];
        if e.alive {
            targets.push(TargetInfo {
                position: e.position,
                health: e.enemy.health,
                distance_travelled: e.movement.distance_travelled,
            });
        }
        i = i + 1;
    }
    let n = towers.len();
    let mut t: usize = 0;
    while t < n
        invariant
            t <= n,
            n == towers@.len() == t0.len(),
            forall|k: int| t <= k < n ==> towers@[k] == t0[k],
            forall|k: int| 0 <= k < n ==> tower_unit_wf(#[trigger] towers@[k]),
            forall|k: int|
                0 <= k < n ==> {
                    let nw = #[trigger] towers@[k];
                    let ow = t0[k];
                    nw.position == ow.position && nw.alive == ow.alive && nw.tower.damage
                        == ow.tower.damage && nw.tower.attack_speed == ow.tower.attack_speed
                        && nw.tower.range == ow.tower.range && nw.tower.price == ow.tower.price
                        && nw.tower.sell_price == ow.tower.sell_price && nw.tower.total_spent
                        == ow.tower.total_spent && nw.tower.total_damage == ow.tower.total_damage
                        && nw.tower.target == ow.tower.target && nw.tower.bullet_spawn_offset
                        == ow.tower.bullet_spawn_offset && nw.tower.upgrades == ow.tower.upgrades
                },
            targets@ == live_targets(enemies@),
            forall|k: int|
                0 <= k < t ==> (#[trigger] towers@[k]) == shoot_tower_step(t0[k], targets@, dt_ms),
            bullets@.len() == b0.len() + fired_count(t0, targets@, t as int),
            forall|k: int|
                0 <= k < t && tower_fires(#[trigger] t0[k], targets@) ==> emitted_bullet_ok(
                    bullets@[b0.len() + fired_count(t0, targets@, k)],
                    t0[k],
                    k,
                    targets@,
                ),
            bullets@.len() >= b0.len(),
            bullets@.len() <= b0.len() + t,
            bullets@.subrange(0, b0.len() as int) == b0,
            forall|k: int|
                0 <= k < bullets@.len() ==> bullet_wf(#[trigger] bullets@[k], n as int),
            forall|k: int| b0.len() <= k < bullets@.len() ==> (#[trigger] bullets@[k]).alive,
            forall|k: int| 0 <= k < targets@.len() ==> in_bounds(#[trigger] targets@[k].position),
            dt_ms <= DT_LIMIT,
        decreases n - t,
    {
        if towers[t].alive {
            let mut unit = towers[t];
            let spawn_opt = tower_shooting(&mut unit.tower, unit.position, &targets, dt_ms);
            towers.set(t, unit);
            match spawn_opt {
                Option::Some(sp) => {
                    let ghost pre = bullets@;
                    proof {
                        let origin = translate(unit.position, unit.tower.bullet_spawn_offset);
                        let ch = choose|ci: int|
                            crate::targeting_priority::choice_at(
                                targets@,
                                origin,
                                detection_range(t0[t as int].tower),
                                t0[t as int].tower.target,
                                ci,
                            ) && sp.direction == crate::targeting_priority::direction_to(
                                origin,
                                targets@[ci].position,
                            );
                        assert(crate::targeting_priority::in_range_at(
                            targets@,
                            origin,
                            detection_range(t0[t as int].tower),
                            ch,
                        ));
                        assert(in_bounds(targets@[ch].position));
                        assert(dir_bounded(sp.direction));
                        assert(tower_fires(t0[t as int], targets@));
                    }
                    let bpos = Coordinate {
                        x: unit.position.x + sp.offset.x,
                        y: unit.position.y + sp.offset.y,
                    };
                    bullets.push(BulletUnit {
                        bullet: Bullet {
                            damage: sp.damage,
                            lifetime: GameTimer::new(BULLET_LIFETIME_MS, false),
                        },
                        movement: Movement::new(sp.direction, sp.speed),
                        position: bpos,
                        tower_index: t,
                        alive: true,
                    });
                    proof {
                        assert(bullets@.subrange(0, b0.len() as int) =~= b0);
                        assert(forall|k: int|
                            0 <= k < pre.len() ==> bullets@[k] == #[trigger] pre[k]);
                        assert(fired_count(t0, targets@, t as int + 1) == fired_count(
                            t0,
                            targets@,
                            t as int,
                        ) + 1);
                        assert(emitted_bullet_ok(
                            bullets@[b0.len() + fired_count(t0, targets@, t as int)],
                            t0[t as int],
                            t as int,
                            targets@,
                        ));
                        assert(towers@[t as int] == shoot_tower_step(t0[t as int], targets@, dt_ms));
                        assert forall|k: int|
                            0 <= k < t as int && tower_fires(#[trigger] t0[k], targets@) implies
                            emitted_bullet_ok(
                                bullets@[b0.len() + fired_count(t0, targets@, k)],
                                t0[k],
                                k,
                                targets@,
                            ) by {
                            lemma_fired_count_mono(t0, targets@, 0, k);
                            lemma_fired_count_mono(t0, targets@, k, t as int);
                            assert(fired_count(t0, targets@, k + 1) == fired_count(
                                t0,
                                targets@,
                                k,
                            ) + 1);
                            lemma_fired_count_mono(t0, targets@, k + 1, t as int);
                            assert(b0.len() + fired_count(t0, targets@, k) < pre.len());
                        }
                    }
                },
                Option::None => {
                    proof {
                        assert(!tower_fires(t0[t as int], targets@));
                        assert(fired_count(t0, targets@, t as int + 1) == fired_count(
                            t0,
                            targets@,
                            t as int,
                        ));
                        assert(towers@[t as int] == shoot_tower_step(t0[t as int], targets@, dt_ms));
                    }
                },
            }
        } else {
            proof {
                assert(!tower_fires(t0[t as int], targets@));
                assert(fired_count(t0, targets@, t as int + 1) == fired_count(
                    t0,
                    targets@,
                    t as int,
                ));
            }
        }
        t = t + 1;
    }
}


/// Where one movement-and-lifetime tick takes a live projectile: it advances
/// its step along its direction (a zero direction moves nothing), its
/// lifetime runs down by the elapsed time, and it stays alive exactly while
/// its lifetime has not run out.
pub open spec fn bullet_step(b: BulletUnit, dt: u64) -> BulletUnit {
    let step = step_of(b.movement.speed, dt);
    let stalled = crate::movement::dir_len(b.movement.direction) == 0;
    let lt = b.bullet.lifetime.ticked(dt);
    BulletUnit {
        position: if stalled {
            b.position
        } else {
            crate::movement::moved_point(b.position, b.movement.direction, step)
        },
        movement: Movement {
            distance_travelled: if stalled {
                b.movement.distance_travelled
            } else {
                (b.movement.distance_travelled + step) as u64
            },
            ..b.movement
        },
        bullet: Bullet { lifetime: lt, ..b.bullet },
        alive: !lt.finished,
        ..b
    }
}

/// Advance every live projectile along its direction and run down its
/// lifetime; one whose lifetime has elapsed despawns. Nothing else changes.
fn stage_move_bullets(bullets: &mut Vec<BulletUnit>, dt_ms: u64, n_towers: Ghost<int>)
    requires
        forall|k: int|
            0 <= k < old(bullets)@.len() ==> bullet_wf(#[trigger] old(bullets)@[k], n_towers@),
        dt_ms <= DT_LIMIT,
    ensures
        final(bullets)@.len() == old(bullets)@.len(),
        forall|k: int|
            0 <= k < final(bullets)@.len() ==> bullet_wf(#[trigger] final(bullets)@[k], n_towers@),
        forall|k: int|
            0 <= k < final(bullets)@.len() ==> ((#[trigger] final(bullets)@[k]).alive ==> old(
                bullets,
            )@[k].alive),
        forall|k: int|
            0 <= k < final(bullets)@.len() ==> (#[trigger] final(bullets)@[k]).bullet.damage == old(
                bullets,
            )@[k].bullet.damage,
        forall|k: int|
            0 <= k < final(bullets)@.len() ==> (#[trigger] final(bullets)@[k]).tower_index == old(
                bullets,
            )@[k].tower_index,
        forall|k: int|
            0 <= k < final(bullets)@.len() ==> !old(bullets)@[k].alive ==> (
            #[trigger] final(bullets)@[k]) == old(bullets)@[k],
        forall|k: int|
            0 <= k < final(bullets)@.len() ==> (#[trigger] final(bullets)@[k]) == if old(
                bullets,
            )@[k].alive {
                bullet_step(old(bullets)@[k], dt_ms)
            } else {
                old(bullets)@[k]
            },
{
    let n = bullets.len();
    let mut j: usize = 0;
    while j < n
        invariant
            j <= n,
            n == bullets@.len() == old(bullets)@.len(),
            forall|k: int| j <= k < n ==> bullets@[k] == old(bullets)@[k],
            forall|k: int| 0 <= k < n ==> bullet_wf(#[trigger] bullets@[k], n_towers@),
            forall|k: int|
                0 <= k < n ==> ((#[trigger] bullets@[k]).alive ==> old(bullets)@[k].alive),
            forall|k: int|
                0 <= k < n ==> (#[trigger] bullets@[k]).bullet.damage == old(
                    bullets,
                )@[k].bullet.damage,
            forall|k: int|
                0 <= k < n ==> (#[trigger] bullets@[k]).tower_index == old(
                    bullets,
                )@[k].tower_index,
            forall|k: int|
                0 <= k < n ==> !old(bullets)@[k].alive ==> (#[trigger] bullets@[k]) == old(
                    bullets,
                )@[k],
            forall|k: int|
                0 <= k < j ==> (#[trigger] bullets@[k]) == if old(bullets)@[k].alive {
                    bullet_step(old(bullets)@[k], dt_ms)
                } else {
                    old(bullets)@[k]
                },
            dt_ms <= DT_LIMIT,
        decreases n - j,
    {
        if bullets[j].alive {
            let mut b = bullets[j];
            proof {
                assert(step_of(b.movement.speed, dt_ms) <= 2 * dt_ms) by (nonlinear_arith)
                    requires
                        b.movement.speed <= 2_000,
                        0 <= dt_ms <= 60_000u64,
                        step_of(b.movement.speed, dt_ms) == (b.movement.speed * dt_ms) / 1000;
            }
            basic_movement_unit(&mut b, dt_ms);
            bullets.set(j, b);
        }
        j = j + 1;
    }
}

/// One projectile's movement-and-lifetime tick: move it its step, run its
/// lifetime down by the elapsed time, and despawn it if the lifetime is over.
fn basic_movement_unit(b: &mut BulletUnit, dt_ms: u64)
    requires
        old(b).alive,
        old(b).bullet.lifetime.wf(),
        !old(b).bullet.lifetime.repeating,
        old(b).bullet.lifetime.duration_ms <= BULLET_LIFETIME_MS,
        !old(b).bullet.lifetime.finished,
        old(b).movement.speed <= 2_000,
        dir_bounded(old(b).movement.direction),
        abs(old(b).position.x as int) <= ARENA_LIMIT + 2 * old(b).bullet.lifetime.elapsed_ms,
        abs(old(b).position.y as int) <= ARENA_LIMIT + 2 * old(b).bullet.lifetime.elapsed_ms,
        old(b).movement.distance_travelled <= 2 * old(b).bullet.lifetime.elapsed_ms,
        step_of(old(b).movement.speed, dt_ms) <= 2 * dt_ms,
        dt_ms <= DT_LIMIT,
    ensures
        final(b).bullet.damage == old(b).bullet.damage,
        final(b).tower_index == old(b).tower_index,
        final(b).movement.speed == old(b).movement.speed,
        final(b).movement.direction == old(b).movement.direction,
        final(b).bullet.lifetime == old(b).bullet.lifetime.ticked(dt_ms),
        final(b).alive == !final(b).bullet.lifetime.finished,
        final(b).bullet.lifetime.wf(),
        !final(b).bullet.lifetime.repeating,
        final(b).bullet.lifetime.duration_ms <= BULLET_LIFETIME_MS,
        dir_bounded(final(b).movement.direction),
        final(b).alive ==> abs(final(b).position.x as int) <= ARENA_LIMIT + 2
            * final(b).bullet.lifetime.elapsed_ms,
        final(b).alive ==> abs(final(b).position.y as int) <= ARENA_LIMIT + 2
            * final(b).bullet.lifetime.elapsed_ms,
        final(b).alive ==> final(b).movement.distance_travelled <= 2
            * final(b).bullet.lifetime.elapsed_ms,
        *final(b) == bullet_step(*old(b), dt_ms),
{
    crate::movement::basic_movement(&mut b.movement, &mut b.position, dt_ms);
    b.bullet.lifetime.tick(dt_ms);
    if b.bullet.lifetime.is_finished() {
        b.alive = false;
    }
}


/// A projectile strikes this enemy: the enemy is alive with health left and
/// their collision boxes overlap.
pub open spec fn target_hit(b: BulletUnit, e: EnemyUnit) -> bool {
    &&& e.alive
    &&& e.enemy.health > 0
    &&& crate::geometry::overlaps(
        b.position,
        BULLET_HALF_WIDTH as int,
        BULLET_HALF_HEIGHT as int,
        e.position,
        ENEMY_HALF_SIZE as int,
        ENEMY_HALF_SIZE as int,
    )
}

/// The first enemy record from `k` on that the projectile strikes, if any.
pub open spec fn first_hit_index(b: BulletUnit, enemies: Seq<EnemyUnit>, k: int) -> Option<int>
    decreases enemies.len() - k,
{
    if k < 0 || k >= enemies.len() {
        Option::None
    } else if target_hit(b, enemies[k]) {
        Option::Some(k)
    } else {
        first_hit_index(b, enemies, k + 1)
    }
}

/// Scanning from the front gives the same first strike as scanning from `hi`
/// when nothing before `hi` is struck.
proof fn lemma_first_hit_skip(b: BulletUnit, enemies: Seq<EnemyUnit>, lo: int, hi: int)
    requires
        0 <= lo <= hi <= enemies.len(),
        forall|m: int| lo <= m < hi ==> !target_hit(b, #[trigger] enemies[m]),
    ensures
        first_hit_index(b, enemies, lo) == first_hit_index(b, enemies, hi),
    decreases hi - lo,
{
    if lo < hi {
        lemma_first_hit_skip(b, enemies, lo + 1, hi);
    }
}

/// What one collision pass does from projectile `j` on: each live projectile
/// strikes the first enemy it overlaps that is alive with health left — at
/// most one — dealing its full damage, crediting the firing tower with at
/// most the health the enemy had left, and despawning. Enemies no projectile
/// strikes keep their health; projectiles striking nothing survive.
pub open spec fn resolve_collisions(
    bullets: Seq<BulletUnit>,
    enemies: Seq<EnemyUnit>,
    towers: Seq<TowerUnit>,
    j: int,
) -> (Seq<BulletUnit>, Seq<EnemyUnit>, Seq<TowerUnit>)
    decreases bullets.len() - j,
{
    if j < 0 || j >= bullets.len() {
        (bullets, enemies, towers)
    } else {
        let b = bullets[j];
        if b.alive {
            match first_hit_index(b, enemies, 0) {
                Option::Some(i) => {
                    let e = enemies[i];
                    let e2 = EnemyUnit {
                        enemy: Enemy { health: (e.enemy.health - b.bullet.damage) as i64 },
                        ..e
                    };
                    let ti = b.tower_index as int;
                    let t = towers[ti];
                    let credit = crate::bullet::damage_credit(b.bullet.damage, e.enemy.health);
                    let t2 = TowerUnit {
                        tower: Tower {
                            total_damage: (t.tower.total_damage + credit) as u64,
                            ..t.tower
                        },
                        ..t
                    };
                    resolve_collisions(
                        bullets.update(j, BulletUnit { alive: false, ..b }),
                        enemies.update(i, e2),
                        towers.update(ti, t2),
                        j + 1,
                    )
                },
                Option::None => resolve_collisions(bullets, enemies, towers, j + 1),
            }
        } else {
            resolve_collisions(bullets, enemies, towers, j + 1)
        }
    }
}

/// Resolve projectile–enemy collisions: each live projectile strikes the
/// first live, still-healthy enemy whose collision box it overlaps, deals its
/// damage, credits the firing tower with at most the health the enemy had
/// left, and despawns — at most one hit per projectile. Liveness flags of
/// enemies are untouched here; deaths are resolved afterwards.
fn stage_collisions(
    bullets: &mut Vec<BulletUnit>,
    enemies: &mut Vec<EnemyUnit>,
    towers: &mut Vec<TowerUnit>,
)
    requires
        forall|k: int|
            0 <= k < old(bullets)@.len() ==> bullet_wf(
                #[trigger] old(bullets)@[k],
                old(towers)@.len() as int,
            ),
        forall|k: int| 0 <= k < old(enemies)@.len() ==> enemy_wf(#[trigger] old(enemies)@[k]),
        forall|k: int| 0 <= k < old(towers)@.len() ==> tower_unit_wf(#[trigger] old(towers)@[k]),
        forall|k: int|
            0 <= k < old(towers)@.len() ==> (#[trigger] old(towers)@[k]).tower.total_damage
                <= TOTAL_DAMAGE_LIMIT,
        old(bullets)@.len() <= ENTITY_LIMIT + ENTITY_LIMIT,
    ensures
        final(bullets)@.len() == old(bullets)@.len(),
        final(enemies)@.len() == old(enemies)@.len(),
        final(towers)@.len() == old(towers)@.len(),
        forall|k: int|
            0 <= k < final(bullets)@.len() ==> bullet_wf(
                #[trigger] final(bullets)@[k],
                final(towers)@.len() as int,
            ),
        forall|k: int|
            0 <= k < final(enemies)@.len() ==> enemy_core_wf(#[trigger] final(enemies)@[k]),
        forall|k: int|
            0 <= k < final(enemies)@.len() ==> {
                let ne = #[trigger] final(enemies)@[k];
                let oe = old(enemies)@[k];
                ne.alive == oe.alive && ne.position == oe.position && ne.path == oe.path
                    && ne.movement == oe.movement && ne.enemy.health <= oe.enemy.health
            },
        forall|k: int| 0 <= k < final(towers)@.len() ==> tower_unit_wf(#[trigger] final(towers)@[k]),
        forall|k: int|
            0 <= k < final(towers)@.len() ==> {
                let nw = #[trigger] final(towers)@[k];
                let ow = old(towers)@[k];
                nw.position == ow.position && nw.alive == ow.alive && nw.tower.damage
                    == ow.tower.damage && nw.tower.attack_speed == ow.tower.attack_speed
                    && nw.tower.range == ow.tower.range && nw.tower.price == ow.tower.price
                    && nw.tower.sell_price == ow.tower.sell_price && nw.tower.total_spent
                    == ow.tower.total_spent && nw.tower.total_damage >= ow.tower.total_damage
                    && nw.tower.target == ow.tower.target && nw.tower.bullet_spawn_offset
                    == ow.tower.bullet_spawn_offset && nw.tower.upgrades == ow.tower.upgrades
                    && nw.tower.shooting_timer == ow.tower.shooting_timer
                    && nw.tower.first_enemy_appeared == ow.tower.first_enemy_appeared
            },
        forall|k: int|
            0 <= k < final(towers)@.len() ==> (#[trigger] final(towers)@[k]).tower.total_damage
                <= TOTAL_DAMAGE_LIMIT + final(bullets)@.len() * (DAMAGE_LIMIT as int),
        alive_count(final(enemies)@) == alive_count(old(enemies)@),
        (final(bullets)@, final(enemies)@, final(towers)@) == resolve_collisions(
            old(bullets)@,
            old(enemies)@,
            old(towers)@,
            0,
        ),
{
    let nb = bullets.len();
    let ne = enemies.len();
    let nt = towers.len();
    let mut j: usize = 0;
    while j < nb
        invariant
            j <= nb,
            nb == bullets@.len() == old(bullets)@.len(),
            ne == enemies@.len() == old(enemies)@.len(),
            nt == towers@.len() == old(towers)@.len(),
            nb <= ENTITY_LIMIT + ENTITY_LIMIT,
            forall|k: int| 0 <= k < nb ==> bullet_wf(#[trigger] bullets@[k], nt as int),
            forall|k: int| 0 <= k < ne ==> enemy_core_wf(#[trigger] enemies@[k]),
            forall|k: int|
                0 <= k < ne ==> {
                    let nee = #[trigger] enemies@[k];
                    let oe = old(enemies)@[k];
                    nee.alive == oe.alive && nee.position == oe.position && nee.path == oe.path
                        && nee.movement == oe.movement && nee.enemy.health <= oe.enemy.health
                },
            forall|k: int| 0 <= k < nt ==> tower_unit_wf(#[trigger] towers@[k]),
            forall|k: int|
                0 <= k < nt ==> {
                    let nw = #[trigger] towers@[k];
                    let ow = old(towers)@[k];
                    nw.position == ow.position && nw.alive == ow.alive && nw.tower.damage
                        == ow.tower.damage && nw.tower.attack_speed == ow.tower.attack_speed
                        && nw.tower.range == ow.tower.range && nw.tower.price == ow.tower.price
                        && nw.tower.sell_price == ow.tower.sell_price && nw.tower.total_spent
                        == ow.tower.total_spent && nw.tower.total_damage >= ow.tower.total_damage
                        && nw.tower.target == ow.tower.target && nw.tower.bullet_spawn_offset
                        == ow.tower.bullet_spawn_offset && nw.tower.upgrades == ow.tower.upgrades
                        && nw.tower.shooting_timer == ow.tower.shooting_timer
                        && nw.tower.first_enemy_appeared == ow.tower.first_enemy_appeared
                },
            forall|k: int|
                0 <= k < nt ==> (#[trigger] towers@[k]).tower.total_damage <= TOTAL_DAMAGE_LIMIT
                    + j * (DAMAGE_LIMIT as int),
            resolve_collisions(bullets@, enemies@, towers@, j as int) == resolve_collisions(
                old(bullets)@,
                old(enemies)@,
                old(towers)@,
                0,
            ),
        decreases nb - j,
    {
        let ghost b_entry = bullets@;
        let ghost e_entry = enemies@;
        let ghost t_entry = towers@;
        let bullet_state = bullets[j];
        if bullet_state.alive {
            let mut k: usize = 0;
            let mut hit: bool = false;
            let ghost mut hit_at: int = 0;
            while k < ne && !hit
                invariant
                    k <= ne,
                    j < nb,
                    nb == bullets@.len() == old(bullets)@.len(),
                    ne == enemies@.len() == old(enemies)@.len(),
                    nt == towers@.len() == old(towers)@.len(),
                    nb <= ENTITY_LIMIT + ENTITY_LIMIT,
                    bullet_wf(bullet_state, nt as int),
                    bullet_state.alive,
                    forall|m: int| 0 <= m < nb ==> bullet_wf(#[trigger] bullets@[m], nt as int),
                    forall|m: int| 0 <= m < ne ==> enemy_core_wf(#[trigger] enemies@[m]),
                    forall|m: int|
                        0 <= m < ne ==> {
                            let nee = #[trigger] enemies@[m];
                            let oe = old(enemies)@[m];
                            nee.alive == oe.alive && nee.position == oe.position && nee.path
                                == oe.path && nee.movement == oe.movement && nee.enemy.health
                                <= oe.enemy.health
                        },
                    forall|m: int| 0 <= m < nt ==> tower_unit_wf(#[trigger] towers@[m]),
                    forall|m: int|
                        0 <= m < nt ==> {
                            let nw = #[trigger] towers@[m];
                            let ow = old(towers)@[m];
                            nw.position == ow.position && nw.alive == ow.alive && nw.tower.damage
                                == ow.tower.damage && nw.tower.attack_speed
                                == ow.tower.attack_speed && nw.tower.range == ow.tower.range
                                && nw.tower.price == ow.tower.price && nw.tower.sell_price
                                == ow.tower.sell_price && nw.tower.total_spent
                                == ow.tower.total_spent && nw.tower.total_damage
                                >= ow.tower.total_damage && nw.tower.target == ow.tower.target
                                && nw.tower.bullet_spawn_offset == ow.tower.bullet_spawn_offset
                                && nw.tower.upgrades == ow.tower.upgrades
                                && nw.tower.shooting_timer == ow.tower.shooting_timer
                                && nw.tower.first_enemy_appeared == ow.tower.first_enemy_appeared
                        },
                    !hit ==> forall|m: int|
                        0 <= m < nt ==> (#[trigger] towers@[m]).tower.total_damage
                            <= TOTAL_DAMAGE_LIMIT + j * (DAMAGE_LIMIT as int),
                    hit ==> forall|m: int|
                        0 <= m < nt ==> (#[trigger] towers@[m]).tower.total_damage
                            <= TOTAL_DAMAGE_LIMIT + (j + 1) * (DAMAGE_LIMIT as int),
                    !hit ==> bullets@[j as int] == bullet_state,
                    bullet_state == b_entry[j as int],
                    !hit ==> {
                        &&& bullets@ == b_entry
                        &&& enemies@ == e_entry
                        &&& towers@ == t_entry
                        &&& forall|m: int|
                            0 <= m < k ==> !target_hit(bullet_state, #[trigger] e_entry[m])
                    },
                    hit ==> {
                        let e = e_entry[hit_at];
                        let e2 = EnemyUnit {
                            enemy: Enemy {
                                health: (e.enemy.health - bullet_state.bullet.damage) as i64,
                            },
                            ..e
                        };
                        let ti = bullet_state.tower_index as int;
                        let t = t_entry[ti];
                        let credit = crate::bullet::damage_credit(
                            bullet_state.bullet.damage,
                            e.enemy.health,
                        );
                        let t2 = TowerUnit {
                            tower: Tower {
                                total_damage: (t.tower.total_damage + credit) as u64,
                                ..t.tower
                            },
                            ..t
                        };
                        &&& 0 <= hit_at < ne
                        &&& target_hit(bullet_state, e_entry[hit_at])
                        &&& forall|m: int|
                            0 <= m < hit_at ==> !target_hit(bullet_state, #[trigger] e_entry[m])
                        &&& bullets@ == b_entry.update(
                            j as int,
                            BulletUnit { alive: false, ..bullet_state },
                        )
                        &&& enemies@ == e_entry.update(hit_at, e2)
                        &&& towers@ == t_entry.update(ti, t2)
                    },
                decreases ne - k, (if hit { 0int } else { 1int }),
            {
                let en_state = enemies[k];
                if en_state.alive && en_state.enemy.health > 0 && boxes_overlap(
                    bullet_state.position,
                    BULLET_HALF_WIDTH,
                    BULLET_HALF_HEIGHT,
                    en_state.position,
                    ENEMY_HALF_SIZE,
                    ENEMY_HALF_SIZE,
                ) {
                    let ti = bullet_state.tower_index;
                    let mut tw = towers[ti];
                    let mut en = enemies[k];
                    proof {
                        assert(j * (DAMAGE_LIMIT as int) <= 2_000_000 * (DAMAGE_LIMIT as int))
                            by (nonlinear_arith)
                            requires 0 <= j <= 2_000_000;
                        assert((j + 1) * (DAMAGE_LIMIT as int) == j * (DAMAGE_LIMIT as int) + (
                        DAMAGE_LIMIT as int)) by (nonlinear_arith);
                    }
                    let ghost pre_en = enemies@;
                    apply_bullet_hit_capped(bullet_state.bullet.damage, &mut en, &mut tw);
                    enemies.set(k, en);
                    towers.set(ti, tw);
                    let mut b2 = bullet_state;
                    b2.alive = false;
                    bullets.set(j, b2);
                    hit = true;
                    proof {
                        hit_at = k as int;
                    }
                } else {
                    k = k + 1;
                }
            }
            proof {
                if hit {
                    lemma_first_hit_skip(bullet_state, e_entry, 0, hit_at);
                    assert(first_hit_index(bullet_state, e_entry, hit_at) == Option::Some(hit_at));
                } else {
                    lemma_first_hit_skip(bullet_state, e_entry, 0, ne as int);
                    assert(first_hit_index(bullet_state, e_entry, 0) is None);
                }
                assert(resolve_collisions(bullets@, enemies@, towers@, j as int + 1)
                    == resolve_collisions(b_entry, e_entry, t_entry, j as int));
            }
        } else {
            proof {
                assert(resolve_collisions(bullets@, enemies@, towers@, j as int + 1)
                    == resolve_collisions(b_entry, e_entry, t_entry, j as int));
            }
        }
        proof {
            assert((j + 1) * (DAMAGE_LIMIT as int) >= j * (DAMAGE_LIMIT as int))
                by (nonlinear_arith)
                requires j >= 0;
        }
        j = j + 1;
    }
    proof {
        lemma_alive_count_pointwise(enemies@, old(enemies)@);
        assert(nb * (DAMAGE_LIMIT as int) >= j * (DAMAGE_LIMIT as int)) by (nonlinear_arith)
            requires 0 <= j <= nb;
    }
}

/// One projectile hit against one enemy record, crediting the firing tower.
fn apply_bullet_hit_capped(damage: u64, en: &mut EnemyUnit, tw: &mut TowerUnit)
    requires
        old(en).enemy.health >= 1,
        old(en).enemy.health <= HEALTH_LIMIT,
        damage <= DAMAGE_LIMIT,
        old(tw).tower.total_damage + damage <= u64::MAX,
        old(tw).tower.wf(),
    ensures
        final(en).enemy.health == old(en).enemy.health - damage,
        final(en).alive == old(en).alive,
        final(en).position == old(en).position,
        final(en).path == old(en).path,
        final(en).movement == old(en).movement,
        final(tw).tower.total_damage == old(tw).tower.total_damage + crate::bullet::damage_credit(
            damage,
            old(en).enemy.health,
        ),
        old(tw).tower.total_damage <= final(tw).tower.total_damage <= old(tw).tower.total_damage
            + damage,
        final(tw).tower == (Tower { total_damage: final(tw).tower.total_damage, ..old(tw).tower }),
        final(tw).position == old(tw).position,
        final(tw).alive == old(tw).alive,
        final(tw).tower.wf(),
{
    let mut total: u64 = tw.tower.total_damage;
    apply_bullet_hit(damage, &mut en.enemy, &mut total);
    tw.tower.total_damage = total;
}


/// How many of the first `j` enemy records are live but out of health — the
/// deaths one resolution pass will collect.
pub open spec fn newly_dead(s: Seq<EnemyUnit>, j: int) -> int
    decreases j,
{
    if j <= 0 {
        0
    } else {
        newly_dead(s, j - 1) + if s[j - 1].alive && s[j - 1].enemy.health <= 0 {
            1int
        } else {
            0int
        }
    }
}

/// Resolve deaths: every live enemy whose health has reached zero despawns,
/// is counted once as dead, and pays the kill reward. The sum of deaths and
/// live enemies is unchanged.
fn stage_deaths(enemies: &mut Vec<EnemyUnit>, deaths: &mut u64, player: &mut Player)
    requires
        forall|k: int| 0 <= k < old(enemies)@.len() ==> enemy_core_wf(#[trigger] old(enemies)@[k]),
        *old(deaths) + old(enemies)@.len() < u64::MAX,
        old(player).money + KILL_REWARD * old(enemies)@.len() <= u64::MAX,
    ensures
        final(enemies)@.len() == old(enemies)@.len(),
        forall|k: int| 0 <= k < final(enemies)@.len() ==> enemy_wf(#[trigger] final(enemies)@[k]),
        *final(deaths) + alive_count(final(enemies)@) == *old(deaths) + alive_count(old(enemies)@),
        *final(deaths) >= *old(deaths),
        final(player).money >= old(player).money,
        final(player).money <= old(player).money + KILL_REWARD * old(enemies)@.len(),
        forall|k: int|
            0 <= k < final(enemies)@.len() ==> {
                let nee = #[trigger] final(enemies)@[k];
                let oe = old(enemies)@[k];
                nee.enemy == oe.enemy && nee.position == oe.position && nee.path == oe.path
                    && nee.movement == oe.movement && (nee.alive ==> oe.alive)
            },
        forall|k: int|
            0 <= k < final(enemies)@.len() ==> (#[trigger] final(enemies)@[k]) == if old(
                enemies,
            )@[k].alive && old(enemies)@[k].enemy.health <= 0 {
                EnemyUnit { alive: false, ..old(enemies)@[k] }
            } else {
                old(enemies)@[k]
            },
        *final(deaths) == *old(deaths) + newly_dead(old(enemies)@, old(enemies)@.len() as int),
        final(player).money == old(player).money + KILL_REWARD * newly_dead(
            old(enemies)@,
            old(enemies)@.len() as int,
        ),
{
    let n = enemies.len();
    let mut j: usize = 0;
    while j < n
        invariant
            j <= n,
            n == enemies@.len() == old(enemies)@.len(),
            forall|k: int| j <= k < n ==> enemies@[k] == old(enemies)@[k],
            forall|k: int| 0 <= k < n ==> enemy_core_wf(#[trigger] enemies@[k]),
            forall|k: int| 0 <= k < j ==> enemy_wf(#[trigger] enemies@[k]),
            forall|k: int|
                0 <= k < n ==> {
                    let nee = #[trigger] enemies@[k];
                    let oe = old(enemies)@[k];
                    nee.enemy == oe.enemy && nee.position == oe.position && nee.path == oe.path
                        && nee.movement == oe.movement && (nee.alive ==> oe.alive)
                },
            *deaths + alive_count(enemies@) == *old(deaths) + alive_count(old(enemies)@),
            *deaths >= *old(deaths),
            *deaths + (n - j) < u64::MAX,
            old(player).money <= player.money,
            player.money <= old(player).money + KILL_REWARD * j,
            old(player).money + KILL_REWARD * n <= u64::MAX,
            forall|k: int|
                0 <= k < j ==> (#[trigger] enemies@[k]) == if old(enemies)@[k].alive && old(
                    enemies,
                )@[k].enemy.health <= 0 {
                    EnemyUnit { alive: false, ..old(enemies)@[k] }
                } else {
                    old(enemies)@[k]
                },
            *deaths == *old(deaths) + newly_dead(old(enemies)@, j as int),
            player.money == old(player).money + KILL_REWARD * newly_dead(old(enemies)@, j as int),
        decreases n - j,
    {
        let ghost pre = enemies@;
        let e = enemies[j];
        proof {
            assert(KILL_REWARD * (j + 1) == KILL_REWARD * j + KILL_REWARD) by (nonlinear_arith);
            assert(KILL_REWARD * j <= KILL_REWARD * n) by (nonlinear_arith)
                requires 0 <= j <= n;
            assert(KILL_REWARD * (j + 1) <= KILL_REWARD * n) by (nonlinear_arith)
                requires 0 <= j + 1 <= n;
        }
        if e.alive && e.enemy.health <= 0 {
            let mut dead = e;
            dead.alive = false;
            enemies.set(j, dead);
            *deaths = *deaths + 1;
            give_money_on_enemy_death(player);
            proof {
                lemma_alive_count_update(pre, j as int, dead);
            }
        }
        j = j + 1;
    }
}

/// The stat table has an entry for the enemy kind.
pub open spec fn has_stats(stats: Seq<(EnemyType, EnemyStats)>, ty: EnemyType) -> bool {
    exists|i: int| 0 <= i < stats.len() && (#[trigger] stats[i]).0 == ty
}


/// The first stat entry for an enemy kind, scanning from `j`.
pub open spec fn stats_lookup(
    stats: Seq<(EnemyType, EnemyStats)>,
    ty: EnemyType,
    j: int,
) -> Option<EnemyStats>
    decreases stats.len() - j,
{
    if j < 0 || j >= stats.len() {
        Option::None
    } else if stats[j].0 == ty {
        Option::Some(stats[j].1)
    } else {
        stats_lookup(stats, ty, j + 1)
    }
}

/// Find the stat entry for an enemy kind: the first matching entry wins.
fn lookup_stats(stats: &Vec<(EnemyType, EnemyStats)>, ty: EnemyType) -> (r: Option<EnemyStats>)
    ensures
        r == stats_lookup(stats@, ty, 0),
        match r {
            Option::Some(s) => exists|i: int|
                0 <= i < stats@.len() && (#[trigger] stats@[i]).0 == ty && stats@[i].1 == s,
            Option::None => forall|i: int|
                0 <= i < stats@.len() ==> (#[trigger] stats@[i]).0 != ty,
        },
{
    let mut i: usize = 0;
    while i < stats.len()
        invariant
            i <= stats@.len(),
            forall|k: int| 0 <= k < i ==> (#[trigger] stats@[k]).0 != ty,
            stats_lookup(stats@, ty, i as int) == stats_lookup(stats@, ty, 0),
        decreases stats@.len() - i,
    {
        let (entry_ty, entry_stats) = stats[i];
        if entry_ty == ty {
            return Option::Some(entry_stats);
        }
        i = i + 1;
    }
    Option::None
}

impl EnemyType {
    /// Build the arena record for a freshly spawned enemy of this kind: full
    /// health and speed from its stats, standing on the checkpoint at its
    /// path index, its direction seeded from the following checkpoint.
    pub fn get_enemy(
        self,
        checkpoints: &Vec<Coordinate>,
        path: Path,
        stats: EnemyStats,
    ) -> (r: EnemyUnit)
        requires
            path.index + 1 < checkpoints@.len(),
            stats_wf(stats),
            forall|i: int| 0 <= i < checkpoints@.len() ==> in_arena(#[trigger] checkpoints@[i]),
        ensures
            r.enemy.health == stats.health,
            r.movement.speed == stats.speed,
            r.movement.direction == checkpoints@[path.index + 1],
            r.movement.distance_travelled == 0,
            r.position == checkpoints@[path.index as int],
            r.path == path,
            r.alive,
            enemy_wf(r),
    {
        let n = checkpoints.len();
        EnemyUnit {
            enemy: Enemy::new(stats.health),
            movement: Movement {
                direction: checkpoints[path.index + 1],
                speed: stats.speed,
                distance_travelled: 0,
            },
            position: checkpoints[path.index],
            path,
            alive: true,
        }
    }
}


/// Every projectile advanced one tick, live ones moving, dead ones untouched.
pub open spec fn move_bullets_all(bullets: Seq<BulletUnit>, dt: u64) -> Seq<BulletUnit> {
    bullets.map_values(
        |b: BulletUnit|
            if b.alive {
                bullet_step(b, dt)
            } else {
                b
            },
    )
}

/// Every live enemy out of health despawned; everything else untouched.
pub open spec fn resolve_deaths(s: Seq<EnemyUnit>) -> Seq<EnemyUnit> {
    s.map_values(
        |e: EnemyUnit|
            if e.alive && e.enemy.health <= 0 {
                EnemyUnit { alive: false, ..e }
            } else {
                e
            },
    )
}

/// The record a spawned enemy enters the arena with: full health and speed
/// from its stats, standing on the route's first checkpoint, headed by the
/// second.
pub open spec fn spawned_enemy(checkpoints: Seq<Coordinate>, st: EnemyStats) -> EnemyUnit {
    EnemyUnit {
        enemy: Enemy { health: st.health },
        movement: Movement {
            direction: checkpoints[1],
            speed: st.speed,
            distance_travelled: 0,
        },
        position: checkpoints[0],
        path: Path { index: 0 },
        alive: true,
    }
}

/// One whole game tick, given the projectile arena `shot` as it stands after
/// the towers fired (only its new projectiles' directions are the targeting
/// engine's choice; everything else is a function of the starting state):
/// enemies move and escape per `move_enemies_spec`; the towers evolve per
/// `shoot_tower_step` against the snapshot of the moved enemies, extending
/// the projectile arena per `emitted_bullet_ok`; projectiles advance per
/// `bullet_step`; collisions resolve per `resolve_collisions`; deaths
/// resolve per `resolve_deaths`, each paying one kill reward; and the wave
/// scheduler steps per `wave_transition`, paying the wave-clear bonus once
/// and spawning its enemy — with known stats — at the route's first
/// checkpoint.
pub open spec fn tick_combat(g0: Game, g1: Game, dt: u64, shot: Seq<BulletUnit>) -> bool {
    let moved = move_enemies_spec(g0.enemies@, g0.checkpoints@, g0.base, dt, 0);
    let targets = live_targets(moved.0);
    let flown = move_bullets_all(shot, dt);
    let coll = resolve_collisions(
        flown,
        moved.0,
        g0.towers@.map_values(|t: TowerUnit| shoot_tower_step(t, targets, dt)),
        0,
    );
    let dead = newly_dead(coll.1, coll.1.len() as int);
    let wave = wave_transition(g0.waves, g0.wave_state, dt);
    let bonus: int = match wave.2.cleared {
        Option::Some(idx) => idx + WAVE_CLEAR_BONUS,
        Option::None => 0,
    };
    let spawn_in = match wave.2.spawn {
        Option::Some(ty) => stats_lookup(g0.stats@, ty, 0),
        Option::None => Option::None,
    };
    &&& shot.len() == g0.bullets@.len() + fired_count(
        g0.towers@,
        targets,
        g0.towers@.len() as int,
    )
    &&& shot.subrange(0, g0.bullets@.len() as int) == g0.bullets@
    &&& forall|k: int|
        0 <= k < g0.towers@.len() && tower_fires(#[trigger] g0.towers@[k], targets)
            ==> emitted_bullet_ok(
            shot[g0.bullets@.len() + fired_count(g0.towers@, targets, k)],
            g0.towers@[k],
            k,
            targets,
        )
    &&& g1.base == moved.1
    &&& g1.escapes == g0.escapes + moved.2
    &&& g0.base.health - g1.base.health == moved.3
    &&& g1.towers@ == coll.2
    &&& g1.bullets@ == coll.0
    &&& g1.deaths == g0.deaths + dead
    &&& g1.player.money == g0.player.money + KILL_REWARD * dead + bonus
    &&& g1.waves == wave.0
    &&& g1.wave_state == wave.1
    &&& g1.checkpoints == g0.checkpoints
    &&& g1.stats == g0.stats
    &&& g1.enemies@ == match spawn_in {
        Option::Some(st) => resolve_deaths(coll.1).push(spawned_enemy(g0.checkpoints@, st)),
        Option::None => resolve_deaths(coll.1),
    }
    &&& g1.spawned == g0.spawned + match spawn_in {
        Option::Some(st) => 1int,
        Option::None => 0int,
    }
}

/// One tick relates the old and new game exactly: some projectile arena
/// as fired ties the whole combat and scheduling pipeline together.
pub open spec fn tick_rel(g0: Game, g1: Game, dt: u64) -> bool {
    exists|shot: Seq<BulletUnit>| #[trigger] tick_combat(g0, g1, dt, shot)
}

impl Game {
    /// Set up a game: the checkpoint route, the wave plan, the enemy stat
    /// table, and the starting base health and currency. No entities exist
    /// yet and nothing has been spawned.
    pub fn new(
        checkpoints: Vec<Coordinate>,
        waves: Waves,
        stats: Vec<(EnemyType, EnemyStats)>,
        base_health: i64,
        starting_money: u64,
    ) -> (r: Game)
        requires
            2 <= checkpoints@.len() < usize::MAX,
            forall|i: int| 0 <= i < checkpoints@.len() ==> in_arena(#[trigger] checkpoints@[i]),
            waves_wf(waves),
            waves.current == 0,
            forall|i: int| 0 <= i < stats@.len() ==> stats_wf((#[trigger] stats@[i]).1),
            base_health >= 0,
        ensures
            r.wf(),
            r.checkpoints == checkpoints,
            r.waves == waves,
            r.stats == stats,
            r.base.health == base_health,
            r.player.money == starting_money,
            r.spawned == 0 && r.deaths == 0 && r.escapes == 0,
            r.enemies@.len() == 0 && r.towers@.len() == 0 && r.bullets@.len() == 0,
    {
        let remaining: usize = if waves.waves.len() > 0 {
            waves.waves[0].enemies.len()
        } else {
            0
        };
        let wave_state = WaveState {
            wave_spawn_timer: GameTimer::new(crate::wave::WAVE_DELAY_MS, false),
            enemy_spawn_timer: GameTimer::new(1, true),
            remaining,
        };
        Game {
            checkpoints,
            enemies: Vec::new(),
            towers: Vec::new(),
            bullets: Vec::new(),
            base: Base { health: base_health },
            player: Player { money: starting_money },
            waves,
            wave_state,
            stats,
            spawned: 0,
            deaths: 0,
            escapes: 0,
        }
    }

    /// One full game tick: move enemies and resolve escapes, run every
    /// tower's combat controller, move projectiles and run down their
    /// lifetimes, resolve collisions and deaths with their rewards, and run
    /// the wave scheduler — spawning its enemy at the route's first
    /// checkpoint when its stats are known.
    pub fn tick(&mut self, dt_ms: u64)
        requires
            old(self).wf(),
            old(self).headroom(),
            dt_ms <= DT_LIMIT,
        ensures
            final(self).wf(),
            final(self).checkpoints == old(self).checkpoints,
            final(self).stats == old(self).stats,
            final(self).towers@.len() == old(self).towers@.len(),
            final(self).spawned >= old(self).spawned,
            final(self).deaths >= old(self).deaths,
            final(self).escapes >= old(self).escapes,
            final(self).player.money >= old(self).player.money,
            0 <= final(self).base.health <= old(self).base.health,
            final(self).waves == wave_transition(old(self).waves, old(self).wave_state, dt_ms).0,
            final(self).wave_state == wave_transition(
                old(self).waves,
                old(self).wave_state,
                dt_ms,
            ).1,
            final(self).spawned <= old(self).spawned + 1,
            wave_transition(old(self).waves, old(self).wave_state, dt_ms).2.spawn is None
                ==> final(self).spawned == old(self).spawned,
            ({
                let step = wave_transition(old(self).waves, old(self).wave_state, dt_ms).2;
                match step.spawn {
                    Option::Some(ty) => has_stats(old(self).stats@, ty) ==> {
                        &&& final(self).spawned == old(self).spawned + 1
                        &&& final(self).enemies@.len() == old(self).enemies@.len() + 1
                        &&& final(self).enemies@.last().alive
                        &&& final(self).enemies@.last().position == old(self).checkpoints@[0]
                        &&& final(self).enemies@.last().path.index == 0
                        &&& final(self).enemies@.last().movement.distance_travelled == 0
                    },
                    Option::None => true,
                }
            }),
            tick_rel(*old(self), *final(self), dt_ms),
    {
        let ghost g0 = *self;
        stage_move_enemies(
            &mut self.enemies,
            &self.checkpoints,
            &mut self.base,
            &mut self.escapes,
            dt_ms,
        );
        let ghost e1g = self.enemies@;
        stage_shoot(&mut self.towers, &self.enemies, &mut self.bullets, dt_ms);
        let ghost shot = self.bullets@;
        let ghost t2g = self.towers@;
        stage_move_bullets(&mut self.bullets, dt_ms, Ghost(self.towers@.len() as int));
        let ghost b3g = self.bullets@;
        stage_collisions(&mut self.bullets, &mut self.enemies, &mut self.towers);
        let ghost e4g = self.enemies@;
        proof {
            assert(KILL_REWARD * self.enemies@.len() <= 10 * 1_000_000) by (nonlinear_arith)
                requires
                    KILL_REWARD == 10,
                    0 <= self.enemies@.len() <= 1_000_000;
        }
        stage_deaths(&mut self.enemies, &mut self.deaths, &mut self.player);
        let ghost e5g = self.enemies@;
        let ghost w_pre = self.waves;
        let ghost s_pre = self.wave_state;
        proof {
            crate::wave::lemma_wave_cursor_bounds(self.waves, self.wave_state, dt_ms);
        }
        let step = spawn_waves(&mut self.waves, &mut self.wave_state, dt_ms);
        match step.cleared {
            Option::Some(idx) => {
                give_money_on_wave_cleared(&mut self.player, idx);
            },
            Option::None => {},
        }
        match step.spawn {
            Option::Some(ty) => {
                match lookup_stats(&self.stats, ty) {
                    Option::Some(st) => {
                        let ghost pre = self.enemies@;
                        let unit = ty.get_enemy(&self.checkpoints, Path { index: 0 }, st);
                        self.enemies.push(unit);
                        self.spawned = self.spawned + 1;
                        proof {
                            lemma_alive_count_push(pre, unit);
                            assert(unit == spawned_enemy(g0.checkpoints@, st));
                        }
                    },
                    // an enemy kind with no stat entry is a malformed table;
                    // nothing spawns
                    Option::None => {},
                }
            },
            Option::None => {},
        }
        proof {
            assert(t2g =~= g0.towers@.map_values(
                |t: TowerUnit| shoot_tower_step(t, live_targets(e1g), dt_ms),
            ));
            assert(b3g =~= move_bullets_all(shot, dt_ms));
            assert(e5g =~= resolve_deaths(e4g));
            assert(self.enemies@ == match (match wave_transition(
                g0.waves,
                g0.wave_state,
                dt_ms,
            ).2.spawn {
                Option::Some(ty) => stats_lookup(g0.stats@, ty, 0),
                Option::None => Option::None,
            }) {
                Option::Some(st) => resolve_deaths(e4g).push(spawned_enemy(g0.checkpoints@, st)),
                Option::None => resolve_deaths(e4g),
            });
            assert(tick_combat(g0, *self, dt_ms, shot));
            assert(tick_rel(g0, *self, dt_ms));
        }
    }

    /// Place a bought tower at a position, deducting its price — a purchase
    /// that happens only when the player can afford it; otherwise nothing
    /// changes.
    pub fn place_tower(&mut self, tower: Tower, position: Coordinate) -> (r: bool)
        requires
            old(self).wf(),
            tower.wf(),
            in_arena(position),
            in_arena(translate(position, tower.bullet_spawn_offset)),
        ensures
            final(self).wf(),
            r == (old(self).player.money >= tower.price),
            r ==> final(self).towers@ == old(self).towers@.push(
                TowerUnit { tower, position, alive: true },
            ) && final(self).player.money == old(self).player.money - tower.price,
            !r ==> *final(self) == *old(self),
            final(self).enemies == old(self).enemies,
            final(self).bullets == old(self).bullets,
            final(self).base == old(self).base,
    {
        if self.player.money >= tower.price {
            self.player.money = self.player.money - tower.price;
            let ghost pre = self.towers@;
            self.towers.push(TowerUnit { tower, position, alive: true });
            proof {
                assert(forall|k: int|
                    0 <= k < pre.len() ==> self.towers@[k] == #[trigger] pre[k]);
            }
            true
        } else {
            false
        }
    }

    /// Sell a live tower: refund a third of everything spent on it (rounded
    /// down) and despawn it together with its projectiles. Selling a tower
    /// that is already gone changes nothing.
    #[verifier::loop_isolation(false)]
    pub fn sell_tower(&mut self, tower_index: usize) -> (r: bool)
        requires
            old(self).wf(),
            tower_index < old(self).towers@.len(),
            old(self).player.money + old(self).towers@[tower_index as int].tower.sell_price
                <= u64::MAX,
        ensures
            final(self).wf(),
            r == old(self).towers@[tower_index as int].alive,
            r ==> final(self).player.money == old(self).player.money + old(
                self,
            ).towers@[tower_index as int].tower.total_spent / 3,
            !r ==> *final(self) == *old(self),
            final(self).towers@.len() == old(self).towers@.len(),
            final(self).enemies == old(self).enemies,
            r ==> !final(self).towers@[tower_index as int].alive,
            r ==> forall|k: int|
                0 <= k < final(self).bullets@.len()
                    ==> ((#[trigger] final(self).bullets@[k]).tower_index == tower_index
                    ==> !final(self).bullets@[k].alive),
    {
        if !self.towers[tower_index].alive {
            return false;
        }
        proof {
            assert(tower_unit_wf(old(self).towers@[tower_index as int]));
        }
        let mut unit = self.towers[tower_index];
        self.player.money = self.player.money + unit.tower.sell_price;
        unit.alive = false;
        self.towers.set(tower_index, unit);
        let ghost mid = *self;
        let n = self.bullets.len();
        let mut j: usize = 0;
        while j < n
            invariant
                j <= n,
                n == self.bullets@.len(),
                self.checkpoints == mid.checkpoints,
                self.enemies == mid.enemies,
                self.towers == mid.towers,
                self.player == mid.player,
                self.base == mid.base,
                self.waves == mid.waves,
                self.wave_state == mid.wave_state,
                self.stats == mid.stats,
                self.spawned == mid.spawned,
                self.deaths == mid.deaths,
                self.escapes == mid.escapes,
                self.bullets@.len() == mid.bullets@.len(),
                forall|k: int|
                    0 <= k < n ==> bullet_wf(
                        #[trigger] self.bullets@[k],
                        self.towers@.len() as int,
                    ),
                forall|k: int|
                    0 <= k < j ==> ((#[trigger] self.bullets@[k]).tower_index == tower_index
                        ==> !self.bullets@[k].alive),
                forall|k: int|
                    j <= k < n ==> (#[trigger] self.bullets@[k]) == mid.bullets@[k],
            decreases n - j,
        {
            if self.bullets[j].tower_index == tower_index {
                let mut b = self.bullets[j];
                b.alive = false;
                self.bullets.set(j, b);
            }
            j = j + 1;
        }
        true
    }
}

impl Game {
    /// Try to buy the next upgrade of one path for a tower. The purchase
    /// happens only when the path still has a next level and the player can
    /// afford its cost; otherwise nothing changes — an unaffordable or
    /// exhausted upgrade is a silent no-op, not an error.
    pub fn upgrade_tower(
        &mut self,
        tower_index: usize,
        path_upgrades: &Vec<Upgrade>,
        path_index: usize,
    ) -> (r: bool)
        requires
            old(self).wf(),
            tower_index < old(self).towers@.len(),
            path_index < crate::tower::UPGRADE_PATH_COUNT,
            forall|u: int|
                0 <= u < path_upgrades@.len() ==> crate::tower::upgrade_applicable(
                    old(self).towers@[tower_index as int].tower,
                    #[trigger] path_upgrades@[u],
                ),
            old(self).towers@[tower_index as int].tower.upgrades.upgrades@[path_index as int]
                < u64::MAX,
        ensures
            final(self).wf(),
            final(self).towers@.len() == old(self).towers@.len(),
            final(self).enemies == old(self).enemies,
            final(self).bullets == old(self).bullets,
            final(self).base == old(self).base,
            ({
                let t = old(self).towers@[tower_index as int].tower;
                let level = t.upgrades.upgrades@[path_index as int];
                &&& r == (level < path_upgrades@.len() && old(self).player.money
                    >= path_upgrades@[level as int].cost)
                &&& !r ==> *final(self) == *old(self)
                &&& r ==> {
                    let up = path_upgrades@[level as int];
                    let nt = final(self).towers@[tower_index as int].tower;
                    &&& final(self).player.money == old(self).player.money - up.cost
                    &&& nt.total_spent == t.total_spent + up.cost
                    &&& nt.sell_price == nt.total_spent / 3
                    &&& nt.damage == apply_stats(
                        t.damage as int,
                        t.attack_speed as int,
                        t.range as int,
                        up.upgrade@,
                    ).0
                    &&& nt.attack_speed == apply_stats(
                        t.damage as int,
                        t.attack_speed as int,
                        t.range as int,
                        up.upgrade@,
                    ).1
                    &&& nt.range == apply_stats(
                        t.damage as int,
                        t.attack_speed as int,
                        t.range as int,
                        up.upgrade@,
                    ).2
                    &&& nt.upgrades.upgrades@ == t.upgrades.upgrades@.update(
                        path_index as int,
                        (level + 1) as u64,
                    )
                }
            }),
    {
        proof {
            assert(tower_unit_wf(old(self).towers@[tower_index as int]));
        }
        let level: u64 = self.towers[tower_index].tower.upgrades.upgrades[path_index];
        if level < path_upgrades.len() as u64 && self.player.money
            >= path_upgrades[level as usize].cost {
            let up = &path_upgrades[level as usize];
            self.player.money = self.player.money - up.cost;
            let mut unit = self.towers[tower_index];
            unit.tower.upgrade(up, path_index);
            self.towers.set(tower_index, unit);
            true
        } else {
            false
        }
    }
}

} // verus!
