//! Towers: stats, the sell-price rule, upgrade application, and the per-tick
//! combat controller that gates a fire-rate timer on enemy presence, asks the
//! targeting engine for a direction, and emits a projectile spawn.

use vstd::prelude::*;
use vstd::assert_seqs_equal;

use crate::geometry::{in_bounds, Coordinate};
use crate::targeting_priority::{
    choice_at, get_enemy_direction, some_in_range, valid_selection, TargetInfo,
    TargetingPriority,
};
use crate::timer::{GameTimer, TIME_LIMIT};

verus! {

/// Largest damage value a tower may reach.
pub const DAMAGE_LIMIT: u64 = 1_000_000_000;

/// Largest range a tower may reach (also keeps firing-range sums in bounds).
pub const TOWER_RANGE_LIMIT: u64 = 1_000_000_000;

/// Largest amount of currency the accounting accepts.
pub const MONEY_LIMIT: u64 = 1_000_000_000_000;

/// Margin added to a tower's range when looking for enemies, so the tower
/// tracks approaching enemies slightly before they are in strict range.
pub const DETECTION_MARGIN: u64 = 25;

/// Projectile speed, in world units per second.
pub const BULLET_SPEED: u64 = 1500;

/// Projectile lifetime, in milliseconds.
pub const BULLET_LIFETIME_MS: u64 = 1250;

/// How many independent upgrade paths a tower has.
pub const UPGRADE_PATH_COUNT: usize = 3;

/// Progress along each of a tower's upgrade paths.
#[derive(Clone, Copy, Debug)]
pub struct TowerUpgrades {
    pub upgrades: [u64; 3],
}

impl Default for TowerUpgrades {
    /// No upgrades bought on any of the three paths.
    fn default() -> (r: Self)
        ensures
            r.upgrades@.len() == UPGRADE_PATH_COUNT,
            forall|i: int| 0 <= i < r.upgrades@.len() ==> r.upgrades@[i] == 0,
    {
        TowerUpgrades { upgrades: [0, 0, 0] }
    }
}

/// A tower stat an upgrade may change.
#[derive(Clone, Copy, Debug, PartialEq, Eq, Structural, Hash)]
pub enum TowerStat {
    Damage,
    AttackSpeed,
    Range,
}

/// One purchasable upgrade: a list of stat deltas and its cost.
/// A damage or range delta is added to the stat; an attack-speed delta `v`
/// shortens the firing period by `v` percent.
#[derive(Clone, Debug)]
pub struct Upgrade {
    pub upgrade: Vec<(TowerStat, u64)>,
    pub cost: u64,
}

/// The `(damage, attack_speed, range)` triple after one stat delta.
pub open spec fn apply_stat(d: int, a: int, rg: int, stat: TowerStat, v: int) -> (int, int, int) {
    match stat {
        TowerStat::Damage => (d + v, a, rg),
        TowerStat::AttackSpeed => (d, a - (v * a) / 100, rg),
        TowerStat::Range => (d, a, rg + v),
    }
}

/// The `(damage, attack_speed, range)` triple after a list of stat deltas,
/// applied in order.
pub open spec fn apply_stats(
    d: int,
    a: int,
    rg: int,
    deltas: Seq<(TowerStat, u64)>,
) -> (int, int, int)
    decreases deltas.len(),
{
    if deltas.len() == 0 {
        (d, a, rg)
    } else {
        let s = apply_stat(d, a, rg, deltas[0].0, deltas[0].1 as int);
        apply_stats(s.0, s.1, s.2, deltas.subrange(1, deltas.len() as int))
    }
}

/// The list holds at least one attack-speed delta.
pub open spec fn has_speed_delta(deltas: Seq<(TowerStat, u64)>) -> bool {
    exists|k: int| 0 <= k < deltas.len() && (#[trigger] deltas[k]).0 == TowerStat::AttackSpeed
}

/// Every attack-speed delta in the list is at most 100 percent.
pub open spec fn speed_deltas_bounded(deltas: Seq<(TowerStat, u64)>) -> bool {
    forall|k: int|
        0 <= k < deltas.len() && (#[trigger] deltas[k]).0 == TowerStat::AttackSpeed
            ==> deltas[k].1 <= 100
}

/// Applying deltas never decreases damage or range and never increases the
/// attack-speed period below zero.
pub proof fn lemma_apply_stats_monotone(d: int, a: int, rg: int, deltas: Seq<(TowerStat, u64)>)
    requires
        0 <= d,
        0 <= a,
        0 <= rg,
        speed_deltas_bounded(deltas),
    ensures
        apply_stats(d, a, rg, deltas).0 >= d,
        0 <= apply_stats(d, a, rg, deltas).1 <= a,
        apply_stats(d, a, rg, deltas).2 >= rg,
    decreases deltas.len(),
{
    if deltas.len() == 0 {
    } else {
        let stat = deltas[0].0;
        let v = deltas[0].1 as int;
        let s = apply_stat(d, a, rg, stat, v);
        if stat == TowerStat::AttackSpeed {
            assert(v <= 100);
            assert(0 <= (v * a) / 100 <= a) by (nonlinear_arith)
                requires 0 <= a && 0 <= v <= 100;
        }
        assert(0 <= s.0 && 0 <= s.1 <= a && 0 <= s.2);
        let rest = deltas.subrange(1, deltas.len() as int);
        assert(speed_deltas_bounded(rest)) by {
            assert(forall|k: int| 0 <= k < rest.len() ==> rest[k] == deltas[k + 1]);
        }
        lemma_apply_stats_monotone(s.0, s.1, s.2, rest);
    }
}

/// A tower: combat stats, purchase accounting, targeting policy, and the
/// fire-rate timer. `attack_speed` is the firing period in milliseconds.
#[derive(Clone, Copy, Debug)]
pub struct Tower {
    pub bullet_spawn_offset: Coordinate,
    pub damage: u64,
    pub attack_speed: u64,
    pub range: u64,
    pub price: u64,
    pub sell_price: u64,
    pub upgrades: TowerUpgrades,
    pub target: TargetingPriority,
    pub shooting_timer: GameTimer,
    pub total_spent: u64,
    pub total_damage: u64,
    pub first_enemy_appeared: bool,
}

impl Tower {
    /// A tower's invariant: the sell price is a third of everything spent on
    /// it (rounded down), its stats are within the arithmetic limits, and its
    /// fire-rate timer repeats with the attack-speed period.
    pub open spec fn wf(self) -> bool {
        &&& self.sell_price == self.total_spent / 3
        &&& self.total_spent <= MONEY_LIMIT
        &&& self.damage <= DAMAGE_LIMIT
        &&& 1 <= self.attack_speed <= TIME_LIMIT
        &&& self.range <= TOWER_RANGE_LIMIT
        &&& self.upgrades.upgrades@.len() == UPGRADE_PATH_COUNT
        &&& self.shooting_timer.wf()
        &&& self.shooting_timer.duration_ms == self.attack_speed
        &&& self.shooting_timer.repeating
        &&& in_bounds(self.bullet_spawn_offset)
    }

    /// Create a tower. The whole price counts as spent, so the initial sell
    /// price is a third of the price, rounded down.
    pub fn new(
        bullet_spawn_offset: Coordinate,
        damage: u64,
        attack_speed: u64,
        range: u64,
        price: u64,
    ) -> (r: Tower)
        requires
            in_bounds(bullet_spawn_offset),
            damage <= DAMAGE_LIMIT,
            1 <= attack_speed <= TIME_LIMIT,
            range <= TOWER_RANGE_LIMIT,
            price <= MONEY_LIMIT,
        ensures
            r.wf(),
            r.bullet_spawn_offset == bullet_spawn_offset,
            r.damage == damage,
            r.attack_speed == attack_speed,
            r.range == range,
            r.price == price,
            r.total_spent == price,
            r.sell_price == price / 3,
            r.total_damage == 0,
            r.target == TargetingPriority::FIRST,
            r.first_enemy_appeared == false,
            r.shooting_timer == GameTimer::fresh(attack_speed, true),
            forall|i: int| 0 <= i < UPGRADE_PATH_COUNT ==> r.upgrades.upgrades@[i] == 0,
    {
        Tower {
            bullet_spawn_offset,
            damage,
            attack_speed,
            range,
            price,
            sell_price: price / 3,
            upgrades: TowerUpgrades::default(),
            target: TargetingPriority::default(),
            shooting_timer: GameTimer::new(attack_speed, true),
            total_spent: price,
            total_damage: 0,
            first_enemy_appeared: false,
        }
    }

    /// Apply a purchased upgrade: add its cost to the running total, refresh
    /// the sell price to a third of that total, apply every stat delta in
    /// order, and advance the chosen upgrade path's counter. An attack-speed
    /// delta also resets the fire-rate timer to the new, shorter period.
    pub fn upgrade(&mut self, upgrade: &Upgrade, path_index: usize)
        requires
            old(self).wf(),
            path_index < UPGRADE_PATH_COUNT,
            speed_deltas_bounded(upgrade.upgrade@),
            old(self).total_spent + upgrade.cost <= MONEY_LIMIT,
            apply_stats(
                old(self).damage as int,
                old(self).attack_speed as int,
                old(self).range as int,
                upgrade.upgrade@,
            ).0 <= DAMAGE_LIMIT,
            apply_stats(
                old(self).damage as int,
                old(self).attack_speed as int,
                old(self).range as int,
                upgrade.upgrade@,
            ).1 >= 1,
            apply_stats(
                old(self).damage as int,
                old(self).attack_speed as int,
                old(self).range as int,
                upgrade.upgrade@,
            ).2 <= TOWER_RANGE_LIMIT,
            old(self).upgrades.upgrades@[path_index as int] < u64::MAX,
        ensures
            final(self).wf(),
            final(self).total_spent == old(self).total_spent + upgrade.cost,
            final(self).sell_price == final(self).total_spent / 3,
            final(self).damage == apply_stats(
                old(self).damage as int,
                old(self).attack_speed as int,
                old(self).range as int,
                upgrade.upgrade@,
            ).0,
            final(self).attack_speed == apply_stats(
                old(self).damage as int,
                old(self).attack_speed as int,
                old(self).range as int,
                upgrade.upgrade@,
            ).1,
            final(self).range == apply_stats(
                old(self).damage as int,
                old(self).attack_speed as int,
                old(self).range as int,
                upgrade.upgrade@,
            ).2,
            final(self).upgrades.upgrades@ == old(self).upgrades.upgrades@.update(
                path_index as int,
                (old(self).upgrades.upgrades@[path_index as int] + 1) as u64,
            ),
            final(self).bullet_spawn_offset == old(self).bullet_spawn_offset,
            final(self).price == old(self).price,
            final(self).target == old(self).target,
            final(self).total_damage == old(self).total_damage,
            final(self).first_enemy_appeared == old(self).first_enemy_appeared,
            final(self).shooting_timer.duration_ms == final(self).attack_speed,
            has_speed_delta(upgrade.upgrade@) ==> final(self).shooting_timer == GameTimer::fresh(
                final(self).attack_speed,
                true,
            ),
            !has_speed_delta(upgrade.upgrade@) ==> final(self).shooting_timer == old(
                self,
            ).shooting_timer,
    {
        let ghost d0 = self.damage as int;
        let ghost a0 = self.attack_speed as int;
        let ghost r0 = self.range as int;
        let ghost deltas = upgrade.upgrade@;

        self.total_spent = self.total_spent + upgrade.cost;
        self.sell_price = self.total_spent / 3;

        let n = upgrade.upgrade.len();
        proof {
            assert_seqs_equal!(deltas.subrange(0, n as int) == deltas);
        }
        let mut i: usize = 0;
        while i < n
            invariant
                i <= n,
                n == deltas.len(),
                deltas == upgrade.upgrade@,
                speed_deltas_bounded(deltas),
                self.damage <= DAMAGE_LIMIT,
                1 <= self.attack_speed <= TIME_LIMIT,
                self.range <= TOWER_RANGE_LIMIT,
                apply_stats(
                    self.damage as int,
                    self.attack_speed as int,
                    self.range as int,
                    deltas.subrange(i as int, n as int),
                ) == apply_stats(d0, a0, r0, deltas),
                apply_stats(d0, a0, r0, deltas).0 <= DAMAGE_LIMIT,
                apply_stats(d0, a0, r0, deltas).1 >= 1,
                apply_stats(d0, a0, r0, deltas).2 <= TOWER_RANGE_LIMIT,
                self.shooting_timer.wf(),
                self.shooting_timer.duration_ms == self.attack_speed,
                self.shooting_timer.repeating,
                has_speed_delta(deltas.subrange(0, i as int)) ==> self.shooting_timer
                    == GameTimer::fresh(self.attack_speed, true),
                !has_speed_delta(deltas.subrange(0, i as int)) ==> self.shooting_timer == old(
                    self,
                ).shooting_timer,
                self.bullet_spawn_offset == old(self).bullet_spawn_offset,
                in_bounds(self.bullet_spawn_offset),
                self.price == old(self).price,
                self.target == old(self).target,
                self.total_damage == old(self).total_damage,
                self.first_enemy_appeared == old(self).first_enemy_appeared,
                self.total_spent == old(self).total_spent + upgrade.cost,
                self.sell_price == self.total_spent / 3,
                self.total_spent <= MONEY_LIMIT,
                self.upgrades == old(self).upgrades,
                self.upgrades.upgrades@.len() == UPGRADE_PATH_COUNT,
            decreases n - i,
        {
            let ghost rest = deltas.subrange(i as int, n as int);
            let ghost rest_next = deltas.subrange(i as int + 1, n as int);
            proof {
                assert(rest[0] == deltas[i as int]);
                assert_seqs_equal!(rest.subrange(1, rest.len() as int) == rest_next);
                assert_seqs_equal!(deltas.subrange(0, i as int + 1)
                    == deltas.subrange(0, i as int).push(deltas[i as int]));
                assert(forall|k: int|
                    0 <= k < i + 1 ==> #[trigger] deltas.subrange(0, i as int + 1)[k]
                        == if k < i { deltas.subrange(0, i as int)[k] } else { deltas[i as int] });
                assert(speed_deltas_bounded(rest_next)) by {
                    assert(forall|k: int|
                        0 <= k < rest_next.len() ==> rest_next[k] == deltas[k + i + 1]);
                }
            }
            let (stat, v) = upgrade.upgrade[i];
            let ghost s = apply_stat(
                self.damage as int,
                self.attack_speed as int,
                self.range as int,
                stat,
                v as int,
            );
            proof {
                assert(apply_stats(
                    self.damage as int,
                    self.attack_speed as int,
                    self.range as int,
                    rest,
                ) == apply_stats(s.0, s.1, s.2, rest_next));
                if stat == TowerStat::AttackSpeed {
                    assert(v <= 100);
                    assert(0 <= (v as int * self.attack_speed as int) / 100
                        <= self.attack_speed as int) by (nonlinear_arith)
                        requires 0 <= self.attack_speed as int && 0 <= v as int <= 100;
                }
                lemma_apply_stats_monotone(s.0, s.1, s.2, rest_next);
            }
            match stat {
                TowerStat::Damage => {
                    self.damage = self.damage + v;
                },
                TowerStat::AttackSpeed => {
                    proof {
                        assert(v <= 100);
                        assert(0 <= (v as int * self.attack_speed as int) / 100
                            <= self.attack_speed as int) by (nonlinear_arith)
                            requires 0 <= self.attack_speed as int && 0 <= v as int <= 100;
                        assert(v as int * self.attack_speed as int
                            <= 100 * 1_000_000_000_000int) by (nonlinear_arith)
                            requires
                                0 <= v as int <= 100
                                    && 0 <= self.attack_speed as int <= 1_000_000_000_000int;
                    }
                    let cut: u64 = (v * self.attack_speed) / 100;
                    self.attack_speed = self.attack_speed - cut;
                    self.shooting_timer.reset();
                    self.shooting_timer.set_duration(self.attack_speed);
                },
                TowerStat::Range => {
                    self.range = self.range + v;
                },
            }
            proof {
                let pre = deltas.subrange(0, i as int);
                let post = deltas.subrange(0, i as int + 1);
                if stat == TowerStat::AttackSpeed {
                    assert(post[i as int].0 == TowerStat::AttackSpeed);
                    assert(has_speed_delta(post));
                } else {
                    if has_speed_delta(post) {
                        let k = choose|k: int|
                            0 <= k < post.len() && (#[trigger] post[k]).0
                                == TowerStat::AttackSpeed;
                        if k < i {
                            assert(pre[k] == post[k]);
                            assert(has_speed_delta(pre));
                        } else {
                            assert(post[k] == deltas[i as int]);
                            assert(false);
                        }
                    }
                }
            }
            i = i + 1;
        }
        proof {
            assert_seqs_equal!(deltas.subrange(n as int, n as int) == Seq::<(TowerStat, u64)>::empty());
        }
        let step = self.upgrades.upgrades[path_index] + 1;
        self.upgrades.upgrades[path_index] = step;
    }
}

impl Default for Tower {
    /// A blank tower with no stats, as a placeholder value; real towers come
    /// from `Tower::new` or a tower kind's profile.
    fn default() -> (r: Self)
        ensures
            r.damage == 0,
            r.range == 0,
            r.price == 0,
            r.total_damage == 0,
            r.total_spent == 0,
            r.sell_price == 0,
            r.target == TargetingPriority::FIRST,
            r.first_enemy_appeared == false,
    {
        Tower {
            bullet_spawn_offset: Coordinate { x: 0, y: 0 },
            damage: 0,
            attack_speed: 0,
            range: 0,
            price: 0,
            sell_price: 0,
            upgrades: TowerUpgrades::default(),
            target: TargetingPriority::default(),
            shooting_timer: GameTimer::new(0, false),
            total_spent: 0,
            total_damage: 0,
            first_enemy_appeared: false,
        }
    }
}

/// The range within which a tower notices enemies: its range plus the fixed
/// detection margin.
pub open spec fn detection_range(t: Tower) -> u64 {
    (t.range + DETECTION_MARGIN) as u64
}

/// The point `p` shifted by the vector `off`.
pub open spec fn translate(p: Coordinate, off: Coordinate) -> Coordinate {
    Coordinate { x: (p.x + off.x) as i64, y: (p.y + off.y) as i64 }
}

/// Whether any enemy lies within `range` of `position`.
pub fn enemy_in_range(
    position: Coordinate,
    range: u64,
    enemies: &Vec<TargetInfo>,
) -> (r: bool)
    requires
        in_bounds(position),
        crate::targeting_priority::targets_in_bounds(enemies@),
        range <= crate::targeting_priority::RANGE_LIMIT,
    ensures
        r == some_in_range(enemies@, position, range),
{
    let ghost origin = position;
    let mut i: usize = 0;
    proof {
        assert((range as int) * (range as int) <= 4_000_000_000_000_000_000) by (nonlinear_arith)
            requires range <= 2_000_000_000;
        assert((range as int) * (range as int) >= 0) by (nonlinear_arith);
    }
    let range_sq: u64 = range * range;
    while i < enemies.len()
        invariant
            i <= enemies@.len(),
            origin == position,
            in_bounds(origin),
            crate::targeting_priority::targets_in_bounds(enemies@),
            range_sq == (range as int) * (range as int),
            forall|j: int|
                0 <= j < i
                    ==> !crate::targeting_priority::in_range_at(enemies@, origin, range, j),
        decreases enemies@.len() - i,
    {
        let e = enemies[i];
        let d2: u64 = crate::geometry::distance_squared(e.position, position);
        if d2 <= range_sq {
            proof {
                assert(crate::targeting_priority::in_range_at(enemies@, origin, range, i as int));
            }
            return true;
        }
        i = i + 1;
    }
    false
}

/// A projectile-spawn effect emitted by a firing tower: the damage snapshot,
/// the firing direction, the spawn offset from the tower, and the fixed
/// projectile speed and lifetime.
#[derive(Clone, Copy, Debug)]
pub struct BulletSpawn {
    pub damage: u64,
    pub direction: Coordinate,
    pub offset: Coordinate,
    pub speed: u64,
    pub lifetime_ms: u64,
}

/// One combat-controller tick for one tower.
///
/// With no enemy within the detection range of the tower's position, the
/// fire-rate timer resets and the tower arms itself to fire immediately when
/// an enemy next appears. Otherwise the targeting engine picks a direction
/// from the firing origin (the tower position plus the bullet spawn offset);
/// the tower fires if its timer has just completed a period or it was armed,
/// and the timer advances by the elapsed time either way.
pub fn tower_shooting(
    tower: &mut Tower,
    tower_position: Coordinate,
    enemies: &Vec<TargetInfo>,
    dt_ms: u64,
) -> (r: Option<BulletSpawn>)
    requires
        old(tower).wf(),
        in_bounds(tower_position),
        in_bounds(translate(tower_position, old(tower).bullet_spawn_offset)),
        crate::targeting_priority::targets_in_bounds(enemies@),
        dt_ms <= TIME_LIMIT,
    ensures
        final(tower).wf(),
        final(tower).damage == old(tower).damage,
        final(tower).attack_speed == old(tower).attack_speed,
        final(tower).range == old(tower).range,
        final(tower).price == old(tower).price,
        final(tower).sell_price == old(tower).sell_price,
        final(tower).total_spent == old(tower).total_spent,
        final(tower).total_damage == old(tower).total_damage,
        final(tower).target == old(tower).target,
        final(tower).bullet_spawn_offset == old(tower).bullet_spawn_offset,
        final(tower).upgrades == old(tower).upgrades,
        !some_in_range(enemies@, tower_position, detection_range(*old(tower))) ==> {
            &&& r is None
            &&& final(tower).shooting_timer == old(tower).shooting_timer.reset_state()
            &&& final(tower).first_enemy_appeared == true
        },
        some_in_range(enemies@, tower_position, detection_range(*old(tower))) ==> {
            &&& final(tower).shooting_timer == old(tower).shooting_timer.ticked(dt_ms)
            &&& match r {
                Option::Some(spawn) => {
                    &&& old(tower).shooting_timer.just_finished
                        || old(tower).first_enemy_appeared
                    &&& spawn.damage == old(tower).damage
                    &&& spawn.offset == old(tower).bullet_spawn_offset
                    &&& spawn.speed == BULLET_SPEED
                    &&& spawn.lifetime_ms == BULLET_LIFETIME_MS
                    &&& exists|i: int|
                        #[trigger] choice_at(
                            enemies@,
                            translate(tower_position, old(tower).bullet_spawn_offset),
                            detection_range(*old(tower)),
                            old(tower).target,
                            i,
                        ) && spawn.direction == crate::targeting_priority::direction_to(
                            translate(tower_position, old(tower).bullet_spawn_offset),
                            enemies@[i].position,
                        )
                    &&& final(tower).first_enemy_appeared == false
                },
                Option::None => {
                    &&& !some_in_range(
                        enemies@,
                        translate(tower_position, old(tower).bullet_spawn_offset),
                        detection_range(*old(tower)),
                    ) || (!old(tower).shooting_timer.just_finished
                        && !old(tower).first_enemy_appeared)
                    &&& final(tower).first_enemy_appeared == old(tower).first_enemy_appeared
                },
            }
        },
{
    let gating_range: u64 = tower.range + DETECTION_MARGIN;
    if enemy_in_range(tower_position, gating_range, enemies) {
        let origin = Coordinate {
            x: tower_position.x + tower.bullet_spawn_offset.x,
            y: tower_position.y + tower.bullet_spawn_offset.y,
        };
        let direction = get_enemy_direction(enemies, origin, gating_range, &tower.target);
        let mut result: Option<BulletSpawn> = Option::None;
        match direction {
            Option::Some(dir) => {
                if tower.shooting_timer.is_just_finished() || tower.first_enemy_appeared {
                    tower.first_enemy_appeared = false;
                    result = Option::Some(BulletSpawn {
                        damage: tower.damage,
                        direction: dir,
                        offset: tower.bullet_spawn_offset,
                        speed: BULLET_SPEED,
                        lifetime_ms: BULLET_LIFETIME_MS,
                    });
                }
            },
            Option::None => {},
        }
        tower.shooting_timer.tick(dt_ms);
        result
    } else {
        tower.shooting_timer.reset();
        tower.first_enemy_appeared = true;
        Option::None
    }
}

/// The kinds of towers a player can place. Every kind currently shares the
/// same combat profile.
#[derive(Clone, Copy, Debug, PartialEq, Eq, Structural, Hash)]
pub enum TowerType {
    Nature,
    Fire,
    Ice,
    Dark,
    Mage,
    Archmage,
}

impl TowerType {
    /// This tower kind's base range.
    pub fn get_range(&self) -> (r: u64)
        ensures
            r == 125,
    {
        match self {
            TowerType::Nature => 125,
            TowerType::Fire => 125,
            TowerType::Ice => 125,
            TowerType::Dark => 125,
            TowerType::Mage => 125,
            TowerType::Archmage => 125,
        }
    }

    /// This tower kind's purchase price.
    pub fn get_price(&self) -> (r: u64)
        ensures
            r == 100,
    {
        match self {
            TowerType::Nature => 100,
            TowerType::Fire => 100,
            TowerType::Ice => 100,
            TowerType::Dark => 100,
            TowerType::Mage => 100,
            TowerType::Archmage => 100,
        }
    }

    /// A fresh tower of this kind: base damage 1, one shot per second, and
    /// the kind's range and price, with the standard bullet spawn offset.
    pub fn get_tower(&self) -> (r: Tower)
        ensures
            r.wf(),
            r.bullet_spawn_offset == (Coordinate { x: 20, y: 0 }),
            r.damage == 1,
            r.attack_speed == 1000,
            r.range == 125,
            r.price == 100,
            r.total_spent == 100,
            r.sell_price == 33,
            r.total_damage == 0,
            r.target == TargetingPriority::FIRST,
    {
        Tower::new(Coordinate { x: 20, y: 0 }, 1, 1000, self.get_range(), self.get_price())
    }
}

/// An upgrade can be applied to a tower without leaving the arithmetic
/// limits: its percentage deltas are sane and the resulting stats and
/// spending totals stay in range.
pub open spec fn upgrade_applicable(t: Tower, up: Upgrade) -> bool {
    &&& speed_deltas_bounded(up.upgrade@)
    &&& apply_stats(t.damage as int, t.attack_speed as int, t.range as int, up.upgrade@).0
        <= DAMAGE_LIMIT
    &&& apply_stats(t.damage as int, t.attack_speed as int, t.range as int, up.upgrade@).1 >= 1
    &&& apply_stats(t.damage as int, t.attack_speed as int, t.range as int, up.upgrade@).2
        <= TOWER_RANGE_LIMIT
    &&& t.total_spent + up.cost <= MONEY_LIMIT
}

/// The upgrade tables of a level: for each tower kind, three upgrade paths,
/// each an ordered list of purchasable levels.
pub struct Upgrades {
    pub upgrades: Vec<(TowerType, Vec<Vec<Upgrade>>)>,
}

impl Upgrades {
    /// The upgrade paths configured for a tower kind: the first matching
    /// entry wins; nothing for a kind the table misses — a configuration
    /// error the caller must treat as fatal.
    pub fn paths_for(&self, ty: TowerType) -> (r: Option<&Vec<Vec<Upgrade>>>)
        ensures
            match r {
                Option::Some(paths) => exists|i: int|
                    0 <= i < self.upgrades@.len() && (#[trigger] self.upgrades@[i]).0 == ty
                        && self.upgrades@[i].1 == *paths,
                Option::None => forall|i: int|
                    0 <= i < self.upgrades@.len() ==> (#[trigger] self.upgrades@[i]).0 != ty,
            },
    {
        let mut i: usize = 0;
        while i < self.upgrades.len()
            invariant
                i <= self.upgrades@.len(),
                forall|k: int| 0 <= k < i ==> (#[trigger] self.upgrades@[k]).0 != ty,
            decreases self.upgrades@.len() - i,
        {
            let hit = self.upgrades[i].0 == ty;
            if hit {
                return Option::Some(&self.upgrades[i].1);
            }
            i = i + 1;
        }
        Option::None
    }
}

} // verus!
