//! Projectiles: a damage payload and a lifetime. A projectile expires when
//! its lifetime runs out; on its first overlap with an enemy it deals its
//! damage, and the firing tower's damage statistic is credited with at most
//! the enemy's remaining health.

use vstd::prelude::*;

use crate::enemy::Enemy;
use crate::timer::GameTimer;
use crate::tower::DAMAGE_LIMIT;

verus! {

/// Largest total-damage statistic the accounting accepts.
pub const TOTAL_DAMAGE_LIMIT: u64 = 1_000_000_000_000_000;

/// Half the width and height of a projectile's collision box.
pub const BULLET_HALF_WIDTH: u64 = 20;

/// Half height of a projectile's collision box.
pub const BULLET_HALF_HEIGHT: u64 = 11;

/// Half the side of an enemy's collision box.
pub const ENEMY_HALF_SIZE: u64 = 15;

/// A projectile: its damage snapshot and remaining lifetime.
#[derive(Clone, Copy, Debug)]
pub struct Bullet {
    pub damage: u64,
    pub lifetime: GameTimer,
}

impl Default for Bullet {
    /// A projectile with no damage and an untouched lifetime timer.
    fn default() -> (r: Self)
        ensures
            r.damage == 0,
            r.lifetime == GameTimer::fresh(0, false),
            !r.lifetime.finished,
    {
        Bullet { damage: 0, lifetime: GameTimer::new(0, false) }
    }
}

/// The damage a hit credits to the firing tower: the projectile's damage,
/// capped at the enemy's remaining health.
pub open spec fn damage_credit(damage: u64, health: i64) -> int {
    if health >= damage { damage as int } else { health as int }
}

/// Resolve one projectile hit on one enemy: the enemy loses the projectile's
/// full damage (its health may go below zero, marking it dead), while the
/// tower's total-damage statistic grows by at most the health the enemy
/// actually had left.
pub fn apply_bullet_hit(bullet_damage: u64, enemy: &mut Enemy, total_damage: &mut u64)
    requires
        old(enemy).health >= 0,
        old(enemy).health <= i64::MAX - DAMAGE_LIMIT,
        bullet_damage <= DAMAGE_LIMIT,
        *old(total_damage) + bullet_damage <= u64::MAX,
    ensures
        final(enemy).health == old(enemy).health - bullet_damage,
        *final(total_damage) == *old(total_damage) + damage_credit(
            bullet_damage,
            old(enemy).health,
        ),
        *final(total_damage) <= *old(total_damage) + bullet_damage,
{
    if enemy.health >= bullet_damage as i64 {
        *total_damage = *total_damage + bullet_damage;
    } else {
        *total_damage = *total_damage + enemy.health as u64;
    }
    enemy.health = enemy.health - bullet_damage as i64;
}

impl crate::tower::TowerType {
    /// The projectile this tower kind fires: the given damage snapshot and
    /// the fixed projectile lifetime.
    pub fn get_bullet(&self, damage: u64) -> (r: Bullet)
        ensures
            r.damage == damage,
            r.lifetime == GameTimer::fresh(crate::tower::BULLET_LIFETIME_MS, false),
    {
        Bullet { damage, lifetime: GameTimer::new(crate::tower::BULLET_LIFETIME_MS, false) }
    }
}

} // verus!
