//! The base the enemies march toward. An escaping enemy deals its remaining
//! health as damage; the base's health is floored at zero, never negative.

use vstd::prelude::*;

verus! {

/// The defended base.
#[derive(Clone, Copy, Debug, PartialEq, Eq, Structural)]
pub struct Base {
    pub health: i64,
}

/// Apply an escaping enemy's remaining health as damage to the base. The
/// base's health drops by that amount, floored at zero.
pub fn damage_base(base: &mut Base, enemy_health: i64)
    requires
        old(base).health >= 0,
        enemy_health >= 0,
    ensures
        final(base).health == if old(base).health > enemy_health {
            old(base).health - enemy_health
        } else {
            0
        },
        final(base).health >= 0,
{
    if base.health > enemy_health {
        base.health = base.health - enemy_health;
    } else {
        base.health = 0;
    }
}

} // verus!
