//! The player's currency, credited on enemy deaths and cleared waves.

use vstd::prelude::*;

verus! {

/// Reward paid for each enemy kill.
pub const KILL_REWARD: u64 = 10;

/// Base part of the reward paid when a wave clears: a cleared wave pays its
/// index plus this bonus.
pub const WAVE_CLEAR_BONUS: u64 = 101;

/// The player: their currency balance.
#[derive(Clone, Copy, Debug, PartialEq, Eq, Structural)]
pub struct Player {
    pub money: u64,
}

/// Credit the kill reward for one enemy death.
pub fn give_money_on_enemy_death(player: &mut Player)
    requires
        old(player).money + KILL_REWARD <= u64::MAX,
    ensures
        final(player).money == old(player).money + KILL_REWARD,
{
    player.money = player.money + KILL_REWARD;
}

/// Credit the wave-clear bonus for the wave of the given index: the index
/// plus the fixed bonus.
pub fn give_money_on_wave_cleared(player: &mut Player, wave_index: usize)
    requires
        old(player).money + wave_index + WAVE_CLEAR_BONUS <= u64::MAX,
    ensures
        final(player).money == old(player).money + wave_index + WAVE_CLEAR_BONUS,
{
    player.money = player.money + wave_index as u64 + WAVE_CLEAR_BONUS;
}

} // verus!
