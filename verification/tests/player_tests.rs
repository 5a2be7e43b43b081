use tower_defense::player::{give_money_on_enemy_death, give_money_on_wave_cleared, Player};
use tower_defense::timer::GameTimer;

#[test]
fn test_kill_reward_credits_ten() {
    let mut player = Player { money: 100 };
    give_money_on_enemy_death(&mut player);
    assert_eq!(player.money, 110);
}

#[test]
fn test_wave_clear_bonus_scales_with_index() {
    let mut player = Player { money: 0 };
    give_money_on_wave_cleared(&mut player, 4);
    assert_eq!(player.money, 105);
}

#[test]
fn test_repeating_timer_wraps_by_modulo() {
    let mut timer = GameTimer::new(1000, true);
    timer.tick(2500);
    assert!(timer.is_just_finished());
    assert_eq!(timer.duration(), 1000);
    // 2500 elapsed wraps to 500, with no cadence drift
    timer.tick(400);
    assert!(!timer.is_just_finished());
    timer.tick(100);
    assert!(timer.is_just_finished());
}

#[test]
fn test_timer_reset_clears_progress() {
    let mut timer = GameTimer::new(1000, true);
    timer.tick(1000);
    assert!(timer.is_finished());
    timer.reset();
    assert!(!timer.is_finished());
    assert!(!timer.is_just_finished());
}
