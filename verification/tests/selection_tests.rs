use tower_defense::geometry::{distance, Coordinate};
use tower_defense::targeting_priority::TargetingPriority;
use tower_defense::tower::{Tower, TowerUpgrades};

#[test]
fn test_tower_selection_distance_threshold() {
    let tower_pos = Coordinate { x: 100, y: 100 };
    let click_inside = Coordinate { x: 110, y: 110 };
    let click_outside = Coordinate { x: 140, y: 140 };

    assert!(distance(click_inside, tower_pos) <= 25);
    assert!(distance(click_outside, tower_pos) > 25);
}

#[test]
fn test_tower_sell_refund_calculation() {
    let total_spent = 900u64;
    let expected_refund = 300;

    let tower = Tower::new(Coordinate { x: 0, y: 0 }, 10, 1000, 50, total_spent);
    assert_eq!(tower.sell_price, expected_refund);
    assert_eq!(total_spent / 3, expected_refund);
}

#[test]
fn test_tower_sell_refund_rounds_down() {
    let total_spent = 100u64;
    let expected_refund = 33;

    let tower = Tower::new(Coordinate { x: 0, y: 0 }, 10, 1000, 50, total_spent);
    assert_eq!(tower.sell_price, expected_refund);
    assert_eq!(total_spent / 3, expected_refund);
}

#[test]
fn test_upgrade_affordability_check() {
    let player_money_sufficient = 500u64;
    let player_money_insufficient = 100u64;
    let upgrade_cost = 150u64;

    assert!(player_money_sufficient >= upgrade_cost);
    assert!(player_money_insufficient < upgrade_cost);
}

#[test]
fn test_upgrade_availability_with_level_cap() {
    let current_level = 2;
    let max_level = 5;
    let player_money = 500;
    let upgrade_cost = 400;

    let can_upgrade = current_level < max_level && player_money >= upgrade_cost;

    assert!(can_upgrade);
}

#[test]
fn test_tower_upgrade_paths_independence() {
    let mut upgrades = TowerUpgrades::default();
    upgrades.upgrades[0] = 2;
    upgrades.upgrades[1] = 1;

    assert_eq!(upgrades.upgrades[0], 2);
    assert_eq!(upgrades.upgrades[1], 1);
    assert_eq!(upgrades.upgrades[2], 0);
}

#[test]
fn test_targeting_priority_next() {
    let mut target = TargetingPriority::default();

    target.next_target();

    assert_eq!(target, TargetingPriority::LAST);
}

#[test]
fn test_targeting_priority_prev() {
    let mut target = TargetingPriority::default();

    target.prev_target();

    assert_eq!(target, TargetingPriority::RANDOM);
}

#[test]
fn selection_tests_test_targeting_priority_cycling() {
    let mut target = TargetingPriority::default();

    target.next_target();
    target.prev_target();

    assert_eq!(target, TargetingPriority::FIRST);
}
