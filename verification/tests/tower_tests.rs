use tower_defense::geometry::{distance, Coordinate};
use tower_defense::tower::{Tower, TowerStat, TowerType, Upgrade, Upgrades};

#[test]
fn test_tower_new_initialization() {
    let offset = Coordinate { x: 10, y: 5 };
    let tower = Tower::new(offset, 25, 1500, 100, 200);

    assert_eq!(tower.bullet_spawn_offset, offset);
    assert_eq!(tower.damage, 25);
    assert_eq!(tower.attack_speed, 1500);
    assert_eq!(tower.range, 100);
    assert_eq!(tower.price, 200);
    assert_eq!(tower.total_spent, 200);
    assert_eq!(tower.sell_price, 66);
    assert!(!tower.first_enemy_appeared);
    assert_eq!(tower.total_damage, 0);
}

#[test]
fn test_tower_sell_price_calculation() {
    let tower = Tower::new(Coordinate { x: 0, y: 0 }, 10, 1000, 50, 300);
    assert_eq!(tower.sell_price, 100);
}

#[test]
fn test_tower_sell_price_rounds_down() {
    let tower = Tower::new(Coordinate { x: 0, y: 0 }, 10, 1000, 50, 100);
    assert_eq!(tower.sell_price, 33);
}

#[test]
fn test_tower_shooting_timer_duration() {
    let tower = Tower::new(Coordinate { x: 0, y: 0 }, 10, 2000, 50, 100);
    assert_eq!(tower.shooting_timer.duration(), 2000);
}

#[test]
fn test_tower_shooting_timer_repeating_mode() {
    let tower = Tower::new(Coordinate { x: 0, y: 0 }, 10, 1000, 50, 100);
    assert!(tower.shooting_timer.is_repeating());
}

#[test]
fn test_tower_shooting_timer_tick_behavior() {
    let mut tower = Tower::new(Coordinate { x: 0, y: 0 }, 10, 1000, 50, 100);

    tower.shooting_timer.tick(500);
    assert!(!tower.shooting_timer.is_finished());

    tower.shooting_timer.tick(600);
    assert!(tower.shooting_timer.is_finished());
}

#[test]
fn test_tower_shooting_timer_just_finished() {
    let mut tower = Tower::new(Coordinate { x: 0, y: 0 }, 10, 1000, 50, 100);

    tower.shooting_timer.tick(999);
    assert!(!tower.shooting_timer.is_just_finished());

    tower.shooting_timer.tick(1);
    assert!(tower.shooting_timer.is_just_finished());
}

#[test]
fn test_tower_attack_speed_upgrade_calculation() {
    let mut tower = Tower::new(Coordinate { x: 0, y: 0 }, 10, 1000, 100, 300);

    let upgrade = Upgrade {
        upgrade: vec![(TowerStat::AttackSpeed, 10)],
        cost: 0,
    };
    tower.upgrade(&upgrade, 0);

    assert_eq!(tower.attack_speed, 900);
    assert_eq!(tower.shooting_timer.duration(), 900);
}

#[test]
fn test_tower_range_detection() {
    let tower_pos = Coordinate { x: 0, y: 0 };
    let enemy_in_range = Coordinate { x: 30, y: 0 };
    let enemy_out_of_range = Coordinate { x: 200, y: 0 };
    let range = 100;

    assert!(distance(tower_pos, enemy_in_range) <= range);
    assert!(distance(tower_pos, enemy_out_of_range) > range);
}

#[test]
fn test_tower_upgrade_recomputes_sell_price() {
    let mut tower = Tower::new(Coordinate { x: 0, y: 0 }, 10, 1000, 100, 300);
    assert_eq!(tower.sell_price, 100);

    let upgrade = Upgrade {
        upgrade: vec![(TowerStat::Damage, 5)],
        cost: 150,
    };
    tower.upgrade(&upgrade, 1);

    assert_eq!(tower.total_spent, 450);
    assert_eq!(tower.sell_price, 150);
    assert_eq!(tower.damage, 15);
    assert_eq!(tower.upgrades.upgrades[1], 1);
}

#[test]
fn test_tower_range_upgrade_adds_range() {
    let mut tower = Tower::new(Coordinate { x: 0, y: 0 }, 10, 1000, 100, 300);
    let upgrade = Upgrade {
        upgrade: vec![(TowerStat::Range, 25)],
        cost: 50,
    };
    tower.upgrade(&upgrade, 2);
    assert_eq!(tower.range, 125);
    assert_eq!(tower.upgrades.upgrades[2], 1);
}

#[test]
fn test_tower_type_stats() {
    assert_eq!(TowerType::Nature.get_range(), 125);
    assert_eq!(TowerType::Archmage.get_price(), 100);
    let tower = TowerType::Mage.get_tower();
    assert_eq!(tower.damage, 1);
    assert_eq!(tower.attack_speed, 1000);
    assert_eq!(tower.range, 125);
    assert_eq!(tower.price, 100);
    assert_eq!(tower.sell_price, 33);
}

#[test]
fn test_upgrade_table_lookup() {
    let table = Upgrades {
        upgrades: vec![(
            TowerType::Nature,
            vec![
                vec![Upgrade { upgrade: vec![(TowerStat::Damage, 1)], cost: 50 }],
                vec![],
                vec![],
            ],
        )],
    };
    let paths = table.paths_for(TowerType::Nature).unwrap();
    assert_eq!(paths.len(), 3);
    assert_eq!(paths[0][0].cost, 50);
    assert!(table.paths_for(TowerType::Fire).is_none());
}

#[test]
fn test_tower_default_values() {
    let tower = Tower::default();
    assert_eq!(tower.damage, 0);
    assert_eq!(tower.range, 0);
    assert_eq!(tower.price, 0);
    assert_eq!(tower.total_damage, 0);
    assert_eq!(tower.total_spent, 0);
}

#[test]
fn test_attack_speed_upgrade_resets_fire_timer() {
    let mut tower = Tower::new(Coordinate { x: 0, y: 0 }, 10, 1000, 100, 300);
    tower.shooting_timer.tick(500);
    assert_eq!(tower.shooting_timer.elapsed_ms, 500);

    let upgrade = Upgrade {
        upgrade: vec![(TowerStat::AttackSpeed, 10)],
        cost: 0,
    };
    tower.upgrade(&upgrade, 0);

    // the fire timer restarts with the new, shorter period
    assert_eq!(tower.shooting_timer.elapsed_ms, 0);
    assert_eq!(tower.shooting_timer.duration(), 900);
    assert!(!tower.shooting_timer.is_finished());
}

#[test]
fn test_damage_upgrade_keeps_fire_timer_running() {
    let mut tower = Tower::new(Coordinate { x: 0, y: 0 }, 10, 1000, 100, 300);
    tower.shooting_timer.tick(500);

    let upgrade = Upgrade {
        upgrade: vec![(TowerStat::Damage, 5)],
        cost: 0,
    };
    tower.upgrade(&upgrade, 0);

    assert_eq!(tower.shooting_timer.elapsed_ms, 500);
}
