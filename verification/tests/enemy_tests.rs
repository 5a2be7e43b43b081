use tower_defense::enemy::{Enemy, Path};
use tower_defense::game::EnemyStats;
use tower_defense::geometry::Coordinate;
use tower_defense::wave::EnemyType;

#[test]
fn test_enemy_direction_calculation() {
    let checkpoints = vec![
        Coordinate { x: 0, y: 0 },
        Coordinate { x: 10, y: 0 },
        Coordinate { x: 10, y: 10 },
    ];
    let stats = EnemyStats { health: 1, speed: 50 };

    let enemy_at_0 = EnemyType::Green.get_enemy(&checkpoints, Path { index: 0 }, stats);
    assert_eq!(enemy_at_0.movement.direction, Coordinate { x: 10, y: 0 });

    let enemy_at_1 = EnemyType::Green.get_enemy(&checkpoints, Path { index: 1 }, stats);
    assert_eq!(enemy_at_1.movement.direction, Coordinate { x: 10, y: 10 });
}

#[test]
fn test_enemy_new_sets_health() {
    let enemy = Enemy::new(42);
    assert_eq!(enemy.health, 42);
}

#[test]
fn test_spawned_enemy_starts_at_its_checkpoint() {
    let checkpoints = vec![Coordinate { x: 5, y: 6 }, Coordinate { x: 7, y: 8 }];
    let stats = EnemyStats { health: 3, speed: 10 };
    let unit = EnemyType::Red.get_enemy(&checkpoints, Path { index: 0 }, stats);
    assert_eq!(unit.position, Coordinate { x: 5, y: 6 });
    assert_eq!(unit.enemy.health, 3);
    assert_eq!(unit.movement.speed, 10);
    assert_eq!(unit.movement.distance_travelled, 0);
    assert!(unit.alive);
}
