use tower_defense::enemy::{update_enemy_checkpoint, Path};
use tower_defense::geometry::{distance, Coordinate};
use tower_defense::movement::{basic_movement, Movement};

#[test]
fn test_movement_math_logic() {
    let mut movement = Movement::new(Coordinate { x: 10, y: 0 }, 100);
    let mut position = Coordinate { x: 0, y: 0 };
    let delta_ms = 100;

    basic_movement(&mut movement, &mut position, delta_ms);

    assert_eq!(position.x, 10);
    assert_eq!(movement.distance_travelled, 10);
}

#[test]
fn test_movement_diagonal_normalization() {
    let mut movement = Movement::new(Coordinate { x: 100, y: 100 }, 100);
    let mut position = Coordinate { x: 0, y: 0 };

    basic_movement(&mut movement, &mut position, 1000);

    // a diagonal step covers close to the full speed, never more, and each
    // component stays below it
    let moved = distance(Coordinate { x: 0, y: 0 }, position);
    assert!(moved <= 100);
    assert!(moved >= 95);
    assert!(position.x < 100);
}

#[test]
fn test_movement_zero_direction_stays_put() {
    let mut movement = Movement::new(Coordinate { x: 0, y: 0 }, 100);
    let mut position = Coordinate { x: 7, y: -3 };

    basic_movement(&mut movement, &mut position, 1000);

    assert_eq!(position, Coordinate { x: 7, y: -3 });
    assert_eq!(movement.distance_travelled, 0);
}

#[test]
fn test_enemy_snaps_onto_checkpoint_without_overshoot() {
    let checkpoints = vec![Coordinate { x: 80, y: 0 }, Coordinate { x: 160, y: 0 }];
    let mut position = Coordinate { x: 70, y: 0 };
    let mut movement = Movement::new(Coordinate { x: 10, y: 0 }, 50);
    let mut path = Path { index: 0 };

    // the step of 50 would overshoot the 10 remaining units: the enemy snaps
    // onto the checkpoint and is credited exactly those 10 units
    update_enemy_checkpoint(&mut position, &mut movement, &mut path, &checkpoints, 1000);

    assert_eq!(position, Coordinate { x: 80, y: 0 });
    assert_eq!(movement.distance_travelled, 10);
    assert_eq!(path.index, 1);
}

#[test]
fn test_enemy_distance_travelled_is_monotone() {
    let checkpoints = vec![Coordinate { x: 1000, y: 0 }];
    let mut position = Coordinate { x: 0, y: 0 };
    let mut movement = Movement::new(Coordinate { x: 1, y: 0 }, 50);
    let mut path = Path { index: 0 };

    let mut last = 0u64;
    for _ in 0..10 {
        update_enemy_checkpoint(&mut position, &mut movement, &mut path, &checkpoints, 100);
        assert!(movement.distance_travelled >= last);
        last = movement.distance_travelled;
    }
    assert_eq!(movement.distance_travelled, 50);
}
