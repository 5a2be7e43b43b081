use tower_defense::geometry::Coordinate;
use tower_defense::targeting_priority::{
    closest_enemy_direction, farthest_enemy_direction, first_enemy_direction,
    last_enemy_direction, random_enemy_direction, strongest_enemy_direction,
    weakest_enemy_direction, TargetInfo, TargetingPriority, TARGETING_PRIORITY_COUNT,
};

#[test]
fn test_targeting_priority_default() {
    assert_eq!(TargetingPriority::default(), TargetingPriority::FIRST);
}

#[test]
fn test_targeting_priority_as_index() {
    assert_eq!(TargetingPriority::FIRST.as_index(), 0);
    assert_eq!(TargetingPriority::LAST.as_index(), 1);
    assert_eq!(TargetingPriority::CLOSE.as_index(), 2);
    assert_eq!(TargetingPriority::FAR.as_index(), 3);
    assert_eq!(TargetingPriority::STRONG.as_index(), 4);
    assert_eq!(TargetingPriority::WEAK.as_index(), 5);
    assert_eq!(TargetingPriority::RANDOM.as_index(), 6);
}

#[test]
fn test_targeting_priority_from_index() {
    assert_eq!(TargetingPriority::from_index(0), TargetingPriority::FIRST);
    assert_eq!(TargetingPriority::from_index(1), TargetingPriority::LAST);
    assert_eq!(TargetingPriority::from_index(2), TargetingPriority::CLOSE);
    assert_eq!(TargetingPriority::from_index(3), TargetingPriority::FAR);
    assert_eq!(TargetingPriority::from_index(4), TargetingPriority::STRONG);
    assert_eq!(TargetingPriority::from_index(5), TargetingPriority::WEAK);
    assert_eq!(TargetingPriority::from_index(6), TargetingPriority::RANDOM);
}

#[test]
fn test_targeting_priority_from_index_wraps() {
    let count = TARGETING_PRIORITY_COUNT;
    assert_eq!(TargetingPriority::from_index(count), TargetingPriority::FIRST);
    assert_eq!(TargetingPriority::from_index(count + 1), TargetingPriority::LAST);
}

#[test]
fn test_targeting_priority_next_target_sequence() {
    let mut p = TargetingPriority::FIRST;

    p.next_target();
    assert_eq!(p, TargetingPriority::LAST);

    p.next_target();
    assert_eq!(p, TargetingPriority::CLOSE);

    p.next_target();
    assert_eq!(p, TargetingPriority::FAR);

    p.next_target();
    assert_eq!(p, TargetingPriority::STRONG);

    p.next_target();
    assert_eq!(p, TargetingPriority::WEAK);

    p.next_target();
    assert_eq!(p, TargetingPriority::RANDOM);
}

#[test]
fn test_targeting_priority_next_target_wraps() {
    let mut p = TargetingPriority::RANDOM;
    p.next_target();
    assert_eq!(p, TargetingPriority::FIRST);
}

#[test]
fn test_targeting_priority_prev_target_sequence() {
    let mut p = TargetingPriority::RANDOM;

    p.prev_target();
    assert_eq!(p, TargetingPriority::WEAK);

    p.prev_target();
    assert_eq!(p, TargetingPriority::STRONG);

    p.prev_target();
    assert_eq!(p, TargetingPriority::FAR);

    p.prev_target();
    assert_eq!(p, TargetingPriority::CLOSE);

    p.prev_target();
    assert_eq!(p, TargetingPriority::LAST);

    p.prev_target();
    assert_eq!(p, TargetingPriority::FIRST);
}

#[test]
fn test_targeting_priority_prev_target_wraps() {
    let mut p = TargetingPriority::FIRST;
    p.prev_target();
    assert_eq!(p, TargetingPriority::RANDOM);
}

#[test]
fn targeting_tests_test_targeting_priority_cycling() {
    let mut p = TargetingPriority::FIRST;

    p.next_target();
    p.prev_target();
    assert_eq!(p, TargetingPriority::FIRST);
}

#[test]
fn test_targeting_priority_full_cycle_next() {
    let count = TARGETING_PRIORITY_COUNT;
    let mut p = TargetingPriority::FIRST;

    for _ in 0..count {
        p.next_target();
    }

    assert_eq!(p, TargetingPriority::FIRST);
}

#[test]
fn test_targeting_priority_full_cycle_prev() {
    let count = TARGETING_PRIORITY_COUNT;
    let mut p = TargetingPriority::FIRST;

    for _ in 0..count {
        p.prev_target();
    }

    assert_eq!(p, TargetingPriority::FIRST);
}

fn enemy_at(x: i64, y: i64, health: i64, travelled: u64) -> TargetInfo {
    TargetInfo {
        position: Coordinate { x, y },
        health,
        distance_travelled: travelled,
    }
}

#[test]
fn test_targeting_logic_strong_weak_selection() {
    let weak_enemy_health = 10;
    let strong_enemy_health = 100;
    let origin = Coordinate { x: 0, y: 0 };

    let enemies = vec![
        enemy_at(50, 0, weak_enemy_health, 0),
        enemy_at(-50, 0, strong_enemy_health, 0),
    ];

    let strong_target = strongest_enemy_direction(&enemies, origin, 500);
    let weak_target = weakest_enemy_direction(&enemies, origin, 500);

    assert_eq!(strong_target.unwrap(), Coordinate { x: -50, y: 0 });
    assert_eq!(weak_target.unwrap(), Coordinate { x: 50, y: 0 });
}

#[test]
fn test_targeting_logic_first_last_selection() {
    let dist_near = 10u64;
    let dist_far = 500u64;
    let origin = Coordinate { x: 0, y: 0 };

    let enemies = vec![enemy_at(1, 0, 5, dist_near), enemy_at(2, 0, 5, dist_far)];

    let first_target = first_enemy_direction(&enemies, origin, 500);
    let last_target = last_enemy_direction(&enemies, origin, 500);

    assert_eq!(first_target.unwrap(), Coordinate { x: 2, y: 0 });
    assert_eq!(last_target.unwrap(), Coordinate { x: 1, y: 0 });
}

#[test]
fn test_targeting_close_and_far_pick_extremes() {
    let origin = Coordinate { x: 0, y: 0 };
    let enemies = vec![enemy_at(10, 0, 5, 0), enemy_at(500, 0, 5, 0)];

    let close = closest_enemy_direction(&enemies, origin, 500);
    let far = farthest_enemy_direction(&enemies, origin, 500);

    assert_eq!(close.unwrap(), Coordinate { x: 10, y: 0 });
    assert_eq!(far.unwrap(), Coordinate { x: 500, y: 0 });
}

#[test]
fn test_targeting_out_of_range_returns_none() {
    let origin = Coordinate { x: 0, y: 0 };
    let enemies = vec![enemy_at(200, 0, 5, 0)];

    assert!(closest_enemy_direction(&enemies, origin, 100).is_none());
    assert!(first_enemy_direction(&enemies, origin, 100).is_none());
    assert!(random_enemy_direction(&enemies, origin, 100).is_none());
}

#[test]
fn test_targeting_random_picks_the_only_enemy() {
    let origin = Coordinate { x: 0, y: 0 };
    let enemies = vec![enemy_at(30, 40, 5, 0)];

    let dir = random_enemy_direction(&enemies, origin, 100);
    assert_eq!(dir.unwrap(), Coordinate { x: 30, y: 40 });
}

#[test]
fn test_targeting_tie_breaks_on_first_encountered() {
    let origin = Coordinate { x: 0, y: 0 };
    let enemies = vec![enemy_at(50, 0, 10, 0), enemy_at(0, 50, 10, 0)];

    let strong = strongest_enemy_direction(&enemies, origin, 500);
    assert_eq!(strong.unwrap(), Coordinate { x: 50, y: 0 });
}
