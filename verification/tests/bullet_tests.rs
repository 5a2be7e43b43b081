use tower_defense::bullet::{apply_bullet_hit, Bullet};
use tower_defense::enemy::Enemy;
use tower_defense::timer::GameTimer;

#[test]
fn test_bullet_default() {
    let bullet = Bullet::default();
    assert_eq!(bullet.damage, 0);
    assert!(!bullet.lifetime.is_finished());
}

#[test]
fn test_bullet_initialization() {
    let bullet = Bullet {
        damage: 42,
        lifetime: GameTimer::new(2000, false),
    };

    assert_eq!(bullet.damage, 42);
    assert_eq!(bullet.lifetime.duration(), 2000);
    assert!(!bullet.lifetime.is_finished());
}

#[test]
fn test_bullet_lifetime_partial_tick() {
    let mut bullet = Bullet {
        damage: 10,
        lifetime: GameTimer::new(1000, false),
    };
    bullet.lifetime.tick(500);
    assert!(!bullet.lifetime.is_finished());
}

#[test]
fn test_bullet_lifetime_exact_tick() {
    let mut bullet = Bullet {
        damage: 10,
        lifetime: GameTimer::new(1000, false),
    };
    bullet.lifetime.tick(1000);
    assert!(bullet.lifetime.is_finished());
}

#[test]
fn test_bullet_lifetime_overtime_tick() {
    let mut bullet = Bullet {
        damage: 10,
        lifetime: GameTimer::new(1000, false),
    };
    bullet.lifetime.tick(1500);
    assert!(bullet.lifetime.is_finished());
}

#[test]
fn test_tower_damage_capped_to_enemy_health() {
    let bullet_damage = 100u64;
    let enemy_health = 30i64;
    let mut total_damage = 0u64;

    let mut enemy = Enemy::new(enemy_health);
    apply_bullet_hit(bullet_damage, &mut enemy, &mut total_damage);

    assert_eq!(total_damage, 30);
}

#[test]
fn test_tower_damage_full_when_enemy_health_higher() {
    let bullet_damage = 20u64;
    let enemy_health = 50i64;
    let mut total_damage = 0u64;

    let mut enemy = Enemy::new(enemy_health);
    apply_bullet_hit(bullet_damage, &mut enemy, &mut total_damage);

    assert_eq!(total_damage, 20);
}

#[test]
fn test_tower_damage_exact_match() {
    let bullet_damage = 50u64;
    let enemy_health = 50i64;
    let mut total_damage = 0u64;

    let mut enemy = Enemy::new(enemy_health);
    apply_bullet_hit(bullet_damage, &mut enemy, &mut total_damage);

    assert_eq!(total_damage, 50);
}

#[test]
fn test_bullet_hit_reduces_enemy_health_below_zero() {
    let mut enemy = Enemy::new(30);
    let mut total_damage = 0u64;
    apply_bullet_hit(100, &mut enemy, &mut total_damage);
    assert_eq!(enemy.health, -70);
    assert_eq!(total_damage, 30);
}

#[test]
fn test_tower_type_bullet_carries_damage_snapshot() {
    let bullet = tower_defense::tower::TowerType::Fire.get_bullet(7);
    assert_eq!(bullet.damage, 7);
    assert_eq!(bullet.lifetime.duration(), 1250);
    assert!(!bullet.lifetime.is_finished());
}
