use tower_defense::bullet::Bullet;
use tower_defense::enemy::{Enemy, Path};
use tower_defense::game::{BulletUnit, EnemyStats, EnemyUnit, Game, TowerUnit};
use tower_defense::geometry::Coordinate;
use tower_defense::movement::Movement;
use tower_defense::targeting_priority::TargetingPriority;
use tower_defense::timer::GameTimer;
use tower_defense::tower::{Tower, TowerStat, Upgrade};
use tower_defense::wave::{EnemyType, Wave, Waves};

fn p10_game() -> Game {
    let checkpoints = vec![
        Coordinate { x: 0, y: 0 },
        Coordinate { x: 80, y: 40 },
        Coordinate { x: 160, y: 40 },
    ];
    let waves = Waves {
        waves: vec![Wave {
            enemies: vec![
                (EnemyType::Green, 500),
                (EnemyType::Green, 500),
                (EnemyType::Green, 500),
            ],
            current: 0,
        }],
        current: 0,
    };
    let stats = vec![(EnemyType::Green, EnemyStats { health: 1, speed: 50 })];
    Game::new(checkpoints, waves, stats, 100, 200)
}

#[test]
fn test_end_to_end_wave_is_fully_accounted_for() {
    let mut game = p10_game();

    let mut tower = Tower::new(Coordinate { x: 20, y: 0 }, 1, 1000, 125, 100);
    tower.target = TargetingPriority::CLOSE;
    assert!(game.place_tower(tower, Coordinate { x: 160, y: 40 }));
    assert_eq!(game.player.money, 100);

    for _ in 0..600 {
        assert!(game.has_headroom());
        game.tick(100);
    }

    // every spawned enemy is either dead or has escaped into the base:
    // base damage dealt plus kill count equals the wave's enemy count
    assert_eq!(game.spawned, 3);
    let base_damage = 100 - game.base.health;
    assert_eq!(base_damage as u64 + game.deaths, 3);
    assert_eq!(game.deaths + game.escapes, 3);
}

#[test]
fn test_tick_spawns_enemies_over_time() {
    let mut game = p10_game();
    for _ in 0..6 {
        game.tick(100);
    }
    // the first enemy spawns on the first tick; the next follows 500ms later
    assert_eq!(game.spawned, 2);
}

#[test]
fn test_place_tower_requires_funds() {
    let mut game = p10_game();
    let expensive = Tower::new(Coordinate { x: 20, y: 0 }, 1, 1000, 125, 1000);
    assert!(!game.place_tower(expensive, Coordinate { x: 160, y: 40 }));
    assert_eq!(game.player.money, 200);
    assert_eq!(game.towers.len(), 0);
}

#[test]
fn test_sell_tower_refunds_a_third_of_total_spent() {
    let mut game = p10_game();
    let tower = Tower::new(Coordinate { x: 20, y: 0 }, 1, 1000, 125, 99);
    assert!(game.place_tower(tower, Coordinate { x: 160, y: 40 }));
    assert_eq!(game.player.money, 101);

    assert!(game.sell_tower(0));
    assert_eq!(game.player.money, 101 + 33);
    assert!(!game.towers[0].alive);
    // selling again changes nothing
    assert!(!game.sell_tower(0));
}

#[test]
fn test_upgrade_tower_is_rejected_when_unaffordable_or_capped() {
    let mut game = p10_game();
    let tower = Tower::new(Coordinate { x: 20, y: 0 }, 1, 1000, 125, 100);
    assert!(game.place_tower(tower, Coordinate { x: 160, y: 40 }));
    // 100 left in the purse
    let path: Vec<Upgrade> = vec![Upgrade {
        upgrade: vec![(TowerStat::Damage, 2)],
        cost: 60,
    }];

    assert!(game.upgrade_tower(0, &path, 0));
    assert_eq!(game.player.money, 40);
    assert_eq!(game.towers[0].tower.damage, 3);
    assert_eq!(game.towers[0].tower.upgrades.upgrades[0], 1);

    // the single level of this path is exhausted now
    assert!(!game.upgrade_tower(0, &path, 0));
    assert_eq!(game.player.money, 40);

    // and an unaffordable upgrade on another path is rejected too
    let dear: Vec<Upgrade> = vec![Upgrade {
        upgrade: vec![(TowerStat::Range, 5)],
        cost: 500,
    }];
    assert!(!game.upgrade_tower(0, &dear, 1));
    assert_eq!(game.towers[0].tower.range, 125);
}

#[test]
fn test_wave_cleared_bonus_is_paid_once() {
    let mut game = p10_game();
    let money_start = game.player.money;
    for _ in 0..600 {
        game.tick(100);
    }
    // all enemies escaped (no tower); the wave then cleared once: its index
    // is 0, so the bonus is 101
    assert_eq!(game.spawned, 3);
    assert_eq!(game.escapes, 3);
    assert_eq!(game.player.money, money_start + 101);
}

#[test]
fn test_base_health_never_negative() {
    let mut game = p10_game();
    game.base.health = 2;
    for _ in 0..600 {
        game.tick(100);
    }
    assert_eq!(game.base.health, 0);
}

#[test]
fn test_projectile_strikes_first_overlapping_enemy_only() {
    let mut game = p10_game();
    let tower = Tower::new(Coordinate { x: 20, y: 0 }, 1, 1000, 125, 100);
    game.towers.push(TowerUnit {
        tower,
        position: Coordinate { x: 500, y: 500 },
        alive: true,
    });
    // two stationary enemies overlapping the projectile; far from the route end
    for x in [0i64, 10] {
        game.enemies.push(EnemyUnit {
            enemy: Enemy::new(50),
            movement: Movement::new(Coordinate { x: 1, y: 0 }, 0),
            position: Coordinate { x, y: 0 },
            path: Path { index: 2 },
            alive: true,
        });
    }
    game.spawned = 2;
    game.bullets.push(BulletUnit {
        bullet: Bullet {
            damage: 5,
            lifetime: GameTimer::new(1250, false),
        },
        movement: Movement::new(Coordinate { x: 1, y: 0 }, 1500),
        position: Coordinate { x: 0, y: 0 },
        tower_index: 0,
        alive: true,
    });

    game.tick(1);

    // the first enemy in arena order takes the hit; the second is untouched;
    // the projectile despawns after its single hit, crediting the tower
    assert_eq!(game.enemies[0].enemy.health, 45);
    assert_eq!(game.enemies[1].enemy.health, 50);
    assert!(!game.bullets[0].alive);
    assert_eq!(game.towers[0].tower.total_damage, 5);
}

#[test]
fn test_zero_duration_tick_spawns_nothing() {
    let mut game = p10_game();
    game.tick(0);
    assert_eq!(game.spawned, 0);
    assert_eq!(game.enemies.len(), 0);
    assert_eq!(game.player.money, 200);
}
