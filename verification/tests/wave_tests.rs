use tower_defense::timer::GameTimer;
use tower_defense::wave::{spawn_waves, EnemyType, Wave, WaveState, Waves};

#[test]
fn test_wave_progression() {
    let mut waves = Waves {
        waves: vec![
            Wave {
                enemies: vec![(EnemyType::Green, 1000)],
                current: 0,
            },
            Wave {
                enemies: vec![(EnemyType::Red, 1000)],
                current: 0,
            },
        ],
        current: 0,
    };
    waves.current += 1;
    let current_wave = waves.current().unwrap();
    assert_eq!(current_wave.enemies[0].0, EnemyType::Red);
}

#[test]
fn test_waves_current_returns_none_when_exhausted() {
    let waves = Waves {
        waves: vec![Wave::default()],
        current: 1,
    };
    assert!(waves.current().is_none());
}

#[test]
fn test_spawn_index_calculation() {
    let enemies = vec![
        (EnemyType::Green, 1000u64),
        (EnemyType::Red, 2000u64),
        (EnemyType::Blue, 3000u64),
    ];
    let total = enemies.len();
    let remaining_counts = vec![3, 2, 1];
    let expected_indices = vec![0, 1, 2];
    for (remaining, expected) in remaining_counts.iter().zip(expected_indices) {
        let index = total - remaining;
        assert_eq!(index, expected);
    }
}

#[test]
fn test_wave_state_initialization_from_wave() {
    let wave = Wave {
        enemies: vec![(EnemyType::Green, 5000), (EnemyType::Red, 2000)],
        current: 0,
    };
    let state = WaveState::from((&wave, wave.enemies.len()));
    assert_eq!(state.remaining, 2);
    assert_eq!(state.enemy_spawn_timer.duration(), 5000);
}

#[test]
fn test_wave_scheduler_spawns_whole_wave_then_stops() {
    let mut waves = Waves {
        waves: vec![Wave {
            enemies: vec![(EnemyType::Green, 500), (EnemyType::Green, 500)],
            current: 0,
        }],
        current: 0,
    };
    let mut state = WaveState {
        wave_spawn_timer: GameTimer::new(10_000, false),
        enemy_spawn_timer: GameTimer::new(1, true),
        remaining: 2,
    };

    let mut spawned = 0;
    for _ in 0..200 {
        let step = spawn_waves(&mut waves, &mut state, 250);
        if step.spawn.is_some() {
            spawned += 1;
        }
    }

    // the remaining count reached exactly zero: the full enemy list spawned
    assert_eq!(spawned, 2);
    assert_eq!(state.remaining, 0);
    // advancing past the final wave leaves no current wave, and spawning ceased
    assert!(waves.current().is_none());
}

#[test]
fn test_wave_scheduler_emits_cleared_wave_index() {
    let mut waves = Waves {
        waves: vec![Wave {
            enemies: vec![(EnemyType::Green, 500)],
            current: 0,
        }],
        current: 0,
    };
    let mut state = WaveState {
        wave_spawn_timer: GameTimer::new(10_000, false),
        enemy_spawn_timer: GameTimer::new(1, true),
        remaining: 0,
    };

    // nothing remains, so only the between-waves timer runs until it fires
    let quiet = spawn_waves(&mut waves, &mut state, 5_000);
    assert!(quiet.cleared.is_none());
    assert!(quiet.spawn.is_none());

    let fired = spawn_waves(&mut waves, &mut state, 5_000);
    assert_eq!(fired.cleared, Some(0));
}
