//! Waves: ordered batches of enemies spawned at staged intervals. A wave set
//! keeps a current-wave cursor; once the cursor passes the last wave, no
//! current wave exists and spawning ceases.

use vstd::prelude::*;

use crate::timer::{GameTimer, TIME_LIMIT};

verus! {

/// Delay between the end of one wave and the first spawn of the next,
/// in milliseconds.
pub const WAVE_DELAY_MS: u64 = 10_000;

/// The kinds of enemies a wave can field.
#[derive(Clone, Copy, Debug, PartialEq, Eq, Structural, Hash)]
pub enum EnemyType {
    Green,
    Yellow,
    Pink,
    White,
    Blue,
    Orange,
    Purple,
    Red,
}

/// One wave: the enemies to spawn in order, each with the delay (in
/// milliseconds) re-armed after it spawns, and a cursor of how many spawned.
#[derive(Clone, Debug)]
pub struct Wave {
    pub enemies: Vec<(EnemyType, u64)>,
    pub current: usize,
}

impl Default for Wave {
    /// An empty wave.
    fn default() -> (r: Self)
        ensures
            r.enemies@.len() == 0,
            r.current == 0,
    {
        Wave { enemies: Vec::new(), current: 0 }
    }
}

/// A wave is well-formed: it fields at least one enemy, every spawn delay is
/// a valid timer period, and its cursor is inside its list.
pub open spec fn wave_wf(w: Wave) -> bool {
    &&& 1 <= w.enemies@.len() <= usize::MAX
    &&& forall|i: int| 0 <= i < w.enemies@.len() ==> 1 <= (#[trigger] w.enemies@[i]).1 <= TIME_LIMIT
    &&& w.current < w.enemies@.len()
}

/// The ordered wave set, with the current-wave cursor.
#[derive(Clone, Debug)]
pub struct Waves {
    pub waves: Vec<Wave>,
    pub current: usize,
}

/// Every wave of the set is well-formed.
pub open spec fn waves_wf(ws: Waves) -> bool {
    forall|i: int| 0 <= i < ws.waves@.len() ==> wave_wf(#[trigger] ws.waves@[i])
}

impl Waves {
    /// The wave the cursor points at, or nothing when the set is exhausted.
    pub fn current(&self) -> (r: Option<&Wave>)
        ensures
            match r {
                Option::Some(w) => self.current < self.waves@.len() && *w
                    == self.waves@[self.current as int],
                Option::None => self.current >= self.waves@.len(),
            },
    {
        if self.current < self.waves.len() {
            Option::Some(&self.waves[self.current])
        } else {
            Option::None
        }
    }

    /// Move the cursor past the current wave (it has cleared) and return the
    /// wave it now points at, if any remains.
    pub fn advance(&mut self) -> (r: Option<&Wave>)
        requires
            old(self).current < usize::MAX,
        ensures
            final(self).waves == old(self).waves,
            final(self).current == old(self).current + 1,
            match r {
                Option::Some(w) => final(self).current < final(self).waves@.len() && *w
                    == final(self).waves@[final(self).current as int],
                Option::None => final(self).current >= final(self).waves@.len(),
            },
    {
        self.current = self.current + 1;
        self.current()
    }
}

/// The scheduler's timing state for the active wave: the between-waves delay,
/// the per-enemy spawn timer, and how many enemies remain to spawn.
#[derive(Clone, Copy, Debug)]
pub struct WaveState {
    pub wave_spawn_timer: GameTimer,
    pub enemy_spawn_timer: GameTimer,
    pub remaining: usize,
}

/// The scheduler state a wave starts with.
pub open spec fn state_for_wave(w: Wave, remaining: usize) -> WaveState {
    WaveState {
        wave_spawn_timer: GameTimer::fresh(WAVE_DELAY_MS, false),
        enemy_spawn_timer: GameTimer::fresh(w.enemies[w.current as int].1, true),
        remaining,
    }
}

impl WaveState {
    /// The scheduler state for a starting wave: the between-waves timer is
    /// re-armed, and the per-enemy timer takes the delay of the enemy at the
    /// wave's cursor.
    pub fn from(wave: (&Wave, usize)) -> (r: WaveState)
        requires
            wave_wf(*wave.0),
        ensures
            r == state_for_wave(*wave.0, wave.1),
    {
        let (w, remaining) = wave;
        WaveState {
            wave_spawn_timer: GameTimer::new(WAVE_DELAY_MS, false),
            enemy_spawn_timer: GameTimer::new(w.enemies[w.current].1, true),
            remaining,
        }
    }
}

/// The scheduler's state agrees with the wave set: while a current wave
/// exists, no more enemies remain to spawn than the wave holds.
pub open spec fn sched_wf(ws: Waves, st: WaveState) -> bool {
    &&& st.wave_spawn_timer.wf()
    &&& st.enemy_spawn_timer.wf()
    &&& !st.wave_spawn_timer.repeating
    &&& st.enemy_spawn_timer.repeating
    &&& (ws.current < ws.waves@.len() ==> st.remaining <= ws.waves@[ws.current as int].enemies@.len())
}

/// What one scheduler tick produced: a wave that just cleared (by index),
/// and an enemy to spawn at the route's first checkpoint.
#[derive(Clone, Copy, Debug, PartialEq, Eq, Structural)]
pub struct SpawnStep {
    pub cleared: Option<usize>,
    pub spawn: Option<EnemyType>,
}

/// The spawning half of a scheduler tick: with a current wave and the
/// per-enemy timer elapsed, the enemy at position (wave length − remaining)
/// spawns, the timer re-arms to that enemy's delay, and the remaining count
/// drops by one.
pub open spec fn spawn_stage(
    waves: Waves,
    st: WaveState,
    dt: u64,
    cleared: Option<usize>,
) -> (Waves, WaveState, SpawnStep) {
    if waves.current >= waves.waves@.len() {
        (waves, st, SpawnStep { cleared, spawn: Option::None })
    } else {
        let et = st.enemy_spawn_timer.ticked(dt);
        if !et.just_finished {
            (
                waves,
                WaveState { enemy_spawn_timer: et, ..st },
                SpawnStep { cleared, spawn: Option::None },
            )
        } else {
            let wave = waves.waves@[waves.current as int];
            let index = wave.enemies@.len() - st.remaining;
            let ty = wave.enemies@[index as int].0;
            let delay = wave.enemies@[index as int].1;
            (
                waves,
                WaveState {
                    enemy_spawn_timer: GameTimer::fresh(delay, true),
                    remaining: (st.remaining - 1) as usize,
                    ..st
                },
                SpawnStep { cleared, spawn: Option::Some(ty) },
            )
        }
    }
}

/// One full scheduler tick. With enemies left to spawn, only the spawning
/// half runs. With none left, the between-waves timer runs; when it elapses
/// the current wave clears, the cursor advances, and — when a next wave
/// exists — the scheduler re-arms for it and its spawning begins.
pub open spec fn wave_transition(waves: Waves, st: WaveState, dt: u64) -> (
    Waves,
    WaveState,
    SpawnStep,
) {
    if st.remaining == 0 {
        let wt = st.wave_spawn_timer.ticked(dt);
        if !wt.just_finished {
            (
                waves,
                WaveState { wave_spawn_timer: wt, ..st },
                SpawnStep { cleared: Option::None, spawn: Option::None },
            )
        } else {
            let cleared = Option::Some(waves.current);
            let w2 = Waves { waves: waves.waves, current: (waves.current + 1) as usize };
            if w2.current < w2.waves@.len() {
                let nw = w2.waves@[w2.current as int];
                spawn_stage(w2, state_for_wave(nw, nw.enemies@.len() as usize), dt, cleared)
            } else {
                (
                    w2,
                    WaveState { wave_spawn_timer: wt, ..st },
                    SpawnStep { cleared, spawn: Option::None },
                )
            }
        }
    } else {
        spawn_stage(waves, st, dt, Option::None)
    }
}

/// One tick of the wave scheduler, exactly as `wave_transition` describes.
pub fn spawn_waves(waves: &mut Waves, wave_state: &mut WaveState, dt_ms: u64) -> (r: SpawnStep)
    requires
        waves_wf(*old(waves)),
        sched_wf(*old(waves), *old(wave_state)),
        dt_ms <= TIME_LIMIT,
        old(waves).current < usize::MAX,
    ensures
        (*final(waves), *final(wave_state), r) == wave_transition(
            *old(waves),
            *old(wave_state),
            dt_ms,
        ),
        final(waves).waves == old(waves).waves,
        waves_wf(*final(waves)),
        sched_wf(*final(waves), *final(wave_state)),
        final(waves).current >= old(waves).current,
        r.spawn is Some ==> final(waves).current < final(waves).waves@.len(),
{
    let ghost w0 = *waves;
    let ghost s0 = *wave_state;
    let mut cleared: Option<usize> = Option::None;
    if wave_state.remaining == 0 {
        wave_state.wave_spawn_timer.tick(dt_ms);
        if !wave_state.wave_spawn_timer.is_just_finished() {
            return SpawnStep { cleared: Option::None, spawn: Option::None };
        }
        cleared = Option::Some(waves.current);
        waves.current = waves.current + 1;
        if waves.current < waves.waves.len() {
            let remaining = waves.waves[waves.current].enemies.len();
            *wave_state = WaveState::from((&waves.waves[waves.current], remaining));
        } else {
            return SpawnStep { cleared, spawn: Option::None };
        }
    }
    if waves.current >= waves.waves.len() {
        return SpawnStep { cleared, spawn: Option::None };
    }
    wave_state.enemy_spawn_timer.tick(dt_ms);
    if !wave_state.enemy_spawn_timer.is_just_finished() {
        return SpawnStep { cleared, spawn: Option::None };
    }
    let wave_len = waves.waves[waves.current].enemies.len();
    let index = wave_len - wave_state.remaining;
    let (ty, delay) = waves.waves[waves.current].enemies[index];
    wave_state.enemy_spawn_timer = GameTimer::new(delay, true);
    wave_state.remaining = wave_state.remaining - 1;
    SpawnStep { cleared, spawn: Option::Some(ty) }
}

/// The cursor never runs away: it stays within one step past the last wave,
/// and once past it the between-waves timer has finished, so it never fires
/// again.
pub proof fn lemma_wave_cursor_bounds(waves: Waves, st: WaveState, dt: u64)
    requires
        sched_wf(waves, st),
        waves.current <= waves.waves@.len() + 1,
        waves.current > waves.waves@.len() ==> st.wave_spawn_timer.finished,
        waves.current < usize::MAX,
        dt <= TIME_LIMIT,
    ensures
        wave_transition(waves, st, dt).0.current <= wave_transition(
            waves,
            st,
            dt,
        ).0.waves@.len() + 1,
        wave_transition(waves, st, dt).0.current > wave_transition(waves, st, dt).0.waves@.len()
            ==> wave_transition(waves, st, dt).1.wave_spawn_timer.finished,
{
    let out = wave_transition(waves, st, dt);
    if st.remaining == 0 {
        let wt = st.wave_spawn_timer.ticked(dt);
        if wt.just_finished {
            assert(!st.wave_spawn_timer.finished);
            assert(waves.current <= waves.waves@.len());
        } else {
            if waves.current > waves.waves@.len() {
                assert(st.wave_spawn_timer.elapsed_ms == st.wave_spawn_timer.duration_ms);
                assert(wt.finished);
            }
        }
    }
}

/// Once the wave set is exhausted — the cursor is past the last wave — a
/// scheduler tick spawns nothing and the cursor stays past the last wave.
pub proof fn lemma_exhausted_waves_spawn_nothing(waves: Waves, st: WaveState, dt: u64)
    requires
        waves.current >= waves.waves@.len(),
        waves.current < usize::MAX,
    ensures
        wave_transition(waves, st, dt).2.spawn is None,
        wave_transition(waves, st, dt).0.current >= wave_transition(
            waves,
            st,
            dt,
        ).0.waves@.len(),
{
}

/// A spawning tick consumes exactly one remaining enemy: the remaining count
/// drops by one, and it never drops below zero.
pub proof fn lemma_spawn_decrements_remaining(waves: Waves, st: WaveState, dt: u64)
    requires
        waves_wf(waves),
        sched_wf(waves, st),
        waves.current < usize::MAX,
    ensures
        wave_transition(waves, st, dt).2.spawn is Some ==> {
            let entry_remaining = if st.remaining == 0 {
                let w2c = waves.current + 1;
                if w2c < waves.waves@.len() {
                    waves.waves@[w2c as int].enemies@.len() as int
                } else {
                    0
                }
            } else {
                st.remaining as int
            };
            &&& entry_remaining >= 1
            &&& wave_transition(waves, st, dt).1.remaining == entry_remaining - 1
            &&& wave_transition(waves, st, dt).1.remaining >= 0
        },
{
    let out = wave_transition(waves, st, dt);
    if st.remaining == 0 {
        let wt = st.wave_spawn_timer.ticked(dt);
        if wt.just_finished {
            let w2c = waves.current + 1;
            if w2c < waves.waves@.len() {
                let nw = waves.waves@[w2c as int];
                assert(wave_wf(nw));
                let w2 = Waves { waves: waves.waves, current: (waves.current + 1) as usize };
                let s2 = state_for_wave(nw, nw.enemies@.len() as usize);
                assert(out == spawn_stage(w2, s2, dt, Option::Some(waves.current)));
                if s2.enemy_spawn_timer.ticked(dt).just_finished {
                    assert(out.2.spawn is Some);
                    assert(out.1.remaining == nw.enemies@.len() - 1);
                } else {
                    assert(out.2.spawn is None);
                }
            } else {
                assert(out.2.spawn is None);
            }
        } else {
            assert(out.2.spawn is None);
        }
    } else {
        if waves.current < waves.waves@.len() {
            assert(wave_wf(waves.waves@[waves.current as int]));
            if st.enemy_spawn_timer.ticked(dt).just_finished {
                assert(out.2.spawn is Some);
                assert(out.1.remaining == st.remaining - 1);
            } else {
                assert(out.2.spawn is None);
            }
        } else {
            assert(out.2.spawn is None);
        }
    }
}

} // verus!
