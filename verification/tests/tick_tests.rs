use azera_memory::kvstore::KvStore;
use azera_memory::state::{apply_mood, MentalState, UNIT};
use azera_memory::tick::{
    after_cognitive_exchange, begin_dream, dream_concept_for, end_dream, mark_reflected,
    perception_decay, reflection_due, should_dream, DEFAULT_DREAM_COOLDOWN_HOURS,
};

const NOW: i64 = 1_700_000_000;
const HOUR: i64 = 3600;

fn idle_state(last_active: i64, last_dream: Option<i64>) -> MentalState {
    let mut ms = MentalState::initial(last_active);
    ms.last_dream = last_dream;
    ms
}

#[test]
fn dream_respects_cooldown() {
    // Idle threshold satisfied; last dream six hours ago with a seven hour
    // cooldown: no dream. Eight hours ago: dream.
    let threshold = 300u64;
    let idle_since = NOW - 400;

    let six_hours = idle_state(idle_since, Some(NOW - 6 * HOUR));
    assert!(!should_dream(&six_hours, threshold, DEFAULT_DREAM_COOLDOWN_HOURS, NOW));

    let eight_hours = idle_state(idle_since, Some(NOW - 8 * HOUR));
    assert!(should_dream(&eight_hours, threshold, DEFAULT_DREAM_COOLDOWN_HOURS, NOW));
}

#[test]
fn dream_requires_idle_threshold() {
    let busy = idle_state(NOW - 100, None);
    assert!(!should_dream(&busy, 300, DEFAULT_DREAM_COOLDOWN_HOURS, NOW));
    let idle = idle_state(NOW - 400, None);
    assert!(should_dream(&idle, 300, DEFAULT_DREAM_COOLDOWN_HOURS, NOW));
}

#[test]
fn dream_never_interrupts_a_dream() {
    let mut ms = idle_state(NOW - 400, None);
    ms.is_dreaming = true;
    assert!(!should_dream(&ms, 300, DEFAULT_DREAM_COOLDOWN_HOURS, NOW));
}

#[test]
fn dream_cycle_returns_awake() {
    let ms = idle_state(NOW - 400, None);
    let dreaming = begin_dream(ms);
    assert!(dreaming.is_dreaming);
    assert_eq!(dreaming.mood, 600_000); // initial 0.5 lifted by 0.1
    let awake = end_dream(dreaming, NOW);
    assert!(!awake.is_dreaming);
    assert_eq!(awake.last_dream, Some(NOW));
    assert_eq!(awake.last_active, NOW);
}

#[test]
fn reflection_runs_once_per_day() {
    let mut store = KvStore::new();
    let day = "2024-06-01";
    // In the window with no marker: due. The marker is set only once the
    // reflection has been persisted.
    assert!(reflection_due(&store, day, 23, 0, 23, NOW));
    mark_reflected(&mut store, day, NOW);
    // A minute later, same day: the marker blocks a second run.
    assert!(!reflection_due(&store, day, 23, 1, 23, NOW + 60));
    // Outside the window nothing runs either.
    assert!(!reflection_due(&store, day, 22, 0, 23, NOW + 120));
    // The next day has its own marker.
    assert!(reflection_due(&store, "2024-06-02", 23, 0, 23, NOW + 24 * HOUR));
}

#[test]
fn failed_reflection_may_retry_within_the_window() {
    let mut store = KvStore::new();
    let day = "2024-06-01";
    // Due, but generation fails: no marker is set, so the next tick in the
    // window is due again.
    assert!(reflection_due(&store, day, 23, 0, 23, NOW));
    assert!(reflection_due(&store, day, 23, 1, 23, NOW + 60));
    // Once a run completes and marks, the day is closed.
    mark_reflected(&mut store, day, NOW + 90);
    assert!(!reflection_due(&store, day, 23, 1, 23, NOW + 100));
}

#[test]
fn reflection_window_tolerates_tick_granularity() {
    let store = KvStore::new();
    // Minute 1 is still inside the window; minute 2 is not.
    assert!(reflection_due(&store, "d1", 23, 1, 23, NOW));
    assert!(!reflection_due(&store, "d2", 23, 2, 23, NOW));
}

#[test]
fn idle_decay_drifts_affect() {
    // More than a minute idle: energy recovers, mood drifts toward neutral,
    // focus sags.
    let mut ms = MentalState::initial(NOW - 120);
    ms.mood = 900_000;
    ms.energy = 500_000;
    ms.focus_level = 800_000;
    let (decayed, changed) = perception_decay(ms, NOW);
    assert!(changed);
    assert_eq!(decayed.energy, 501_000);
    assert_eq!(decayed.mood, 900_000 - 400); // a thousandth of the distance to 0.5
    assert_eq!(decayed.focus_level, 799_000);
    assert_eq!(decayed.mood_label, "happy");
}

#[test]
fn active_agent_does_not_decay() {
    let ms = MentalState::initial(NOW - 30);
    let energy = ms.energy;
    let (same, changed) = perception_decay(ms, NOW);
    assert!(!changed);
    assert_eq!(same.energy, energy);
}

#[test]
fn idle_focus_never_falls_below_floor() {
    let mut ms = MentalState::initial(NOW - 120);
    ms.focus_level = 300_200;
    let (decayed, _) = perception_decay(ms, NOW);
    assert_eq!(decayed.focus_level, 300_000);
}

#[test]
fn cognitive_step_costs_energy() {
    let mut ms = MentalState::initial(NOW - 500);
    ms.energy = 60_000;
    let after = after_cognitive_exchange(ms, NOW);
    assert_eq!(after.energy, 10_000);
    assert_eq!(after.last_active, NOW);

    let mut tired = MentalState::initial(NOW - 500);
    tired.energy = 20_000;
    let after = after_cognitive_exchange(tired, NOW);
    assert_eq!(after.energy, 0);
}

#[test]
fn apply_mood_clamps_energy() {
    let state = apply_mood(None, 850_000, "happy".to_string(), -30_000, NOW);
    assert_eq!(state.mood, 850_000);
    assert_eq!(state.mood_label, "happy");
    assert_eq!(state.energy, 670_000); // default 0.7 minus 0.03
    assert_eq!(state.last_active, NOW);

    let drained = apply_mood(Some(state), 400_000, "concerned".to_string(), -(UNIT as i64), NOW);
    assert_eq!(drained.energy, 0);
    let charged = apply_mood(Some(drained), 400_000, "concerned".to_string(), UNIT as i64 , NOW);
    assert_eq!(charged.energy, UNIT);
}

#[test]
fn dream_concepts_cover_all_draws() {
    assert_eq!(dream_concept_for(0), "moonlight");
    assert_eq!(dream_concept_for(14), "eternity");
    assert_eq!(dream_concept_for(15), "moonlight"); // wraps around
    assert_eq!(dream_concept_for(usize::MAX), dream_concept_for(usize::MAX % 15));
}
