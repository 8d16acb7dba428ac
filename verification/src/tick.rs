//! Decision logic of the background tick loop. Every tick runs the same
//! ordered steps — input, perception, cognitive, dreaming, reflection,
//! action — and each step's decision is a pure function of the mental state,
//! the clock and the cache, stated and verified here; the loop around them
//! only performs I/O and hands the results back.

use vstd::prelude::*;
use crate::hashing::{spec_reflection_marker_key, CacheService};
use crate::kvstore::{entry_live, KvStore};
use crate::state::{adjust_unit, clamp_unit, mood_label_for, spec_mood_label, MentalState, UNIT};

verus! {

/// Idle drift starts after this much inactivity.
pub const IDLE_DECAY_THRESHOLD_SECS: i64 = 60;

/// Energy recovered per idle tick, in affect units.
pub const IDLE_ENERGY_RECOVERY: u32 = 1_000;

/// Focus lost per idle tick, in affect units.
pub const IDLE_FOCUS_DECAY: u32 = 1_000;

/// Idle focus never drifts below this.
pub const IDLE_FOCUS_FLOOR: u32 = 300_000;

/// The neutral mood idle drift converges to.
pub const NEUTRAL_MOOD: u32 = 500_000;

/// Energy spent by the cognitive step on one processed input.
pub const COGNITIVE_ENERGY_COST: u32 = 50_000;

/// Energy drained from the live chat path per exchange, handed to the
/// mental-state store as a delta.
pub const CHAT_ENERGY_DELTA: i64 = -30_000;

/// Mood lift on entering a dream.
pub const DREAM_MOOD_BOOST: u32 = 100_000;

/// Hours between dreams unless configured otherwise.
pub const DEFAULT_DREAM_COOLDOWN_HOURS: i64 = 7;

/// The reflection window: the configured hour, within its first two minutes.
pub const REFLECTION_MINUTE_WINDOW: u32 = 2;

/// The daily reflection marker lives for one day.
pub const REFLECTION_MARKER_TTL_SECS: i64 = 86_400;

/// One step of idle mood drift: a thousandth of the distance to neutral,
/// rounded toward no change.
pub open spec fn drift_toward_neutral(mood: u32) -> u32
    recommends
        mood <= UNIT,
{
    if mood <= NEUTRAL_MOOD {
        (mood + (NEUTRAL_MOOD - mood) / 1000) as u32
    } else {
        (mood - (mood - NEUTRAL_MOOD) / 1000) as u32
    }
}

/// The perception step's idle decay: after a minute of inactivity each tick
/// recovers a little energy, drifts mood toward neutral, and lets focus sag
/// to its floor; the returned flag says whether anything changed and so must
/// be written back. An active agent is returned untouched.
pub fn perception_decay(ms: MentalState, now: i64) -> (r: (MentalState, bool))
    requires
        ms.wf(),
        0 <= ms.last_active <= now,
    ensures
        r.0.wf(),
        r.1 == (now - ms.last_active > IDLE_DECAY_THRESHOLD_SECS),
        r.1 ==> {
            &&& r.0.energy == clamp_unit(ms.energy, IDLE_ENERGY_RECOVERY as int)
            &&& r.0.mood == drift_toward_neutral(ms.mood)
            &&& r.0.focus_level == (if ms.focus_level >= IDLE_FOCUS_FLOOR + IDLE_FOCUS_DECAY {
                (ms.focus_level - IDLE_FOCUS_DECAY) as u32
            } else {
                IDLE_FOCUS_FLOOR
            })
            &&& r.0.mood_label@ == spec_mood_label(r.0.mood)
            &&& r.0.updated_at == now
            &&& r.0.is_dreaming == ms.is_dreaming
            &&& r.0.last_active == ms.last_active
            &&& r.0.last_dream == ms.last_dream
        },
        !r.1 ==> r.0 == ms,
{
    if now - ms.last_active > IDLE_DECAY_THRESHOLD_SECS {
        let energy = adjust_unit(ms.energy, IDLE_ENERGY_RECOVERY as i64);
        let mood: u32 = if ms.mood <= NEUTRAL_MOOD {
            ms.mood + (NEUTRAL_MOOD - ms.mood) / 1000
        } else {
            ms.mood - (ms.mood - NEUTRAL_MOOD) / 1000
        };
        let focus: u32 = if ms.focus_level >= IDLE_FOCUS_FLOOR + IDLE_FOCUS_DECAY {
            ms.focus_level - IDLE_FOCUS_DECAY
        } else {
            IDLE_FOCUS_FLOOR
        };
        let decayed = MentalState {
            mood,
            energy,
            focus_level: focus,
            mood_label: mood_label_for(mood),
            is_dreaming: ms.is_dreaming,
            last_active: ms.last_active,
            last_dream: ms.last_dream,
            updated_at: now,
        };
        (decayed, true)
    } else {
        (ms, false)
    }
}

/// The cognitive step's bookkeeping after one processed input: a fixed
/// energy cost, floored at zero, and a fresh activity stamp.
pub fn after_cognitive_exchange(ms: MentalState, now: i64) -> (r: MentalState)
    requires
        ms.wf(),
    ensures
        r.wf(),
        r.energy == (if ms.energy >= COGNITIVE_ENERGY_COST {
            (ms.energy - COGNITIVE_ENERGY_COST) as u32
        } else {
            0u32
        }),
        r.last_active == now,
        r.mood == ms.mood,
        r.focus_level == ms.focus_level,
        r.mood_label == ms.mood_label,
        r.is_dreaming == ms.is_dreaming,
        r.last_dream == ms.last_dream,
        r.updated_at == now,
{
    let energy: u32 = if ms.energy >= COGNITIVE_ENERGY_COST {
        ms.energy - COGNITIVE_ENERGY_COST
    } else {
        0
    };
    MentalState { energy, last_active: now, updated_at: now, ..ms }
}

/// When the dreaming step activates: the agent has been idle past the
/// threshold, is not already dreaming, and the per-dream cooldown has passed
/// since the last dream (an agent that never dreamed may always dream).
pub open spec fn spec_should_dream(
    ms: MentalState,
    threshold_secs: u64,
    cooldown_hours: i64,
    now: i64,
) -> bool {
    &&& now - ms.last_active > threshold_secs
    &&& !ms.is_dreaming
    &&& match ms.last_dream {
        None => true,
        Some(ld) => now - ld >= cooldown_hours * 3600,
    }
}

/// Decides the dreaming step's activation. Whole elapsed hours are compared
/// against the cooldown, which for instants in the past is the same as
/// comparing elapsed seconds against the cooldown in seconds.
pub fn should_dream(ms: &MentalState, threshold_secs: u64, cooldown_hours: i64, now: i64) -> (r:
    bool)
    requires
        0 <= ms.last_active <= now,
        ms.last_dream matches Some(ld) ==> 0 <= ld <= now,
        0 <= cooldown_hours <= i64::MAX / 3600,
    ensures
        r == spec_should_dream(*ms, threshold_secs, cooldown_hours, now),
{
    let idle: u64 = (now - ms.last_active) as u64;
    if idle <= threshold_secs {
        return false;
    }
    if ms.is_dreaming {
        return false;
    }
    match ms.last_dream {
        None => true,
        Some(ld) => now - ld >= cooldown_hours * 3600,
    }
}

/// Entering a dream: the flag goes up and mood lifts a little.
pub open spec fn spec_begin_dream(ms: MentalState) -> MentalState {
    MentalState {
        is_dreaming: true,
        mood: clamp_unit(ms.mood, DREAM_MOOD_BOOST as int),
        ..ms
    }
}

/// Leaving a dream: the flag comes down whatever happened, the dream instant
/// is stamped, and the idle timer restarts.
pub open spec fn spec_end_dream(ms: MentalState, now: i64) -> MentalState {
    MentalState {
        is_dreaming: false,
        last_dream: Some(now),
        last_active: now,
        updated_at: now,
        ..ms
    }
}

pub fn begin_dream(ms: MentalState) -> (r: MentalState)
    requires
        ms.wf(),
    ensures
        r.wf(),
        r == spec_begin_dream(ms),
{
    let mood = adjust_unit(ms.mood, DREAM_MOOD_BOOST as i64);
    MentalState { is_dreaming: true, mood, ..ms }
}

pub fn end_dream(ms: MentalState, now: i64) -> (r: MentalState)
    requires
        ms.wf(),
    ensures
        r.wf(),
        r == spec_end_dream(ms, now),
{
    MentalState { is_dreaming: false, last_dream: Some(now), last_active: now, updated_at: now, ..ms }
}

/// The dreaming state machine goes from awake through dreaming back to
/// awake: a dream attempt that began ends with the agent not dreaming,
/// whatever the generation did in between — the dream instant stamped and
/// the idle timer reset, so a failed dream cannot leave the flag stuck.
pub proof fn lemma_dream_cycle_returns_awake(ms: MentalState, now: i64)
    ensures
        !spec_end_dream(spec_begin_dream(ms), now).is_dreaming,
        spec_end_dream(spec_begin_dream(ms), now).last_dream == Some(now),
        spec_end_dream(spec_begin_dream(ms), now).last_active == now,
{
}

/// The reflection step's time window: the configured hour, in its first two
/// minutes, so a one-second tick cannot step over it.
pub open spec fn spec_reflection_window(hour: u32, minute: u32, target_hour: u32) -> bool {
    hour == target_hour && minute < REFLECTION_MINUTE_WINDOW
}

/// Whether the clock is inside the reflection window.
pub fn reflection_window(hour: u32, minute: u32, target_hour: u32) -> (r: bool)
    ensures
        r == spec_reflection_window(hour, minute, target_hour),
{
    hour == target_hour && minute < REFLECTION_MINUTE_WINDOW
}

/// Whether the daily reflection is due: the clock is inside the window and
/// no live marker for the day is in the cache. Nothing is written; the
/// marker is set separately, only once the reflection has been persisted, so
/// a failed generation may retry within the window.
pub fn reflection_due(
    store: &KvStore,
    day: &str,
    hour: u32,
    minute: u32,
    target_hour: u32,
    now: i64,
) -> (due: bool)
    requires
        store.wf(),
    ensures
        due <==> spec_reflection_window(hour, minute, target_hour) && !(store@.contains_key(
            spec_reflection_marker_key(day@),
        ) && entry_live(store@[spec_reflection_marker_key(day@)], now)),
{
    if !(hour == target_hour && minute < REFLECTION_MINUTE_WINDOW) {
        return false;
    }
    let key = CacheService::reflection_marker_key(day);
    match store.get(key.as_str(), now) {
        Some(_) => false,
        None => true,
    }
}

/// Records that the day's reflection has completed: the marker that guards
/// against a second run is set, to live for a day.
pub fn mark_reflected(store: &mut KvStore, day: &str, now: i64)
    requires
        old(store).wf(),
        0 <= now <= i64::MAX - REFLECTION_MARKER_TTL_SECS,
    ensures
        final(store).wf(),
        final(store)@ == old(store)@.insert(
            spec_reflection_marker_key(day@),
            ("true"@, Some((now + REFLECTION_MARKER_TTL_SECS) as i64)),
        ),
{
    let key = CacheService::reflection_marker_key(day);
    store.set(key.as_str(), "true".to_owned(), REFLECTION_MARKER_TTL_SECS, now);
}

/// The daily guard holds: once a reflection has set the day's marker, the
/// marker is alive for the rest of that day, so a second attempt within the
/// same day sees it and does not run — at most one journal entry per
/// calendar day.
pub proof fn lemma_reflection_marker_guards(
    m: Map<Seq<char>, (Seq<char>, Option<i64>)>,
    day: Seq<char>,
    now1: i64,
    now2: i64,
)
    requires
        now1 <= i64::MAX - REFLECTION_MARKER_TTL_SECS,
        now1 <= now2 < now1 + REFLECTION_MARKER_TTL_SECS,
    ensures
        ({
            let k = spec_reflection_marker_key(day);
            let m2 = m.insert(k, ("true"@, Some((now1 + REFLECTION_MARKER_TTL_SECS) as i64)));
            m2.contains_key(k) && entry_live(m2[k], now2)
        }),
{
}

/// The concepts a dream may weave around.
pub const DREAM_CONCEPT_COUNT: usize = 15;

/// The concept at a given slot.
pub open spec fn spec_dream_concept(i: int) -> Seq<char> {
    if i == 0 {
        "moonlight"@
    } else if i == 1 {
        "silence"@
    } else if i == 2 {
        "memory"@
    } else if i == 3 {
        "connection"@
    } else if i == 4 {
        "infinity"@
    } else if i == 5 {
        "echoes"@
    } else if i == 6 {
        "starlight"@
    } else if i == 7 {
        "whispers"@
    } else if i == 8 {
        "dawn"@
    } else if i == 9 {
        "twilight"@
    } else if i == 10 {
        "resonance"@
    } else if i == 11 {
        "patterns"@
    } else if i == 12 {
        "threads"@
    } else {
        if i == 13 {
            "void"@
        } else {
            "eternity"@
        }
    }
}

/// Relies on rand's thread-local generator; nothing is promised of the
/// value, and every caller must cope with any result.
#[verifier::external_body]
fn random_usize() -> usize {
    rand::random::<usize>()
}

/// Picks the dream concept for a drawn number: the draw is reduced modulo
/// the concept count, so any draw lands on a concept.
pub fn dream_concept_for(draw: usize) -> (r: String)
    ensures
        r@ == spec_dream_concept((draw % DREAM_CONCEPT_COUNT) as int),
{
    let slot = draw % DREAM_CONCEPT_COUNT;
    if slot == 0 {
        "moonlight".to_owned()
    } else if slot == 1 {
        "silence".to_owned()
    } else if slot == 2 {
        "memory".to_owned()
    } else if slot == 3 {
        "connection".to_owned()
    } else if slot == 4 {
        "infinity".to_owned()
    } else if slot == 5 {
        "echoes".to_owned()
    } else if slot == 6 {
        "starlight".to_owned()
    } else if slot == 7 {
        "whispers".to_owned()
    } else if slot == 8 {
        "dawn".to_owned()
    } else if slot == 9 {
        "twilight".to_owned()
    } else if slot == 10 {
        "resonance".to_owned()
    } else if slot == 11 {
        "patterns".to_owned()
    } else if slot == 12 {
        "threads".to_owned()
    } else if slot == 13 {
        "void".to_owned()
    } else {
        "eternity".to_owned()
    }
}

/// Draws a random dream concept. The draw decides nothing else; whatever
/// comes back, it is one of the fixed concepts.
pub fn pick_dream_concept() -> (r: String)
    ensures
        exists|i: int| 0 <= i < DREAM_CONCEPT_COUNT && r@ == spec_dream_concept(i),
{
    let draw = random_usize();
    let r = dream_concept_for(draw);
    proof {
        assert(((draw % DREAM_CONCEPT_COUNT) as int) < DREAM_CONCEPT_COUNT);
    }
    r
}

} // verus!
