//! The agent's mental state: mood, energy and focus as fixed-point fractions
//! of one, together with the bookkeeping timestamps the scheduler reads.
//!
//! Affect values use a canonical range of zero to one; they are held here as
//! integers scaled by `UNIT` so that every update is exact.

use vstd::prelude::*;

verus! {

/// One whole unit of affect: a value of `UNIT` stands for 1.0, `UNIT / 2`
/// for 0.5, and so on.
pub const UNIT: u32 = 1_000_000;

/// A snapshot of the agent's affect and activity bookkeeping.
///
/// Timestamps are UTC seconds. `last_dream` is `None` until the first dream
/// has been recorded.
#[derive(Clone)]
pub struct MentalState {
    pub mood: u32,
    pub energy: u32,
    pub focus_level: u32,
    pub mood_label: String,
    pub is_dreaming: bool,
    pub last_active: i64,
    pub last_dream: Option<i64>,
    pub updated_at: i64,
}

impl MentalState {
    /// All affect values lie in the canonical range.
    pub open spec fn wf(self) -> bool {
        self.mood <= UNIT && self.energy <= UNIT && self.focus_level <= UNIT
    }

    /// The state a fresh agent starts from: middling mood, good energy and
    /// focus, awake, never dreamed.
    pub fn initial(now: i64) -> (s: MentalState)
        ensures
            s.wf(),
            s.mood == 500_000u32,
            s.energy == 700_000u32,
            s.focus_level == 800_000u32,
            s.mood_label@ == "content"@,
            !s.is_dreaming,
            s.last_active == now,
            s.last_dream is None,
            s.updated_at == now,
    {
        MentalState {
            mood: 500_000,
            energy: 700_000,
            focus_level: 800_000,
            mood_label: "content".to_owned(),
            is_dreaming: false,
            last_active: now,
            last_dream: None,
            updated_at: now,
        }
    }
}

/// `value + delta` clamped to the canonical range.
pub open spec fn clamp_unit(value: u32, delta: int) -> u32 {
    if value + delta < 0 {
        0u32
    } else if value + delta > UNIT {
        UNIT
    } else {
        (value + delta) as u32
    }
}

/// Adds a signed adjustment to an affect value, clamping the sum to the
/// canonical range.
pub fn adjust_unit(value: u32, delta: i64) -> (r: u32)
    requires
        value <= UNIT,
        -(UNIT as i64) <= delta <= UNIT as i64,
    ensures
        r == clamp_unit(value, delta as int),
        r <= UNIT,
{
    let sum: i64 = value as i64 + delta;
    if sum < 0 {
        0
    } else if sum > UNIT as i64 {
        UNIT
    } else {
        sum as u32
    }
}

/// The label the scheduler writes back for a given mood value: cheerful above
/// 0.7, content above 0.5, thoughtful above 0.3, melancholy below.
pub open spec fn spec_mood_label(mood: u32) -> Seq<char> {
    if mood > 700_000 {
        "happy"@
    } else if mood > 500_000 {
        "content"@
    } else if mood > 300_000 {
        "thoughtful"@
    } else {
        "melancholy"@
    }
}

/// Maps a mood value to its descriptive label.
pub fn mood_label_for(mood: u32) -> (r: String)
    ensures
        r@ == spec_mood_label(mood),
{
    if mood > 700_000 {
        "happy".to_owned()
    } else if mood > 500_000 {
        "content".to_owned()
    } else if mood > 300_000 {
        "thoughtful".to_owned()
    } else {
        "melancholy".to_owned()
    }
}

/// The read-modify-write at the heart of the mental-state store: overwrite
/// mood and its label, adjust energy by a clamped delta, refresh the activity
/// timestamps, and leave everything else as it was. A missing current state
/// is replaced by the documented default before the update is applied.
pub fn apply_mood(
    current: Option<MentalState>,
    mood_value: u32,
    mood_label: String,
    energy_delta: i64,
    now: i64,
) -> (s: MentalState)
    requires
        mood_value <= UNIT,
        -(UNIT as i64) <= energy_delta <= UNIT as i64,
        current matches Some(c) ==> c.wf(),
    ensures
        s.wf(),
        s.mood == mood_value,
        s.mood_label == mood_label,
        s.last_active == now,
        s.updated_at == now,
        current matches Some(c) ==> {
            &&& s.energy == clamp_unit(c.energy, energy_delta as int)
            &&& s.focus_level == c.focus_level
            &&& s.is_dreaming == c.is_dreaming
            &&& s.last_dream == c.last_dream
        },
        current is None ==> {
            &&& s.energy == clamp_unit(700_000u32, energy_delta as int)
            &&& s.focus_level == 800_000u32
            &&& !s.is_dreaming
            &&& s.last_dream is None
        },
{
    let base = match current {
        Some(c) => c,
        None => MentalState::initial(now),
    };
    MentalState {
        mood: mood_value,
        energy: adjust_unit(base.energy, energy_delta),
        focus_level: base.focus_level,
        mood_label,
        is_dreaming: base.is_dreaming,
        last_active: now,
        last_dream: base.last_dream,
        updated_at: now,
    }
}

} // verus!
