//! Pausing the assistant, for a while or until resumed.
use vstd::prelude::*;

verus! {

/// Whether the assistant is paused, for how long, and until when
/// (milliseconds since the epoch).
#[derive(Debug, Clone, Copy, PartialEq, Eq)]
pub struct PauseState {
    pub active: bool,
    pub duration_minutes: Option<u32>,
    pub paused_until_ms: Option<i64>,
}

/// The state when not paused.
pub open spec fn spec_not_paused() -> PauseState {
    PauseState { active: false, duration_minutes: None, paused_until_ms: None }
}

/// Milliseconds in a minute.
pub const MS_PER_MINUTE: i64 = 60_000;

/// The state after `set_pause_state(active, duration)` at `now_ms`: a timed
/// pause ends `duration` minutes after `now_ms`.
pub open spec fn spec_set_pause(active: bool, duration_minutes: Option<u32>, now_ms: i64) -> PauseState {
    PauseState {
        active,
        duration_minutes,
        paused_until_ms: if active {
            match duration_minutes {
                Some(d) => Some((now_ms + d * MS_PER_MINUTE) as i64),
                None => None,
            }
        } else {
            None
        },
    }
}

/// The state seen at `now_ms`: a timed pause that has ended reads as not
/// paused.
pub open spec fn spec_pause_at(s: PauseState, now_ms: i64) -> PauseState {
    match s.paused_until_ms {
        Some(until) => if now_ms > until { spec_not_paused() } else { s },
        None => s,
    }
}

/// The current time in milliseconds since the epoch, as an `i64` (0 when
/// the clock reads a time before the epoch, `i64::MAX` past its range).
fn now_millis() -> (t: i64)
    ensures
        t >= 0,
{
    let ms = crate::clock::unix_time_millis();
    if ms <= 0x7fff_ffff_ffff_ffffu64 { ms as i64 } else { i64::MAX }
}

/// Keeps the pause state.
pub struct PauseManager {
    state: PauseState,
}

impl PauseManager {
    /// The stored state.
    pub closed spec fn state(&self) -> PauseState {
        self.state
    }

    /// Not paused.
    pub fn new() -> (m: Self)
        ensures
            m.state() == spec_not_paused(),
    {
        PauseManager { state: PauseState { active: false, duration_minutes: None, paused_until_ms: None } }
    }

    /// Pauses or resumes at `now_ms` (see `spec_set_pause`).
    pub fn set_pause_state_at(&mut self, active: bool, duration_minutes: Option<u32>, now_ms: i64)
        requires
            duration_minutes matches Some(d) ==> now_ms + d * MS_PER_MINUTE <= i64::MAX,
        ensures
            final(self).state() == spec_set_pause(active, duration_minutes, now_ms),
    {
        self.state.active = active;
        self.state.duration_minutes = duration_minutes;
        if active {
            match duration_minutes {
                Some(d) => {
                    let span: i64 = (d as i64) * MS_PER_MINUTE;
                    self.state.paused_until_ms = Some(now_ms + span);
                },
                None => {
                    self.state.paused_until_ms = None;
                },
            }
        } else {
            self.state.paused_until_ms = None;
        }
    }

    /// Pauses or resumes now. A timed pause whose end would not fit in the
    /// clock's range lasts until resumed.
    pub fn set_pause_state(&mut self, active: bool, duration_minutes: Option<u32>)
        ensures
            final(self).state().active == active,
            final(self).state().duration_minutes == duration_minutes,
            !active ==> final(self).state().paused_until_ms is None,
            active && duration_minutes is None ==> final(self).state().paused_until_ms is None,
            exists|t: i64| final(self).state() == #[trigger] spec_set_pause(active, duration_minutes, t)
                || (final(self).state() == PauseState { active, duration_minutes, paused_until_ms: None }),
    {
        let now = now_millis();
        let fits = match duration_minutes {
            Some(d) => now <= i64::MAX - (d as i64) * MS_PER_MINUTE,
            None => true,
        };
        if fits {
            self.set_pause_state_at(active, duration_minutes, now);
        } else {
            self.state = PauseState { active, duration_minutes, paused_until_ms: None };
        }
    }

    /// The state at `now_ms` (see `spec_pause_at`).
    pub fn get_pause_state_at(&self, now_ms: i64) -> (s: PauseState)
        ensures
            s == spec_pause_at(self.state(), now_ms),
    {
        match self.state.paused_until_ms {
            Some(until) => {
                if now_ms > until {
                    PauseState { active: false, duration_minutes: None, paused_until_ms: None }
                } else {
                    self.state
                }
            },
            None => self.state,
        }
    }

    /// The state now.
    pub fn get_pause_state(&self) -> (s: PauseState)
        ensures
            exists|t: i64| s == #[trigger] spec_pause_at(self.state(), t),
    {
        let now = now_millis();
        self.get_pause_state_at(now)
    }

    /// Whether paused at `now_ms`.
    pub fn is_paused_at(&self, now_ms: i64) -> (b: bool)
        ensures
            b == spec_pause_at(self.state(), now_ms).active,
    {
        self.get_pause_state_at(now_ms).active
    }

    /// Whether paused now.
    pub fn is_paused(&self) -> (b: bool)
        ensures
            exists|t: i64| b == (#[trigger] spec_pause_at(self.state(), t)).active,
            !self.state().active ==> !b,
            self.state().active && self.state().paused_until_ms is None ==> b,
    {
        self.get_pause_state().active
    }
}

/// A pause without an end stays on until resumed, whatever the time; a
/// resumed assistant is not paused.
pub proof fn lemma_pause_laws(duration_minutes: Option<u32>, t0: i64, t1: i64)
    ensures
        spec_pause_at(spec_set_pause(true, None, t0), t1).active,
        !spec_pause_at(spec_set_pause(false, duration_minutes, t0), t1).active,
        duration_minutes matches Some(d) && t0 + d * MS_PER_MINUTE <= i64::MAX && t1 <= t0 + d * MS_PER_MINUTE
            ==> spec_pause_at(spec_set_pause(true, duration_minutes, t0), t1).active,
        duration_minutes matches Some(d) && t0 + d * MS_PER_MINUTE < t1
            ==> !spec_pause_at(spec_set_pause(true, duration_minutes, t0), t1).active,
{
}

} // verus!
