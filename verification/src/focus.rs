//! Focus mode: detecting deep work in focus-worthy applications, blocking
//! notifications meanwhile, and keeping statistics of focus sessions.
//! Scores and thresholds are kept in hundredths; times in seconds since the
//! epoch.
use vstd::prelude::*;
use crate::learn::now_timestamp;
use crate::text::{contains_str, join2, signed_decimal_string, spec_contains, spec_signed_decimal};

verus! {

/// What the focus mode shows.
#[derive(Debug, Clone)]
pub struct FocusState {
    pub is_in_focus: bool,
    pub focus_start_time: Option<i64>,
    pub focus_duration_minutes: u32,
    pub notifications_blocked: u32,
    pub focus_quality_score: u32,
    pub current_app: String,
}

/// A focus session.
#[derive(Debug, Clone)]
pub struct FocusSession {
    pub id: String,
    pub start_time: i64,
    pub end_time: Option<i64>,
    pub duration_minutes: u32,
    pub app_name: String,
    pub quality_score: u32,
    pub interruptions: u32,
    pub notifications_blocked: u32,
}

/// Statistics of the saved focus sessions.
#[derive(Debug, Clone, Copy)]
pub struct FocusStats {
    pub total_sessions: usize,
    pub total_focus_time_minutes: u32,
    pub total_notifications_blocked: u32,
    pub average_session_duration: u32,
    pub best_session_duration: u32,
    pub current_streak_days: u32,
}

/// Settings of the focus mode.
#[derive(Debug, Clone)]
pub struct FocusConfig {
    pub enabled: bool,
    pub auto_detect: bool,
    pub min_duration_minutes: u32,
    pub quality_threshold: u32,
    pub block_notifications: bool,
    pub block_triggers: bool,
    pub whitelist_apps: Vec<String>,
}

/// The default settings: on, detecting, sessions of 15 minutes or more are
/// kept, a score of 70 enters focus, notifications and triggers are
/// blocked, and VS Code, Blender and Ableton are focus-worthy.
pub open spec fn spec_is_default_focus_config(c: FocusConfig) -> bool {
    &&& c.enabled
    &&& c.auto_detect
    &&& c.min_duration_minutes == 15
    &&& c.quality_threshold == 70
    &&& c.block_notifications
    &&& c.block_triggers
    &&& c.whitelist_apps@.map_values(|s: String| s@) == seq!["VS Code"@, "Blender"@, "Ableton"@]
}

impl FocusConfig {
    /// The default settings (see `spec_is_default_focus_config`).
    pub fn default_config() -> (c: Self)
        ensures
            spec_is_default_focus_config(c),
    {
        let mut apps: Vec<String> = Vec::new();
        apps.push(String::from_str("VS Code"));
        apps.push(String::from_str("Blender"));
        apps.push(String::from_str("Ableton"));
        assert(apps@.map_values(|s: String| s@) =~= seq!["VS Code"@, "Blender"@, "Ableton"@]);
        FocusConfig {
            enabled: true,
            auto_detect: true,
            min_duration_minutes: 15,
            quality_threshold: 70,
            block_notifications: true,
            block_triggers: true,
            whitelist_apps: apps,
        }
    }

    /// A copy of the settings.
    pub fn copy(&self) -> (c: Self)
        ensures
            c.enabled == self.enabled,
            c.auto_detect == self.auto_detect,
            c.min_duration_minutes == self.min_duration_minutes,
            c.quality_threshold == self.quality_threshold,
            c.block_notifications == self.block_notifications,
            c.block_triggers == self.block_triggers,
            c.whitelist_apps@.map_values(|s: String| s@) == self.whitelist_apps@.map_values(|s: String| s@),
    {
        let mut apps: Vec<String> = Vec::new();
        let mut i: usize = 0;
        while i < self.whitelist_apps.len()
            invariant
                i <= self.whitelist_apps@.len(),
                apps@.len() == i,
                forall|k: int| 0 <= k < i ==> #[trigger] apps@[k]@ == self.whitelist_apps@[k]@,
            decreases self.whitelist_apps@.len() - i,
        {
            apps.push(self.whitelist_apps[i].clone());
            i = i + 1;
        }
        assert(apps@.map_values(|s: String| s@) =~= self.whitelist_apps@.map_values(|s: String| s@));
        FocusConfig {
            enabled: self.enabled,
            auto_detect: self.auto_detect,
            min_duration_minutes: self.min_duration_minutes,
            quality_threshold: self.quality_threshold,
            block_notifications: self.block_notifications,
            block_triggers: self.block_triggers,
            whitelist_apps: apps,
        }
    }
}

/// Signals of focus gathered from activity.
#[derive(Debug, Clone)]
pub struct FocusIndicators {
    pub consecutive_keyboard_events: u32,
    pub consecutive_mouse_events: u32,
    pub app_switch_count: u32,
    pub last_app: String,
}

/// One more, stopping at the largest value.
pub open spec fn spec_inc32(x: u32) -> u32 {
    if x < u32::MAX { (x + 1) as u32 } else { x }
}

fn inc32(x: u32) -> (y: u32)
    ensures
        y == spec_inc32(x),
{
    if x < u32::MAX { x + 1 } else { x }
}

/// Whole minutes from `start` to `now` (none when `now` is earlier).
pub open spec fn spec_minutes_between(start: i64, now: i64) -> u32 {
    if now >= start { ((now - start) / 60) as u32 } else { 0 }
}

fn minutes_between(start: i64, now: i64) -> (m: u32)
    ensures
        m == spec_minutes_between(start, now),
{
    if now >= start {
        let d: u64 = ((now as i128) - (start as i128)) as u64;
        #[verifier::truncate] ((d / 60) as u32)
    } else {
        0
    }
}

/// Focus score (in hundredths) from the signals: 50 for a focus-worthy
/// application, 20 for fewer than 3 application switches, 20 for more than
/// 10 keystrokes in a row, 10 for fewer than 5 mouse events in a row.
pub open spec fn spec_focus_score(is_focus_app: bool, ind: FocusIndicators) -> u32 {
    ((if is_focus_app { 50u32 } else { 0u32 })
        + (if ind.app_switch_count < 3 { 20u32 } else { 0u32 })
        + (if ind.consecutive_keyboard_events > 10 { 20u32 } else { 0u32 })
        + (if ind.consecutive_mouse_events < 5 { 10u32 } else { 0u32 })) as u32
}

/// Whether an application name contains one of the listed names.
pub open spec fn spec_is_focus_app(app_name: Seq<char>, whitelist: Seq<String>) -> bool {
    exists|i: int| 0 <= i < whitelist.len() && spec_contains(app_name, #[trigger] whitelist[i]@)
}

/// Detects focus, blocks notifications during it and keeps the sessions.
pub struct FocusManager {
    config: FocusConfig,
    current_session: Option<FocusSession>,
    sessions: Vec<FocusSession>,
    notifications_blocked_count: u32,
    last_activity_time: Option<i64>,
    focus_indicators: FocusIndicators,
}

/// What the focus mode shows at `now`: the running session, if any, with
/// its duration so far.
pub open spec fn spec_focus_state_at(m: FocusManager, now: i64, st: FocusState) -> bool {
    match m.session() {
        Some(s) => {
            &&& st.is_in_focus
            &&& st.focus_start_time == Some(s.start_time)
            &&& st.focus_duration_minutes == spec_minutes_between(s.start_time, now)
            &&& st.notifications_blocked == m.blocked_count()
            &&& st.focus_quality_score == s.quality_score
            &&& st.current_app@ == s.app_name@
        },
        None => {
            &&& !st.is_in_focus
            &&& st.focus_start_time is None
            &&& st.focus_duration_minutes == 0
            &&& st.notifications_blocked == 0
            &&& st.focus_quality_score == 0
            &&& st.current_app@ == Seq::<char>::empty()
        },
    }
}

/// The running session, if any, ended at `now`: it is kept when it lasted
/// at least the minimum duration.
pub open spec fn spec_session_ended(old: FocusManager, new: FocusManager, now: i64) -> bool {
    &&& new.session() is None
    &&& new.config() == old.config()
    &&& new.indicators() == old.indicators()
    &&& match old.session() {
        None => new.sessions() == old.sessions() && new.blocked_count() == old.blocked_count(),
        Some(s) => {
            &&& new.blocked_count() == 0
            &&& if spec_minutes_between(s.start_time, now) >= old.config().min_duration_minutes {
                new.sessions() == old.sessions().push(FocusSession {
                    end_time: Some(now),
                    duration_minutes: spec_minutes_between(s.start_time, now),
                    notifications_blocked: old.blocked_count(),
                    ..s
                })
            } else {
                new.sessions() == old.sessions()
            }
        },
    }
}

/// One step of focus detection for the application `app` at `now` (see
/// `FocusManager::detect_focus_at`).
pub open spec fn spec_detect_focus_step(old: FocusManager, new: FocusManager, app: Seq<char>, now: i64, in_focus: bool) -> bool {
    &&& new.config() == old.config()
    &&& !(old.config().enabled && old.config().auto_detect) ==> {
        &&& !in_focus
        &&& new.session() == old.session()
        &&& new.sessions() == old.sessions()
        &&& new.indicators() == old.indicators()
        &&& new.blocked_count() == old.blocked_count()
    }
    &&& old.config().enabled && old.config().auto_detect ==> {
        let switched = app != old.indicators().last_app@;
        let ind = new.indicators();
        let focus_app = spec_is_focus_app(app, old.config().whitelist_apps@);
        let enter = spec_focus_score(focus_app, ind) >= old.config().quality_threshold && focus_app;
        &&& ind.app_switch_count == if switched { spec_inc32(old.indicators().app_switch_count) } else { old.indicators().app_switch_count }
        &&& (switched ==> ind.last_app@ == app)
        &&& (!switched ==> ind.last_app@ == old.indicators().last_app@)
        &&& ind.consecutive_keyboard_events == old.indicators().consecutive_keyboard_events
        &&& ind.consecutive_mouse_events == old.indicators().consecutive_mouse_events
        &&& (enter && old.session() is None ==> {
            &&& in_focus
            &&& new.session() matches Some(s) && {
                &&& s.id@ == "focus_"@ + spec_signed_decimal(now as int)
                &&& s.start_time == now
                &&& s.end_time is None
                &&& s.duration_minutes == 0
                &&& s.app_name@ == app
                &&& s.quality_score == old.config().quality_threshold
                &&& s.interruptions == 0
                &&& s.notifications_blocked == 0
            }
            &&& new.sessions() == old.sessions()
            &&& new.blocked_count() == 0
        })
        &&& (!enter && old.session() is Some ==> {
            &&& !in_focus
            &&& new.session() is None
            &&& new.blocked_count() == 0
            &&& old.session() matches Some(s) && new.sessions() == if spec_minutes_between(s.start_time, now) >= old.config().min_duration_minutes {
                old.sessions().push(FocusSession {
                    end_time: Some(now),
                    duration_minutes: spec_minutes_between(s.start_time, now),
                    notifications_blocked: old.blocked_count(),
                    ..s
                })
            } else {
                old.sessions()
            }
        })
        &&& (enter == old.session() is Some ==> {
            &&& in_focus == old.session() is Some
            &&& new.session() == old.session()
            &&& new.sessions() == old.sessions()
            &&& new.blocked_count() == old.blocked_count()
        })
    }
}

impl FocusManager {
    pub closed spec fn config(&self) -> FocusConfig {
        self.config
    }

    /// The running session.
    pub closed spec fn session(&self) -> Option<FocusSession> {
        self.current_session
    }

    /// The saved sessions, oldest first.
    pub closed spec fn sessions(&self) -> Seq<FocusSession> {
        self.sessions@
    }

    /// Notifications blocked in the running session.
    pub closed spec fn blocked_count(&self) -> u32 {
        self.notifications_blocked_count
    }

    pub closed spec fn indicators(&self) -> FocusIndicators {
        self.focus_indicators
    }

    /// Default settings, no session, no signals.
    pub fn new() -> (m: Self)
        ensures
            spec_is_default_focus_config(m.config()),
            m.session() is None,
            m.sessions().len() == 0,
            m.blocked_count() == 0,
            m.indicators().consecutive_keyboard_events == 0,
            m.indicators().consecutive_mouse_events == 0,
            m.indicators().app_switch_count == 0,
            m.indicators().last_app@ == Seq::<char>::empty(),
    {
        FocusManager {
            config: FocusConfig::default_config(),
            current_session: None,
            sessions: Vec::new(),
            notifications_blocked_count: 0,
            last_activity_time: None,
            focus_indicators: FocusIndicators {
                consecutive_keyboard_events: 0,
                consecutive_mouse_events: 0,
                app_switch_count: 0,
                last_app: String::new(),
            },
        }
    }

    /// Replaces the settings.
    pub fn update_config(&mut self, config: FocusConfig)
        ensures
            final(self).config() == config,
            final(self).session() == old(self).session(),
            final(self).sessions() == old(self).sessions(),
            final(self).blocked_count() == old(self).blocked_count(),
            final(self).indicators() == old(self).indicators(),
    {
        self.config = config;
    }

    /// A copy of the settings.
    pub fn get_config(&self) -> (c: FocusConfig)
        ensures
            c.enabled == self.config().enabled,
            c.auto_detect == self.config().auto_detect,
            c.min_duration_minutes == self.config().min_duration_minutes,
            c.quality_threshold == self.config().quality_threshold,
            c.block_notifications == self.config().block_notifications,
            c.block_triggers == self.config().block_triggers,
            c.whitelist_apps@.map_values(|s: String| s@) == self.config().whitelist_apps@.map_values(|s: String| s@),
    {
        self.config.copy()
    }

    /// The focus score (in hundredths) of the current signals.
    pub fn calculate_focus_score(&self, is_focus_app: bool) -> (s: u32)
        ensures
            s == spec_focus_score(is_focus_app, self.indicators()),
            s <= 100,
    {
        let mut score: u32 = 0;
        if is_focus_app {
            score = score + 50;
        }
        if self.focus_indicators.app_switch_count < 3 {
            score = score + 20;
        }
        if self.focus_indicators.consecutive_keyboard_events > 10 {
            score = score + 20;
        }
        if self.focus_indicators.consecutive_mouse_events < 5 {
            score = score + 10;
        }
        score
    }

    fn is_focus_app(&self, app_name: &str) -> (b: bool)
        ensures
            b == spec_is_focus_app(app_name@, self.config().whitelist_apps@),
    {
        let mut i: usize = 0;
        while i < self.config.whitelist_apps.len()
            invariant
                i <= self.config.whitelist_apps@.len(),
                forall|k: int| 0 <= k < i ==> !spec_contains(app_name@, #[trigger] self.config.whitelist_apps@[k]@),
            decreases self.config.whitelist_apps@.len() - i,
        {
            if contains_str(app_name, self.config.whitelist_apps[i].as_str()) {
                return true;
            }
            i = i + 1;
        }
        false
    }

    /// Starts a session in an application at `now` (seconds).
    fn start_focus_session(&mut self, app_name: &str, now: i64)
        ensures
            final(self).session() matches Some(s) && {
                &&& s.id@ == "focus_"@ + spec_signed_decimal(now as int)
                &&& s.start_time == now
                &&& s.end_time is None
                &&& s.duration_minutes == 0
                &&& s.app_name@ == app_name@
                &&& s.quality_score == old(self).config().quality_threshold
                &&& s.interruptions == 0
                &&& s.notifications_blocked == 0
            },
            final(self).blocked_count() == 0,
            final(self).config() == old(self).config(),
            final(self).sessions() == old(self).sessions(),
            final(self).indicators() == old(self).indicators(),
    {
        let stamp = signed_decimal_string(now);
        let session = FocusSession {
            id: join2("focus_", stamp.as_str()),
            start_time: now,
            end_time: None,
            duration_minutes: 0,
            app_name: String::from_str(app_name),
            quality_score: self.config.quality_threshold,
            interruptions: 0,
            notifications_blocked: 0,
        };
        self.current_session = Some(session);
        self.notifications_blocked_count = 0;
    }

    /// Ends the running session at `now`; it is kept when it lasted at
    /// least the minimum duration.
    fn end_focus_session(&mut self, now: i64)
        ensures
            spec_session_ended(*old(self), *final(self), now),
    {
        let taken = self.current_session.take();
        match taken {
            None => {},
            Some(mut session) => {
                session.end_time = Some(now);
                session.duration_minutes = minutes_between(session.start_time, now);
                session.notifications_blocked = self.notifications_blocked_count;
                if session.duration_minutes >= self.config.min_duration_minutes {
                    self.sessions.push(session);
                }
                self.notifications_blocked_count = 0;
            },
        }
    }

    /// Takes the application in use at `now` into account and says whether
    /// the user is in focus: a session starts when the application is
    /// focus-worthy and the score reaches the threshold, and the running one
    /// ends otherwise (kept when it lasted long enough). Nothing happens when
    /// the mode or its detection is off.
    pub fn detect_focus_at(&mut self, app_name: &str, now: i64) -> (in_focus: bool)
        ensures
            spec_detect_focus_step(*old(self), *final(self), app_name@, now, in_focus),
    {
        if !self.config.enabled || !self.config.auto_detect {
            return false;
        }
        let focus_app = self.is_focus_app(app_name);
        self.last_activity_time = Some(now);
        let same = {
            let a = String::from_str(app_name);
            a == self.focus_indicators.last_app
        };
        if !same {
            self.focus_indicators.app_switch_count = inc32(self.focus_indicators.app_switch_count);
            self.focus_indicators.last_app = String::from_str(app_name);
        }
        let score = self.calculate_focus_score(focus_app);
        let enter = score >= self.config.quality_threshold && focus_app;
        if enter && self.current_session.is_none() {
            self.start_focus_session(app_name, now);
            return true;
        } else if !enter && self.current_session.is_some() {
            self.end_focus_session(now);
            return false;
        }
        self.current_session.is_some()
    }

    /// `detect_focus_at` at the current time.
    pub fn detect_focus(&mut self, app_name: &str) -> (in_focus: bool)
        ensures
            exists|now: i64| #[trigger] spec_detect_focus_step(*old(self), *final(self), app_name@, now, in_focus),
    {
        let now = now_timestamp();
        self.detect_focus_at(app_name, now)
    }

    /// Whether to hold back a notification: yes during a session when the
    /// mode blocks notifications, and then it is counted.
    pub fn should_block_notification(&mut self) -> (b: bool)
        ensures
            b == (old(self).config().enabled && old(self).config().block_notifications && old(self).session() is Some),
            final(self).config() == old(self).config(),
            final(self).sessions() == old(self).sessions(),
            final(self).indicators() == old(self).indicators(),
            b ==> final(self).blocked_count() == spec_inc32(old(self).blocked_count()),
            b ==> (old(self).session() matches Some(s0) && final(self).session() == Some(
                FocusSession { notifications_blocked: spec_inc32(s0.notifications_blocked), ..s0 })),
            !b ==> final(self).blocked_count() == old(self).blocked_count() && final(self).session() == old(self).session(),
    {
        if !self.config.enabled || !self.config.block_notifications {
            return false;
        }
        let in_focus = self.current_session.is_some();
        if in_focus {
            self.notifications_blocked_count = inc32(self.notifications_blocked_count);
            let taken = self.current_session.take();
            match taken {
                Some(mut s) => {
                    s.notifications_blocked = inc32(s.notifications_blocked);
                    self.current_session = Some(s);
                },
                None => {},
            }
        }
        in_focus
    }

    /// Whether to hold back a trigger: yes during a session when the mode
    /// blocks triggers.
    pub fn should_block_trigger(&self) -> (b: bool)
        ensures
            b == (self.config().enabled && self.config().block_triggers && self.session() is Some),
    {
        if !self.config.enabled || !self.config.block_triggers {
            return false;
        }
        self.current_session.is_some()
    }

    /// A keystroke: counts it and resets the mouse run.
    pub fn record_keyboard_activity(&mut self)
        ensures
            final(self).indicators().consecutive_keyboard_events == spec_inc32(old(self).indicators().consecutive_keyboard_events),
            final(self).indicators().consecutive_mouse_events == 0,
            final(self).indicators().app_switch_count == old(self).indicators().app_switch_count,
            final(self).indicators().last_app == old(self).indicators().last_app,
            final(self).config() == old(self).config(),
            final(self).session() == old(self).session(),
            final(self).sessions() == old(self).sessions(),
    {
        self.focus_indicators.consecutive_keyboard_events = inc32(self.focus_indicators.consecutive_keyboard_events);
        self.focus_indicators.consecutive_mouse_events = 0;
    }

    /// A mouse event: counts it (the keyboard run is kept).
    pub fn record_mouse_activity(&mut self)
        ensures
            final(self).indicators().consecutive_mouse_events == spec_inc32(old(self).indicators().consecutive_mouse_events),
            final(self).indicators().consecutive_keyboard_events == old(self).indicators().consecutive_keyboard_events,
            final(self).indicators().app_switch_count == old(self).indicators().app_switch_count,
            final(self).indicators().last_app == old(self).indicators().last_app,
            final(self).config() == old(self).config(),
            final(self).session() == old(self).session(),
            final(self).sessions() == old(self).sessions(),
    {
        self.focus_indicators.consecutive_mouse_events = inc32(self.focus_indicators.consecutive_mouse_events);
    }

    /// An interruption of the running session: counted, and the session's
    /// quality drops by 5 (not below 0).
    pub fn record_interruption(&mut self)
        ensures
            final(self).config() == old(self).config(),
            final(self).sessions() == old(self).sessions(),
            final(self).indicators() == old(self).indicators(),
            final(self).blocked_count() == old(self).blocked_count(),
            match old(self).session() {
                None => final(self).session() is None,
                Some(s0) => final(self).session() == Some(FocusSession {
                    interruptions: spec_inc32(s0.interruptions),
                    quality_score: if s0.quality_score >= 5 { (s0.quality_score - 5) as u32 } else { 0 },
                    ..s0
                }),
            },
    {
        let taken = self.current_session.take();
        match taken {
            Some(mut s) => {
                s.interruptions = inc32(s.interruptions);
                s.quality_score = if s.quality_score >= 5 { s.quality_score - 5 } else { 0 };
                self.current_session = Some(s);
            },
            None => {},
        }
    }

    /// What the focus mode shows at `now`.
    pub fn get_focus_state_at(&self, now: i64) -> (st: FocusState)
        ensures
            spec_focus_state_at(*self, now, st),
    {
        match &self.current_session {
            Some(s) => FocusState {
                is_in_focus: true,
                focus_start_time: Some(s.start_time),
                focus_duration_minutes: minutes_between(s.start_time, now),
                notifications_blocked: self.notifications_blocked_count,
                focus_quality_score: s.quality_score,
                current_app: s.app_name.clone(),
            },
            None => FocusState {
                is_in_focus: false,
                focus_start_time: None,
                focus_duration_minutes: 0,
                notifications_blocked: 0,
                focus_quality_score: 0,
                current_app: String::new(),
            },
        }
    }

    /// What the focus mode shows now.
    pub fn get_focus_state(&self) -> (st: FocusState)
        ensures
            exists|now: i64| #[trigger] spec_focus_state_at(*self, now, st),
    {
        let now = now_timestamp();
        self.get_focus_state_at(now)
    }

    /// Ends the running session now, keeping it when long enough.
    pub fn force_end_focus(&mut self)
        ensures
            exists|now: i64| #[trigger] spec_session_ended(*old(self), *final(self), now),
    {
        let now = now_timestamp();
        self.end_focus_session(now);
    }

    /// The last `limit` saved sessions, newest first.
    pub fn get_recent_sessions(&self, limit: usize) -> (v: Vec<FocusSession>)
        ensures
            v@.len() == if self.sessions().len() < limit { self.sessions().len() } else { limit as nat },
            forall|k: int| 0 <= k < v@.len() ==> #[trigger] v@[k] == self.sessions()[self.sessions().len() - 1 - k],
    {
        let n = self.sessions.len();
        let mut v: Vec<FocusSession> = Vec::new();
        let mut k: usize = 0;
        while k < n && k < limit
            invariant
                n == self.sessions@.len(),
                k <= n,
                k <= limit,
                v@.len() == k,
                forall|j: int| 0 <= j < k ==> #[trigger] v@[j] == self.sessions@[n - 1 - j],
            decreases n - k,
        {
            let s = &self.sessions[n - 1 - k];
            v.push(FocusSession {
                id: s.id.clone(),
                start_time: s.start_time,
                end_time: s.end_time,
                duration_minutes: s.duration_minutes,
                app_name: s.app_name.clone(),
                quality_score: s.quality_score,
                interruptions: s.interruptions,
                notifications_blocked: s.notifications_blocked,
            });
            k = k + 1;
        }
        v
    }
}

/// The UTC calendar day of a time given in seconds since the epoch, as a
/// count of days from the start of the common era (1970-01-01 is day
/// 719163), the epoch's day when the time is out of the calendar's range.
pub uninterp spec fn spec_utc_day(ts: i64) -> i32;

/// Trusted: `chrono::DateTime::from_timestamp(ts, 0)`, `date_naive`
/// (`NaiveDate::default()` when out of range) and
/// `Datelike::num_days_from_ce`. Claims that the result is the named day of
/// `ts`, and that for times within 10^12 seconds of the epoch it is the
/// floor of `ts / 86400` plus 719163.
#[verifier::external_body]
fn utc_day(ts: i64) -> (d: i32)
    ensures
        d == spec_utc_day(ts),
        -1_000_000_000_000 <= ts <= 1_000_000_000_000 ==> d == ts / 86400 + 719163,
{
    chrono::Datelike::num_days_from_ce(&chrono::DateTime::from_timestamp(ts, 0).map(|dt| dt.date_naive()).unwrap_or_default())
}

/// Days of a run of consecutive focus days, walking back from the newest
/// session: sessions on the current day are passed over, one on the day
/// before extends the run and becomes the current day, any other ends it.
pub open spec fn spec_streak_walk(days: Seq<int>, cur: int) -> nat
    decreases days.len(),
{
    if days.len() == 0 {
        0
    } else {
        let d = days.last();
        if d == cur {
            spec_streak_walk(days.drop_last(), cur)
        } else if d == cur - 1 {
            1 + spec_streak_walk(days.drop_last(), d)
        } else {
            0
        }
    }
}

/// The streak of focus days ending today: the run walked back from today,
/// plus today when a session started today.
pub open spec fn spec_streak(days: Seq<int>, today: int) -> nat {
    spec_streak_walk(days, today) + if days.contains(today) { 1nat } else { 0nat }
}

/// The days on which the sessions started.
pub open spec fn spec_session_days(sessions: Seq<FocusSession>) -> Seq<int> {
    sessions.map_values(|s: FocusSession| spec_utc_day(s.start_time) as int)
}

/// Sum of the sessions' durations.
pub open spec fn spec_total_minutes(sessions: Seq<FocusSession>) -> nat
    decreases sessions.len(),
{
    if sessions.len() == 0 { 0 } else { spec_total_minutes(sessions.drop_last()) + sessions.last().duration_minutes as nat }
}

/// Sum of the notifications blocked in the sessions.
pub open spec fn spec_total_blocked(sessions: Seq<FocusSession>) -> nat
    decreases sessions.len(),
{
    if sessions.len() == 0 { 0 } else { spec_total_blocked(sessions.drop_last()) + sessions.last().notifications_blocked as nat }
}

/// Longest session (0 when there is none).
pub open spec fn spec_best_duration(sessions: Seq<FocusSession>) -> u32
    decreases sessions.len(),
{
    if sessions.len() == 0 {
        0
    } else {
        let prev = spec_best_duration(sessions.drop_last());
        if sessions.last().duration_minutes > prev { sessions.last().duration_minutes } else { prev }
    }
}

/// A count that stops at the largest `u32`.
pub open spec fn spec_clamp32(n: nat) -> u32 {
    if n <= u32::MAX { n as u32 } else { u32::MAX }
}

proof fn lemma_walk_bound(days: Seq<int>, cur: int)
    ensures
        spec_streak_walk(days, cur) <= days.len(),
    decreases days.len(),
{
    if days.len() > 0 {
        lemma_walk_bound(days.drop_last(), cur);
        lemma_walk_bound(days.drop_last(), days.last());
    }
}

impl FocusManager {
    /// Consecutive days with focus sessions up to the day of `now`.
    pub fn calculate_streak_at(&self, now: i64) -> (streak: u32)
        ensures
            streak == spec_clamp32(spec_streak(spec_session_days(self.sessions()), spec_utc_day(now) as int)),
    {
        let ghost days = spec_session_days(self.sessions@);
        let today: i64 = utc_day(now) as i64;
        let n = self.sessions.len();
        let mut streak: u64 = 0;
        let mut cur: i64 = today;
        let mut i: usize = n;
        let mut walking = true;
        proof {
            lemma_walk_bound(days, today as int);
            assert(days.take(n as int) =~= days);
        }
        while i > 0 && walking
            invariant
                n == self.sessions@.len(),
                days == spec_session_days(self.sessions@),
                i <= n,
                walking ==> streak + spec_streak_walk(days.take(i as int), cur as int) == spec_streak_walk(days, today as int),
                !walking ==> streak == spec_streak_walk(days, today as int),
                streak <= n - i,
                -0x8000_0001 <= cur <= 0x7fff_ffff,
            decreases i,
        {
            let d: i64 = utc_day(self.sessions[i - 1].start_time) as i64;
            proof {
                assert(days.take(i as int).drop_last() =~= days.take(i - 1));
                assert(days.take(i as int).last() == days[i - 1]);
                assert(days[i - 1] == d);
            }
            if d == cur {
            } else if d == cur - 1 {
                streak = streak + 1;
                cur = d;
            } else {
                walking = false;
            }
            i = i - 1;
        }
        if walking {
            assert(days.take(0) =~= Seq::<int>::empty());
        }
        let mut seen = false;
        let mut j: usize = 0;
        while j < n
            invariant
                n == self.sessions@.len(),
                days == spec_session_days(self.sessions@),
                j <= n,
                seen == exists|k: int| 0 <= k < j && days[k] == today as int,
            decreases n - j,
        {
            let d: i64 = utc_day(self.sessions[j].start_time) as i64;
            proof {
                assert(days[j as int] == d);
            }
            if d == today {
                seen = true;
            }
            j = j + 1;
        }
        assert(seen == days.contains(today as int));
        if streak >= 0xffff_ffff {
            u32::MAX
        } else {
            let total: u64 = if seen { streak + 1 } else { streak };
            if total <= 0xffff_ffff { total as u32 } else { u32::MAX }
        }
    }

    /// Statistics of the saved sessions at `now` (sums stop at the largest
    /// `u32`).
    pub fn get_stats_at(&self, now: i64) -> (st: FocusStats)
        ensures
            st.total_sessions == self.sessions().len(),
            st.total_focus_time_minutes == spec_clamp32(spec_total_minutes(self.sessions())),
            st.total_notifications_blocked == spec_clamp32(spec_total_blocked(self.sessions())),
            st.average_session_duration == if self.sessions().len() == 0 || (self.sessions().len() as u32) == 0 {
                0
            } else {
                (spec_clamp32(spec_total_minutes(self.sessions())) / (self.sessions().len() as u32)) as u32
            },
            st.best_session_duration == spec_best_duration(self.sessions()),
            st.current_streak_days == spec_clamp32(spec_streak(spec_session_days(self.sessions()), spec_utc_day(now) as int)),
    {
        let n = self.sessions.len();
        let mut total: u32 = 0;
        let mut blocked: u32 = 0;
        let mut best: u32 = 0;
        let mut i: usize = 0;
        while i < n
            invariant
                n == self.sessions@.len(),
                i <= n,
                total == spec_clamp32(spec_total_minutes(self.sessions@.take(i as int))),
                blocked == spec_clamp32(spec_total_blocked(self.sessions@.take(i as int))),
                best == spec_best_duration(self.sessions@.take(i as int)),
            decreases n - i,
        {
            let s = &self.sessions[i];
            proof {
                assert(self.sessions@.take(i + 1).drop_last() =~= self.sessions@.take(i as int));
                assert(self.sessions@.take(i + 1).last() == self.sessions@[i as int]);
            }
            total = if total <= u32::MAX - s.duration_minutes { total + s.duration_minutes } else { u32::MAX };
            blocked = if blocked <= u32::MAX - s.notifications_blocked { blocked + s.notifications_blocked } else { u32::MAX };
            if s.duration_minutes > best {
                best = s.duration_minutes;
            }
            i = i + 1;
        }
        assert(self.sessions@.take(n as int) =~= self.sessions@);
        let count: u32 = #[verifier::truncate] (n as u32);
        let avg: u32 = if n == 0 || count == 0 { 0 } else { total / count };
        FocusStats {
            total_sessions: n,
            total_focus_time_minutes: total,
            total_notifications_blocked: blocked,
            average_session_duration: avg,
            best_session_duration: best,
            current_streak_days: self.calculate_streak_at(now),
        }
    }

    /// Statistics of the saved sessions now.
    pub fn get_stats(&self) -> (st: FocusStats)
        ensures
            st.total_sessions == self.sessions().len(),
            st.total_focus_time_minutes == spec_clamp32(spec_total_minutes(self.sessions())),
            st.total_notifications_blocked == spec_clamp32(spec_total_blocked(self.sessions())),
            st.average_session_duration == if self.sessions().len() == 0 || (self.sessions().len() as u32) == 0 {
                0
            } else {
                (spec_clamp32(spec_total_minutes(self.sessions())) / (self.sessions().len() as u32)) as u32
            },
            st.best_session_duration == spec_best_duration(self.sessions()),
            exists|now: i64| st.current_streak_days == #[trigger] spec_clamp32(spec_streak(spec_session_days(self.sessions()), spec_utc_day(now) as int)),
    {
        let now = now_timestamp();
        self.get_stats_at(now)
    }
}

} // verus!
