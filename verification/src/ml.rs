//! Personalisation from usage: which applications the user welcomes
//! suggestions in, when, and which ones to keep quiet. Times are seconds
//! since the epoch.
use vstd::prelude::*;
use crate::text::{join2, str_eq};

verus! {

/// What happened.
#[derive(Debug, Clone, Copy, PartialEq, Eq, Structural)]
pub enum EventType {
    TriggerFired,
    TriggerAccepted,
    TriggerIgnored,
    TriggerDismissed,
    AppMuted,
    AppUnmuted,
    ClipboardChanged,
    IdleDetected,
}

/// How the user answered a suggestion.
#[derive(Debug, Clone, Copy, PartialEq, Eq, Structural)]
pub enum UserResponse {
    Accepted,
    Ignored,
    Dismissed,
    Snoozed,
}

/// The event type a name gives (`trigger_fired`, `trigger_accepted`, ...).
pub open spec fn spec_event_type_of(name: Seq<char>) -> Option<EventType> {
    if name == "trigger_fired"@ { Some(EventType::TriggerFired) }
    else if name == "trigger_accepted"@ { Some(EventType::TriggerAccepted) }
    else if name == "trigger_ignored"@ { Some(EventType::TriggerIgnored) }
    else if name == "trigger_dismissed"@ { Some(EventType::TriggerDismissed) }
    else if name == "app_muted"@ { Some(EventType::AppMuted) }
    else if name == "app_unmuted"@ { Some(EventType::AppUnmuted) }
    else if name == "clipboard_changed"@ { Some(EventType::ClipboardChanged) }
    else if name == "idle_detected"@ { Some(EventType::IdleDetected) }
    else { None }
}

/// The response a name gives (`accepted`, `ignored`, `dismissed`, `snoozed`).
pub open spec fn spec_user_response_of(name: Seq<char>) -> Option<UserResponse> {
    if name == "accepted"@ { Some(UserResponse::Accepted) }
    else if name == "ignored"@ { Some(UserResponse::Ignored) }
    else if name == "dismissed"@ { Some(UserResponse::Dismissed) }
    else if name == "snoozed"@ { Some(UserResponse::Snoozed) }
    else { None }
}

/// The event type named, or "Invalid event type: ..." for another name.
pub fn event_type_from_str(name: &str) -> (r: Result<EventType, String>)
    ensures
        match spec_event_type_of(name@) {
            Some(t) => r == Ok::<EventType, String>(t),
            None => r matches Err(m) && m@ == "Invalid event type: "@ + name@,
        },
{
    if str_eq(name, "trigger_fired") { Ok(EventType::TriggerFired) }
    else if str_eq(name, "trigger_accepted") { Ok(EventType::TriggerAccepted) }
    else if str_eq(name, "trigger_ignored") { Ok(EventType::TriggerIgnored) }
    else if str_eq(name, "trigger_dismissed") { Ok(EventType::TriggerDismissed) }
    else if str_eq(name, "app_muted") { Ok(EventType::AppMuted) }
    else if str_eq(name, "app_unmuted") { Ok(EventType::AppUnmuted) }
    else if str_eq(name, "clipboard_changed") { Ok(EventType::ClipboardChanged) }
    else if str_eq(name, "idle_detected") { Ok(EventType::IdleDetected) }
    else { Err(join2("Invalid event type: ", name)) }
}

/// The response named, or "Invalid user response: ..." for another name.
pub fn user_response_from_str(name: &str) -> (r: Result<UserResponse, String>)
    ensures
        match spec_user_response_of(name@) {
            Some(u) => r == Ok::<UserResponse, String>(u),
            None => r matches Err(m) && m@ == "Invalid user response: "@ + name@,
        },
{
    if str_eq(name, "accepted") { Ok(UserResponse::Accepted) }
    else if str_eq(name, "ignored") { Ok(UserResponse::Ignored) }
    else if str_eq(name, "dismissed") { Ok(UserResponse::Dismissed) }
    else if str_eq(name, "snoozed") { Ok(UserResponse::Snoozed) }
    else { Err(join2("Invalid user response: ", name)) }
}

/// An event of use.
#[derive(Debug, Clone)]
pub struct UserEvent {
    pub timestamp: i64,
    pub event_type: EventType,
    pub app_name: String,
    pub context: Option<String>,
    pub user_response: Option<UserResponse>,
}

impl UserEvent {
    /// The event described by names at `timestamp`: an unknown event type
    /// is refused first, then an unknown response.
    pub fn from_names(event_type: &str, app_name: String, context: Option<String>, user_response: Option<&str>, timestamp: i64) -> (r: Result<UserEvent, String>)
        ensures
            match spec_event_type_of(event_type@) {
                None => r matches Err(m) && m@ == "Invalid event type: "@ + event_type@,
                Some(t) => match user_response {
                    Some(u) => match spec_user_response_of(u@) {
                        None => r matches Err(m) && m@ == "Invalid user response: "@ + u@,
                        Some(resp) => r matches Ok(e) && e.event_type == t && e.user_response == Some(resp)
                            && e.app_name@ == app_name@ && e.context == context && e.timestamp == timestamp,
                    },
                    None => r matches Ok(e) && e.event_type == t && e.user_response is None
                        && e.app_name@ == app_name@ && e.context == context && e.timestamp == timestamp,
                },
            },
    {
        let t = match event_type_from_str(event_type) {
            Ok(t) => t,
            Err(m) => { return Err(m); },
        };
        let resp = match user_response {
            Some(u) => match user_response_from_str(u) {
                Ok(x) => Some(x),
                Err(m) => { return Err(m); },
            },
            None => None,
        };
        Ok(UserEvent { timestamp, event_type: t, app_name, context, user_response: resp })
    }
}

/// Settings of the learning.
#[derive(Debug, Clone, Copy, PartialEq, Eq, Structural)]
pub struct MLConfig {
    pub min_events_for_learning: usize,
    pub data_retention_days: u32,
}

impl MLConfig {
    pub open spec fn default_config_spec() -> Self {
        MLConfig { min_events_for_learning: 10, data_retention_days: 30 }
    }

    /// Learning from 10 events, keeping 30 days.
    pub fn default_config() -> (c: Self)
        ensures
            c == Self::default_config_spec(),
    {
        MLConfig { min_events_for_learning: 10, data_retention_days: 30 }
    }
}

/// Thresholds proposed from the usage, in seconds.
#[derive(Debug, Clone, Copy, PartialEq, Eq, Structural)]
pub struct RecommendedThresholds {
    pub idle_threshold: u32,
    pub base_cooldown: u32,
    pub dismiss_cooldown: u32,
    pub debounce_threshold: u32,
}

/// Suggestions drawn from the usage.
#[derive(Debug, Clone)]
pub struct SmartSuggestions {
    pub recommended_apps: Vec<String>,
    pub optimal_trigger_hour: Option<u8>,
    pub recommended_thresholds: RecommendedThresholds,
    pub apps_to_mute: Vec<String>,
}

/// The counts of suggestions in one application.
#[derive(Debug, Clone)]
pub struct AppUsageStats {
    pub app_name: String,
    pub total_triggers: u32,
    pub accepted_triggers: u32,
    pub ignored_triggers: u32,
    /// Hours (UTC) at which suggestions were made, in order.
    pub peak_hours: Vec<u8>,
    /// When the last suggestion was made.
    pub last_used: Option<i64>,
}

/// A whole number of days that makes any time positive.
pub const DAY_SHIFT_SECS: i128 = 12159718993900339200;

/// The hour of the day (UTC) of a time.
pub open spec fn spec_utc_hour(ts: i64) -> int {
    ((ts + DAY_SHIFT_SECS) % 86400) / 3600
}

/// The hour of the day (UTC) of a time, as `DateTime::<Utc>::hour` gives it.
pub fn utc_hour(ts: i64) -> (h: u8)
    ensures
        h == spec_utc_hour(ts),
        h < 24,
{
    let s: u128 = ((ts as i128) + DAY_SHIFT_SECS) as u128;
    let r: u128 = s % 86400;
    (r / 3600) as u8
}

/// One more, stopping at the largest value.
pub open spec fn spec_inc32(x: u32) -> u32 {
    if x < u32::MAX { (x + 1) as u32 } else { x }
}

/// The counts of one application over the events: suggestions made (with
/// their hours and the time of the last), accepted and ignored.
pub open spec fn spec_app_stats(events: Seq<UserEvent>, app: Seq<char>) -> (u32, u32, u32, Seq<u8>, Option<i64>)
    decreases events.len(),
{
    if events.len() == 0 {
        (0, 0, 0, Seq::empty(), None)
    } else {
        let p = spec_app_stats(events.drop_last(), app);
        let e = events.last();
        if e.app_name@ != app {
            p
        } else {
            match e.event_type {
                EventType::TriggerFired => (spec_inc32(p.0), p.1, p.2, p.3.push(spec_utc_hour(e.timestamp) as u8), Some(e.timestamp)),
                EventType::TriggerAccepted => (p.0, spec_inc32(p.1), p.2, p.3, p.4),
                EventType::TriggerIgnored => (p.0, p.1, spec_inc32(p.2), p.3, p.4),
                _ => p,
            }
        }
    }
}

/// The applications of the events, in order of first appearance.
pub open spec fn spec_event_apps(events: Seq<UserEvent>) -> Seq<Seq<char>>
    decreases events.len(),
{
    if events.len() == 0 {
        Seq::empty()
    } else {
        let p = spec_event_apps(events.drop_last());
        if p.contains(events.last().app_name@) { p } else { p.push(events.last().app_name@) }
    }
}

/// The view of a stats record.
pub open spec fn spec_stats_view(s: AppUsageStats) -> (Seq<char>, (u32, u32, u32, Seq<u8>, Option<i64>)) {
    (s.app_name@, (s.total_triggers, s.accepted_triggers, s.ignored_triggers, s.peak_hours@, s.last_used))
}

fn find_app(stats: &Vec<AppUsageStats>, app: &str) -> (r: Option<usize>)
    ensures
        match r {
            Some(i) => i < stats@.len() && stats@[i as int].app_name@ == app@,
            None => forall|k: int| 0 <= k < stats@.len() ==> #[trigger] stats@[k].app_name@ != app@,
        },
{
    let mut i: usize = 0;
    while i < stats.len()
        invariant
            i <= stats@.len(),
            forall|k: int| 0 <= k < i ==> #[trigger] stats@[k].app_name@ != app@,
        decreases stats@.len() - i,
    {
        if crate::text::str_eq(stats[i].app_name.as_str(), app) {
            return Some(i);
        }
        i = i + 1;
    }
    None
}

fn inc32(x: u32) -> (y: u32)
    ensures
        y == spec_inc32(x),
{
    if x < u32::MAX { x + 1 } else { x }
}

/// The counts of each application, in order of first appearance.
pub fn analyze_favorite_apps(events: &[UserEvent]) -> (stats: Vec<AppUsageStats>)
    ensures
        stats@.len() == spec_event_apps(events@).len(),
        forall|k: int| 0 <= k < stats@.len() ==> #[trigger] spec_stats_view(stats@[k])
            == (spec_event_apps(events@)[k], spec_app_stats(events@, spec_event_apps(events@)[k])),
{
    let mut stats: Vec<AppUsageStats> = Vec::new();
    let mut i: usize = 0;
    while i < events.len()
        invariant
            i <= events@.len(),
            stats@.len() == spec_event_apps(events@.take(i as int)).len(),
            forall|k: int| 0 <= k < stats@.len() ==> #[trigger] spec_stats_view(stats@[k])
                == (spec_event_apps(events@.take(i as int))[k], spec_app_stats(events@.take(i as int), spec_event_apps(events@.take(i as int))[k])),
        decreases events@.len() - i,
    {
        let e = &events[i];
        let ghost pre = events@.take(i as int);
        let ghost post = events@.take(i + 1);
        proof {
            assert(post.drop_last() =~= pre);
            assert(post.last() == events@[i as int]);
        }
        let idx = match find_app(&stats, e.app_name.as_str()) {
            Some(j) => {
                proof {
                    assert(spec_stats_view(stats@[j as int]).0 == spec_event_apps(pre)[j as int]);
                    assert(spec_event_apps(pre).contains(e.app_name@));
                    assert(spec_event_apps(post) == spec_event_apps(pre));
                }
                j
            },
            None => {
                proof {
                    assert(!spec_event_apps(pre).contains(e.app_name@)) by {
                        if spec_event_apps(pre).contains(e.app_name@) {
                            let k = choose|k: int| 0 <= k < spec_event_apps(pre).len() && spec_event_apps(pre)[k] == e.app_name@;
                            assert(spec_stats_view(stats@[k]).0 == spec_event_apps(pre)[k]);
                        }
                    }
                    lemma_app_stats_absent(pre, e.app_name@);
                }
                stats.push(AppUsageStats {
                    app_name: e.app_name.clone(),
                    total_triggers: 0,
                    accepted_triggers: 0,
                    ignored_triggers: 0,
                    peak_hours: Vec::new(),
                    last_used: None,
                });
                proof {
                    assert(spec_event_apps(post) == spec_event_apps(pre).push(e.app_name@));
                }
                stats.len() - 1
            },
        };
        let ghost apps_post = spec_event_apps(post);
        proof {
            assert(forall|k: int| 0 <= k < spec_event_apps(pre).len() ==> apps_post[k] == spec_event_apps(pre)[k]);
            assert(apps_post[idx as int] == e.app_name@);
        }
        let mut s = stats[idx].clone_stats();
        match e.event_type {
            EventType::TriggerFired => {
                s.total_triggers = inc32(s.total_triggers);
                s.peak_hours.push(utc_hour(e.timestamp));
                s.last_used = Some(e.timestamp);
            },
            EventType::TriggerAccepted => {
                s.accepted_triggers = inc32(s.accepted_triggers);
            },
            EventType::TriggerIgnored => {
                s.ignored_triggers = inc32(s.ignored_triggers);
            },
            _ => {},
        }
        let ghost before = stats@;
        stats.set(idx, s);
        proof {
            assert forall|k: int| 0 <= k < stats@.len() implies #[trigger] spec_stats_view(stats@[k])
                == (apps_post[k], spec_app_stats(post, apps_post[k])) by {
                if k != idx {
                    assert(stats@[k] == before[k]);
                    assert(apps_post[k] != e.app_name@) by {
                        assert(spec_stats_view(before[k]).0 == apps_post[k]);
                        assert(spec_stats_view(before[idx as int]).0 == e.app_name@);
                        lemma_event_apps_distinct(post);
                    }
                }
            }
        }
        i = i + 1;
    }
    assert(events@.take(events@.len() as int) =~= events@);
    stats
}

proof fn lemma_app_stats_absent(events: Seq<UserEvent>, app: Seq<char>)
    requires
        !spec_event_apps(events).contains(app),
    ensures
        spec_app_stats(events, app) == (0u32, 0u32, 0u32, Seq::<u8>::empty(), Option::<i64>::None),
    decreases events.len(),
{
    if events.len() > 0 {
        let p = spec_event_apps(events.drop_last());
        if p.contains(app) {
            let k = choose|k: int| 0 <= k < p.len() && p[k] == app;
            assert(spec_event_apps(events)[k] == app);
            assert(spec_event_apps(events).contains(app));
        }
        assert(events.last().app_name@ != app) by {
            if events.last().app_name@ == app {
                if !p.contains(app) {
                    assert(spec_event_apps(events) == p.push(app));
                    assert(spec_event_apps(events)[p.len() as int] == app);
                }
            }
        }
        lemma_app_stats_absent(events.drop_last(), app);
    }
}

proof fn lemma_event_apps_distinct(events: Seq<UserEvent>)
    ensures
        forall|a: int, b: int| 0 <= a < b < spec_event_apps(events).len() ==> spec_event_apps(events)[a] != spec_event_apps(events)[b],
    decreases events.len(),
{
    if events.len() > 0 {
        lemma_event_apps_distinct(events.drop_last());
        let p = spec_event_apps(events.drop_last());
        if !p.contains(events.last().app_name@) {
            assert forall|a: int, b: int| 0 <= a < b < spec_event_apps(events).len() implies spec_event_apps(events)[a] != spec_event_apps(events)[b] by {
                if b == p.len() {
                    assert(spec_event_apps(events)[a] == p[a]);
                }
            }
        }
    }
}

impl AppUsageStats {
    /// A copy of the counts.
    pub fn clone_stats(&self) -> (c: AppUsageStats)
        ensures
            spec_stats_view(c) == spec_stats_view(*self),
    {
        AppUsageStats {
            app_name: self.app_name.clone(),
            total_triggers: self.total_triggers,
            accepted_triggers: self.accepted_triggers,
            ignored_triggers: self.ignored_triggers,
            peak_hours: self.peak_hours.clone(),
            last_used: self.last_used,
        }
    }
}


/// The counts of each application are those of the events.
pub open spec fn spec_is_app_stats(stats: Seq<AppUsageStats>, events: Seq<UserEvent>) -> bool {
    &&& stats.len() == spec_event_apps(events).len()
    &&& forall|k: int| 0 <= k < stats.len() ==> #[trigger] spec_stats_view(stats[k])
            == (spec_event_apps(events)[k], spec_app_stats(events, spec_event_apps(events)[k]))
}

/// How many accepted suggestions fell in hour `h`.
pub open spec fn spec_accepted_at(events: Seq<UserEvent>, h: int) -> nat
    decreases events.len(),
{
    if events.len() == 0 {
        0
    } else {
        let e = events.last();
        spec_accepted_at(events.drop_last(), h) + if e.event_type == EventType::TriggerAccepted
            && spec_utc_hour(e.timestamp) == h { 1nat } else { 0nat }
    }
}

/// Hour `a` ranks before hour `b`: more accepted suggestions, or as many and earlier.
pub open spec fn spec_hour_before(events: Seq<UserEvent>, a: int, b: int) -> bool {
    spec_accepted_at(events, a) > spec_accepted_at(events, b)
        || (spec_accepted_at(events, a) == spec_accepted_at(events, b) && a < b)
}

/// `r` is a prefix of the hours with accepted suggestions, in rank order.
pub open spec fn spec_hours_ranked(r: Seq<u8>, events: Seq<UserEvent>) -> bool {
    &&& forall|i: int| 0 <= i < r.len() ==> #[trigger] r[i] < 24 && spec_accepted_at(events, r[i] as int) > 0
    &&& forall|i: int, j: int| 0 <= i < j < r.len() ==> spec_hour_before(events, r[i] as int, r[j] as int)
    &&& forall|h: int, i: int| 0 <= h < 24 && spec_accepted_at(events, h) > 0 && !r.contains(h as u8) && 0 <= i < r.len()
            ==> #[trigger] spec_hour_before(events, r[i] as int, h)
}

/// `r` holds the (at most) three hours with most accepted suggestions, best first,
/// an earlier hour first among equals.
pub open spec fn spec_is_top_hours(r: Seq<u8>, events: Seq<UserEvent>) -> bool {
    &&& r.len() <= 3
    &&& spec_hours_ranked(r, events)
    &&& forall|h: int| 0 <= h < 24 && spec_accepted_at(events, h) > 0 && !r.contains(h as u8) ==> r.len() == 3
}

fn contains_u8(v: &Vec<u8>, x: u8) -> (b: bool)
    ensures
        b == v@.contains(x),
{
    let mut i: usize = 0;
    while i < v.len()
        invariant
            i <= v@.len(),
            forall|k: int| 0 <= k < i ==> v@[k] != x,
        decreases v@.len() - i,
    {
        if v[i] == x {
            return true;
        }
        i = i + 1;
    }
    false
}

/// The accepted suggestions of each hour.
fn accepted_by_hour(events: &[UserEvent]) -> (counts: Vec<u64>)
    ensures
        counts@.len() == 24,
        forall|h: int| 0 <= h < 24 ==> #[trigger] counts@[h] == spec_accepted_at(events@, h),
{
    let mut counts: Vec<u64> = vec![0u64; 24];
    let mut i: usize = 0;
    while i < events.len()
        invariant
            i <= events@.len(),
            counts@.len() == 24,
            forall|h: int| 0 <= h < 24 ==> #[trigger] counts@[h] == spec_accepted_at(events@.take(i as int), h),
            forall|h: int| 0 <= h < 24 ==> #[trigger] spec_accepted_at(events@.take(i as int), h) <= i,
        decreases events@.len() - i,
    {
        let ghost pre = events@.take(i as int);
        let ghost post = events@.take(i + 1);
        proof {
            assert(post.drop_last() =~= pre);
            assert(post.last() == events@[i as int]);
        }
        if events[i].event_type == EventType::TriggerAccepted {
            let h = utc_hour(events[i].timestamp) as usize;
            let c = counts[h];
            counts.set(h, c + 1);
        }
        proof {
            assert forall|h: int| 0 <= h < 24 implies #[trigger] spec_accepted_at(post, h) <= i + 1 by {
                assert(spec_accepted_at(pre, h) <= i);
            }
        }
        i = i + 1;
    }
    assert(events@.take(events@.len() as int) =~= events@);
    counts
}

/// The three hours with most accepted suggestions, best first (an earlier
/// hour first among equals); fewer where fewer hours had any.
pub fn productive_hours(events: &[UserEvent]) -> (r: Vec<u8>)
    ensures
        spec_is_top_hours(r@, events@),
{
    let counts = accepted_by_hour(events);
    let ghost ev = events@;
    let mut r: Vec<u8> = Vec::new();
    let mut round: usize = 0;
    while round < 3
        invariant
            round <= 3,
            ev == events@,
            r@.len() == round,
            counts@.len() == 24,
            forall|h: int| 0 <= h < 24 ==> #[trigger] counts@[h] == spec_accepted_at(ev, h),
            spec_hours_ranked(r@, ev),
        decreases 3 - round,
    {
        let mut best: Option<usize> = None;
        let mut j: usize = 0;
        while j < 24
            invariant
                j <= 24,
                round < 3,
                r@.len() == round,
                spec_hours_ranked(r@, ev),
                counts@.len() == 24,
                forall|h: int| 0 <= h < 24 ==> #[trigger] counts@[h] == spec_accepted_at(ev, h),
                match best {
                    None => forall|h: int| 0 <= h < j && spec_accepted_at(ev, h) > 0 ==> r@.contains(h as u8),
                    Some(b) => b < j && spec_accepted_at(ev, b as int) > 0 && !r@.contains(b as u8)
                        && forall|h: int| 0 <= h < j && spec_accepted_at(ev, h) > 0 && !r@.contains(h as u8) && h != b
                            ==> #[trigger] spec_hour_before(ev, b as int, h),
                },
            decreases 24 - j,
        {
            let positive = counts[j] > 0;
            let taken = contains_u8(&r, j as u8);
            proof {
                assert(counts@[j as int] == spec_accepted_at(ev, j as int));
                assert((j as int) as u8 == j as u8);
            }
            let ghost old_best = best;
            if positive && !taken {
                match best {
                    None => {
                        best = Some(j);
                    },
                    Some(b) => {
                        if counts[j] > counts[b] {
                            best = Some(j);
                        }
                    },
                }
            }
            proof {
                if best is Some {
                    let b = best->0;
                    assert(b < j + 1);
                    assert(spec_accepted_at(ev, b as int) > 0);
                    assert(!r@.contains(b as u8));
                    assert forall|h: int| 0 <= h < j + 1 && spec_accepted_at(ev, h) > 0 && !r@.contains(h as u8) && h != b
                        implies #[trigger] spec_hour_before(ev, b as int, h) by {
                        if h < j {
                            if let Some(b0) = old_best {
                                if b0 != b {
                                    assert(b == j);
                                    if h != b0 {
                                        assert(spec_hour_before(ev, b0 as int, h));
                                    }
                                }
                            }
                        } else {
                            assert(h == j);
                            assert(old_best is Some);
                        }
                    }
                }
                if best is None {
                    assert forall|h: int| 0 <= h < j + 1 && spec_accepted_at(ev, h) > 0 implies r@.contains(h as u8) by {
                        if h == j {
                            assert(taken);
                        }
                    }
                }
            }
            j = j + 1;
        }
        match best {
            None => {
                proof {
                    assert forall|h: int| 0 <= h < 24 && spec_accepted_at(ev, h) > 0 && !r@.contains(h as u8) implies r@.len() == 3 by {
                    }
                }
                return r;
            },
            Some(b) => {
                let ghost old_r = r@;
                r.push(b as u8);
                proof {
                    assert(r@ == old_r.push(b as u8));
                    assert forall|h: int, i: int| 0 <= h < 24 && spec_accepted_at(ev, h) > 0 && !r@.contains(h as u8) && 0 <= i < r@.len()
                        implies #[trigger] spec_hour_before(ev, r@[i] as int, h) by {
                        assert(!old_r.contains(h as u8)) by {
                            if old_r.contains(h as u8) {
                                let k = choose|k: int| 0 <= k < old_r.len() && old_r[k] == h as u8;
                                assert(r@[k] == h as u8);
                            }
                        }
                        if i < old_r.len() {
                            assert(r@[i] == old_r[i]);
                        } else {
                            assert(r@[old_r.len() as int] == b as u8);
                            assert(h != b);
                        }
                    }
                    assert forall|i: int, k: int| 0 <= i < k < r@.len() implies spec_hour_before(ev, r@[i] as int, r@[k] as int) by {
                        if k == old_r.len() {
                            assert(r@[i] == old_r[i]);
                            assert(spec_hour_before(ev, old_r[i] as int, b as int));
                        } else {
                            assert(r@[i] == old_r[i]);
                            assert(r@[k] == old_r[k]);
                        }
                    }
                    assert forall|i: int| 0 <= i < r@.len() implies #[trigger] r@[i] < 24 && spec_accepted_at(ev, r@[i] as int) > 0 by {
                        if i < old_r.len() {
                            assert(r@[i] == old_r[i]);
                        }
                    }
                }
            },
        }
        round = round + 1;
    }
    r
}


/// The applications whose suggestions were ignored, with how many times.
pub open spec fn spec_ignored(stats: Seq<AppUsageStats>) -> Seq<(Seq<char>, u32)>
    decreases stats.len(),
{
    if stats.len() == 0 {
        Seq::empty()
    } else {
        let p = spec_ignored(stats.drop_last());
        let s = stats.last();
        if s.ignored_triggers > 0 { p.push((s.app_name@, s.ignored_triggers)) } else { p }
    }
}

/// The view of a list of named counts.
pub open spec fn spec_named_counts(v: Seq<(String, u32)>) -> Seq<(Seq<char>, u32)> {
    v.map_values(|p: (String, u32)| (p.0@, p.1))
}

/// The applications whose suggestions were ignored, with how many times.
pub fn ignored_apps(stats: &[AppUsageStats]) -> (r: Vec<(String, u32)>)
    ensures
        spec_named_counts(r@) == spec_ignored(stats@),
{
    let mut r: Vec<(String, u32)> = Vec::new();
    let mut i: usize = 0;
    while i < stats.len()
        invariant
            i <= stats@.len(),
            spec_named_counts(r@) == spec_ignored(stats@.take(i as int)),
        decreases stats@.len() - i,
    {
        proof {
            assert(stats@.take(i + 1).drop_last() =~= stats@.take(i as int));
        }
        if stats[i].ignored_triggers > 0 {
            let ghost before = r@;
            r.push((stats[i].app_name.clone(), stats[i].ignored_triggers));
            assert(spec_named_counts(r@) =~= spec_named_counts(before).push((stats@[i as int].app_name@, stats@[i as int].ignored_triggers)));
        }
        i = i + 1;
    }
    assert(stats@.take(stats@.len() as int) =~= stats@);
    r
}

/// Suggestions here are welcome: more than seven in ten accepted, over at least three.
pub open spec fn spec_welcome(s: AppUsageStats) -> bool {
    s.total_triggers >= 3 && 10 * s.accepted_triggers > 7 * s.total_triggers
}

/// Suggestions here are unwelcome: fewer than one in five accepted, over at least five.
pub open spec fn spec_unwelcome(s: AppUsageStats) -> bool {
    s.total_triggers >= 5 && 5 * s.accepted_triggers < s.total_triggers
}

/// The names of the applications that meet `keep`, in order.
pub open spec fn spec_names_where(stats: Seq<AppUsageStats>, keep: spec_fn(AppUsageStats) -> bool) -> Seq<Seq<char>>
    decreases stats.len(),
{
    if stats.len() == 0 {
        Seq::empty()
    } else {
        let p = spec_names_where(stats.drop_last(), keep);
        if keep(stats.last()) { p.push(stats.last().app_name@) } else { p }
    }
}

/// The suggestions drawn from the counts, the ranked hours and an idle threshold
/// (seconds): applications where suggestions are welcome, the best hour, the
/// thresholds (idle as given, cooldowns of 45 and 90 seconds, a debounce of 2)
/// and applications to mute.
pub fn suggestions_from(stats: &[AppUsageStats], productive_hours: &[u8], idle_threshold: u32) -> (r: SmartSuggestions)
    ensures
        crate::text::spec_strings(r.recommended_apps@) == spec_names_where(stats@, |s: AppUsageStats| spec_welcome(s)),
        crate::text::spec_strings(r.apps_to_mute@) == spec_names_where(stats@, |s: AppUsageStats| spec_unwelcome(s)),
        r.optimal_trigger_hour == (if productive_hours@.len() > 0 { Some(productive_hours@[0]) } else { None::<u8> }),
        r.recommended_thresholds == (RecommendedThresholds {
            idle_threshold: idle_threshold,
            base_cooldown: 45,
            dismiss_cooldown: 90,
            debounce_threshold: 2,
        }),
{
    let mut recommended: Vec<String> = Vec::new();
    let mut mute: Vec<String> = Vec::new();
    let mut i: usize = 0;
    while i < stats.len()
        invariant
            i <= stats@.len(),
            crate::text::spec_strings(recommended@) == spec_names_where(stats@.take(i as int), |s: AppUsageStats| spec_welcome(s)),
            crate::text::spec_strings(mute@) == spec_names_where(stats@.take(i as int), |s: AppUsageStats| spec_unwelcome(s)),
        decreases stats@.len() - i,
    {
        proof {
            assert(stats@.take(i + 1).drop_last() =~= stats@.take(i as int));
            assert(stats@.take(i + 1).last() == stats@[i as int]);
        }
        let s = &stats[i];
        let total: u64 = s.total_triggers as u64;
        let accepted: u64 = s.accepted_triggers as u64;
        if total >= 3 && 10 * accepted > 7 * total {
            let ghost before = recommended@;
            recommended.push(s.app_name.clone());
            assert(crate::text::spec_strings(recommended@) =~= crate::text::spec_strings(before).push(s.app_name@));
        }
        if total >= 5 && 5 * accepted < total {
            let ghost before = mute@;
            mute.push(s.app_name.clone());
            assert(crate::text::spec_strings(mute@) =~= crate::text::spec_strings(before).push(s.app_name@));
        }
        i = i + 1;
    }
    assert(stats@.take(stats@.len() as int) =~= stats@);
    let optimal = if productive_hours.len() > 0 { Some(productive_hours[0]) } else { None };
    SmartSuggestions {
        recommended_apps: recommended,
        optimal_trigger_hour: optimal,
        recommended_thresholds: RecommendedThresholds {
            idle_threshold: idle_threshold,
            base_cooldown: 45,
            dismiss_cooldown: 90,
            debounce_threshold: 2,
        },
        apps_to_mute: mute,
    }
}

/// An event is kept while it is later than `days` days before `now`.
pub open spec fn spec_recent(e: UserEvent, now: i64, days: u32) -> bool {
    e.timestamp > now - days * 86400
}

/// The events later than `days` days before `now`, in order.
pub fn cleanup_old_events(events: Vec<UserEvent>, now: i64, days: u32) -> (r: Vec<UserEvent>)
    ensures
        r@ == events@.filter(|e: UserEvent| spec_recent(e, now, days)),
{
    let ghost src = events@;
    let cutoff: i128 = (now as i128) - (days as i128) * 86400;
    let mut kept: Vec<UserEvent> = Vec::new();
    let mut rest = events;
    let total = rest.len();
    let mut i: usize = 0;
    while rest.len() > 0
        invariant
            i + rest@.len() == total,
            total == src.len(),
            cutoff == now - days * 86400,
            forall|k: int| 0 <= k < rest@.len() ==> #[trigger] rest@[k] == src[i + k],
            kept@ == src.take(i as int).filter(|e: UserEvent| spec_recent(e, now, days)),
        decreases rest@.len(),
    {
        let ghost old_rest = rest@;
        let e = rest.remove(0);
        proof {
            assert(e == src[i as int]);
            assert forall|k: int| 0 <= k < rest@.len() implies #[trigger] rest@[k] == src[i + 1 + k] by {
                assert(rest@[k] == old_rest[k + 1]);
            }
            assert(src.take(i + 1) =~= src.take(i as int).push(e));
            src.take(i as int).lemma_filter_push(e, |e: UserEvent| spec_recent(e, now, days));
        }
        if (e.timestamp as i128) > cutoff {
            kept.push(e);
        }
        i = i + 1;
    }
    assert(src.take(total as int) =~= src);
    kept
}


/// What has been learnt of the usage.
#[derive(Debug, Clone)]
pub struct UsagePatterns {
    /// The counts of each application, in order of first appearance.
    pub favorite_apps: Vec<AppUsageStats>,
    /// The hours (UTC) with most accepted suggestions, best first.
    pub productive_hours: Vec<u8>,
    /// The applications whose suggestions were ignored, with how many times.
    pub frequently_ignored_apps: Vec<(String, u32)>,
}

/// The patterns learnt from the events.
pub open spec fn spec_learnt(p: UsagePatterns, events: Seq<UserEvent>) -> bool {
    &&& spec_is_app_stats(p.favorite_apps@, events)
    &&& spec_is_top_hours(p.productive_hours@, events)
    &&& spec_named_counts(p.frequently_ignored_apps@) == spec_ignored(p.favorite_apps@)
}

/// Learns from the events of use.
pub struct PersonalizationManager {
    patterns: UsagePatterns,
    event_history: Vec<UserEvent>,
    config: MLConfig,
}

/// The history after recording `event` at `now`: the event appended, and only
/// the events of the retention period kept.
pub open spec fn spec_history_after(history: Seq<UserEvent>, event: UserEvent, now: i64, days: u32) -> Seq<UserEvent> {
    history.push(event).filter(|e: UserEvent| spec_recent(e, now, days))
}

/// After an event is recorded at `now`, the history holds only events of
/// the retention period, and the recorded event is among them if it is.
pub proof fn lemma_history_within_retention(history: Seq<UserEvent>, event: UserEvent, now: i64, days: u32)
    ensures
        forall|i: int| 0 <= i < spec_history_after(history, event, now, days).len()
            ==> spec_recent(#[trigger] spec_history_after(history, event, now, days)[i], now, days),
        spec_recent(event, now, days) ==> {
            let h = spec_history_after(history, event, now, days);
            h.len() > 0 && h.last() == event
        },
{
    let p = history.push(event);
    let f = |e: UserEvent| spec_recent(e, now, days);
    assert forall|i: int| 0 <= i < p.filter(f).len() implies spec_recent(#[trigger] p.filter(f)[i], now, days) by {
        p.lemma_filter_pred(f, i);
    }
    reveal(Seq::filter);
    assert(p.drop_last() =~= history);
}

impl PersonalizationManager {
    pub closed spec fn history(&self) -> Seq<UserEvent> {
        self.event_history@
    }

    pub closed spec fn spec_patterns(&self) -> UsagePatterns {
        self.patterns
    }

    pub closed spec fn spec_config(&self) -> MLConfig {
        self.config
    }

    /// No history, nothing learnt, the default settings.
    pub fn new() -> (m: Self)
        ensures
            m.history() == Seq::<UserEvent>::empty(),
            m.spec_patterns().favorite_apps@.len() == 0,
            m.spec_patterns().productive_hours@.len() == 0,
            m.spec_patterns().frequently_ignored_apps@.len() == 0,
            m.spec_config() == MLConfig::default_config_spec(),
    {
        PersonalizationManager {
            patterns: UsagePatterns {
                favorite_apps: Vec::new(),
                productive_hours: Vec::new(),
                frequently_ignored_apps: Vec::new(),
            },
            event_history: Vec::new(),
            config: MLConfig::default_config(),
        }
    }

    /// Records an event at `now` (seconds): the history keeps the events of
    /// the retention period, and once it holds enough of them, the patterns
    /// are learnt again from it.
    pub fn record_event_at(&mut self, event: UserEvent, now: i64)
        ensures
            final(self).spec_config() == old(self).spec_config(),
            final(self).history() == spec_history_after(old(self).history(), event, now, old(self).spec_config().data_retention_days),
            final(self).history().len() >= old(self).spec_config().min_events_for_learning
                ==> spec_learnt(final(self).spec_patterns(), final(self).history()),
            final(self).history().len() < old(self).spec_config().min_events_for_learning
                ==> final(self).spec_patterns() == old(self).spec_patterns(),
    {
        let mut history: Vec<UserEvent> = Vec::new();
        std::mem::swap(&mut history, &mut self.event_history);
        history.push(event);
        self.event_history = cleanup_old_events(history, now, self.config.data_retention_days);
        if self.event_history.len() >= self.config.min_events_for_learning {
            self.update_patterns();
        }
    }

    /// Records an event at the present time.
    pub fn record_event(&mut self, event: UserEvent)
        ensures
            final(self).spec_config() == old(self).spec_config(),
            exists|now: i64| final(self).history() == spec_history_after(old(self).history(), event, now, old(self).spec_config().data_retention_days),
            final(self).history().len() >= old(self).spec_config().min_events_for_learning
                ==> spec_learnt(final(self).spec_patterns(), final(self).history()),
            final(self).history().len() < old(self).spec_config().min_events_for_learning
                ==> final(self).spec_patterns() == old(self).spec_patterns(),
    {
        let secs = crate::clock::unix_time_secs();
        let now: i64 = if secs <= i64::MAX as u64 { secs as i64 } else { i64::MAX };
        self.record_event_at(event, now);
    }

    fn update_patterns(&mut self)
        ensures
            final(self).history() == old(self).history(),
            final(self).spec_config() == old(self).spec_config(),
            spec_learnt(final(self).spec_patterns(), final(self).history()),
    {
        let favorite = analyze_favorite_apps(self.event_history.as_slice());
        let hours = productive_hours(self.event_history.as_slice());
        let ignored = ignored_apps(favorite.as_slice());
        self.patterns = UsagePatterns {
            favorite_apps: favorite,
            productive_hours: hours,
            frequently_ignored_apps: ignored,
        };
    }

    /// The suggestions drawn from what was learnt, with the given idle
    /// threshold (seconds).
    pub fn generate_suggestions(&self, idle_threshold: u32) -> (r: SmartSuggestions)
        ensures
            crate::text::spec_strings(r.recommended_apps@)
                == spec_names_where(self.spec_patterns().favorite_apps@, |s: AppUsageStats| spec_welcome(s)),
            crate::text::spec_strings(r.apps_to_mute@)
                == spec_names_where(self.spec_patterns().favorite_apps@, |s: AppUsageStats| spec_unwelcome(s)),
            r.optimal_trigger_hour == (if self.spec_patterns().productive_hours@.len() > 0 {
                Some(self.spec_patterns().productive_hours@[0])
            } else {
                None::<u8>
            }),
            r.recommended_thresholds == (RecommendedThresholds {
                idle_threshold: idle_threshold,
                base_cooldown: 45,
                dismiss_cooldown: 90,
                debounce_threshold: 2,
            }),
    {
        suggestions_from(self.patterns.favorite_apps.as_slice(), self.patterns.productive_hours.as_slice(), idle_threshold)
    }

    /// Puts patterns read back from storage in place of the learnt ones.
    pub fn replace_patterns(&mut self, patterns: UsagePatterns)
        ensures
            final(self).spec_patterns() == patterns,
            final(self).history() == old(self).history(),
            final(self).spec_config() == old(self).spec_config(),
    {
        self.patterns = patterns;
    }

    /// What was learnt.
    pub fn get_patterns(&self) -> (p: &UsagePatterns)
        ensures
            *p == self.spec_patterns(),
    {
        &self.patterns
    }

    /// The events kept, oldest first.
    pub fn events(&self) -> (v: &Vec<UserEvent>)
        ensures
            v@ == self.history(),
    {
        &self.event_history
    }
}

} // verus!
