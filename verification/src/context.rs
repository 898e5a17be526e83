//! Context capture: the active application (with a short-lived cache), the
//! user's idle time, and the errors of both.
use vstd::prelude::*;
use crate::clock::unix_time_millis;
use crate::text::{join2, parse_u32, spec_byte_len, spec_parse_u32, spec_to_lowercase, spec_trim, str_eq, to_lowercase, trim_str};

verus! {

/// Status of a macOS privacy (TCC) permission.
#[derive(Debug, Clone, Copy, PartialEq, Eq, Structural)]
pub enum TCCStatus {
    Granted,
    Denied,
    Unknown,
}

impl TCCStatus {
    pub open spec fn spec_as_str(self) -> Seq<char> {
        match self {
            TCCStatus::Granted => "granted"@,
            TCCStatus::Denied => "denied"@,
            TCCStatus::Unknown => "unknown"@,
        }
    }

    /// The status as displayed: "granted", "denied" or "unknown".
    pub fn as_str(&self) -> (s: &'static str)
        ensures
            s@ == self.spec_as_str(),
    {
        match self {
            TCCStatus::Granted => "granted",
            TCCStatus::Denied => "denied",
            TCCStatus::Unknown => "unknown",
        }
    }
}

/// Errors of the active-application detection.
#[derive(Debug)]
pub enum AppDetectionError {
    NoActiveWindow,
    NotAvailable(String),
    Windows(String),
    Linux(String),
}

impl AppDetectionError {
    pub open spec fn spec_message(&self) -> Seq<char> {
        match self {
            AppDetectionError::NoActiveWindow => "No active window found"@,
            AppDetectionError::NotAvailable(m) => "Not available: "@ + m@,
            AppDetectionError::Windows(m) => "Windows API error: "@ + m@,
            AppDetectionError::Linux(m) => "Linux detection error: "@ + m@,
        }
    }

    /// The error's message.
    pub fn message(&self) -> (s: String)
        ensures
            s@ == self.spec_message(),
    {
        match self {
            AppDetectionError::NoActiveWindow => String::from_str("No active window found"),
            AppDetectionError::NotAvailable(m) => join2("Not available: ", m.as_str()),
            AppDetectionError::Windows(m) => join2("Windows API error: ", m.as_str()),
            AppDetectionError::Linux(m) => join2("Linux detection error: ", m.as_str()),
        }
    }
}

/// Errors of the clipboard monitoring.
#[derive(Debug)]
pub enum ClipboardError {
    AccessError(String),
}

impl ClipboardError {
    pub open spec fn spec_message(&self) -> Seq<char> {
        match self {
            ClipboardError::AccessError(m) => "Failed to access clipboard: "@ + m@,
        }
    }

    /// The error's message.
    pub fn message(&self) -> (s: String)
        ensures
            s@ == self.spec_message(),
    {
        match self {
            ClipboardError::AccessError(m) => join2("Failed to access clipboard: ", m.as_str()),
        }
    }
}

/// Errors of the context aggregation.
#[derive(Debug)]
pub enum ContextError {
    AppDetection(AppDetectionError),
    Clipboard(ClipboardError),
}

impl ContextError {
    pub open spec fn spec_message(&self) -> Seq<char> {
        match self {
            ContextError::AppDetection(e) => "App detection failed: "@ + e.spec_message(),
            ContextError::Clipboard(e) => "Clipboard monitoring failed: "@ + e.spec_message(),
        }
    }

    /// The error's message.
    pub fn message(&self) -> (s: String)
        ensures
            s@ == self.spec_message(),
    {
        match self {
            ContextError::AppDetection(e) => {
                let m = e.message();
                join2("App detection failed: ", m.as_str())
            },
            ContextError::Clipboard(e) => {
                let m = e.message();
                join2("Clipboard monitoring failed: ", m.as_str())
            },
        }
    }
}

/// The application in the foreground.
#[derive(Debug)]
pub struct ActiveApp {
    pub bundle_id: String,
    pub name: String,
    pub window_title: String,
    pub pid: u32,
    pub timestamp: u64,
    pub tcc_status: Option<TCCStatus>,
}

/// Two descriptions of the active application hold the same values.
pub open spec fn spec_same_app(a: ActiveApp, b: ActiveApp) -> bool {
    &&& a.bundle_id@ == b.bundle_id@
    &&& a.name@ == b.name@
    &&& a.window_title@ == b.window_title@
    &&& a.pid == b.pid
    &&& a.timestamp == b.timestamp
    &&& a.tcc_status == b.tcc_status
}

impl ActiveApp {
    /// A copy of the description.
    pub fn copy(&self) -> (r: ActiveApp)
        ensures
            spec_same_app(r, *self),
    {
        ActiveApp {
            bundle_id: self.bundle_id.clone(),
            name: self.name.clone(),
            window_title: self.window_title.clone(),
            pid: self.pid,
            timestamp: self.timestamp,
            tcc_status: self.tcc_status,
        }
    }
}

/// Lifetime of the cached active application, in milliseconds.
pub const APP_CACHE_TTL_MS: u64 = 150;

/// Milliseconds from `earlier` to `later` (none when `later` is earlier).
pub open spec fn spec_age(earlier: u64, later: u64) -> nat {
    if later >= earlier { (later - earlier) as nat } else { 0 }
}

/// Detects the active application, caching the answer for 150 ms.
pub struct AppDetector {
    last_app: Option<ActiveApp>,
    last_check_ms: u64,
    cache_ttl_ms: u64,
}

/// A lookup of the active application that checks the cache at `now`: the
/// cached answer while it is fresh; otherwise the system's answer, cached
/// with time `stamp` (read once the system answered) when it is one.
pub open spec fn spec_app_lookup(old: AppDetector, new: AppDetector, now: u64, stamp: u64, r: Result<ActiveApp, AppDetectionError>) -> bool {
    &&& new.ttl() == old.ttl()
    &&& old.spec_cache_fresh(now) ==> {
        &&& r matches Ok(a) && spec_same_app(a, old.cached().unwrap())
        &&& new.cached() == old.cached()
        &&& new.checked_at() == old.checked_at()
    }
    &&& !old.spec_cache_fresh(now) ==> match r {
        Ok(a) => new.cached() matches Some(c) && spec_same_app(c, a) && new.checked_at() == stamp,
        Err(_) => new.cached() == old.cached() && new.checked_at() == old.checked_at(),
    }
}

/// A lookup of the active application at `now`, where the system answers
/// at once (see `spec_app_lookup`).
pub open spec fn spec_app_lookup_at(old: AppDetector, new: AppDetector, now: u64, r: Result<ActiveApp, AppDetectionError>) -> bool {
    spec_app_lookup(old, new, now, now, r)
}

impl AppDetector {
    pub closed spec fn cached(&self) -> Option<ActiveApp> {
        self.last_app
    }

    pub closed spec fn checked_at(&self) -> u64 {
        self.last_check_ms
    }

    pub closed spec fn ttl(&self) -> u64 {
        self.cache_ttl_ms
    }

    /// The cache answers at time `now`.
    pub open spec fn spec_cache_fresh(&self, now: u64) -> bool {
        self.cached() is Some && spec_age(self.checked_at(), now) < self.ttl()
    }

    pub fn new() -> (d: Self)
        ensures
            d.cached() is None,
            d.ttl() == APP_CACHE_TTL_MS,
    {
        AppDetector { last_app: None, last_check_ms: 0, cache_ttl_ms: APP_CACHE_TTL_MS }
    }

    /// Lifetime of the cached answer, in milliseconds.
    pub fn cache_ttl_ms(&self) -> (t: u64)
        ensures
            t == self.ttl(),
    {
        self.cache_ttl_ms
    }

    /// Whether an answer is cached.
    pub fn has_cached_app(&self) -> (b: bool)
        ensures
            b == self.cached() is Some,
    {
        self.last_app.is_some()
    }

    /// The active application at time `now`: the cached answer while it is
    /// younger than the cache lifetime; otherwise `fetch` asks the system,
    /// and a successful answer is cached with time `now`.
    pub fn get_active_app_at<F: FnOnce() -> Result<ActiveApp, AppDetectionError>>(&mut self, now: u64, fetch: F) -> (r: Result<ActiveApp, AppDetectionError>)
        requires
            fetch.requires(()),
        ensures
            spec_app_lookup_at(*old(self), *final(self), now, r),
            !old(self).spec_cache_fresh(now) ==> fetch.ensures((), r),
    {
        let age: u64 = if now >= self.last_check_ms { now - self.last_check_ms } else { 0 };
        if let Some(app) = &self.last_app {
            if age < self.cache_ttl_ms {
                return Ok(app.copy());
            }
        }
        let r = fetch();
        match r {
            Ok(app) => {
                self.last_app = Some(app.copy());
                self.last_check_ms = now;
                Ok(app)
            },
            Err(e) => Err(e),
        }
    }

    /// The active application, reading the clock: the cache is checked at
    /// the time read first, and a new answer of `fetch` (which asks the
    /// system) is stamped with the time read after it answered.
    pub fn get_active_app<F: FnOnce() -> Result<ActiveApp, AppDetectionError>>(&mut self, fetch: F) -> (r: Result<ActiveApp, AppDetectionError>)
        requires
            fetch.requires(()),
        ensures
            exists|now: u64, stamp: u64| #[trigger] spec_app_lookup(*old(self), *final(self), now, stamp, r)
                && (!old(self).spec_cache_fresh(now) ==> fetch.ensures((), r)),
    {
        let now = unix_time_millis();
        let age: u64 = if now >= self.last_check_ms { now - self.last_check_ms } else { 0 };
        if let Some(app) = &self.last_app {
            if age < self.cache_ttl_ms {
                let r = Ok(app.copy());
                assert(spec_app_lookup(*old(self), *self, now, now, r));
                return r;
            }
        }
        let r = fetch();
        let stamp = unix_time_millis();
        match r {
            Ok(app) => {
                self.last_app = Some(app.copy());
                self.last_check_ms = stamp;
                let r = Ok(app);
                assert(spec_app_lookup(*old(self), *self, now, stamp, r));
                r
            },
            Err(e) => {
                let r = Err(e);
                assert(spec_app_lookup(*old(self), *self, now, stamp, r));
                r
            },
        }
    }
}

/// Asking X11 for the active window through EWMH, which is not supported.
pub fn get_active_app_linux_ewmh() -> (r: Result<ActiveApp, AppDetectionError>)
    ensures
        r matches Err(AppDetectionError::NotAvailable(m)) && m@ == "EWMH support not yet implemented"@,
{
    Err(AppDetectionError::NotAvailable(String::from_str("EWMH support not yet implemented")))
}

/// The active application on Linux from the answers of xdotool and of the
/// EWMH fallback: the first that succeeded, or `NotAvailable` when neither
/// did.
pub fn get_active_app_linux(
    xdotool: Result<ActiveApp, AppDetectionError>,
    ewmh: Result<ActiveApp, AppDetectionError>,
) -> (r: Result<ActiveApp, AppDetectionError>)
    ensures
        xdotool is Ok ==> r == xdotool,
        xdotool is Err && ewmh is Ok ==> r == ewmh,
        xdotool is Err && ewmh is Err ==> (r matches Err(AppDetectionError::NotAvailable(m))
            && m@ == "No window detection method available (install xdotool or wmctrl)"@),
{
    if xdotool.is_ok() {
        return xdotool;
    }
    if ewmh.is_ok() {
        return ewmh;
    }
    Err(AppDetectionError::NotAvailable(String::from_str("No window detection method available (install xdotool or wmctrl)")))
}

/// The title of the active window on macOS, which is not read yet.
pub fn get_window_title_macos() -> (r: Result<String, AppDetectionError>)
    ensures
        r matches Ok(t) && t@ == "Window"@,
{
    Ok(String::from_str("Window"))
}

/// The screen-capture permission on macOS, which is not checked yet.
pub fn check_tcc_status_macos() -> (s: TCCStatus)
    ensures
        s == TCCStatus::Unknown,
{
    TCCStatus::Unknown
}

/// Kind of the last user activity.
#[derive(Debug, Clone, Copy, PartialEq, Eq, Structural)]
pub enum ActivityType {
    Keyboard,
    Mouse,
    Scroll,
    Unknown,
}

/// Idle times (milliseconds) and the kind of the last activity.
#[derive(Debug, Clone, Copy, PartialEq, Eq, Structural)]
pub struct IdleState {
    pub os_idle_ms: u64,
    pub local_idle_ms: u64,
    pub effective_idle_ms: u64,
    pub last_activity_type: ActivityType,
}

/// Tracks the time of the user's last activity in the application.
pub struct IdleDetector {
    last_activity_ms: u64,
    last_activity_type: ActivityType,
}

impl IdleDetector {
    pub closed spec fn last_activity(&self) -> u64 {
        self.last_activity_ms
    }

    pub closed spec fn activity_type(&self) -> ActivityType {
        self.last_activity_type
    }

    /// A detector whose last activity (of unknown kind) happened at `now`.
    pub fn new_at(now: u64) -> (d: Self)
        ensures
            d.last_activity() == now,
            d.activity_type() == ActivityType::Unknown,
    {
        IdleDetector { last_activity_ms: now, last_activity_type: ActivityType::Unknown }
    }

    /// A detector whose last activity (of unknown kind) happens now.
    pub fn new() -> (d: Self)
        ensures
            d.activity_type() == ActivityType::Unknown,
    {
        IdleDetector::new_at(unix_time_millis())
    }

    /// Milliseconds of inactivity at time `now`.
    pub fn local_idle_ms_at(&self, now: u64) -> (ms: u64)
        ensures
            ms == spec_age(self.last_activity(), now),
    {
        if now >= self.last_activity_ms { now - self.last_activity_ms } else { 0 }
    }

    /// Milliseconds of inactivity, reading the clock.
    pub fn local_idle_ms(&self) -> (ms: u64)
        ensures
            exists|now: u64| ms == #[trigger] spec_age(self.last_activity(), now),
    {
        self.local_idle_ms_at(unix_time_millis())
    }

    /// The idle state at `now`: the system's idle time is taken to be the
    /// application's, so the effective idle time (the smaller) is too.
    pub fn get_idle_state_at(&self, now: u64) -> (st: IdleState)
        ensures
            st.os_idle_ms == spec_age(self.last_activity(), now),
            st.local_idle_ms == spec_age(self.last_activity(), now),
            st.effective_idle_ms == spec_age(self.last_activity(), now),
            st.last_activity_type == self.activity_type(),
    {
        let local = self.local_idle_ms_at(now);
        let os = local;
        let effective = if os < local { os } else { local };
        IdleState { os_idle_ms: os, local_idle_ms: local, effective_idle_ms: effective, last_activity_type: self.last_activity_type }
    }

    /// The idle state, reading the clock.
    pub fn get_idle_state(&self) -> (st: IdleState)
        ensures
            exists|now: u64| st.effective_idle_ms == #[trigger] spec_age(self.last_activity(), now)
                && st.os_idle_ms == st.effective_idle_ms && st.local_idle_ms == st.effective_idle_ms,
            st.last_activity_type == self.activity_type(),
    {
        self.get_idle_state_at(unix_time_millis())
    }

    /// The kind of the last activity.
    pub fn last_activity_type(&self) -> (t: ActivityType)
        ensures
            t == self.activity_type(),
    {
        self.last_activity_type
    }

    /// Records an activity of the given kind at time `now`.
    pub fn reset_activity_at(&mut self, activity_type: ActivityType, now: u64)
        ensures
            final(self).last_activity() == now,
            final(self).activity_type() == activity_type,
    {
        self.last_activity_ms = now;
        self.last_activity_type = activity_type;
    }

    /// Records an activity of the given kind, reading the clock.
    pub fn reset_activity(&mut self, activity_type: ActivityType)
        ensures
            final(self).activity_type() == activity_type,
    {
        let now = unix_time_millis();
        self.reset_activity_at(activity_type, now);
    }
}

/// An answer fetched at time `now` is served from the cache at any time
/// within the cache lifetime after it.
pub proof fn lemma_cached_answer_reused(d: AppDetector, now: u64, later: u64)
    requires
        d.cached() is Some,
        d.checked_at() == now,
        now <= later,
        later - now < d.ttl(),
    ensures
        d.spec_cache_fresh(later),
{
}

/// A context captured at one instant: the active application, the recent
/// clipboard text and how long the user has been idle (in milliseconds).
#[derive(Debug)]
pub struct Context {
    pub id: String,
    pub app: ActiveApp,
    pub clipboard: Option<String>,
    pub idle_ms: u64,
    pub timestamp: u64,
    pub capture_duration_ms: u64,
}

/// Two contexts hold the same values.
pub open spec fn spec_same_context(a: Context, b: Context) -> bool {
    &&& a.id@ == b.id@
    &&& spec_same_app(a.app, b.app)
    &&& match (a.clipboard, b.clipboard) {
        (Some(x), Some(y)) => x@ == y@,
        (None, None) => true,
        _ => false,
    }
    &&& a.idle_ms == b.idle_ms
    &&& a.timestamp == b.timestamp
    &&& a.capture_duration_ms == b.capture_duration_ms
}

impl Context {
    /// A copy of the context.
    pub fn copy(&self) -> (c: Context)
        ensures
            spec_same_context(c, *self),
    {
        Context {
            id: self.id.clone(),
            app: self.app.copy(),
            clipboard: match &self.clipboard {
                Some(c) => Some(c.clone()),
                None => None,
            },
            idle_ms: self.idle_ms,
            timestamp: self.timestamp,
            capture_duration_ms: self.capture_duration_ms,
        }
    }
}

/// The process id that `xdotool getwindowpid` printed (0 when it is not a
/// number).
pub open spec fn spec_xdotool_pid(pid_out: Seq<char>) -> u32 {
    match spec_parse_u32(spec_trim(pid_out)) {
        Some(p) => p,
        None => 0,
    }
}

/// The process id in the output of `xdotool getwindowpid`.
pub fn xdotool_pid(pid_out: &str) -> (pid: u32)
    ensures
        pid == spec_xdotool_pid(pid_out@),
{
    match parse_u32(trim_str(pid_out)) {
        Some(p) => p,
        None => 0,
    }
}

/// The application described by the outputs of `xdotool getactivewindow`
/// and `getwindowname`, the process id, and the process name read from
/// `/proc/<pid>/comm` (`None` when the file could not be read): bundle
/// `linux.<window id>`, the trimmed texts, `Unknown` as the name when the
/// file could not be read. Without a process id (0), or with an empty
/// process name, no application is known and a Linux error is returned.
pub fn xdotool_app(window_id_out: &str, title_out: &str, pid: u32, comm: Option<&str>, timestamp: u64) -> (r: Result<ActiveApp, AppDetectionError>)
    ensures
        pid == 0 ==> (r matches Err(AppDetectionError::Linux(m))
            && m@ == "xdotool getwindowpid returned no process id"@),
        pid > 0 && (comm matches Some(c) && spec_trim(c@).len() == 0) ==> (r matches Err(AppDetectionError::Linux(m))
            && m@ == "the process name is empty"@),
        pid > 0 && !(comm matches Some(c) && spec_trim(c@).len() == 0) ==> (r matches Ok(app) && {
            &&& app.bundle_id@ == "linux."@ + spec_trim(window_id_out@)
            &&& app.window_title@ == spec_trim(title_out@)
            &&& app.name@ == (match comm {
                Some(c) => spec_trim(c@),
                None => "Unknown"@,
            })
            &&& app.pid == pid
            &&& app.timestamp == timestamp
            &&& app.tcc_status is None
        }),
        r matches Ok(app) ==> app.bundle_id@.len() > 0 && app.name@.len() > 0 && app.pid > 0,
{
    proof {
        reveal_strlit("linux.");
        reveal_strlit("Unknown");
    }
    if pid == 0 {
        return Err(AppDetectionError::Linux(String::from_str("xdotool getwindowpid returned no process id")));
    }
    let name = match comm {
        Some(c) => {
            let t = trim_str(c);
            proof {
                reveal_strlit("");
            }
            if str_eq(t, "") {
                return Err(AppDetectionError::Linux(String::from_str("the process name is empty")));
            }
            assert(t@.len() > 0) by {
                if t@.len() == 0 {
                    assert(t@ =~= ""@);
                }
            }
            String::from_str(t)
        },
        None => String::from_str("Unknown"),
    };
    let window_id = trim_str(window_id_out);
    let title = trim_str(title_out);
    Ok(ActiveApp {
        bundle_id: join2("linux.", window_id),
        name,
        window_title: String::from_str(title),
        pid,
        timestamp,
        tcc_status: None,
    })
}

/// Largest clipboard text taken into account, in bytes.
pub const MAX_CLIPBOARD_LENGTH: usize = 10_000;

/// Keeps the last clipboard text seen, to report only new texts.
pub struct ClipboardMonitor {
    last_content: Option<String>,
    last_update_ms: u64,
    max_length: usize,
}

/// A clipboard read at `now_ms` (`None` when reading failed): only a new text
/// within the size limit is reported and remembered.
pub open spec fn spec_clipboard_read_at(old: ClipboardMonitor, new: ClipboardMonitor, read: Option<String>, now_ms: u64, r: Option<String>) -> bool {
    &&& new.max_length() == old.max_length()
    &&& match read {
        Some(text) => if spec_byte_len(text@) > old.max_length() || old.last_content() == Some(text@) {
            &&& r is None
            &&& new.last_content() == old.last_content()
            &&& new.last_update_ms() == old.last_update_ms()
        } else {
            &&& r matches Some(t) && t@ == text@
            &&& new.last_content() == Some(text@)
            &&& new.last_update_ms() == now_ms
        },
        None => {
            &&& r is None
            &&& new.last_content() == old.last_content()
            &&& new.last_update_ms() == old.last_update_ms()
        },
    }
}

/// Milliseconds from `from_ms` to `now_ms`; 0 when `now_ms` is earlier.
pub open spec fn spec_time_since(from_ms: u64, now_ms: u64) -> int {
    if now_ms >= from_ms { now_ms - from_ms } else { 0 }
}

impl ClipboardMonitor {
    #[verifier::type_invariant]
    spec fn inv(self) -> bool {
        self.max_length == MAX_CLIPBOARD_LENGTH
    }

    /// The last text reported.
    pub closed spec fn last_content(&self) -> Option<Seq<char>> {
        match self.last_content {
            Some(t) => Some(t@),
            None => None,
        }
    }

    /// When the last text was reported.
    pub closed spec fn last_update_ms(&self) -> u64 {
        self.last_update_ms
    }

    /// Largest text reported, in bytes.
    pub closed spec fn max_length(&self) -> usize {
        self.max_length
    }

    /// A monitor that has seen nothing, made at `now_ms`.
    pub fn new_at(now_ms: u64) -> (t: Self)
        ensures
            t.last_content() is None,
            t.last_update_ms() == now_ms,
            t.max_length() == MAX_CLIPBOARD_LENGTH,
    {
        ClipboardMonitor { last_content: None, last_update_ms: now_ms, max_length: MAX_CLIPBOARD_LENGTH }
    }

    /// A monitor that has seen nothing.
    pub fn new() -> (t: Self)
        ensures
            t.last_content() is None,
            t.max_length() == MAX_CLIPBOARD_LENGTH,
    {
        Self::new_at(unix_time_millis())
    }

    /// Takes a clipboard read at `now_ms` (`None` when reading failed) and
    /// returns the text when it is new: texts over the size limit, failed
    /// reads and the text already reported give `None` and change nothing.
    pub fn get_recent_content_at(&mut self, read: Option<String>, now_ms: u64) -> (r: Option<String>)
        ensures
            spec_clipboard_read_at(*old(self), *final(self), read, now_ms, r),
            final(self).max_length() == MAX_CLIPBOARD_LENGTH,
    {
        proof {
            use_type_invariant(&*self);
        }
        match read {
            None => None,
            Some(text) => {
                if text.as_str().len() > self.max_length {
                    return None;
                }
                let same = match &self.last_content {
                    Some(last) => *last == text,
                    None => false,
                };
                if same {
                    None
                } else {
                    self.last_content = Some(text.clone());
                    self.last_update_ms = now_ms;
                    Some(text)
                }
            },
        }
    }

    /// Milliseconds from the last report (or the creation) to `now_ms`; 0
    /// when `now_ms` is earlier.
    pub fn time_since_update_at(&self, now_ms: u64) -> (ms: u64)
        ensures
            ms == spec_time_since(self.last_update_ms(), now_ms),
    {
        if now_ms >= self.last_update_ms { now_ms - self.last_update_ms } else { 0 }
    }

    /// `time_since_update_at` at the current time.
    pub fn time_since_update(&self) -> (ms: u64)
        ensures
            exists|now_ms: u64| ms == #[trigger] spec_time_since(self.last_update_ms(), now_ms),
    {
        let now = unix_time_millis();
        let ms = self.time_since_update_at(now);
        assert(ms == spec_time_since(self.last_update_ms(), now));
        ms
    }

    /// `get_recent_content_at` at the current time.
    pub fn get_recent_content(&mut self, read: Option<String>) -> (r: Option<String>)
        ensures
            exists|now_ms: u64| #[trigger] spec_clipboard_read_at(*old(self), *final(self), read, now_ms, r),
            final(self).max_length() == MAX_CLIPBOARD_LENGTH,
    {
        let now = unix_time_millis();
        self.get_recent_content_at(read, now)
    }
}

/// A light summary of the last context for the interface.
#[derive(Debug, Clone)]
pub struct ContextPreview {
    pub app_name: String,
    pub window_title: String,
    pub idle_ms: u64,
    pub session_duration_minutes: u64,
    pub recent_screenshots: usize,
    pub pending_suggestion: Option<String>,
    pub domain: Option<String>,
}

/// The preview of a context: its application and window, its idle time, a
/// session of 10 minutes when idle less than a minute (none otherwise), the
/// `code` domain, and no screenshots or pending suggestion.
pub fn context_preview(ctx: &Context) -> (p: ContextPreview)
    ensures
        p.app_name@ == ctx.app.name@,
        p.window_title@ == ctx.app.window_title@,
        p.idle_ms == ctx.idle_ms,
        p.session_duration_minutes == if ctx.idle_ms < 60000 { 10u64 } else { 0u64 },
        p.recent_screenshots == 0,
        p.pending_suggestion is None,
        p.domain matches Some(d) && d@ == "code"@,
{
    ContextPreview {
        app_name: ctx.app.name.clone(),
        window_title: ctx.app.window_title.clone(),
        idle_ms: ctx.idle_ms,
        session_duration_minutes: if ctx.idle_ms < 60000 { 10 } else { 0 },
        recent_screenshots: 0,
        pending_suggestion: None,
        domain: Some(String::from_str("code")),
    }
}

/// The kind of activity named by a word (any case): `keyboard`, `mouse`,
/// `scroll`, anything else is unknown.
pub open spec fn spec_activity_of(word: Seq<char>) -> ActivityType {
    let w = spec_to_lowercase(word);
    if w == "keyboard"@ { ActivityType::Keyboard }
    else if w == "mouse"@ { ActivityType::Mouse }
    else if w == "scroll"@ { ActivityType::Scroll }
    else { ActivityType::Unknown }
}

/// The kind of activity named by a word (see `spec_activity_of`).
pub fn activity_type_from_str(word: &str) -> (t: ActivityType)
    ensures
        t == spec_activity_of(word@),
{
    let w = to_lowercase(word);
    if str_eq(w.as_str(), "keyboard") {
        ActivityType::Keyboard
    } else if str_eq(w.as_str(), "mouse") {
        ActivityType::Mouse
    } else if str_eq(w.as_str(), "scroll") {
        ActivityType::Scroll
    } else {
        ActivityType::Unknown
    }
}

// ---------------------------------------------------------------- the aggregator

/// A quick look: the active application and the idle time.
#[derive(Debug)]
pub struct PeekResult {
    pub app: ActiveApp,
    pub idle_ms: u64,
}

/// Gathers the context from the application detector, the clipboard monitor
/// and the idle detector.
pub struct ContextAggregator {
    pub app_detector: AppDetector,
    pub clipboard_monitor: ClipboardMonitor,
    pub idle_detector: IdleDetector,
    pub last_capture_ms: Option<u64>,
}

impl ContextAggregator {
    /// Fresh detectors, made at `now` (milliseconds); no capture yet.
    pub fn new_at(now: u64) -> (a: Self)
        ensures
            a.app_detector.cached() is None,
            a.clipboard_monitor.last_content() is None,
            a.idle_detector.last_activity() == now,
            a.idle_detector.activity_type() == ActivityType::Unknown,
            a.last_capture_ms is None,
    {
        ContextAggregator {
            app_detector: AppDetector::new(),
            clipboard_monitor: ClipboardMonitor::new_at(now),
            idle_detector: IdleDetector::new_at(now),
            last_capture_ms: None,
        }
    }

    /// A quick look at `now`: the active application (see
    /// `spec_app_lookup_at`) and the idle time.
    pub fn peek_at<F: FnOnce() -> Result<ActiveApp, AppDetectionError>>(&mut self, now: u64, fetch: F) -> (r: Result<PeekResult, ContextError>)
        requires
            fetch.requires(()),
        ensures
            final(self).clipboard_monitor == old(self).clipboard_monitor,
            final(self).idle_detector == old(self).idle_detector,
            final(self).last_capture_ms == old(self).last_capture_ms,
            match r {
                Ok(p) => spec_app_lookup_at(old(self).app_detector, final(self).app_detector, now, Ok(p.app))
                    && p.idle_ms == spec_age(old(self).idle_detector.last_activity(), now),
                Err(ContextError::AppDetection(e)) => spec_app_lookup_at(old(self).app_detector, final(self).app_detector, now, Err(e)),
                Err(_) => false,
            },
    {
        match self.app_detector.get_active_app_at(now, fetch) {
            Ok(app) => Ok(PeekResult { app, idle_ms: self.idle_detector.local_idle_ms_at(now) }),
            Err(e) => Err(ContextError::AppDetection(e)),
        }
    }

    /// The full context at `now` (milliseconds): the active application
    /// (an error stops the capture), the clipboard text when new (`read` is
    /// what reading the clipboard gave), the idle time; stamped with `id`,
    /// the time in seconds and how long the capture took.
    pub fn capture_at<F: FnOnce() -> Result<ActiveApp, AppDetectionError>>(
        &mut self,
        now: u64,
        fetch: F,
        read: Option<String>,
        id: String,
        capture_duration_ms: u64,
    ) -> (r: Result<Context, ContextError>)
        requires
            fetch.requires(()),
        ensures
            final(self).idle_detector == old(self).idle_detector,
            match r {
                Ok(c) => {
                    &&& spec_app_lookup_at(old(self).app_detector, final(self).app_detector, now, Ok(c.app))
                    &&& spec_clipboard_read_at(old(self).clipboard_monitor, final(self).clipboard_monitor, read, now, c.clipboard)
                    &&& c.idle_ms == spec_age(old(self).idle_detector.last_activity(), now)
                    &&& c.id@ == id@
                    &&& c.timestamp == now / 1000
                    &&& c.capture_duration_ms == capture_duration_ms
                    &&& final(self).last_capture_ms == Some(now)
                },
                Err(ContextError::AppDetection(e)) => {
                    &&& spec_app_lookup_at(old(self).app_detector, final(self).app_detector, now, Err(e))
                    &&& final(self).clipboard_monitor == old(self).clipboard_monitor
                    &&& final(self).last_capture_ms == old(self).last_capture_ms
                },
                Err(_) => false,
            },
    {
        let app = match self.app_detector.get_active_app_at(now, fetch) {
            Ok(a) => a,
            Err(e) => {
                return Err(ContextError::AppDetection(e));
            },
        };
        let clipboard = self.clipboard_monitor.get_recent_content_at(read, now);
        let idle_ms = self.idle_detector.local_idle_ms_at(now);
        self.last_capture_ms = Some(now);
        Ok(Context { id, app, clipboard, idle_ms, timestamp: now / 1000, capture_duration_ms })
    }

    /// Records an activity of the user at `now`.
    pub fn reset_user_activity_at(&mut self, activity_type: ActivityType, now: u64)
        ensures
            final(self).idle_detector.last_activity() == now,
            final(self).idle_detector.activity_type() == activity_type,
            final(self).app_detector == old(self).app_detector,
            final(self).clipboard_monitor == old(self).clipboard_monitor,
            final(self).last_capture_ms == old(self).last_capture_ms,
    {
        self.idle_detector.reset_activity_at(activity_type, now);
    }

    /// The idle state at `now`.
    pub fn get_idle_state_at(&self, now: u64) -> (st: IdleState)
        ensures
            st.effective_idle_ms == spec_age(self.idle_detector.last_activity(), now),
            st.os_idle_ms == st.effective_idle_ms,
            st.local_idle_ms == st.effective_idle_ms,
            st.last_activity_type == self.idle_detector.activity_type(),
    {
        self.idle_detector.get_idle_state_at(now)
    }

    /// The context for a preview at `now`: the quick look, without the
    /// clipboard, stamped with `id` and the time in seconds.
    pub fn get_last_context_at<F: FnOnce() -> Result<ActiveApp, AppDetectionError>>(&mut self, now: u64, fetch: F, id: String) -> (r: Result<Context, ContextError>)
        requires
            fetch.requires(()),
        ensures
            final(self).clipboard_monitor == old(self).clipboard_monitor,
            final(self).idle_detector == old(self).idle_detector,
            final(self).last_capture_ms == old(self).last_capture_ms,
            match r {
                Ok(c) => {
                    &&& spec_app_lookup_at(old(self).app_detector, final(self).app_detector, now, Ok(c.app))
                    &&& c.clipboard is None
                    &&& c.idle_ms == spec_age(old(self).idle_detector.last_activity(), now)
                    &&& c.id@ == id@
                    &&& c.timestamp == now / 1000
                    &&& c.capture_duration_ms == 0
                },
                Err(ContextError::AppDetection(e)) => spec_app_lookup_at(old(self).app_detector, final(self).app_detector, now, Err(e)),
                Err(_) => false,
            },
    {
        let p = self.peek_at(now, fetch)?;
        Ok(Context { id, app: p.app, clipboard: None, idle_ms: p.idle_ms, timestamp: now / 1000, capture_duration_ms: 0 })
    }
}

} // verus!
