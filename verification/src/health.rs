//! Health monitoring of the assistant's components.
use vstd::prelude::*;
use crate::clock::unix_time_secs;
use crate::text::{decimal_string, join3, spec_decimal};

verus! {

/// Health of a single component.
#[derive(Debug, Clone)]
pub enum ComponentHealth {
    Healthy,
    Degraded { reason: String },
    Down { reason: String },
}

impl ComponentHealth {
    pub fn is_healthy(&self) -> (b: bool)
        ensures
            b == (*self is Healthy),
    {
        match self {
            ComponentHealth::Healthy => true,
            _ => false,
        }
    }

    pub fn is_degraded(&self) -> (b: bool)
        ensures
            b == (*self is Degraded),
    {
        match self {
            ComponentHealth::Degraded { .. } => true,
            _ => false,
        }
    }

    pub fn is_down(&self) -> (b: bool)
        ensures
            b == (*self is Down),
    {
        match self {
            ComponentHealth::Down { .. } => true,
            _ => false,
        }
    }
}

/// State of the system permissions.
#[derive(Debug, Clone, Copy, PartialEq, Eq, Structural)]
pub struct PermissionStatus {
    pub screen_capture: bool,
    pub accessibility: bool,
}

impl PermissionStatus {
    /// Whether every permission is granted.
    pub fn is_all_granted(&self) -> (b: bool)
        ensures
            b == (self.screen_capture && self.accessibility),
    {
        self.screen_capture && self.accessibility
    }
}

/// Global health report.
#[derive(Debug, Clone)]
pub struct HealthStatus {
    pub idle_detector: ComponentHealth,
    pub screenshot: ComponentHealth,
    pub permissions: PermissionStatus,
    pub timestamp: u64,
}

/// Seconds elapsed from `last_check` to `now` (none when the clock went back).
pub open spec fn spec_elapsed(last_check: u64, now: u64) -> nat {
    if now >= last_check { (now - last_check) as nat } else { 0 }
}

/// The idle detector's health given the time of the last check: healthy
/// before any check or within 2 s of it, degraded below 10 s, down after.
pub open spec fn spec_idle_detector_health_kind(last_check: u64, now: u64) -> int {
    if last_check == 0 || spec_elapsed(last_check, now) < 2 {
        0
    } else if spec_elapsed(last_check, now) < 10 {
        1
    } else {
        2
    }
}

/// Assesses the idle detector from the time of the last check and the current
/// time (both in seconds since the epoch). A degraded report reads
/// "Last check Ns ago", a down report "No check for Ns".
pub fn assess_idle_detector(last_check: u64, now: u64) -> (h: ComponentHealth)
    ensures
        spec_idle_detector_health_kind(last_check, now) == 0 ==> h is Healthy,
        spec_idle_detector_health_kind(last_check, now) == 1 ==> (h matches ComponentHealth::Degraded { reason }
            && reason@ == "Last check "@ + spec_decimal(spec_elapsed(last_check, now)) + "s ago"@),
        spec_idle_detector_health_kind(last_check, now) == 2 ==> (h matches ComponentHealth::Down { reason }
            && reason@ == "No check for "@ + spec_decimal(spec_elapsed(last_check, now)) + "s"@),
{
    let elapsed: u64 = if now >= last_check { now - last_check } else { 0 };
    if last_check == 0 || elapsed < 2 {
        ComponentHealth::Healthy
    } else if elapsed < 10 {
        let n = decimal_string(elapsed);
        ComponentHealth::Degraded { reason: join3("Last check ", n.as_str(), "s ago") }
    } else {
        let n = decimal_string(elapsed);
        ComponentHealth::Down { reason: join3("No check for ", n.as_str(), "s") }
    }
}

/// Monitors the health of the components; remembers when the last check ran.
pub struct HealthMonitor {
    last_check: u64,
}

/// A health check at `now`, the clock read again giving `later` (see `HealthMonitor::check_health_at`).
pub open spec fn spec_health_check(old: HealthMonitor, new: HealthMonitor, now: u64, later: u64, s: HealthStatus) -> bool {
    &&& new.last_check_time() == now
    &&& s.timestamp == now
    &&& s.screenshot is Healthy
    &&& s.permissions.screen_capture && s.permissions.accessibility
    &&& spec_idle_detector_health_kind(now, later) == 0 ==> s.idle_detector is Healthy
    &&& spec_idle_detector_health_kind(now, later) == 1 ==> s.idle_detector is Degraded
    &&& spec_idle_detector_health_kind(now, later) == 2 ==> s.idle_detector is Down
}

impl HealthMonitor {
    /// The time of the last check, 0 before any.
    pub closed spec fn last_check_time(&self) -> u64 {
        self.last_check
    }

    pub fn new() -> (m: Self)
        ensures
            m.last_check_time() == 0,
    {
        HealthMonitor { last_check: 0 }
    }

    /// Records that a check ran at time `now`.
    pub fn record_check(&mut self, now: u64)
        ensures
            final(self).last_check_time() == now,
    {
        self.last_check = now;
    }

    /// Records that a check runs now, reading the clock, and returns the
    /// time read (in seconds since the epoch).
    pub fn update_check(&mut self) -> (now: u64)
        ensures
            final(self).last_check_time() == now,
    {
        let now = unix_time_secs();
        self.record_check(now);
        now
    }

    /// The time of the last check, 0 before any.
    pub fn get_last_check(&self) -> (t: u64)
        ensures
            t == self.last_check_time(),
    {
        self.last_check
    }

    /// The screenshot system's health (no probe exists yet: healthy).
    pub fn check_screenshot(&self) -> (h: ComponentHealth)
        ensures
            h is Healthy,
    {
        ComponentHealth::Healthy
    }

    /// Screen-capture permission (no probe exists yet: granted).
    pub fn check_screen_capture_permission(&self) -> (b: bool)
        ensures
            b,
    {
        true
    }

    /// Accessibility permission (no probe exists yet: granted).
    pub fn check_accessibility_permission(&self) -> (b: bool)
        ensures
            b,
    {
        true
    }

    /// The permissions state.
    pub fn check_permissions(&self) -> (p: PermissionStatus)
        ensures
            p.screen_capture && p.accessibility,
    {
        PermissionStatus {
            screen_capture: self.check_screen_capture_permission(),
            accessibility: self.check_accessibility_permission(),
        }
    }

    /// Runs a check at time `now` and assesses the idle detector at time
    /// `later` (the clock is read twice).
    pub fn check_health_at(&mut self, now: u64, later: u64) -> (s: HealthStatus)
        ensures
            spec_health_check(*old(self), *final(self), now, later, s),
    {
        self.record_check(now);
        let idle = assess_idle_detector(self.get_last_check(), later);
        HealthStatus {
            idle_detector: idle,
            screenshot: self.check_screenshot(),
            permissions: self.check_permissions(),
            timestamp: self.get_last_check(),
        }
    }

    /// Runs a full health check, reading the clock.
    pub fn check_health(&mut self) -> (s: HealthStatus)
        ensures
            exists|now: u64, later: u64| #[trigger] spec_health_check(*old(self), *final(self), now, later, s),
    {
        let now = unix_time_secs();
        let later = unix_time_secs();
        self.check_health_at(now, later)
    }
}

} // verus!
