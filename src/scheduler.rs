//! When backups run: one-shot or repeating schedules, start and stop, and the
//! countdown to the next run.
//!
//! The scheduler owns only its decisions. Whoever holds it performs what they
//! ask for (run a copy now, spawn or cancel the background worker).
use vstd::prelude::*;

verus! {

pub const SECONDS_PER_HOUR: u64 = 3600;

/// What a press of the start control asks for.
#[derive(Clone, Copy, Debug, PartialEq, Eq, Structural)]
pub enum StartAction {
    /// Nothing: a source or destination directory is missing.
    Ignored,
    /// Copy once, now, on the calling context.
    RunOnce,
    /// Spawn a worker that copies every `period_secs` seconds.
    SpawnWorker { period_secs: u64 },
    /// The schedule was active: cancel its worker.
    StopWorker,
}

/// Time left until the next run, for display.
#[derive(Clone, Copy, Debug, PartialEq, Eq, Structural)]
pub struct Countdown {
    pub hours: u64,
    pub minutes: u64,
    pub seconds: u64,
}

pub open spec fn countdown_total(c: Countdown) -> int {
    c.hours * 3600 + c.minutes * 60 + c.seconds
}

pub open spec fn period_secs(hours: u32) -> int {
    hours * 3600
}

/// Seconds from `last` to `now`; none when the clock reads earlier than `last`.
pub open spec fn elapsed(last: u64, now: u64) -> int {
    if now >= last {
        now - last
    } else {
        0
    }
}

/// What is left of a period of `hours` started at `last`, seen at `now`.
pub open spec fn remaining_secs(hours: u32, last: u64, now: u64) -> int {
    period_secs(hours) - elapsed(last, now)
}

pub struct SchedulerView {
    pub interval_hours: u32,
    pub active: bool,
    pub last_run_at: Option<u64>,
}

/// Whether the countdown starts a new period at `now`: none was started yet,
/// or the current one has run out.
pub open spec fn rearms(v: SchedulerView, now: u64) -> bool {
    match v.last_run_at {
        None => true,
        Some(last) => elapsed(last, now) >= period_secs(v.interval_hours),
    }
}

/// The seconds that the countdown shows at `now`.
pub open spec fn countdown_secs(v: SchedulerView, now: u64) -> int {
    match v.last_run_at {
        Some(last) if !rearms(v, now) => remaining_secs(v.interval_hours, last, now),
        _ => period_secs(v.interval_hours),
    }
}

/// The scheduling state: the interval in hours (0 means one backup per start,
/// no repetition), whether a repeating schedule is active, and the reference
/// point of its countdown in seconds of a monotonic clock.
pub struct Scheduler {
    interval_hours: u32,
    active: bool,
    last_run_at: Option<u64>,
}

impl View for Scheduler {
    type V = SchedulerView;

    closed spec fn view(&self) -> SchedulerView {
        SchedulerView {
            interval_hours: self.interval_hours,
            active: self.active,
            last_run_at: self.last_run_at,
        }
    }
}

impl Scheduler {
    /// Only a repeating schedule is ever active.
    pub open spec fn wf(&self) -> bool {
        self@.active ==> self@.interval_hours > 0
    }

    pub fn new(interval_hours: u32) -> (r: Scheduler)
        ensures
            r.wf(),
            r@ == (SchedulerView { interval_hours, active: false, last_run_at: None }),
    {
        Scheduler { interval_hours, active: false, last_run_at: None }
    }

    pub fn interval_hours(&self) -> (r: u32)
        ensures
            r == self@.interval_hours,
    {
        self.interval_hours
    }

    pub fn is_active(&self) -> (r: bool)
        ensures
            r == self@.active,
    {
        self.active
    }

    pub fn last_run_at(&self) -> (r: Option<u64>)
        ensures
            r == self@.last_run_at,
    {
        self.last_run_at
    }

    /// The start control. It toggles: while a schedule is active it stops it.
    /// Otherwise, with both directories chosen, an interval of 0 asks for one
    /// copy now and leaves the schedule inactive; a positive interval makes the
    /// schedule active, starts its countdown at `now` and asks for a worker.
    pub fn press_start(&mut self, paths_set: bool, now: u64) -> (r: StartAction)
        requires
            old(self).wf(),
        ensures
            final(self).wf(),
            old(self)@.active ==> r == StartAction::StopWorker && final(self)@ == (SchedulerView {
                active: false,
                ..old(self)@
            }),
            !old(self)@.active && !paths_set ==> r == StartAction::Ignored && final(self)@ == old(
                self,
            )@,
            !old(self)@.active && paths_set && old(self)@.interval_hours == 0 ==> r
                == StartAction::RunOnce && final(self)@ == old(self)@,
            !old(self)@.active && paths_set && old(self)@.interval_hours > 0 ==> r
                == (StartAction::SpawnWorker {
                period_secs: period_secs(old(self)@.interval_hours) as u64,
            }) && final(self)@ == (SchedulerView {
                interval_hours: old(self)@.interval_hours,
                active: true,
                last_run_at: Some(now),
            }),
    {
        if self.active {
            self.active = false;
            StartAction::StopWorker
        } else if !paths_set {
            StartAction::Ignored
        } else if self.interval_hours == 0 {
            StartAction::RunOnce
        } else {
            self.active = true;
            self.last_run_at = Some(now);
            StartAction::SpawnWorker { period_secs: self.interval_hours as u64 * SECONDS_PER_HOUR }
        }
    }

    /// Stops the schedule. Returns whether it was active, that is whether a
    /// worker is to be cancelled.
    pub fn stop(&mut self) -> (r: bool)
        requires
            old(self).wf(),
        ensures
            final(self).wf(),
            r == old(self)@.active,
            final(self)@ == (SchedulerView { active: false, ..old(self)@ }),
    {
        let was = self.active;
        self.active = false;
        was
    }

    /// A scheduled run failed: the schedule ends. Returns whether it was
    /// active.
    pub fn run_failed(&mut self) -> (r: bool)
        requires
            old(self).wf(),
        ensures
            final(self).wf(),
            r == old(self)@.active,
            final(self)@ == (SchedulerView { active: false, ..old(self)@ }),
    {
        self.stop()
    }

    /// Changes the interval. The countdown is not restarted; an interval of 0
    /// stops an active schedule. Returns whether a worker is to be cancelled.
    pub fn set_interval(&mut self, hours: u32) -> (r: bool)
        requires
            old(self).wf(),
        ensures
            final(self).wf(),
            r == (hours == 0 && old(self)@.active),
            final(self)@ == (SchedulerView {
                interval_hours: hours,
                active: old(self)@.active && hours != 0,
                last_run_at: old(self)@.last_run_at,
            }),
    {
        self.interval_hours = hours;
        if hours == 0 && self.active {
            self.active = false;
            true
        } else {
            false
        }
    }

    /// The time left until the next run, seen at `now`. Where no countdown
    /// was started, or the interval has run out, it restarts at `now` and a
    /// full interval is left.
    pub fn time_remaining(&mut self, now: u64) -> (r: Countdown)
        ensures
            countdown_total(r) == countdown_secs(old(self)@, now),
            r.minutes < 60,
            r.seconds < 60,
            final(self)@ == (SchedulerView {
                last_run_at: if rearms(old(self)@, now) {
                    Some(now)
                } else {
                    old(self)@.last_run_at
                },
                ..old(self)@
            }),
    {
        let period: u64 = self.interval_hours as u64 * SECONDS_PER_HOUR;
        let left: u64 = match self.last_run_at {
            None => {
                self.last_run_at = Some(now);
                period
            },
            Some(last) => {
                let gone: u64 = if now >= last {
                    now - last
                } else {
                    0
                };
                if gone >= period {
                    self.last_run_at = Some(now);
                    period
                } else {
                    period - gone
                }
            },
        };
        let hours = left / SECONDS_PER_HOUR;
        let minutes = (left % SECONDS_PER_HOUR) / 60;
        let seconds = left % 60;
        assert(left == hours * 3600 + minutes * 60 + seconds) by (nonlinear_arith)
            requires
                hours == left / 3600,
                minutes == (left % 3600) / 60,
                seconds == left % 60,
        ;
        Countdown { hours, minutes, seconds }
    }
}

/// The countdown never shows a negative time.
pub proof fn lemma_countdown_never_negative(v: SchedulerView, now: u64)
    ensures
        countdown_secs(v, now) >= 0,
{
}

/// At a fixed reference point the countdown falls strictly as time passes,
/// until the interval runs out and it re-arms.
pub proof fn lemma_countdown_falls(v: SchedulerView, t1: u64, t2: u64)
    requires
        v.last_run_at.is_some(),
        v.last_run_at.unwrap() <= t1 < t2,
        !rearms(v, t2),
    ensures
        !rearms(v, t1),
        0 < countdown_secs(v, t2) < countdown_secs(v, t1),
{
}

} // verus!
