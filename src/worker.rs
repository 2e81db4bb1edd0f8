//! The loop of the background worker of a repeating schedule, as decisions.
//!
//! The worker's context performs each order and answers with a signal: it
//! checks the cancellation channel, runs a copy, notifies, sleeps (a sleep
//! that a cancellation interrupts), or reports and notifies a failure. A failed copy ends
//! the schedule; a cancellation seen at a check or during a sleep ends it too.
use vstd::prelude::*;

verus! {

#[derive(Clone, Copy, Debug, PartialEq, Eq, Structural)]
pub enum Phase {
    /// Look for a cancellation before starting a copy.
    Check,
    /// Copy the source tree.
    Copy,
    /// Tell the user that the copy succeeded.
    Notify,
    /// Wait for one period, or until cancelled.
    Sleep,
    /// Surface the copy's error to the user.
    Report,
    /// Tell the user, through the notifier, that the copy failed.
    NotifyFailure,
    /// Ended by a cancellation.
    Stopped,
    /// Ended by a failed copy.
    Failed,
}

/// The answer to the last order.
#[derive(Clone, Copy, Debug, PartialEq, Eq, Structural)]
pub enum Signal {
    /// No cancellation was found, the sleep ran out, or the notice was given.
    Proceed,
    /// A cancellation was found, before a copy or during the sleep.
    Cancelled,
    CopySucceeded,
    CopyFailed,
}

/// What the worker's context is to do now.
#[derive(Clone, Copy, Debug, PartialEq, Eq, Structural)]
pub enum Order {
    CheckCancel,
    RunCopy,
    NotifySuccess,
    Sleep { secs: u64 },
    ReportFailure,
    NotifyFailure,
    Exit,
}

pub open spec fn next_phase(p: Phase, s: Signal) -> Phase {
    match (p, s) {
        (Phase::Check, Signal::Proceed) => Phase::Copy,
        (Phase::Check, Signal::Cancelled) => Phase::Stopped,
        (Phase::Copy, Signal::CopySucceeded) => Phase::Notify,
        (Phase::Copy, Signal::CopyFailed) => Phase::Report,
        (Phase::Notify, Signal::Proceed) => Phase::Sleep,
        (Phase::Sleep, Signal::Proceed) => Phase::Check,
        (Phase::Sleep, Signal::Cancelled) => Phase::Stopped,
        (Phase::Report, Signal::Proceed) => Phase::NotifyFailure,
        (Phase::NotifyFailure, Signal::Proceed) => Phase::Failed,
        _ => p,
    }
}

pub open spec fn order_for(p: Phase, period_secs: u64) -> Order {
    match p {
        Phase::Check => Order::CheckCancel,
        Phase::Copy => Order::RunCopy,
        Phase::Notify => Order::NotifySuccess,
        Phase::Sleep => Order::Sleep { secs: period_secs },
        Phase::Report => Order::ReportFailure,
        Phase::NotifyFailure => Order::NotifyFailure,
        Phase::Stopped => Order::Exit,
        Phase::Failed => Order::Exit,
    }
}

/// The phase reached from `p` after the signals `ss`, in order.
pub open spec fn run_phases(p: Phase, ss: Seq<Signal>) -> Phase
    decreases ss.len(),
{
    if ss.len() == 0 {
        p
    } else {
        run_phases(next_phase(p, ss[0]), ss.drop_first())
    }
}

/// How many copies are started from `p` along the signals `ss`.
pub open spec fn copies_started(p: Phase, ss: Seq<Signal>) -> nat
    decreases ss.len(),
{
    if ss.len() == 0 {
        0
    } else {
        let q = next_phase(p, ss[0]);
        (if p == Phase::Check && q == Phase::Copy {
            1nat
        } else {
            0nat
        }) + copies_started(q, ss.drop_first())
    }
}

/// Every check and every sleep along `ss` finds the cancellation, as they do
/// once it has been sent.
pub open spec fn sees_cancel(p: Phase, ss: Seq<Signal>) -> bool
    decreases ss.len(),
{
    ss.len() == 0 || ((p == Phase::Check || p == Phase::Sleep ==> ss[0] == Signal::Cancelled)
        && sees_cancel(next_phase(p, ss[0]), ss.drop_first()))
}

pub struct Worker {
    pub period_secs: u64,
    pub phase: Phase,
}

impl Worker {
    /// A worker for a period of `interval_hours`, about to check for a
    /// cancellation before its first copy.
    pub fn new(interval_hours: u32) -> (r: Worker)
        ensures
            r.period_secs == interval_hours * 3600,
            r.phase == Phase::Check,
    {
        Worker { period_secs: interval_hours as u64 * 3600, phase: Phase::Check }
    }

    pub fn order(&self) -> (r: Order)
        ensures
            r == order_for(self.phase, self.period_secs),
    {
        match self.phase {
            Phase::Check => Order::CheckCancel,
            Phase::Copy => Order::RunCopy,
            Phase::Notify => Order::NotifySuccess,
            Phase::Sleep => Order::Sleep { secs: self.period_secs },
            Phase::Report => Order::ReportFailure,
            Phase::NotifyFailure => Order::NotifyFailure,
            Phase::Stopped => Order::Exit,
            Phase::Failed => Order::Exit,
        }
    }

    pub fn advance(&mut self, s: Signal)
        ensures
            final(self).phase == next_phase(old(self).phase, s),
            final(self).period_secs == old(self).period_secs,
    {
        self.phase = match (self.phase, s) {
            (Phase::Check, Signal::Proceed) => Phase::Copy,
            (Phase::Check, Signal::Cancelled) => Phase::Stopped,
            (Phase::Copy, Signal::CopySucceeded) => Phase::Notify,
            (Phase::Copy, Signal::CopyFailed) => Phase::Report,
            (Phase::Notify, Signal::Proceed) => Phase::Sleep,
            (Phase::Sleep, Signal::Proceed) => Phase::Check,
            (Phase::Sleep, Signal::Cancelled) => Phase::Stopped,
            (Phase::Report, Signal::Proceed) => Phase::NotifyFailure,
            (Phase::NotifyFailure, Signal::Proceed) => Phase::Failed,
            (p, _) => p,
        };
    }

    pub fn is_done(&self) -> (r: bool)
        ensures
            r == (self.phase == Phase::Stopped || self.phase == Phase::Failed),
    {
        self.phase == Phase::Stopped || self.phase == Phase::Failed
    }
}

/// Once the cancellation has been sent, so that every later check and sleep
/// finds it, the worker starts no further copy; a copy already under way may
/// still finish.
pub proof fn lemma_no_copy_after_cancel(p: Phase, ss: Seq<Signal>)
    requires
        sees_cancel(p, ss),
    ensures
        copies_started(p, ss) == 0,
    decreases ss.len(),
{
    if ss.len() > 0 {
        lemma_no_copy_after_cancel(next_phase(p, ss[0]), ss.drop_first());
    }
}

/// The worker never leaves an end phase, and asks only to exit there.
pub proof fn lemma_end_is_final(p: Phase, ss: Seq<Signal>, period_secs: u64)
    requires
        p == Phase::Stopped || p == Phase::Failed,
    ensures
        run_phases(p, ss) == p,
        copies_started(p, ss) == 0,
        order_for(p, period_secs) == Order::Exit,
    decreases ss.len(),
{
    if ss.len() > 0 {
        lemma_end_is_final(p, ss.drop_first(), period_secs);
    }
}

/// A failed copy ends the schedule: the failure is reported, then notified,
/// and the worker exits and starts no further copy.
pub proof fn lemma_failure_ends_schedule(ss: Seq<Signal>)
    ensures
        next_phase(Phase::Copy, Signal::CopyFailed) == Phase::Report,
        order_for(Phase::Report, 0) == Order::ReportFailure,
        next_phase(Phase::Report, Signal::Proceed) == Phase::NotifyFailure,
        order_for(Phase::NotifyFailure, 0) == Order::NotifyFailure,
        next_phase(Phase::NotifyFailure, Signal::Proceed) == Phase::Failed,
        copies_started(Phase::Failed, ss) == 0,
{
    lemma_end_is_final(Phase::Failed, ss, 0);
}

} // verus!
