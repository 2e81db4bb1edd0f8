use rustcraft::scheduler::{Countdown, Scheduler, StartAction};
use rustcraft::stamp::{folder_name, local_now, Stamp};
use rustcraft::worker::{Order, Phase, Signal, Worker};

fn stamp(year: i32, month: u32, day: u32, hour: u32, minute: u32, second: u32) -> Stamp {
    Stamp { year, month, day, hour, minute, second }
}

#[test]
fn folder_name_is_zero_padded() {
    assert_eq!(folder_name(&stamp(2024, 3, 5, 7, 8, 9)), "05.03.2024 07.08.09");
    assert_eq!(folder_name(&stamp(999, 12, 31, 23, 59, 59)), "31.12.0999 23.59.59");
    assert_eq!(folder_name(&stamp(2024, 2, 29, 0, 0, 0)), "29.02.2024 00.00.00");
}

#[test]
fn runs_a_second_apart_get_distinct_folders() {
    let a = folder_name(&stamp(2024, 3, 5, 7, 8, 9));
    let b = folder_name(&stamp(2024, 3, 5, 7, 8, 10));
    assert_ne!(a, b);
}

#[test]
fn local_now_is_a_valid_stamp() {
    let s = local_now();
    assert!((1..=12).contains(&s.month));
    assert!((1..=31).contains(&s.day));
    assert!(s.hour < 24 && s.minute < 60 && s.second < 60);
    assert_eq!(folder_name(&s).len(), 19);
}

#[test]
fn one_shot_never_activates() {
    let mut s = Scheduler::new(0);
    assert_eq!(s.press_start(true, 10), StartAction::RunOnce);
    assert!(!s.is_active());
    assert_eq!(s.press_start(true, 20), StartAction::RunOnce);
    assert!(!s.is_active());
    assert_eq!(s.last_run_at(), None);
}

#[test]
fn repeating_schedule_stays_active_until_stopped() {
    let mut s = Scheduler::new(2);
    assert_eq!(s.press_start(true, 100), StartAction::SpawnWorker { period_secs: 7200 });
    assert!(s.is_active());
    assert_eq!(s.last_run_at(), Some(100));
    s.time_remaining(200);
    assert!(s.is_active());
    assert!(!s.set_interval(3));
    assert!(s.is_active());
    assert!(s.stop());
    assert!(!s.is_active());
    assert!(!s.stop());
}

#[test]
fn pressing_start_again_stops() {
    let mut s = Scheduler::new(1);
    s.press_start(true, 0);
    assert_eq!(s.press_start(true, 5), StartAction::StopWorker);
    assert!(!s.is_active());
}

#[test]
fn failed_run_ends_schedule() {
    let mut s = Scheduler::new(1);
    s.press_start(true, 0);
    assert!(s.run_failed());
    assert!(!s.is_active());
}

#[test]
fn missing_paths_ignore_start() {
    let mut s = Scheduler::new(1);
    assert_eq!(s.press_start(false, 0), StartAction::Ignored);
    assert!(!s.is_active());
}

#[test]
fn interval_zero_stops_active_schedule() {
    let mut s = Scheduler::new(4);
    s.press_start(true, 0);
    assert!(s.set_interval(0));
    assert!(!s.is_active());
    assert_eq!(s.interval_hours(), 0);
}

#[test]
fn countdown_values() {
    let mut s = Scheduler::new(1);
    s.press_start(true, 1000);
    assert_eq!(s.time_remaining(1000), Countdown { hours: 1, minutes: 0, seconds: 0 });
    assert_eq!(s.time_remaining(1001), Countdown { hours: 0, minutes: 59, seconds: 59 });
    assert_eq!(s.time_remaining(1000 + 3599), Countdown { hours: 0, minutes: 0, seconds: 1 });
    assert_eq!(s.last_run_at(), Some(1000));
    // the interval has run out: the countdown re-arms at now
    assert_eq!(s.time_remaining(1000 + 3600), Countdown { hours: 1, minutes: 0, seconds: 0 });
    assert_eq!(s.last_run_at(), Some(4600));
    // a clock reading earlier than the reference point counts as no time passed
    assert_eq!(s.time_remaining(10), Countdown { hours: 1, minutes: 0, seconds: 0 });
}

#[test]
fn countdown_falls_strictly() {
    let mut s = Scheduler::new(3);
    s.press_start(true, 0);
    let mut last = u64::MAX;
    for t in [1u64, 50, 3000, 9000, 10799] {
        let c = s.time_remaining(t);
        let total = c.hours * 3600 + c.minutes * 60 + c.seconds;
        assert!(total < last);
        last = total;
    }
}

#[test]
fn countdown_starts_when_unset() {
    let mut s = Scheduler::new(5);
    assert_eq!(s.time_remaining(42), Countdown { hours: 5, minutes: 0, seconds: 0 });
    assert_eq!(s.last_run_at(), Some(42));
}

#[test]
fn stop_before_sleep_allows_one_copy_only() {
    let mut s = Scheduler::new(1);
    let action = s.press_start(true, 0);
    let mut w = match action {
        StartAction::SpawnWorker { period_secs } => {
            assert_eq!(period_secs, 3600);
            Worker::new(1)
        }
        _ => panic!("expected a worker"),
    };
    let mut copies = 0;
    let mut cancelled = false;
    let mut steps = 0;
    while !w.is_done() && steps < 50 {
        steps += 1;
        let signal = match w.order() {
            Order::CheckCancel => {
                if cancelled {
                    Signal::Cancelled
                } else {
                    Signal::Proceed
                }
            }
            Order::RunCopy => {
                copies += 1;
                // the stop arrives while the first copy runs
                cancelled = s.stop();
                Signal::CopySucceeded
            }
            Order::NotifySuccess => Signal::Proceed,
            Order::Sleep { secs } => {
                assert_eq!(secs, 3600);
                if cancelled {
                    Signal::Cancelled
                } else {
                    Signal::Proceed
                }
            }
            Order::ReportFailure | Order::NotifyFailure => Signal::Proceed,
            Order::Exit => break,
        };
        w.advance(signal);
    }
    assert_eq!(copies, 1);
    assert_eq!(w.phase, Phase::Stopped);
    assert_eq!(w.order(), Order::Exit);
}

#[test]
fn worker_exits_after_failed_copy() {
    let mut w = Worker::new(2);
    assert_eq!(w.order(), Order::CheckCancel);
    w.advance(Signal::Proceed);
    assert_eq!(w.order(), Order::RunCopy);
    w.advance(Signal::CopyFailed);
    assert_eq!(w.order(), Order::ReportFailure);
    w.advance(Signal::Proceed);
    assert_eq!(w.order(), Order::NotifyFailure);
    w.advance(Signal::Proceed);
    assert_eq!(w.phase, Phase::Failed);
    assert!(w.is_done());
    w.advance(Signal::Proceed);
    assert_eq!(w.order(), Order::Exit);
}

#[test]
fn worker_repeats_after_success() {
    let mut w = Worker::new(2);
    w.advance(Signal::Proceed);
    w.advance(Signal::CopySucceeded);
    assert_eq!(w.order(), Order::NotifySuccess);
    w.advance(Signal::Proceed);
    assert_eq!(w.order(), Order::Sleep { secs: 7200 });
    w.advance(Signal::Proceed);
    assert_eq!(w.order(), Order::CheckCancel);
    w.advance(Signal::Cancelled);
    assert_eq!(w.phase, Phase::Stopped);
}
