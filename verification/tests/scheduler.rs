use chrono::{NaiveTime, Timelike};
use ios_remote::features::scheduler::{
    within_one_second, Moment, Schedule, ScheduledAction, ScheduledTask, Scheduler,
};

fn secs(h: u32, m: u32, s: u32) -> u32 {
    NaiveTime::from_hms_opt(h, m, s).unwrap().num_seconds_from_midnight()
}

fn at(secs_of_day: u32, day: i32, mono_us: u64) -> Moment {
    Moment { secs_of_day, day, mono_us }
}

#[test]
fn one_second_window_wraps_midnight() {
    let a = secs(23, 59, 59);
    let b = secs(0, 0, 0);
    assert!(within_one_second(a, b));
    assert!(within_one_second(b, a));
    assert!(!within_one_second(secs(12, 0, 0), secs(12, 0, 2)));
}

#[test]
fn once_fires_at_most_once() {
    let mut s = Scheduler::new();
    let t = secs(8, 30, 0);
    s.add(ScheduledTask::new("once".to_string(), ScheduledAction::Screenshot, Schedule::Once(t)));
    assert_eq!(s.check_at(at(t, 1, 0)).len(), 1);
    assert_eq!(s.check_at(at(t, 2, 5_000_000)).len(), 0);
}

#[test]
fn daily_fires_only_once_per_day() {
    let mut s = Scheduler::new();
    let t = secs(8, 30, 0);
    s.add(ScheduledTask::new("daily".to_string(), ScheduledAction::Screenshot, Schedule::Daily(t)));
    let first = s.check_at(at(t, 100, 0));
    let second = s.check_at(at(t + 1, 100, 1_000_000));
    assert_eq!(first.len(), 1);
    assert_eq!(second.len(), 0);
    assert_eq!(s.check_at(at(t, 101, 2_000_000)).len(), 1);
}

#[test]
fn interval_respects_every_secs() {
    let mut s = Scheduler::new();
    s.add(ScheduledTask::new(
        "every".to_string(),
        ScheduledAction::Screenshot,
        Schedule::Interval { every_secs: 60 },
    ));
    assert_eq!(s.check_at(at(0, 1, 0)).len(), 1);
    assert_eq!(s.check_at(at(1, 1, 1_000_000)).len(), 0);
    assert_eq!(s.check_at(at(120, 1, 120_000_000)).len(), 1);
}

#[test]
fn due_actions_keep_task_order_and_skip_disabled() {
    let mut s = Scheduler::new();
    let mut off = ScheduledTask::new("off".to_string(), ScheduledAction::StopRecording, Schedule::Interval { every_secs: 0 });
    off.enabled = false;
    s.add(ScheduledTask::new("a".to_string(), ScheduledAction::RunMacro("m".to_string()), Schedule::Interval { every_secs: 0 }));
    s.add(off);
    s.add(ScheduledTask::new("b".to_string(), ScheduledAction::Webhook("u".to_string()), Schedule::Interval { every_secs: 0 }));
    let due = s.check_at(at(0, 1, 0));
    assert_eq!(due.len(), 2);
    assert!(matches!(&due[0], ScheduledAction::RunMacro(m) if m == "m"));
    assert!(matches!(&due[1], ScheduledAction::Webhook(u) if u == "u"));
    assert_eq!(s.tasks().len(), 3);
}

#[test]
fn check_reads_the_clock() {
    let mut s = Scheduler::new();
    s.add(ScheduledTask::new("i".to_string(), ScheduledAction::Screenshot, Schedule::Interval { every_secs: 3600 }));
    assert_eq!(s.check().len(), 1);
    assert_eq!(s.check().len(), 0);
}
