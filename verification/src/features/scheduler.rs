//! Scheduled tasks with one-second resolution.
//!
//! - `Once(time)` fires once per process lifetime, on the first check within
//!   one second of the target time of day.
//! - `Daily(time)` fires once per calendar day, tracked by the last date it
//!   fired.
//! - `Interval { every_secs }` fires every `every_secs` seconds, tracked per
//!   task by the monotonic time of its last firing.
//!
//! Times of day are seconds past midnight; dates are day numbers.
use vstd::prelude::*;
use std::time::Instant;
use crate::clock::{instant_now, local_now_parts, micros_since};

verus! {

/// Seconds in a day.
pub const DAY_SECS: u32 = 86_400;

/// What a scheduled task does when it fires.
#[derive(Clone, Debug)]
pub enum ScheduledAction {
    Screenshot,
    StartRecording,
    StopRecording,
    RunMacro(String),
    RunScript(String),
    Webhook(String),
}

/// When a task fires. Times of day are seconds past midnight.
#[derive(Clone, Copy, Debug)]
pub enum Schedule {
    Once(u32),
    Interval { every_secs: u64 },
    Daily(u32),
}

/// A named task with its schedule and firing record.
#[derive(Clone, Debug)]
pub struct ScheduledTask {
    pub name: String,
    pub action: ScheduledAction,
    pub schedule: Schedule,
    pub enabled: bool,
    /// Day number on which a `Daily` task last fired.
    pub last_fired_date: Option<i32>,
    /// Whether a `Once` task has fired.
    pub once_fired: bool,
    /// Monotonic time (microseconds) of the last `Interval` firing.
    pub last_fired_us: Option<u64>,
}

/// The same action: same variant and same text.
pub open spec fn same_action(a: ScheduledAction, b: ScheduledAction) -> bool {
    match (a, b) {
        (ScheduledAction::Screenshot, ScheduledAction::Screenshot) => true,
        (ScheduledAction::StartRecording, ScheduledAction::StartRecording) => true,
        (ScheduledAction::StopRecording, ScheduledAction::StopRecording) => true,
        (ScheduledAction::RunMacro(x), ScheduledAction::RunMacro(y)) => x@ == y@,
        (ScheduledAction::RunScript(x), ScheduledAction::RunScript(y)) => x@ == y@,
        (ScheduledAction::Webhook(x), ScheduledAction::Webhook(y)) => x@ == y@,
        _ => false,
    }
}

/// `now` is within one second of `target` on the 24-hour clock, counting
/// across midnight.
pub open spec fn within_window(now: int, target: int) -> bool {
    let d = if now >= target { now - target } else { target - now };
    let wrapped = 86400 - d;
    (if d <= wrapped { d } else { wrapped }) <= 1
}

/// The moment a check is made: time of day, day number, monotonic time.
#[derive(Clone, Copy, Debug)]
pub struct Moment {
    pub secs_of_day: u32,
    pub day: i32,
    pub mono_us: u64,
}

/// Whether task `t` fires at moment `m`.
pub open spec fn fires(t: ScheduledTask, m: Moment) -> bool {
    t.enabled && match t.schedule {
        Schedule::Once(time) => !t.once_fired && within_window(m.secs_of_day as int, time as int),
        Schedule::Daily(time) => t.last_fired_date != Some(m.day) && within_window(m.secs_of_day as int, time as int),
        Schedule::Interval { every_secs } => match t.last_fired_us {
            None => true,
            Some(last) => (if m.mono_us >= last { m.mono_us - last } else { 0 }) / 1_000_000 >= every_secs,
        },
    }
}

/// Task `t` after a check at moment `m`: its firing record updated if it
/// fired, unchanged otherwise.
pub open spec fn after_check(t: ScheduledTask, m: Moment) -> ScheduledTask {
    if fires(t, m) {
        match t.schedule {
            Schedule::Once(_) => ScheduledTask { once_fired: true, ..t },
            Schedule::Daily(_) => ScheduledTask { last_fired_date: Some(m.day), ..t },
            Schedule::Interval { .. } => ScheduledTask { last_fired_us: Some(m.mono_us), ..t },
        }
    } else {
        t
    }
}

/// Indices, in order, of the first `n` tasks that fire at `m`.
pub open spec fn firing(tasks: Seq<ScheduledTask>, m: Moment, n: nat) -> Seq<int>
    decreases n,
{
    if n == 0 {
        Seq::empty()
    } else {
        let prev = firing(tasks, m, (n - 1) as nat);
        if fires(tasks[n - 1], m) {
            prev.push(n - 1)
        } else {
            prev
        }
    }
}

/// A check at `m` turned `before` into `after` and returned `due`: every
/// task's record is updated, and `due` holds the actions of the firing
/// tasks, in task order.
pub open spec fn check_outcome(before: Seq<ScheduledTask>, after: Seq<ScheduledTask>, due: Seq<ScheduledAction>, m: Moment) -> bool {
    let f = firing(before, m, before.len());
    &&& after.len() == before.len()
    &&& forall|i: int| 0 <= i < before.len() ==> #[trigger] after[i] == after_check(before[i], m)
    &&& due.len() == f.len()
    &&& forall|k: int| 0 <= k < f.len() ==> #[trigger] same_action(due[k], before[f[k]].action)
}

/// The firing indices are increasing positions of firing tasks.
proof fn lemma_firing_props(tasks: Seq<ScheduledTask>, m: Moment, n: nat)
    requires
        n <= tasks.len(),
    ensures
        firing(tasks, m, n).len() <= n,
        forall|k: int| 0 <= k < firing(tasks, m, n).len() ==> 0 <= #[trigger] firing(tasks, m, n)[k] < n,
    decreases n,
{
    if n > 0 {
        lemma_firing_props(tasks, m, (n - 1) as nat);
    }
}

/// `now` is within one second of `target` on the 24-hour clock.
pub fn within_one_second(now: u32, target: u32) -> (r: bool)
    ensures
        r == within_window(now as int, target as int),
{
    let n = now as i64;
    let t = target as i64;
    let d = if n >= t { n - t } else { t - n };
    let wrapped = 86_400i64 - d;
    let m = if d <= wrapped { d } else { wrapped };
    m <= 1
}

/// A copy of an action.
fn copy_action(a: &ScheduledAction) -> (r: ScheduledAction)
    ensures
        same_action(r, *a),
{
    match a {
        ScheduledAction::Screenshot => ScheduledAction::Screenshot,
        ScheduledAction::StartRecording => ScheduledAction::StartRecording,
        ScheduledAction::StopRecording => ScheduledAction::StopRecording,
        ScheduledAction::RunMacro(s) => ScheduledAction::RunMacro(s.clone()),
        ScheduledAction::RunScript(s) => ScheduledAction::RunScript(s.clone()),
        ScheduledAction::Webhook(s) => ScheduledAction::Webhook(s.clone()),
    }
}

impl ScheduledTask {
    /// An enabled task that has never fired.
    pub fn new(name: String, action: ScheduledAction, schedule: Schedule) -> (t: Self)
        ensures
            t.name == name,
            t.action == action,
            t.schedule == schedule,
            t.enabled,
            t.last_fired_date is None,
            !t.once_fired,
            t.last_fired_us is None,
    {
        ScheduledTask { name, action, schedule, enabled: true, last_fired_date: None, once_fired: false, last_fired_us: None }
    }
}

/// The tasks and the start of the scheduler's monotonic clock.
pub struct Scheduler {
    tasks: Vec<ScheduledTask>,
    epoch: Instant,
}

impl Scheduler {
    /// The scheduler's tasks, in the order they were added.
    pub closed spec fn spec_tasks(&self) -> Seq<ScheduledTask> {
        self.tasks@
    }

    /// A scheduler without tasks.
    pub fn new() -> (s: Self)
        ensures
            s.spec_tasks() == Seq::<ScheduledTask>::empty(),
    {
        Scheduler { tasks: Vec::new(), epoch: instant_now() }
    }

    /// Add a task at the end.
    pub fn add(&mut self, task: ScheduledTask)
        ensures
            final(self).spec_tasks() == old(self).spec_tasks().push(task),
    {
        self.tasks.push(task);
    }

    /// The tasks.
    pub fn tasks(&self) -> (t: &[ScheduledTask])
        ensures
            t@ == self.spec_tasks(),
    {
        self.tasks.as_slice()
    }

    /// Check every task at moment `m`: return the actions of the tasks that
    /// fire, in task order, and record the firings.
    pub fn check_at(&mut self, m: Moment) -> (due: Vec<ScheduledAction>)
        ensures
            check_outcome(old(self).spec_tasks(), final(self).spec_tasks(), due@, m),
    {
        let ghost before = self.tasks@;
        let mut due: Vec<ScheduledAction> = Vec::new();
        let mut i: usize = 0;
        while i < self.tasks.len()
            invariant
                before.len() == self.tasks@.len(),
                i <= before.len(),
                forall|j: int| 0 <= j < i ==> #[trigger] self.tasks@[j] == after_check(before[j], m),
                forall|j: int| i <= j < before.len() ==> #[trigger] self.tasks@[j] == before[j],
                due@.len() == firing(before, m, i as nat).len(),
                forall|k: int|
                    0 <= k < firing(before, m, i as nat).len() ==> #[trigger] same_action(due@[k], before[firing(before, m, i as nat)[k]].action),
            decreases before.len() - i,
        {
            proof {
                lemma_firing_props(before, m, i as nat);
            }
            let fire = if !self.tasks[i].enabled {
                false
            } else {
                match self.tasks[i].schedule {
                    Schedule::Once(time) => !self.tasks[i].once_fired && within_one_second(m.secs_of_day, time),
                    Schedule::Daily(time) => {
                        let fired_today = match self.tasks[i].last_fired_date {
                            Some(d) => d == m.day,
                            None => false,
                        };
                        !fired_today && within_one_second(m.secs_of_day, time)
                    },
                    Schedule::Interval { every_secs } => match self.tasks[i].last_fired_us {
                        None => true,
                        Some(last) => {
                            let elapsed = if m.mono_us >= last { m.mono_us - last } else { 0 };
                            elapsed / 1_000_000 >= every_secs
                        },
                    },
                }
            };
            proof {
                assert(fire == fires(before[i as int], m));
            }
            if fire {
                let a = copy_action(&self.tasks[i].action);
                due.push(a);
                match self.tasks[i].schedule {
                    Schedule::Once(_) => {
                        self.tasks[i].once_fired = true;
                    },
                    Schedule::Daily(_) => {
                        self.tasks[i].last_fired_date = Some(m.day);
                    },
                    Schedule::Interval { .. } => {
                        self.tasks[i].last_fired_us = Some(m.mono_us);
                    },
                }
            }
            proof {
                let f = firing(before, m, (i + 1) as nat);
                assert forall|k: int| 0 <= k < f.len() implies #[trigger] same_action(due@[k], before[f[k]].action) by {
                    if k < firing(before, m, i as nat).len() {
                        assert(f[k] == firing(before, m, i as nat)[k]);
                    }
                }
            }
            i = i + 1;
        }
        due
    }

    /// Check every task now: the time of day and date from the local clock,
    /// the monotonic time since the scheduler was made. Returns the actions
    /// of the tasks that fire, as `check_at` does for that moment.
    pub fn check(&mut self) -> (due: Vec<ScheduledAction>)
        ensures
            exists|m: Moment| m.secs_of_day < 86400 && check_outcome(old(self).spec_tasks(), final(self).spec_tasks(), due@, m),
    {
        let (secs, day) = local_now_parts();
        let mono = micros_since(&self.epoch);
        let m = Moment { secs_of_day: secs, day, mono_us: mono };
        self.check_at(m)
    }
}

/// The one-second window is symmetric: `a` is near `b` exactly when `b` is
/// near `a`.
pub proof fn lemma_window_symmetric(a: int, b: int)
    ensures
        within_window(a, b) == within_window(b, a),
{
}

/// A `Once` task fires at most once: after a check in which it fired, no
/// later check fires it.
pub proof fn lemma_once_fires_at_most_once(t: ScheduledTask, m1: Moment, m2: Moment)
    requires
        t.schedule is Once,
        fires(t, m1),
    ensures
        !fires(after_check(t, m1), m2),
{
}

/// A `Daily` task fires at most once per day: after it fired on a day, no
/// other check on that day fires it.
pub proof fn lemma_daily_once_per_day(t: ScheduledTask, m1: Moment, m2: Moment)
    requires
        t.schedule is Daily,
        fires(t, m1),
        m2.day == m1.day,
    ensures
        !fires(after_check(t, m1), m2),
{
}

/// An `Interval` task does not fire again before its interval has passed,
/// and does once it has.
pub proof fn lemma_interval_spacing(t: ScheduledTask, m1: Moment, m2: Moment, every: u64)
    requires
        t.schedule == (Schedule::Interval { every_secs: every }),
        t.enabled,
        fires(t, m1),
        m2.mono_us >= m1.mono_us,
    ensures
        fires(after_check(t, m1), m2) == ((m2.mono_us - m1.mono_us) / 1_000_000 >= every),
{
}

/// Task `t` after checks at the moments `ms`, in order.
pub open spec fn task_after(t: ScheduledTask, ms: Seq<Moment>) -> ScheduledTask
    decreases ms.len(),
{
    if ms.len() == 0 {
        t
    } else {
        after_check(task_after(t, ms.drop_last()), ms.last())
    }
}

/// Whether task `t` fires at the `i`-th of the checks at `ms`.
pub open spec fn fires_at(t: ScheduledTask, ms: Seq<Moment>, i: int) -> bool {
    fires(task_after(t, ms.take(i)), ms[i])
}

/// Checks change only a task's firing record.
proof fn lemma_task_after_keeps(t: ScheduledTask, ms: Seq<Moment>)
    ensures
        task_after(t, ms).enabled == t.enabled,
        task_after(t, ms).schedule == t.schedule,
    decreases ms.len(),
{
    if ms.len() > 0 {
        lemma_task_after_keeps(t, ms.drop_last());
    }
}

proof fn lemma_take_step(ms: Seq<Moment>, k: int)
    requires
        0 <= k < ms.len(),
    ensures
        task_after_step(ms, k),
{
    assert(ms.take(k + 1).drop_last() =~= ms.take(k));
}

spec fn task_after_step(ms: Seq<Moment>, k: int) -> bool {
    &&& ms.take(k + 1).drop_last() == ms.take(k)
    &&& ms.take(k + 1).last() == ms[k]
}

/// Checks compose: if a task stood as `t` after the checks at `ms`, then
/// after one more check at `m` (any moment a call of `check` reads) it
/// stands as `t` after the checks at `ms` followed by `m`, and it fired at
/// that check exactly when `fires_at` says so. So the laws below, stated
/// over any sequence of moments, hold of repeated calls of `check`.
pub proof fn lemma_checks_compose(t: ScheduledTask, ms: Seq<Moment>, m: Moment)
    ensures
        task_after(t, ms.push(m)) == after_check(task_after(t, ms), m),
        fires_at(t, ms.push(m), ms.len() as int) == fires(task_after(t, ms), m),
{
    assert(ms.push(m).drop_last() =~= ms);
    assert(ms.push(m).take(ms.len() as int) =~= ms);
}

/// A disabled task never fires, whatever checks are made.
pub proof fn lemma_disabled_never_fires(t: ScheduledTask, ms: Seq<Moment>, i: int)
    requires
        !t.enabled,
        0 <= i < ms.len(),
    ensures
        !fires_at(t, ms, i),
{
    lemma_task_after_keeps(t, ms.take(i));
}

/// Once a `Once` task has fired at check `i`, it stays marked as fired.
proof fn lemma_once_stays_fired(t: ScheduledTask, ms: Seq<Moment>, i: int, k: int)
    requires
        t.schedule is Once,
        0 <= i < k <= ms.len(),
        fires_at(t, ms, i),
    ensures
        task_after(t, ms.take(k)).once_fired,
    decreases k - i,
{
    lemma_take_step(ms, k - 1);
    if k > i + 1 {
        lemma_once_stays_fired(t, ms, i, k - 1);
    } else {
        lemma_task_after_keeps(t, ms.take(i));
    }
}

/// Over any run of checks a `Once` task fires at most once: after the
/// check at which it fired, no later check fires it.
pub proof fn lemma_once_fires_once_over_checks(t: ScheduledTask, ms: Seq<Moment>, i: int, j: int)
    requires
        t.schedule is Once,
        0 <= i < j < ms.len(),
        fires_at(t, ms, i),
    ensures
        !fires_at(t, ms, j),
{
    lemma_once_stays_fired(t, ms, i, j);
    lemma_task_after_keeps(t, ms.take(j));
}

/// After a `Daily` task fired at check `i`, its record keeps that date
/// through the later checks on the same date.
proof fn lemma_daily_keeps_date(t: ScheduledTask, ms: Seq<Moment>, i: int, k: int)
    requires
        t.schedule is Daily,
        forall|a: int, b: int| 0 <= a <= b < ms.len() ==> ms[a].day <= ms[b].day,
        0 <= i < k <= ms.len(),
        ms[k - 1].day == ms[i].day,
        fires_at(t, ms, i),
    ensures
        task_after(t, ms.take(k)).last_fired_date == Some(ms[i].day),
    decreases k - i,
{
    lemma_take_step(ms, k - 1);
    if k > i + 1 {
        assert(ms[i].day <= ms[k - 2].day <= ms[k - 1].day);
        lemma_daily_keeps_date(t, ms, i, k - 1);
        lemma_task_after_keeps(t, ms.take(k - 1));
    } else {
        lemma_task_after_keeps(t, ms.take(i));
    }
}

/// With the calendar never going back, a `Daily` task fires at most once
/// per date: after it fired, no later check on the same date fires it.
pub proof fn lemma_daily_once_per_date_over_checks(t: ScheduledTask, ms: Seq<Moment>, i: int, j: int)
    requires
        t.schedule is Daily,
        forall|a: int, b: int| 0 <= a <= b < ms.len() ==> ms[a].day <= ms[b].day,
        0 <= i < j < ms.len(),
        ms[j].day == ms[i].day,
        fires_at(t, ms, i),
    ensures
        !fires_at(t, ms, j),
{
    assert(ms[i].day <= ms[j - 1].day <= ms[j].day);
    lemma_daily_keeps_date(t, ms, i, j);
    lemma_task_after_keeps(t, ms.take(j));
}

/// After an `Interval` task fired at check `i`, its last firing time lies
/// between that check's and the latest check's monotonic times.
proof fn lemma_interval_last_fire(t: ScheduledTask, ms: Seq<Moment>, i: int, k: int)
    requires
        t.schedule is Interval,
        forall|a: int, b: int| 0 <= a <= b < ms.len() ==> ms[a].mono_us <= ms[b].mono_us,
        0 <= i < k <= ms.len(),
        fires_at(t, ms, i),
    ensures
        task_after(t, ms.take(k)).last_fired_us matches Some(x) && ms[i].mono_us <= x <= ms[k - 1].mono_us,
    decreases k - i,
{
    lemma_take_step(ms, k - 1);
    if k > i + 1 {
        lemma_interval_last_fire(t, ms, i, k - 1);
        lemma_task_after_keeps(t, ms.take(k - 1));
        assert(ms[k - 2].mono_us <= ms[k - 1].mono_us);
    } else {
        lemma_task_after_keeps(t, ms.take(i));
    }
}

/// With the monotonic clock never going back, two firings of an
/// `Interval` task are at least its interval apart.
pub proof fn lemma_interval_spacing_over_checks(t: ScheduledTask, ms: Seq<Moment>, i: int, j: int, every: u64)
    requires
        t.schedule == (Schedule::Interval { every_secs: every }),
        forall|a: int, b: int| 0 <= a <= b < ms.len() ==> ms[a].mono_us <= ms[b].mono_us,
        0 <= i < j < ms.len(),
        fires_at(t, ms, i),
        fires_at(t, ms, j),
    ensures
        (ms[j].mono_us - ms[i].mono_us) / 1_000_000 >= every,
{
    lemma_interval_last_fire(t, ms, i, j);
    lemma_task_after_keeps(t, ms.take(j));
    let x = task_after(t, ms.take(j)).last_fired_us->0;
    assert(ms[j - 1].mono_us <= ms[j].mono_us);
    assert((ms[j].mono_us - x) / 1_000_000 <= (ms[j].mono_us - ms[i].mono_us) / 1_000_000) by (nonlinear_arith)
        requires
            ms[i].mono_us <= x <= ms[j].mono_us,
    ;
}

/// An enabled `Interval` task fires at the first check.
pub proof fn lemma_interval_fires_first(t: ScheduledTask, ms: Seq<Moment>)
    requires
        t.enabled,
        t.schedule is Interval,
        t.last_fired_us is None,
        ms.len() > 0,
    ensures
        fires_at(t, ms, 0),
{
    assert(ms.take(0) =~= Seq::<Moment>::empty());
}

/// A `Once` or `Daily` task fires only within one second of its time of
/// day, on the 24-hour clock: the check's time and the target are at most
/// one second apart, or at least 86,399 seconds apart (across midnight).
pub proof fn lemma_timed_tasks_fire_near_their_time(t: ScheduledTask, m: Moment, time: u32)
    requires
        t.schedule == Schedule::Once(time) || t.schedule == Schedule::Daily(time),
        fires(t, m),
    ensures
        ({
            let d = if m.secs_of_day >= time { m.secs_of_day - time } else { time - m.secs_of_day };
            d <= 1 || d >= 86_399
        }),
{
}

/// An enabled `Daily` task that has not fired on the check's day fires when
/// checked within one second of its time (on the 24-hour clock), and an
/// enabled `Once` task that has not fired does too.
pub proof fn lemma_timed_tasks_fire_when_due(t: ScheduledTask, m: Moment, time: u32)
    requires
        t.enabled,
        (t.schedule == Schedule::Daily(time) && t.last_fired_date != Some(m.day)) || (t.schedule == Schedule::Once(time)
            && !t.once_fired),
        ({
            let d = if m.secs_of_day >= time { m.secs_of_day - time } else { time - m.secs_of_day };
            d <= 1 || (d >= 86_399 && d <= 86_401)
        }),
    ensures
        fires(t, m),
{
}

/// A `Daily` task checked on a day it already fired on does not fire, and a
/// disabled task never fires.
pub proof fn lemma_daily_not_twice_a_day(t: ScheduledTask, m: Moment, time: u32)
    requires
        t.schedule == Schedule::Daily(time),
        t.last_fired_date == Some(m.day) || !t.enabled,
    ensures
        !fires(t, m),
{
}

} // verus!
