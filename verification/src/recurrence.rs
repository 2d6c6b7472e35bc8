//! Recurring tasks: the next due date of a rule, and the next occurrence
//! that completing a recurring task spawns.
use crate::calendar::{
    add_days_ymd, calendar_ok, day_number, days_in_month, lemma_add_days,
    lemma_add_days_valid_prefix, lemma_next_ymd, lemma_weekday_add_days, valid_ymd, weekday_of,
    Date, MAX_YEAR,
};
use crate::models::{
    clone_opt_rule, clone_opt_string, unix_epoch_day, RecurrenceRule, SyncState, Task, Timestamp,
};
use crate::parser::days_until_weekday;
use chrono::Datelike;
use vstd::prelude::*;

verus! {

/// The month after that of `c`, as year and month.
pub open spec fn following_month(c: (int, int, int)) -> (int, int) {
    if c.1 + 1 > 12 {
        (c.0 + 1, 1)
    } else {
        (c.0, c.1 + 1)
    }
}

/// The next due date after `c` under a rule: the next day (daily and custom
/// rules), the next day of the rule's weekday, or the rule's day in the
/// following month, capped at that month's last day; where the following
/// month lies outside chrono's range, thirty days later.
pub open spec fn next_due_spec(c: (int, int, int), rule: RecurrenceRule) -> (int, int, int) {
    match rule {
        RecurrenceRule::Daily => add_days_ymd(c, 1),
        RecurrenceRule::Weekly(wd) => add_days_ymd(
            c,
            days_until_weekday(weekday_of(c), wd.index()) as nat,
        ),
        RecurrenceRule::Monthly(day) => {
            let (y, m) = following_month(c);
            if valid_ymd((y, m, 1)) {
                (y, m, if (day as int) < days_in_month(y, m) {
                    day as int
                } else {
                    days_in_month(y, m)
                })
            } else {
                add_days_ymd(c, 30)
            }
        },
        RecurrenceRule::Custom(_) => add_days_ymd(c, 1),
    }
}

/// The rule yields a date in chrono's range without the computation running
/// out of it (a monthly rule also names a day of at least 1).
pub open spec fn next_due_defined(c: (int, int, int), rule: RecurrenceRule) -> bool {
    match rule {
        RecurrenceRule::Daily => valid_ymd(add_days_ymd(c, 1)),
        RecurrenceRule::Weekly(wd) => valid_ymd(
            add_days_ymd(c, days_until_weekday(weekday_of(c), wd.index()) as nat),
        ),
        RecurrenceRule::Monthly(day) => day >= 1 && ({
            let (y, m) = following_month(c);
            valid_ymd((y, m, 1)) || valid_ymd(add_days_ymd(c, 30))
        }),
        RecurrenceRule::Custom(_) => valid_ymd(add_days_ymd(c, 1)),
    }
}

/// Calculates the next occurrence date from the current due date and the
/// recurrence rule.
pub fn compute_next_due_date(current_due: Date, rule: &RecurrenceRule) -> (r: Date)
    requires
        next_due_defined(current_due.ymd(), *rule),
    ensures
        r.ymd() == next_due_spec(current_due.ymd(), *rule),
{
    current_due.lemma_valid();
    match rule {
        RecurrenceRule::Daily => current_due.checked_add_days(1).unwrap(),
        RecurrenceRule::Weekly(wd) => {
            let cur = current_due.weekday().num_days_from_monday();
            let target = wd.num_days_from_monday();
            let k = ((target + 6 - cur) % 7) + 1;
            current_due.checked_add_days(k).unwrap()
        },
        RecurrenceRule::Monthly(day) => {
            let mut year = current_due.year();
            let mut month = current_due.month() + 1;
            if month > 12 {
                month = 1;
                year = year + 1;
            }
            let ghost ym = following_month(current_due.ymd());
            assert(ym == (year as int, month as int));
            let mut target_day = *day;
            loop
                invariant
                    1 <= target_day <= *day,
                    ym == (year as int, month as int),
                    ym == following_month(current_due.ymd()),
                    valid_ymd(current_due.ymd()),
                    next_due_defined(current_due.ymd(), *rule),
                    *rule == RecurrenceRule::Monthly(*day),
                    forall|t: int|
                        target_day < t <= *day ==> !valid_ymd((year as int, month as int, t)),
                decreases target_day,
            {
                match Date::from_ymd_opt(year, month, target_day) {
                    Some(d) => {
                        assert(valid_ymd((ym.0, ym.1, 1)));
                        if target_day < *day {
                            assert(!valid_ymd((ym.0, ym.1, target_day + 1)));
                        }
                        return d;
                    },
                    None => {},
                }
                target_day = target_day - 1;
                if target_day == 0 {
                    assert(!valid_ymd((ym.0, ym.1, 1)));
                    assert(valid_ymd(current_due.plus_days(30)));
                    return current_due.checked_add_days(30).unwrap();
                }
            }
        },
        RecurrenceRule::Custom(_) => current_due.checked_add_days(1).unwrap(),
    }
}

/// The next due date always lies strictly after the current one.
pub proof fn lemma_next_due_is_later(c: (int, int, int), rule: RecurrenceRule)
    requires
        valid_ymd(c),
        next_due_defined(c, rule),
    ensures
        day_number(next_due_spec(c, rule)) > day_number(c),
{
    match rule {
        RecurrenceRule::Weekly(wd) => {
            lemma_add_days(c, days_until_weekday(weekday_of(c), wd.index()) as nat);
        },
        RecurrenceRule::Monthly(day) => {
            let (y, m) = following_month(c);
            if valid_ymd((y, m, 1)) {
                let last = (c.0, c.1, days_in_month(c.0, c.1));
                lemma_next_ymd(last);
                assert(next_ymd_is(last, (y, m, 1)));
            } else {
                lemma_add_days(c, 30);
            }
        },
        _ => {
            lemma_add_days(c, 1);
        },
    }
}

spec fn next_ymd_is(a: (int, int, int), b: (int, int, int)) -> bool {
    crate::calendar::next_ymd(a) == b
}

/// A weekly rule lands on its weekday within the next seven days.
pub proof fn lemma_weekly_lands_on_weekday(c: (int, int, int), wd: crate::calendar::Weekday)
    requires
        valid_ymd(c),
    ensures
        weekday_of(next_due_spec(c, RecurrenceRule::Weekly(wd))) == wd.index(),
        day_number(c) < day_number(next_due_spec(c, RecurrenceRule::Weekly(wd))) <= day_number(c)
            + 7,
{
    let k = days_until_weekday(weekday_of(c), wd.index());
    lemma_weekday_add_days(c, k as nat);
    lemma_add_days(c, k as nat);
}

/// A monthly rule lands in the following month, on its day or on that
/// month's last day where the month is shorter.
pub proof fn lemma_monthly_lands_in_following_month(c: (int, int, int), day: u32)
    requires
        valid_ymd(c),
        day >= 1,
        valid_ymd((following_month(c).0, following_month(c).1, 1)),
    ensures
        ({
            let r = next_due_spec(c, RecurrenceRule::Monthly(day));
            &&& (r.0, r.1) == following_month(c)
            &&& r.2 <= day
            &&& (r.2 < day ==> r.2 == days_in_month(r.0, r.1))
            &&& valid_ymd(r)
        }),
{
}

/// The date of an instant in UTC.
pub open spec fn utc_day_number(t: Timestamp) -> int {
    t.seconds() / 86400 + unix_epoch_day()
}

/// chrono's `DateTime::date_naive` of a UTC instant; it claims the calendar
/// date whose day number is that of the instant.
#[verifier::external_body]
fn chrono_utc_date(secs: i64, nanos: u32) -> (r: (i32, u32, u32))
    requires
        crate::models::instant_ok(secs as int, nanos as int),
    ensures
        valid_ymd(crate::calendar::ymd_of(r)),
        day_number(crate::calendar::ymd_of(r)) == secs as int / 86400 + unix_epoch_day(),
{
    let d = chrono::DateTime::from_timestamp(secs, nanos).expect("instant in range").date_naive();
    (d.year(), d.month(), d.day())
}

/// The date of an instant in UTC.
pub fn utc_date(t: &Timestamp) -> (r: Date)
    ensures
        day_number(r.ymd()) == utc_day_number(*t),
{
    let secs = t.timestamp();
    let nanos = t.timestamp_subsec_nanos();
    let (y, m, d) = chrono_utc_date(secs, nanos);
    Date::from_ymd_opt(y, m, d).unwrap()
}

/// The due date from which a completed task's next occurrence counts: its
/// own, or the UTC date of `now` where it has none.
pub open spec fn base_due_matches(task: Task, now: Timestamp, base: (int, int, int)) -> bool {
    match task.due_date {
        Some(d) => base == d.ymd(),
        None => calendar_ok(base) && day_number(base) == utc_day_number(now),
    }
}

/// `n` is the next occurrence of the completed recurring task `task`: a
/// fresh pending copy with the same list, title, notes, reminder, parent and
/// rule, not yet on Google, not completed, not starred, created at `now`.
pub open spec fn is_next_occurrence(n: Task, task: Task, now: Timestamp) -> bool {
    &&& n.google_id is None
    &&& n.list_id == task.list_id
    &&& n.title == task.title
    &&& n.notes == task.notes
    &&& n.status@ == "needsAction"@
    &&& n.reminder_time == task.reminder_time
    &&& n.parent_id == task.parent_id
    &&& n.position is None
    &&& n.completed_at is None
    &&& n.updated_at == now
    &&& n.google_updated_at is None
    &&& n.sync_state == SyncState::Pending
    &&& !n.is_deleted
    &&& n.recurrence_rule == task.recurrence_rule
    &&& !n.starred
}

/// The task is completed and has a recurrence rule.
pub open spec fn spawns_next(task: Task) -> bool {
    task.status@ == "completed"@ && task.recurrence_rule is Some
}

/// The next occurrence that completing `task` spawns, with the given id and
/// creation instant, or `None` where the task is not completed or does not
/// recur.
pub fn next_occurrence(task: &Task, id: String, now: Timestamp) -> (r: Option<Task>)
    requires
        spawns_next(*task) ==> (forall|base: (int, int, int)|
            base_due_matches(*task, now, base) ==> next_due_defined(
                base,
                task.recurrence_rule->0,
            )),
    ensures
        r is Some <==> spawns_next(*task),
        r matches Some(n) ==> {
            &&& n.due_date matches Some(d) && (exists|base: (int, int, int)|
                base_due_matches(*task, now, base) && d.ymd() == next_due_spec(
                    base,
                    task.recurrence_rule->0,
                ))
            &&& n.id == id
            &&& is_next_occurrence(n, *task, now)
        },
{
    if !task.is_completed() {
        return None;
    }
    let rule = match &task.recurrence_rule {
        Some(r) => r,
        None => return None,
    };
    let current_due = match task.due_date {
        Some(d) => d,
        None => utc_date(&now),
    };
    current_due.lemma_valid();
    proof {
        assert(base_due_matches(*task, now, current_due.ymd()));
    }
    let next_due = compute_next_due_date(current_due, rule);
    let t = Task {
        id: id,
        google_id: None,
        list_id: task.list_id.clone(),
        title: task.title.clone(),
        notes: clone_opt_string(&task.notes),
        status: String::from_str("needsAction"),
        due_date: Some(next_due),
        reminder_time: task.reminder_time,
        parent_id: clone_opt_string(&task.parent_id),
        position: None,
        completed_at: None,
        updated_at: now,
        google_updated_at: None,
        sync_state: SyncState::Pending,
        is_deleted: false,
        recurrence_rule: Some(rule.clone_rule()),
        starred: false,
    };
    Some(t)
}

/// A fresh random task id (a version 4 UUID in its hyphenated form).
#[verifier::external_body]
fn new_task_id() -> (r: String)
    ensures
        r@.len() == 36,
{
    uuid::Uuid::new_v4().to_string()
}

/// Checks whether a task is recurring and completed; if so, gives its next
/// occurrence under a fresh id, created at `now`, for the caller to store.
pub fn handle_recurring_task_completion(task: &Task, now: Timestamp) -> (r: Option<Task>)
    requires
        spawns_next(*task) ==> (forall|base: (int, int, int)|
            base_due_matches(*task, now, base) ==> next_due_defined(
                base,
                task.recurrence_rule->0,
            )),
    ensures
        r is Some <==> spawns_next(*task),
        r matches Some(n) ==> {
            &&& n.id@.len() == 36
            &&& n.due_date matches Some(d) && (exists|base: (int, int, int)|
                base_due_matches(*task, now, base) && d.ymd() == next_due_spec(
                    base,
                    task.recurrence_rule->0,
                ))
            &&& is_next_occurrence(n, *task, now)
        },
{
    if !spawns_next_exec(task) {
        return None;
    }
    let id = new_task_id();
    next_occurrence(task, id, now)
}

fn spawns_next_exec(task: &Task) -> (r: bool)
    ensures
        r == spawns_next(*task),
{
    task.is_completed() && task.recurrence_rule.is_some()
}

} // verus!
