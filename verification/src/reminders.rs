//! The reminder decisions of the background service: which reminders are
//! due at a given time of day, and remembering which were shown so that
//! each shows at most once a day.
use crate::calendar::{chrono_formatted_date, chrono_parsed_time, parse_time_str, Date, Time};
use crate::text::{chars_of, eq_str};
use crate::ui::{id_views, same_string};
use vstd::prelude::*;

verus! {

/// A task with a reminder today.
#[derive(Debug)]
pub struct ReminderTask {
    pub id: String,
    pub title: String,
    pub reminder_time: Time,
}

/// A stored task as the reminder service reads it.
#[derive(Debug)]
pub struct ReminderRow {
    pub id: String,
    pub title: String,
    /// `HH:MM:SS`, where the task has a reminder.
    pub reminder_time: Option<String>,
    /// `YYYY-MM-DD`, where the task has a due date.
    pub due_date: Option<String>,
    pub status: String,
    pub is_deleted: bool,
}

/// The reminder time a stored task has on `today`: the task is due on
/// `today` (its stored date is `today` written `%Y-%m-%d`), open, not
/// deleted, and its reminder time reads as `%H:%M:%S`.
pub open spec fn row_reminder(r: ReminderRow, today: Date) -> Option<(int, int, int)> {
    match (r.reminder_time, r.due_date) {
        (Some(rt), Some(d)) => if d@ == chrono_formatted_date(today.ymd(), "%Y-%m-%d"@) && r.status@
            == "needsAction"@ && !r.is_deleted {
            match chrono_parsed_time(rt@, "%H:%M:%S"@) {
                Some(p) => Some((p.0 as int, p.1 as int, p.2 as int)),
                None => None,
            }
        } else {
            None
        },
        _ => None,
    }
}

/// The reminder of a stored task on `today`, if it has one then.
pub fn reminder_from_row(row: ReminderRow, today: &Date) -> (r: Option<ReminderTask>)
    ensures
        r is Some <==> row_reminder(row, *today) is Some,
        r matches Some(t) ==> t.id == row.id && t.title == row.title && Some(t.reminder_time.hms())
            == row_reminder(row, *today),
{
    let ReminderRow { id, title, reminder_time, due_date, status, is_deleted } = row;
    let (rt, d) = match (reminder_time, due_date) {
        (Some(rt), Some(d)) => (rt, d),
        _ => return None,
    };
    let today_text = today.format("%Y-%m-%d");
    let open = eq_str(&chars_of(status.as_str()), "needsAction");
    if !same_string(&d, &today_text) || !open || is_deleted {
        return None;
    }
    match parse_time_str(&chars_of(rt.as_str()), "%H:%M:%S") {
        Some(t) => Some(ReminderTask { id, title, reminder_time: t }),
        None => None,
    }
}

/// Times of day in clock order: `a` is not later than `b`.
pub open spec fn hms_le(a: (int, int, int), b: (int, int, int)) -> bool {
    a.0 < b.0 || (a.0 == b.0 && (a.1 < b.1 || (a.1 == b.1 && a.2 <= b.2)))
}

/// What the reminder service remembers: the day it is on and the reminders
/// it has shown that day.
#[derive(Debug)]
pub struct ReminderState {
    notified: Vec<String>,
    current_date: Date,
}

/// The reminder `t` is shown at `now`: its time has come and it was not
/// shown yet.
pub open spec fn shows(notified: Seq<Seq<char>>, t: ReminderTask, now: (int, int, int)) -> bool {
    hms_le(t.reminder_time.hms(), now) && !notified.contains(t.id@)
}

impl ReminderState {
    /// The ids of the reminders shown on the current day.
    pub closed spec fn shown(&self) -> Seq<Seq<char>> {
        id_views(self.notified@)
    }

    /// The current day.
    pub closed spec fn day(&self) -> (int, int, int) {
        self.current_date.ymd()
    }

    /// Nothing shown yet, on `today`.
    pub fn new(today: Date) -> (r: ReminderState)
        ensures
            r.shown().len() == 0,
            r.day() == today.ymd(),
    {
        let r = ReminderState { notified: Vec::new(), current_date: today };
        proof {
            assert(id_views(r.notified@) =~= Seq::<Seq<char>>::empty());
        }
        r
    }

    /// Moves to `today`: on a new day everything may show again.
    pub fn roll_day(&mut self, today: Date) -> (changed: bool)
        ensures
            changed == (today.ymd() != old(self).day()),
            changed ==> final(self).shown().len() == 0 && final(self).day() == today.ymd(),
            !changed ==> final(self).shown() == old(self).shown() && final(self).day() == old(
                self,
            ).day(),
    {
        let same = today.year() == self.current_date.year() && today.month()
            == self.current_date.month() && today.day() == self.current_date.day();
        if same {
            false
        } else {
            self.notified = Vec::new();
            self.current_date = today;
            proof {
                assert(id_views(self.notified@) =~= Seq::<Seq<char>>::empty());
            }
            true
        }
    }

    /// Whether the reminder `id` was shown today.
    pub fn was_shown(&self, id: &String) -> (r: bool)
        ensures
            r == self.shown().contains(id@),
    {
        let ghost ids = id_views(self.notified@);
        let mut i: usize = 0;
        while i < self.notified.len()
            invariant
                i <= self.notified@.len(),
                ids == id_views(self.notified@),
                forall|j: int| 0 <= j < i ==> ids[j] != id@,
            decreases self.notified.len() - i,
        {
            if same_string(&self.notified[i], id) {
                assert(ids[i as int] == id@);
                return true;
            }
            assert(ids[i as int] == self.notified@[i as int]@);
            i += 1;
        }
        false
    }

    /// The reminders of `candidates` to show at the time of day `now`, in
    /// their order.
    pub fn due_reminders(&self, candidates: &Vec<ReminderTask>, now: Time) -> (r: Vec<usize>)
        ensures
            r@ == Seq::new(candidates@.len(), |i: int| i as usize).filter(
                |i: usize| shows(self.shown(), candidates@[i as int], now.hms()),
            ),
    {
        let ghost all = Seq::new(candidates@.len(), |i: int| i as usize);
        let ghost f = |i: usize| shows(self.shown(), candidates@[i as int], now.hms());
        let mut out: Vec<usize> = Vec::new();
        let mut i: usize = 0;
        proof {
            reveal(Seq::filter);
            assert(all.take(0).filter(f) =~= Seq::<usize>::empty());
        }
        while i < candidates.len()
            invariant
                i <= candidates@.len(),
                all == Seq::new(candidates@.len(), |i: int| i as usize),
                f == (|i: usize| shows(self.shown(), candidates@[i as int], now.hms())),
                out@ == all.take(i as int).filter(f),
            decreases candidates.len() - i,
        {
            let c = &candidates[i];
            let h: u32 = now.hour();
            let m: u32 = now.minute();
            let s: u32 = now.second();
            let rh: u32 = c.reminder_time.hour();
            let rm: u32 = c.reminder_time.minute();
            let rs: u32 = c.reminder_time.second();
            let time_come = rh < h || (rh == h && (rm < m || (rm == m && rs <= s)));
            let keep = time_come && !self.was_shown(&c.id);
            proof {
                reveal(Seq::filter);
                assert(all.take(i + 1).drop_last() =~= all.take(i as int));
                assert(all.take(i + 1).last() == i as usize);
            }
            if keep {
                out.push(i);
            }
            i += 1;
        }
        proof {
            assert(all.take(candidates@.len() as int) =~= all);
        }
        out
    }

    /// Remembers that the reminder `id` was shown today.
    pub fn mark_shown(&mut self, id: String)
        ensures
            final(self).shown() == old(self).shown().push(id@),
            final(self).day() == old(self).day(),
    {
        let ghost before = id_views(self.notified@);
        self.notified.push(id);
        proof {
            assert(id_views(self.notified@) =~= before.push(id@));
        }
    }
}

/// A reminder shows at most once a day: once it is marked shown, it is not
/// due again at any later check of the same day.
pub proof fn lemma_shown_once_a_day(shown: Seq<Seq<char>>, t: ReminderTask, now: (int, int, int))
    ensures
        !shows(shown.push(t.id@), t, now),
{
    assert(shown.push(t.id@)[shown.len() as int] == t.id@);
}

/// A reminder shows only for a task due today, open and not deleted, whose
/// reminder time has come and that was not shown yet today.
pub proof fn lemma_shown_only_when_due(
    row: ReminderRow,
    today: Date,
    t: ReminderTask,
    shown: Seq<Seq<char>>,
    now: (int, int, int),
)
    requires
        t.id == row.id,
        Some(t.reminder_time.hms()) == row_reminder(row, today),
        shows(shown, t, now),
    ensures
        row.due_date matches Some(d) && d@ == chrono_formatted_date(today.ymd(), "%Y-%m-%d"@),
        row.status@ == "needsAction"@,
        !row.is_deleted,
        hms_le(t.reminder_time.hms(), now),
        !shown.contains(row.id@),
{
}

/// A reminder whose time has come and that was not shown yet is due.
pub proof fn lemma_due_when_time_comes(shown: Seq<Seq<char>>, t: ReminderTask, now: (int, int, int))
    requires
        hms_le(t.reminder_time.hms(), now),
        !shown.contains(t.id@),
    ensures
        shows(shown, t, now),
{
}


/// The second of the day of a time of day.
pub open spec fn second_of_day(t: (int, int, int)) -> int {
    t.0 * 3600 + t.1 * 60 + t.2
}

/// A reminder is due at `now` exactly when it was not shown yet and its
/// time of day, counted in seconds since midnight, is not later than
/// `now`: `09:45:00` is not due at `09:00:00`, and is at `09:45:00`.
pub proof fn lemma_due_by_clock(shown: Seq<Seq<char>>, t: ReminderTask, now: (int, int, int))
    requires
        0 <= t.reminder_time.hms().0 && 0 <= t.reminder_time.hms().1 < 60 && 0
            <= t.reminder_time.hms().2 < 60,
        0 <= now.0 && 0 <= now.1 < 60 && 0 <= now.2 < 60,
    ensures
        shows(shown, t, now) <==> !shown.contains(t.id@) && second_of_day(t.reminder_time.hms())
            <= second_of_day(now),
{
    let a = t.reminder_time.hms();
    assert(a.0 < now.0 ==> second_of_day(a) < second_of_day(now)) by (nonlinear_arith)
        requires
            0 <= a.1 < 60 && 0 <= a.2 < 60 && 0 <= now.1 < 60 && 0 <= now.2 < 60,
    ;
    assert(now.0 < a.0 ==> second_of_day(now) < second_of_day(a)) by (nonlinear_arith)
        requires
            0 <= a.1 < 60 && 0 <= a.2 < 60 && 0 <= now.1 < 60 && 0 <= now.2 < 60,
    ;
}

} // verus!
