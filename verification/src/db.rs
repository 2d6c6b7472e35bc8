//! The local SQLite store: where the database lives, and how tasks and
//! lists become table rows and come back from them. The caller runs the
//! SQL and hands rows of plain values in and out.
use crate::calendar::{chrono_formatted_date, chrono_parsed_date, chrono_parsed_time, hms_text, ymd_of,
    parse_date_str, parse_time_str, Date, Time};
use crate::models::{
    chrono_parsed_rfc3339, chrono_rfc3339_text, clone_opt_rule, clone_opt_string,
    lemma_sync_state_text_roundtrip, rfc3339_years, sync_state_of_text, sync_state_text,
    RecurrenceRule, SyncState, Task, TaskList, Timestamp,
};
use crate::notes::opt_view;
use crate::parser::{opt_hms, opt_ymd};
use crate::sync::{opt_parts, parts};
use crate::text::{chars_of, eq_str};
use vstd::prelude::*;

verus! {

/// Where the database lives: a file path, or `:memory:` for a private
/// in-memory database.
#[derive(Debug)]
pub struct Database {
    path: String,
}

/// The path that names an in-memory database.
pub open spec fn memory_path() -> Seq<char> {
    ":memory:"@
}

impl Database {
    /// The path of the database.
    pub closed spec fn path_view(&self) -> Seq<char> {
        self.path@
    }

    /// A database in memory, for tests: every connection gets a fresh one.
    pub fn in_memory() -> (r: Database)
        ensures
            r.path_view() == memory_path(),
    {
        Database { path: String::from_str(":memory:") }
    }

    /// A database at a path of the caller's choice.
    pub fn at_path(path: &str) -> (r: Database)
        ensures
            r.path_view() == path@,
    {
        Database { path: String::from_str(path) }
    }

    /// The path of the database.
    pub fn path(&self) -> (r: &str)
        ensures
            r@ == self.path_view(),
    {
        self.path.as_str()
    }

    /// A connection opens an in-memory database rather than a file.
    pub fn is_in_memory(&self) -> (r: bool)
        ensures
            r == (self.path_view() == memory_path()),
    {
        eq_str(&chars_of(self.path.as_str()), ":memory:")
    }

    pub fn clone_db(&self) -> (r: Database)
        ensures
            r.path_view() == self.path_view(),
    {
        Database { path: self.path.clone() }
    }
}

/// A row of the `tasks` table, column by column. The recurrence rule is
/// held as a value; the caller stores it as JSON.
#[derive(Debug)]
pub struct TaskRow {
    pub id: String,
    pub google_id: Option<String>,
    pub list_id: String,
    pub title: String,
    pub notes: Option<String>,
    pub status: String,
    pub due_date: Option<String>,
    pub reminder_time: Option<String>,
    pub parent_id: Option<String>,
    pub position: Option<String>,
    pub completed_at: Option<String>,
    pub updated_at: String,
    pub google_updated_at: Option<String>,
    pub sync_state: String,
    pub is_deleted: i32,
    pub recurrence_rule: Option<RecurrenceRule>,
    pub starred: i32,
}

/// A row of the `task_lists` table.
#[derive(Debug)]
pub struct ListRow {
    pub id: String,
    pub google_id: Option<String>,
    pub title: String,
    pub position: i32,
    pub is_default: bool,
    pub updated_at: String,
}

/// A column of a row that does not read as its type.
#[derive(Debug, Clone, Copy, PartialEq, Eq, Structural)]
pub enum RowError {
    DueDate,
    ReminderTime,
    CompletedAt,
    UpdatedAt,
    GoogleUpdatedAt,
    SyncState,
}

/// The index of the column an error names.
pub open spec fn error_column(e: RowError) -> int {
    match e {
        RowError::DueDate => 6,
        RowError::ReminderTime => 7,
        RowError::CompletedAt => 10,
        RowError::UpdatedAt => 11,
        RowError::GoogleUpdatedAt => 12,
        RowError::SyncState => 13,
    }
}

impl RowError {
    /// The index of the column that did not read.
    pub fn column(&self) -> (r: usize)
        ensures
            r == error_column(*self),
    {
        match self {
            RowError::DueDate => 6,
            RowError::ReminderTime => 7,
            RowError::CompletedAt => 10,
            RowError::UpdatedAt => 11,
            RowError::GoogleUpdatedAt => 12,
            RowError::SyncState => 13,
        }
    }
}

/// The stored text of a date: `%Y-%m-%d`.
pub open spec fn date_text(d: Date) -> Seq<char> {
    chrono_formatted_date(d.ymd(), "%Y-%m-%d"@)
}

/// The stored text of an instant: RFC 3339.
pub open spec fn instant_text(t: Timestamp) -> Seq<char> {
    chrono_rfc3339_text(t.seconds() as i64, t.subsec() as u32)
}

/// The date a stored text reads as, if it is one.
pub open spec fn read_date(s: Seq<char>) -> Option<(int, int, int)> {
    match chrono_parsed_date(s, "%Y-%m-%d"@) {
        Some(t) => Some(ymd_of(t)),
        None => None,
    }
}

/// The time of day a stored text reads as, if it is one.
pub open spec fn read_time(s: Seq<char>) -> Option<(int, int, int)> {
    match chrono_parsed_time(s, "%H:%M:%S"@) {
        Some(t) => Some((t.0 as int, t.1 as int, t.2 as int)),
        None => None,
    }
}

/// An optional stored text reads (or is absent).
pub open spec fn opt_reads<A>(s: Option<String>, read: spec_fn(Seq<char>) -> Option<A>) -> bool {
    s matches Some(x) ==> read(x@) is Some
}

/// The value of an optional stored text that reads.
pub open spec fn opt_read<A>(s: Option<String>, read: spec_fn(Seq<char>) -> Option<A>) -> Option<A> {
    match s {
        Some(x) => read(x@),
        None => None,
    }
}

/// The first column of a task row that does not read, in column order.
pub open spec fn task_row_error(row: TaskRow) -> Option<RowError> {
    if !opt_reads(row.due_date, |s: Seq<char>| read_date(s)) {
        Some(RowError::DueDate)
    } else if !opt_reads(row.reminder_time, |s: Seq<char>| read_time(s)) {
        Some(RowError::ReminderTime)
    } else if !opt_reads(row.completed_at, |s: Seq<char>| chrono_parsed_rfc3339(s)) {
        Some(RowError::CompletedAt)
    } else if chrono_parsed_rfc3339(row.updated_at@) is None {
        Some(RowError::UpdatedAt)
    } else if !opt_reads(row.google_updated_at, |s: Seq<char>| chrono_parsed_rfc3339(s)) {
        Some(RowError::GoogleUpdatedAt)
    } else if sync_state_of_text(row.sync_state@) is None {
        Some(RowError::SyncState)
    } else {
        None
    }
}

/// The instant parts of a stored text known to read.
pub open spec fn instant_of(s: Seq<char>) -> (int, int) {
    let p = chrono_parsed_rfc3339(s)->0;
    (p.0 as int, p.1 as int)
}

/// The instant parts of an optional stored text.
pub open spec fn opt_instant_of(s: Option<String>) -> Option<(int, int)> {
    match s {
        Some(x) => Some(instant_of(x@)),
        None => None,
    }
}

/// `t` holds what the row holds.
pub open spec fn task_of_row(t: Task, row: TaskRow) -> bool {
    &&& t.id == row.id
    &&& t.google_id == row.google_id
    &&& t.list_id == row.list_id
    &&& t.title == row.title
    &&& t.notes == row.notes
    &&& t.status == row.status
    &&& opt_ymd(t.due_date) == opt_read(row.due_date, |s: Seq<char>| read_date(s))
    &&& opt_hms(t.reminder_time) == opt_read(row.reminder_time, |s: Seq<char>| read_time(s))
    &&& t.parent_id == row.parent_id
    &&& t.position == row.position
    &&& opt_parts(t.completed_at) == opt_instant_of(row.completed_at)
    &&& parts(t.updated_at) == instant_of(row.updated_at@)
    &&& opt_parts(t.google_updated_at) == opt_instant_of(row.google_updated_at)
    &&& sync_state_of_text(row.sync_state@) == Some(t.sync_state)
    &&& t.is_deleted == (row.is_deleted != 0)
    &&& t.recurrence_rule == row.recurrence_rule
    &&& t.starred == (row.starred != 0)
}

/// `row` stores `t`.
pub open spec fn row_of_task(row: TaskRow, t: Task) -> bool {
    &&& row.id == t.id
    &&& row.google_id == t.google_id
    &&& row.list_id == t.list_id
    &&& row.title == t.title
    &&& row.notes == t.notes
    &&& row.status == t.status
    &&& opt_view(row.due_date) == (match t.due_date {
        Some(d) => Some(date_text(d)),
        None => None,
    })
    &&& opt_view(row.reminder_time) == (match t.reminder_time {
        Some(x) => Some(hms_text(x.hms())),
        None => None,
    })
    &&& row.parent_id == t.parent_id
    &&& row.position == t.position
    &&& opt_view(row.completed_at) == (match t.completed_at {
        Some(c) => Some(instant_text(c)),
        None => None,
    })
    &&& row.updated_at@ == instant_text(t.updated_at)
    &&& opt_view(row.google_updated_at) == (match t.google_updated_at {
        Some(c) => Some(instant_text(c)),
        None => None,
    })
    &&& row.sync_state@ == sync_state_text(t.sync_state)
    &&& row.is_deleted == (if t.is_deleted {
        1i32
    } else {
        0i32
    })
    &&& row.recurrence_rule == t.recurrence_rule
    &&& row.starred == (if t.starred {
        1i32
    } else {
        0i32
    })
}

fn opt_date_text(d: Option<Date>) -> (r: Option<String>)
    ensures
        opt_view(r) == (match d {
            Some(x) => Some(date_text(x)),
            None => None,
        }),
        opt_reads(r, |s: Seq<char>| read_date(s)),
        opt_read(r, |s: Seq<char>| read_date(s)) == opt_ymd(d),
{
    match d {
        Some(x) => Some(x.format("%Y-%m-%d")),
        None => None,
    }
}

fn opt_time_text(t: Option<Time>) -> (r: Option<String>)
    ensures
        opt_view(r) == (match t {
            Some(x) => Some(hms_text(x.hms())),
            None => None,
        }),
        opt_reads(r, |s: Seq<char>| read_time(s)),
        opt_read(r, |s: Seq<char>| read_time(s)) == opt_hms(t),
{
    match t {
        Some(x) => Some(x.format_hms()),
        None => None,
    }
}

fn opt_instant_text(t: Option<Timestamp>) -> (r: Option<String>)
    ensures
        opt_view(r) == (match t {
            Some(x) => Some(instant_text(x)),
            None => None,
        }),
        (t matches Some(x) ==> rfc3339_years(x.seconds())) ==> opt_reads(
            r,
            |s: Seq<char>| chrono_parsed_rfc3339(s),
        ) && opt_instant_of(r) == opt_parts(t),
{
    match t {
        Some(x) => Some(x.to_rfc3339()),
        None => None,
    }
}

/// Every instant of the task has a four-digit year, as RFC 3339 text
/// needs.
pub open spec fn storable(t: Task) -> bool {
    &&& rfc3339_years(t.updated_at.seconds())
    &&& t.completed_at matches Some(c) ==> rfc3339_years(c.seconds())
    &&& t.google_updated_at matches Some(c) ==> rfc3339_years(c.seconds())
}

proof fn lemma_opt_dates(a: Option<Date>, b: Option<Date>)
    requires
        opt_ymd(a) == opt_ymd(b),
    ensures
        a == b,
{
    if let (Some(x), Some(y)) = (a, b) {
        Date::lemma_ymd_determines(x, y);
    }
}

proof fn lemma_opt_times(a: Option<Time>, b: Option<Time>)
    requires
        opt_hms(a) == opt_hms(b),
    ensures
        a == b,
{
    if let (Some(x), Some(y)) = (a, b) {
        Time::lemma_hms_determines(x, y);
    }
}

proof fn lemma_opt_instants(a: Option<Timestamp>, b: Option<Timestamp>)
    requires
        opt_parts(a) == opt_parts(b),
    ensures
        a == b,
{
    if let (Some(x), Some(y)) = (a, b) {
        Timestamp::lemma_parts_determine(x, y);
    }
}

/// The row that stores a task. Reading the row back gives the task again,
/// wherever its instants have four-digit years.
pub fn task_to_row(t: &Task) -> (r: TaskRow)
    ensures
        row_of_task(r, *t),
        storable(*t) ==> task_row_error(r) is None,
        storable(*t) ==> forall|u: Task| #[trigger] task_of_row(u, r) ==> u == *t,
{
    let row = TaskRow {
        id: t.id.clone(),
        google_id: clone_opt_string(&t.google_id),
        list_id: t.list_id.clone(),
        title: t.title.clone(),
        notes: clone_opt_string(&t.notes),
        status: t.status.clone(),
        due_date: opt_date_text(t.due_date),
        reminder_time: opt_time_text(t.reminder_time),
        parent_id: clone_opt_string(&t.parent_id),
        position: clone_opt_string(&t.position),
        completed_at: opt_instant_text(t.completed_at),
        updated_at: t.updated_at.to_rfc3339(),
        google_updated_at: opt_instant_text(t.google_updated_at),
        sync_state: t.sync_state.to_string(),
        is_deleted: if t.is_deleted {
            1
        } else {
            0
        },
        recurrence_rule: clone_opt_rule(&t.recurrence_rule),
        starred: if t.starred {
            1
        } else {
            0
        },
    };
    proof {
        lemma_sync_state_text_roundtrip(t.sync_state);
        if storable(*t) {
            assert forall|u: Task| #[trigger] task_of_row(u, row) implies u == *t by {
                lemma_opt_dates(u.due_date, t.due_date);
                lemma_opt_times(u.reminder_time, t.reminder_time);
                lemma_opt_instants(u.completed_at, t.completed_at);
                lemma_opt_instants(u.google_updated_at, t.google_updated_at);
                Timestamp::lemma_parts_determine(u.updated_at, t.updated_at);
            }
        }
    }
    row
}

fn read_opt_date(s: &Option<String>) -> (r: Result<Option<Date>, RowError>)
    ensures
        r is Ok <==> opt_reads(*s, |x: Seq<char>| read_date(x)),
        r matches Ok(d) ==> opt_ymd(d) == opt_read(*s, |x: Seq<char>| read_date(x)),
        r matches Err(e) ==> e == RowError::DueDate,
{
    match s {
        Some(x) => match parse_date_str(&chars_of(x.as_str()), "%Y-%m-%d") {
            Some(d) => Ok(Some(d)),
            None => Err(RowError::DueDate),
        },
        None => Ok(None),
    }
}

fn read_opt_time(s: &Option<String>) -> (r: Result<Option<Time>, RowError>)
    ensures
        r is Ok <==> opt_reads(*s, |x: Seq<char>| read_time(x)),
        r matches Ok(d) ==> opt_hms(d) == opt_read(*s, |x: Seq<char>| read_time(x)),
        r matches Err(e) ==> e == RowError::ReminderTime,
{
    match s {
        Some(x) => match parse_time_str(&chars_of(x.as_str()), "%H:%M:%S") {
            Some(d) => Ok(Some(d)),
            None => Err(RowError::ReminderTime),
        },
        None => Ok(None),
    }
}

fn read_opt_instant(s: &Option<String>, err: RowError) -> (r: Result<Option<Timestamp>, RowError>)
    ensures
        r is Ok <==> opt_reads(*s, |x: Seq<char>| chrono_parsed_rfc3339(x)),
        r matches Ok(d) ==> opt_parts(d) == opt_instant_of(*s),
        r matches Err(e) ==> e == err,
{
    match s {
        Some(x) => match Timestamp::parse_from_rfc3339(x.as_str()) {
            Some(d) => Ok(Some(d)),
            None => Err(err),
        },
        None => Ok(None),
    }
}

/// Reads a task from its row; the first column that does not read is the
/// error.
pub fn task_from_row(row: TaskRow) -> (r: Result<Task, RowError>)
    ensures
        match task_row_error(row) {
            Some(e) => r == Err::<Task, RowError>(e),
            None => r matches Ok(t) && task_of_row(t, row),
        },
{
    let due_date = match read_opt_date(&row.due_date) {
        Ok(d) => d,
        Err(e) => return Err(e),
    };
    let reminder_time = match read_opt_time(&row.reminder_time) {
        Ok(d) => d,
        Err(e) => return Err(e),
    };
    let completed_at = match read_opt_instant(&row.completed_at, RowError::CompletedAt) {
        Ok(d) => d,
        Err(e) => return Err(e),
    };
    let updated_at = match Timestamp::parse_from_rfc3339(row.updated_at.as_str()) {
        Some(d) => d,
        None => return Err(RowError::UpdatedAt),
    };
    let google_updated_at = match read_opt_instant(
        &row.google_updated_at,
        RowError::GoogleUpdatedAt,
    ) {
        Ok(d) => d,
        Err(e) => return Err(e),
    };
    let sync_state = match SyncState::from_str(row.sync_state.as_str()) {
        Ok(s) => s,
        Err(_) => return Err(RowError::SyncState),
    };
    Ok(
        Task {
            id: row.id,
            google_id: row.google_id,
            list_id: row.list_id,
            title: row.title,
            notes: row.notes,
            status: row.status,
            due_date,
            reminder_time,
            parent_id: row.parent_id,
            position: row.position,
            completed_at,
            updated_at,
            google_updated_at,
            sync_state,
            is_deleted: row.is_deleted != 0,
            recurrence_rule: row.recurrence_rule,
            starred: row.starred != 0,
        },
    )
}

/// What a stored optional text reads as, or nothing where it does not
/// read.
pub open spec fn lenient<A>(s: Option<String>, read: spec_fn(Seq<char>) -> Option<A>) -> Option<A> {
    match s {
        Some(x) => read(x@),
        None => None,
    }
}

fn lenient_date(s: &Option<String>) -> (r: Option<Date>)
    ensures
        opt_ymd(r) == lenient(*s, |x: Seq<char>| read_date(x)),
{
    match s {
        Some(x) => parse_date_str(&chars_of(x.as_str()), "%Y-%m-%d"),
        None => None,
    }
}

fn lenient_time(s: &Option<String>) -> (r: Option<Time>)
    ensures
        opt_hms(r) == lenient(*s, |x: Seq<char>| read_time(x)),
{
    match s {
        Some(x) => parse_time_str(&chars_of(x.as_str()), "%H:%M:%S"),
        None => None,
    }
}

fn lenient_instant(s: &Option<String>) -> (r: Option<Timestamp>)
    ensures
        opt_parts(r) == lenient(*s, |x: Seq<char>| read_rfc3339(x)),
{
    match s {
        Some(x) => Timestamp::parse_from_rfc3339(x.as_str()),
        None => None,
    }
}

/// The instant parts a stored text reads as, if any.
pub open spec fn read_rfc3339(s: Seq<char>) -> Option<(int, int)> {
    match chrono_parsed_rfc3339(s) {
        Some(p) => Some((p.0 as int, p.1 as int)),
        None => None,
    }
}

/// Reads a task from its row without failing, as the Today view does: a
/// column that does not read gives no value, `now` for the edit time, and
/// the pending state for the sync state.
pub fn task_from_row_lenient(row: TaskRow, now: Timestamp) -> (t: Task)
    ensures
        t.id == row.id,
        t.google_id == row.google_id,
        t.list_id == row.list_id,
        t.title == row.title,
        t.notes == row.notes,
        t.status == row.status,
        opt_ymd(t.due_date) == lenient(row.due_date, |x: Seq<char>| read_date(x)),
        opt_hms(t.reminder_time) == lenient(row.reminder_time, |x: Seq<char>| read_time(x)),
        t.parent_id == row.parent_id,
        t.position == row.position,
        opt_parts(t.completed_at) == lenient(row.completed_at, |x: Seq<char>| read_rfc3339(x)),
        parts(t.updated_at) == (match read_rfc3339(row.updated_at@) {
            Some(p) => p,
            None => parts(now),
        }),
        opt_parts(t.google_updated_at) == lenient(row.google_updated_at, |x: Seq<char>| read_rfc3339(x)),
        t.sync_state == (match sync_state_of_text(row.sync_state@) {
            Some(st) => st,
            None => SyncState::Pending,
        }),
        t.is_deleted == (row.is_deleted != 0),
        t.recurrence_rule == row.recurrence_rule,
        t.starred == (row.starred != 0),
{
    let due_date = lenient_date(&row.due_date);
    let reminder_time = lenient_time(&row.reminder_time);
    let completed_at = lenient_instant(&row.completed_at);
    let updated_at = match Timestamp::parse_from_rfc3339(row.updated_at.as_str()) {
        Some(u) => u,
        None => now,
    };
    let google_updated_at = lenient_instant(&row.google_updated_at);
    let sync_state = match SyncState::from_str(row.sync_state.as_str()) {
        Ok(st) => st,
        Err(_) => SyncState::Pending,
    };
    Task {
        id: row.id,
        google_id: row.google_id,
        list_id: row.list_id,
        title: row.title,
        notes: row.notes,
        status: row.status,
        due_date,
        reminder_time,
        parent_id: row.parent_id,
        position: row.position,
        completed_at,
        updated_at,
        google_updated_at,
        sync_state,
        is_deleted: row.is_deleted != 0,
        recurrence_rule: row.recurrence_rule,
        starred: row.starred != 0,
    }
}

/// `l` holds what the row holds.
pub open spec fn list_of_row(l: TaskList, row: ListRow) -> bool {
    &&& l.id == row.id
    &&& l.google_id == row.google_id
    &&& l.title == row.title
    &&& l.position == row.position
    &&& l.is_default == row.is_default
    &&& parts(l.updated_at) == instant_of(row.updated_at@)
}

/// The row that stores a list.
pub fn list_to_row(l: &TaskList) -> (r: ListRow)
    ensures
        r.id == l.id,
        r.google_id == l.google_id,
        r.title == l.title,
        r.position == l.position,
        r.is_default == l.is_default,
        r.updated_at@ == instant_text(l.updated_at),
        rfc3339_years(l.updated_at.seconds()) ==> chrono_parsed_rfc3339(r.updated_at@) is Some,
        rfc3339_years(l.updated_at.seconds()) ==> forall|u: TaskList| #[trigger] list_of_row(u, r)
            ==> u == *l,
{
    let row = ListRow {
        id: l.id.clone(),
        google_id: clone_opt_string(&l.google_id),
        title: l.title.clone(),
        position: l.position,
        is_default: l.is_default,
        updated_at: l.updated_at.to_rfc3339(),
    };
    proof {
        if rfc3339_years(l.updated_at.seconds()) {
            assert forall|u: TaskList| #[trigger] list_of_row(u, row) implies u == *l by {
                Timestamp::lemma_parts_determine(u.updated_at, l.updated_at);
            }
        }
    }
    row
}

/// Reads a list from its row; an `updated_at` that does not read is the
/// error.
pub fn list_from_row(row: ListRow) -> (r: Result<TaskList, RowError>)
    ensures
        chrono_parsed_rfc3339(row.updated_at@) is None ==> r == Err::<TaskList, RowError>(
            RowError::UpdatedAt,
        ),
        chrono_parsed_rfc3339(row.updated_at@) is Some ==> (r matches Ok(l) && list_of_row(
            l,
            row,
        )),
{
    match Timestamp::parse_from_rfc3339(row.updated_at.as_str()) {
        Some(updated_at) => Ok(
            TaskList {
                id: row.id,
                google_id: row.google_id,
                title: row.title,
                position: row.position,
                is_default: row.is_default,
                updated_at,
            },
        ),
        None => Err(RowError::UpdatedAt),
    }
}

} // verus!
