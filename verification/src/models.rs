//! The local data model: task lists, tasks, their sync states and
//! recurrence rules, and instants of time.
use crate::calendar::{day_number, ymd_of, Date, Time, Weekday, MAX_YEAR, MIN_YEAR};
use crate::text::{string_of, chars_of};
use vstd::prelude::*;

verus! {

// ------------------------------------------------------------------
// Instants

/// Seconds from 0001-01-01 to 1970-01-01 counted in days: the day number of
/// the Unix epoch.
pub open spec fn unix_epoch_day() -> int {
    719163
}

/// The instant `secs` seconds and `nanos` nanoseconds after the Unix epoch is
/// one that chrono's `DateTime<Utc>` represents: its date lies in chrono's
/// range, and nanoseconds of one second or more only mark a leap second.
pub open spec fn instant_ok(secs: int, nanos: int) -> bool {
    let days = secs / 86400 + unix_epoch_day();
    let sod = secs % 86400;
    &&& day_number((MIN_YEAR as int, 1, 1)) <= days <= day_number((MAX_YEAR as int, 12, 31))
    &&& 0 <= nanos < 2_000_000_000
    &&& (nanos >= 1_000_000_000 ==> sod % 60 == 59)
}

/// An instant in UTC, as chrono's `DateTime<Utc>` holds it.
#[derive(Clone, Copy, Debug, PartialEq, Eq, Structural)]
pub struct Timestamp {
    pub(crate) secs: i64,
    pub(crate) nanos: u32,
}

/// chrono's `DateTime::from_timestamp`, read back with `timestamp()` and
/// `timestamp_subsec_nanos()`; it claims that chrono accepts exactly the
/// instants of `instant_ok` and keeps them.
#[verifier::external_body]
fn chrono_from_timestamp(secs: i64, nanos: u32) -> (r: Option<(i64, u32)>)
    ensures
        r == (if instant_ok(secs as int, nanos as int) {
            Some((secs, nanos))
        } else {
            None
        }),
{
    match chrono::DateTime::from_timestamp(secs, nanos) {
        Some(t) => Some((t.timestamp(), t.timestamp_subsec_nanos())),
        None => None,
    }
}

impl Timestamp {
    #[verifier::type_invariant]
    spec fn inv(self) -> bool {
        instant_ok(self.secs as int, self.nanos as int)
    }

    /// Instants agree where their seconds and nanoseconds agree.
    pub proof fn lemma_parts_determine(a: Timestamp, b: Timestamp)
        requires
            a.seconds() == b.seconds(),
            a.subsec() == b.subsec(),
        ensures
            a == b,
    {
    }

    /// Seconds after the Unix epoch.
    pub closed spec fn seconds(self) -> int {
        self.secs as int
    }

    /// Nanoseconds into the second.
    pub closed spec fn subsec(self) -> int {
        self.nanos as int
    }

    /// The instant `secs` seconds and `nanos` nanoseconds after the Unix
    /// epoch, or `None` where chrono does not represent it.
    pub fn from_timestamp(secs: i64, nanos: u32) -> (r: Option<Timestamp>)
        ensures
            r is Some <==> instant_ok(secs as int, nanos as int),
            r matches Some(t) ==> t.seconds() == secs && t.subsec() == nanos,
    {
        match chrono_from_timestamp(secs, nanos) {
            Some((s, n)) => Some(Timestamp { secs: s, nanos: n }),
            None => None,
        }
    }

    pub fn timestamp(&self) -> (r: i64)
        ensures
            r == self.seconds(),
            instant_ok(self.seconds(), self.subsec()),
    {
        proof {
            use_type_invariant(self);
        }
        self.secs
    }

    pub fn timestamp_subsec_nanos(&self) -> (r: u32)
        ensures
            r == self.subsec(),
            instant_ok(self.seconds(), self.subsec()),
    {
        proof {
            use_type_invariant(self);
        }
        self.nanos
    }
}

/// The instant that chrono's `DateTime::parse_from_rfc3339` reads from a
/// text, in UTC, as seconds and nanoseconds after the Unix epoch.
pub uninterp spec fn chrono_parsed_rfc3339(s: Seq<char>) -> Option<(i64, u32)>;

/// The text that chrono's `DateTime::<Utc>::to_rfc3339` writes for an instant.
pub uninterp spec fn chrono_rfc3339_text(secs: i64, nanos: u32) -> Seq<char>;

/// chrono's `DateTime::parse_from_rfc3339`, taken to UTC; its result is
/// named, and it claims only that an instant it gives back is one chrono
/// represents.
#[verifier::external_body]
fn chrono_parse_rfc3339(s: &str) -> (r: Option<(i64, u32)>)
    ensures
        r == chrono_parsed_rfc3339(s@),
        r matches Some(t) ==> instant_ok(t.0 as int, t.1 as int),
{
    match chrono::DateTime::parse_from_rfc3339(s) {
        Ok(t) => {
            let u = t.with_timezone(&chrono::Utc);
            Some((u.timestamp(), u.timestamp_subsec_nanos()))
        },
        Err(_) => None,
    }
}

/// The instant lies in the years 0 to 9999, which RFC 3339 text writes with
/// four digits: from 0000-01-01T00:00:00Z up to 10000-01-01T00:00:00Z.
pub open spec fn rfc3339_years(secs: int) -> bool {
    -62167219200 <= secs < 253402300800
}

/// chrono's `DateTime::<Utc>::to_rfc3339`; its result is named. It also
/// claims that `DateTime::parse_from_rfc3339` reads back the instant written
/// where its year has four digits (the writer puts a leap second as second
/// 60, which the reader takes back).
#[verifier::external_body]
fn chrono_to_rfc3339(secs: i64, nanos: u32) -> (r: String)
    requires
        instant_ok(secs as int, nanos as int),
    ensures
        r@ == chrono_rfc3339_text(secs, nanos),
        rfc3339_years(secs as int) ==> chrono_parsed_rfc3339(r@) == Some((secs, nanos)),
{
    chrono::DateTime::from_timestamp(secs, nanos).expect("instant in range").to_rfc3339()
}

/// chrono's `checked_sub_signed` of whole seconds on a UTC instant; it
/// claims that an instant that is not a leap second moves back by exactly
/// that many seconds where the result stays in range, and that the result
/// exists whenever the seconds stay in range. Where the instant is a leap
/// second, what comes back is not stated beyond that.
#[verifier::external_body]
fn chrono_sub_seconds(secs: i64, nanos: u32, n: i64) -> (r: Option<(i64, u32)>)
    requires
        instant_ok(secs as int, nanos as int),
        0 <= n <= 86400,
    ensures
        r matches Some(t) ==> instant_ok(t.0 as int, t.1 as int),
        nanos < 1_000_000_000 ==> r == (if instant_ok(secs - n, nanos as int) {
            Some(((secs - n) as i64, nanos))
        } else {
            None
        }),
        instant_ok(secs - n, 0) ==> r is Some,
{
    let t = chrono::DateTime::from_timestamp(secs, nanos).expect("instant in range");
    match t.checked_sub_signed(chrono::Duration::seconds(n)) {
        Some(u) => Some((u.timestamp(), u.timestamp_subsec_nanos())),
        None => None,
    }
}

impl Timestamp {
    /// Reads an RFC 3339 date and time, such as `2026-06-24T09:00:00Z`.
    pub fn parse_from_rfc3339(s: &str) -> (r: Option<Timestamp>)
        ensures
            r is Some <==> chrono_parsed_rfc3339(s@) is Some,
            r matches Some(t) ==> (t.seconds(), t.subsec()) == ({
                let p = chrono_parsed_rfc3339(s@)->0;
                (p.0 as int, p.1 as int)
            }),
    {
        match chrono_parse_rfc3339(s) {
            Some((secs, nanos)) => Some(Timestamp { secs, nanos }),
            None => None,
        }
    }

    /// The instant as RFC 3339 text.
    pub fn to_rfc3339(&self) -> (r: String)
        ensures
            r@ == chrono_rfc3339_text(self.seconds() as i64, self.subsec() as u32),
            rfc3339_years(self.seconds()) ==> (chrono_parsed_rfc3339(r@) matches Some(p) && (
            p.0 as int, p.1 as int) == (self.seconds(), self.subsec())),
    {
        proof {
            use_type_invariant(self);
        }
        chrono_to_rfc3339(self.secs, self.nanos)
    }

    /// The instant `n` seconds earlier (at most a day), or `None` where it
    /// lies before chrono's range.
    pub fn checked_sub_seconds(&self, n: i64) -> (r: Option<Timestamp>)
        requires
            0 <= n <= 86400,
        ensures
            self.subsec() < 1_000_000_000 ==> (r is Some <==> instant_ok(
                self.seconds() - n,
                self.subsec(),
            )),
            self.subsec() < 1_000_000_000 ==> (r matches Some(t) ==> t.seconds() == self.seconds()
                - n && t.subsec() == self.subsec()),
            instant_ok(self.seconds() - n, 0) ==> r is Some,
    {
        proof {
            use_type_invariant(self);
        }
        match chrono_sub_seconds(self.secs, self.nanos, n) {
            Some((s, ns)) => Some(Timestamp { secs: s, nanos: ns }),
            None => None,
        }
    }
}

/// `a` is not later than `b`.
pub open spec fn instant_le(a: Timestamp, b: Timestamp) -> bool {
    a.seconds() < b.seconds() || (a.seconds() == b.seconds() && a.subsec() <= b.subsec())
}

/// Compares two instants in time order: `a` is not later than `b`.
pub fn timestamp_le(a: &Timestamp, b: &Timestamp) -> (r: bool)
    ensures
        r == instant_le(*a, *b),
{
    let sa = a.timestamp();
    let sb = b.timestamp();
    sa < sb || (sa == sb && a.timestamp_subsec_nanos() <= b.timestamp_subsec_nanos())
}

// ------------------------------------------------------------------
// Sync state

/// Where a local row stands with respect to Google.
#[derive(Clone, Copy, Debug, PartialEq, Eq, Structural)]
pub enum SyncState {
    /// Created or edited locally, not pushed yet.
    Pending,
    /// Matches the last known server state.
    Synced,
    /// Changed on both sides.
    Conflict,
    /// Deleted locally, deletion not pushed yet.
    DeletedPending,
}

/// The text that stands for a sync state in the database.
pub open spec fn sync_state_text(s: SyncState) -> Seq<char> {
    match s {
        SyncState::Pending => "pending"@,
        SyncState::Synced => "synced"@,
        SyncState::Conflict => "conflict"@,
        SyncState::DeletedPending => "deleted_pending"@,
    }
}

/// The sync state that a text stands for.
pub open spec fn sync_state_of_text(t: Seq<char>) -> Option<SyncState> {
    if t == "pending"@ {
        Some(SyncState::Pending)
    } else if t == "synced"@ {
        Some(SyncState::Synced)
    } else if t == "conflict"@ {
        Some(SyncState::Conflict)
    } else if t == "deleted_pending"@ {
        Some(SyncState::DeletedPending)
    } else {
        None
    }
}

impl SyncState {
    /// The text of the state, as stored in the database.
    pub fn to_string(&self) -> (r: String)
        ensures
            r@ == sync_state_text(*self),
    {
        match self {
            SyncState::Pending => String::from_str("pending"),
            SyncState::Synced => String::from_str("synced"),
            SyncState::Conflict => String::from_str("conflict"),
            SyncState::DeletedPending => String::from_str("deleted_pending"),
        }
    }

    /// Reads a state from its text; any other text gives the error
    /// `Unknown sync state: <text>`.
    pub fn from_str(s: &str) -> (r: Result<SyncState, String>)
        ensures
            match sync_state_of_text(s@) {
                Some(st) => r == Ok::<SyncState, String>(st),
                None => r matches Err(e) && e@ == "Unknown sync state: "@ + s@,
            },
    {
        let v = chars_of(s);
        if crate::text::eq_str(&v, "pending") {
            Ok(SyncState::Pending)
        } else if crate::text::eq_str(&v, "synced") {
            Ok(SyncState::Synced)
        } else if crate::text::eq_str(&v, "conflict") {
            Ok(SyncState::Conflict)
        } else if crate::text::eq_str(&v, "deleted_pending") {
            Ok(SyncState::DeletedPending)
        } else {
            let mut msg = String::from_str("Unknown sync state: ");
            msg.append(s);
            Err(msg)
        }
    }
}

/// Reading back the text of a state gives the state.
pub proof fn lemma_sync_state_text_roundtrip(s: SyncState)
    ensures
        sync_state_of_text(sync_state_text(s)) == Some(s),
{
    reveal_strlit("pending");
    reveal_strlit("synced");
    reveal_strlit("conflict");
    reveal_strlit("deleted_pending");
    assert("pending"@.len() == 7);
    assert("synced"@.len() == 6);
    assert("conflict"@.len() == 8);
    assert("deleted_pending"@.len() == 15);
}

// ------------------------------------------------------------------
// Recurrence

/// How a task repeats.
#[derive(Debug, PartialEq, Eq)]
pub enum RecurrenceRule {
    /// Every day.
    Daily,
    /// Every week on the given weekday.
    Weekly(Weekday),
    /// Every month on the given day of the month (1 to 31).
    Monthly(u32),
    /// A rule given as RRULE text, repeated daily.
    Custom(String),
}

impl RecurrenceRule {
    pub fn clone_rule(&self) -> (r: RecurrenceRule)
        ensures
            r == *self,
    {
        match self {
            RecurrenceRule::Daily => RecurrenceRule::Daily,
            RecurrenceRule::Weekly(w) => RecurrenceRule::Weekly(*w),
            RecurrenceRule::Monthly(d) => RecurrenceRule::Monthly(*d),
            RecurrenceRule::Custom(s) => RecurrenceRule::Custom(s.clone()),
        }
    }
}

/// The decimal digits of `n`.
pub open spec fn decimal(n: nat) -> Seq<char>
    decreases n,
{
    if n < 10 {
        seq![(('0' as nat) + n) as char]
    } else {
        decimal(n / 10).push((('0' as nat) + n % 10) as char)
    }
}

/// The decimal text of `n`.
pub fn decimal_string(n: u32) -> (r: String)
    ensures
        r@ == decimal(n as nat),
    decreases n,
{
    let d = n % 10;
    let c = char_of_digit(d);
    if n < 10 {
        let v = vec![c];
        assert(v@ =~= seq![c]);
        string_of(&v)
    } else {
        let mut s = chars_of_string_owned(decimal_string(n / 10));
        s.push(c);
        string_of(&s)
    }
}

fn chars_of_string_owned(s: String) -> (r: Vec<char>)
    ensures
        r@ == s@,
{
    chars_of(s.as_str())
}

fn char_of_digit(d: u32) -> (c: char)
    requires
        d < 10,
    ensures
        c == (('0' as nat) + d) as char,
{
    if d == 0 {
        '0'
    } else if d == 1 {
        '1'
    } else if d == 2 {
        '2'
    } else if d == 3 {
        '3'
    } else if d == 4 {
        '4'
    } else if d == 5 {
        '5'
    } else if d == 6 {
        '6'
    } else if d == 7 {
        '7'
    } else if d == 8 {
        '8'
    } else {
        '9'
    }
}

/// The short English name of a weekday, as chrono's `Debug` writes it.
pub open spec fn weekday_name(w: Weekday) -> Seq<char> {
    match w {
        Weekday::Mon => "Mon"@,
        Weekday::Tue => "Tue"@,
        Weekday::Wed => "Wed"@,
        Weekday::Thu => "Thu"@,
        Weekday::Fri => "Fri"@,
        Weekday::Sat => "Sat"@,
        Weekday::Sun => "Sun"@,
    }
}

/// How a rule reads to a person.
pub open spec fn rule_text(r: RecurrenceRule) -> Seq<char> {
    match r {
        RecurrenceRule::Daily => "Daily"@,
        RecurrenceRule::Weekly(w) => "Weekly on "@ + weekday_name(w),
        RecurrenceRule::Monthly(d) => "Monthly on day "@ + decimal(d as nat),
        RecurrenceRule::Custom(s) => "Custom: "@ + s@,
    }
}

fn weekday_name_str(w: Weekday) -> (r: &'static str)
    ensures
        r@ == weekday_name(w),
{
    match w {
        Weekday::Mon => "Mon",
        Weekday::Tue => "Tue",
        Weekday::Wed => "Wed",
        Weekday::Thu => "Thu",
        Weekday::Fri => "Fri",
        Weekday::Sat => "Sat",
        Weekday::Sun => "Sun",
    }
}

impl RecurrenceRule {
    /// The rule as text: `Daily`, `Weekly on Wed`, `Monthly on day 24` or
    /// `Custom: <rule>`.
    pub fn to_string(&self) -> (r: String)
        ensures
            r@ == rule_text(*self),
    {
        match self {
            RecurrenceRule::Daily => String::from_str("Daily"),
            RecurrenceRule::Weekly(w) => {
                let mut s = String::from_str("Weekly on ");
                s.append(weekday_name_str(*w));
                s
            },
            RecurrenceRule::Monthly(d) => {
                let mut s = String::from_str("Monthly on day ");
                let n = decimal_string(*d);
                s.append(n.as_str());
                s
            },
            RecurrenceRule::Custom(rule) => {
                let mut s = String::from_str("Custom: ");
                s.append(rule.as_str());
                s
            },
        }
    }
}

// ------------------------------------------------------------------
// Lists and tasks

/// A task list, mirrored from a Google Tasks list.
#[derive(Debug)]
pub struct TaskList {
    /// Local UUID.
    pub id: String,
    pub google_id: Option<String>,
    pub title: String,
    pub position: i32,
    pub is_default: bool,
    pub updated_at: Timestamp,
}

/// A task.
#[derive(Debug)]
pub struct Task {
    /// Local UUID.
    pub id: String,
    pub google_id: Option<String>,
    pub list_id: String,
    pub title: String,
    pub notes: Option<String>,
    /// `needsAction` or `completed`.
    pub status: String,
    pub due_date: Option<Date>,
    pub reminder_time: Option<Time>,
    /// The local id of the parent task, for subtasks.
    pub parent_id: Option<String>,
    /// Google's lexicographic position.
    pub position: Option<String>,
    pub completed_at: Option<Timestamp>,
    pub updated_at: Timestamp,
    pub google_updated_at: Option<Timestamp>,
    pub sync_state: SyncState,
    pub is_deleted: bool,
    pub recurrence_rule: Option<RecurrenceRule>,
    pub starred: bool,
}

pub fn clone_opt_string(s: &Option<String>) -> (r: Option<String>)
    ensures
        r == *s,
{
    match s {
        Some(x) => Some(x.clone()),
        None => None,
    }
}

pub fn clone_opt_rule(s: &Option<RecurrenceRule>) -> (r: Option<RecurrenceRule>)
    ensures
        r == *s,
{
    match s {
        Some(x) => Some(x.clone_rule()),
        None => None,
    }
}

impl TaskList {
    pub fn clone_list(&self) -> (r: TaskList)
        ensures
            r == *self,
    {
        TaskList {
            id: self.id.clone(),
            google_id: clone_opt_string(&self.google_id),
            title: self.title.clone(),
            position: self.position,
            is_default: self.is_default,
            updated_at: self.updated_at,
        }
    }
}

impl Task {
    pub fn clone_task(&self) -> (r: Task)
        ensures
            r == *self,
    {
        Task {
            id: self.id.clone(),
            google_id: clone_opt_string(&self.google_id),
            list_id: self.list_id.clone(),
            title: self.title.clone(),
            notes: clone_opt_string(&self.notes),
            status: self.status.clone(),
            due_date: self.due_date,
            reminder_time: self.reminder_time,
            parent_id: clone_opt_string(&self.parent_id),
            position: clone_opt_string(&self.position),
            completed_at: self.completed_at,
            updated_at: self.updated_at,
            google_updated_at: self.google_updated_at,
            sync_state: self.sync_state,
            is_deleted: self.is_deleted,
            recurrence_rule: clone_opt_rule(&self.recurrence_rule),
            starred: self.starred,
        }
    }

    /// The task is marked done.
    pub fn is_completed(&self) -> (r: bool)
        ensures
            r == (self.status@ == "completed"@),
    {
        crate::text::eq_str(&chars_of(self.status.as_str()), "completed")
    }
}

} // verus!
