//! Dates and times of day of the proleptic Gregorian calendar, with the
//! arithmetic the rest of the crate needs. The calendar facts are stated as
//! spec functions; chrono does the computing.
use chrono::Datelike;
use chrono::Timelike;
use vstd::prelude::*;

verus! {

/// The earliest year that chrono's `NaiveDate` represents.
pub const MIN_YEAR: i32 = -262143;

/// The latest year that chrono's `NaiveDate` represents.
pub const MAX_YEAR: i32 = 262142;

pub open spec fn is_leap(y: int) -> bool {
    y % 4 == 0 && (y % 100 != 0 || y % 400 == 0)
}

pub open spec fn days_in_month(y: int, m: int) -> int {
    if m == 2 {
        if is_leap(y) { 29 } else { 28 }
    } else if m == 4 || m == 6 || m == 9 || m == 11 {
        30
    } else {
        31
    }
}

/// Month and day name a day of the calendar, whatever the year.
pub open spec fn calendar_ok(ymd: (int, int, int)) -> bool {
    1 <= ymd.1 <= 12 && 1 <= ymd.2 <= days_in_month(ymd.0, ymd.1)
}

/// A date that exists and lies in the range that chrono represents.
pub open spec fn valid_ymd(ymd: (int, int, int)) -> bool {
    calendar_ok(ymd) && MIN_YEAR <= ymd.0 <= MAX_YEAR
}

pub open spec fn days_before_year(y: int) -> int {
    365 * (y - 1) + (y - 1) / 4 - (y - 1) / 100 + (y - 1) / 400
}

pub open spec fn days_before_month(y: int, m: int) -> int {
    let base: int = if m == 1 {
        0
    } else if m == 2 {
        31
    } else if m == 3 {
        59
    } else if m == 4 {
        90
    } else if m == 5 {
        120
    } else if m == 6 {
        151
    } else if m == 7 {
        181
    } else if m == 8 {
        212
    } else if m == 9 {
        243
    } else if m == 10 {
        273
    } else if m == 11 {
        304
    } else {
        334
    };
    if m > 2 && is_leap(y) { base + 1 } else { base }
}

/// The number of the day counted from the common era: 0001-01-01 is day 1.
pub open spec fn day_number(ymd: (int, int, int)) -> int {
    days_before_year(ymd.0) + days_before_month(ymd.0, ymd.1) + ymd.2
}

/// Day of the week, Monday = 0 through Sunday = 6.
pub open spec fn weekday_of(ymd: (int, int, int)) -> int {
    (day_number(ymd) + 6) % 7
}

/// The calendar day after `ymd`.
pub open spec fn next_ymd(ymd: (int, int, int)) -> (int, int, int) {
    if ymd.2 < days_in_month(ymd.0, ymd.1) {
        (ymd.0, ymd.1, ymd.2 + 1)
    } else if ymd.1 < 12 {
        (ymd.0, ymd.1 + 1, 1)
    } else {
        (ymd.0 + 1, 1, 1)
    }
}

/// The calendar day `n` days after `ymd`.
pub open spec fn add_days_ymd(ymd: (int, int, int), n: nat) -> (int, int, int)
    decreases n,
{
    if n == 0 {
        ymd
    } else {
        next_ymd(add_days_ymd(ymd, (n - 1) as nat))
    }
}

proof fn lemma_year_step(y: int)
    ensures
        days_before_year(y + 1) == days_before_year(y) + 365 + (if is_leap(y) { 1int } else { 0int }),
{
    assert((y / 4 - (y - 1) / 4 == 1) == (y % 4 == 0)) by (nonlinear_arith);
    assert((y / 100 - (y - 1) / 100 == 1) == (y % 100 == 0)) by (nonlinear_arith);
    assert((y / 400 - (y - 1) / 400 == 1) == (y % 400 == 0)) by (nonlinear_arith);
    assert(0 <= y / 4 - (y - 1) / 4 <= 1) by (nonlinear_arith);
    assert(0 <= y / 100 - (y - 1) / 100 <= 1) by (nonlinear_arith);
    assert(0 <= y / 400 - (y - 1) / 400 <= 1) by (nonlinear_arith);
    assert(y % 400 == 0 ==> y % 100 == 0) by (nonlinear_arith);
    assert(y % 100 == 0 ==> y % 4 == 0) by (nonlinear_arith);
}

/// The next calendar day keeps the calendar valid, numbers one day later,
/// and moves the year forward by at most one.
pub proof fn lemma_next_ymd(a: (int, int, int))
    requires
        calendar_ok(a),
    ensures
        calendar_ok(next_ymd(a)),
        day_number(next_ymd(a)) == day_number(a) + 1,
        a.0 <= next_ymd(a).0 <= a.0 + 1,
        next_ymd(a).0 == a.0 + 1 ==> a.1 == 12 && a.2 == 31,
{
    if a.2 < days_in_month(a.0, a.1) {
    } else if a.1 < 12 {
    } else {
        lemma_year_step(a.0);
    }
}

/// Adding `n` days keeps the calendar valid, numbers `n` days later and
/// never moves the year backwards.
pub proof fn lemma_add_days(a: (int, int, int), n: nat)
    requires
        calendar_ok(a),
    ensures
        calendar_ok(add_days_ymd(a, n)),
        day_number(add_days_ymd(a, n)) == day_number(a) + n,
        a.0 <= add_days_ymd(a, n).0,
    decreases n,
{
    if n > 0 {
        lemma_add_days(a, (n - 1) as nat);
        lemma_next_ymd(add_days_ymd(a, (n - 1) as nat));
    }
}

/// The year never decreases along the calendar.
pub proof fn lemma_add_days_year_monotone(a: (int, int, int), k: nat, n: nat)
    requires
        calendar_ok(a),
        k <= n,
    ensures
        add_days_ymd(a, k).0 <= add_days_ymd(a, n).0,
    decreases n,
{
    if k < n {
        lemma_add_days_year_monotone(a, k, (n - 1) as nat);
        lemma_add_days(a, (n - 1) as nat);
        lemma_next_ymd(add_days_ymd(a, (n - 1) as nat));
    }
}

/// Where a later day is in chrono's range, so is every day before it.
pub proof fn lemma_add_days_valid_prefix(a: (int, int, int), k: nat, n: nat)
    requires
        valid_ymd(a),
        k <= n,
        valid_ymd(add_days_ymd(a, n)),
    ensures
        valid_ymd(add_days_ymd(a, k)),
{
    lemma_add_days(a, k);
    lemma_add_days_year_monotone(a, k, n);
}

/// The weekday advances by one each day.
pub proof fn lemma_weekday_add_days(a: (int, int, int), n: nat)
    requires
        calendar_ok(a),
    ensures
        weekday_of(add_days_ymd(a, n)) == (weekday_of(a) + n) % 7,
{
    lemma_add_days(a, n);
    let x = day_number(a) + 6;
    assert(((x + n) % 7) == ((x % 7) + n) % 7) by (nonlinear_arith);
}

/// A day of the week.
#[derive(Clone, Copy, Debug, PartialEq, Eq, Structural)]
pub enum Weekday {
    Mon,
    Tue,
    Wed,
    Thu,
    Fri,
    Sat,
    Sun,
}

impl Weekday {
    /// Monday = 0 through Sunday = 6.
    pub open spec fn index(self) -> int {
        match self {
            Weekday::Mon => 0,
            Weekday::Tue => 1,
            Weekday::Wed => 2,
            Weekday::Thu => 3,
            Weekday::Fri => 4,
            Weekday::Sat => 5,
            Weekday::Sun => 6,
        }
    }

    pub fn num_days_from_monday(&self) -> (r: u32)
        ensures
            r == self.index(),
    {
        match self {
            Weekday::Mon => 0,
            Weekday::Tue => 1,
            Weekday::Wed => 2,
            Weekday::Thu => 3,
            Weekday::Fri => 4,
            Weekday::Sat => 5,
            Weekday::Sun => 6,
        }
    }

    /// The weekday with the given index, Monday = 0.
    pub fn from_index(i: u32) -> (r: Weekday)
        requires
            i < 7,
        ensures
            r.index() == i,
    {
        if i == 0 {
            Weekday::Mon
        } else if i == 1 {
            Weekday::Tue
        } else if i == 2 {
            Weekday::Wed
        } else if i == 3 {
            Weekday::Thu
        } else if i == 4 {
            Weekday::Fri
        } else if i == 5 {
            Weekday::Sat
        } else {
            Weekday::Sun
        }
    }
}

/// A date of the proleptic Gregorian calendar in chrono's range.
#[derive(Clone, Copy, Debug, PartialEq, Eq, Structural)]
pub struct Date {
    pub(crate) year: i32,
    pub(crate) month: u32,
    pub(crate) day: u32,
}

/// Whether year, month and day name a valid date of chrono's range, as
/// `NaiveDate::from_ymd_opt` decides it.
fn ymd_ok(year: i32, month: u32, day: u32) -> (r: bool)
    ensures
        r == valid_ymd((year as int, month as int, day as int)),
{
    if year < MIN_YEAR || year > MAX_YEAR || month < 1 || month > 12 || day < 1 {
        return false;
    }
    // Leap years repeat every 400 years, so a shift by 400000 keeps them.
    let shifted: u32 = (year + 400000) as u32;
    let leap = shifted % 4 == 0 && (shifted % 100 != 0 || shifted % 400 == 0);
    proof {
        let y = year as int;
        assert((y + 400000) % 4 == y % 4) by (nonlinear_arith);
        assert((y + 400000) % 100 == y % 100) by (nonlinear_arith);
        assert((y + 400000) % 400 == y % 400) by (nonlinear_arith);
        assert(leap == is_leap(y));
    }
    let days: u32 = if month == 2 {
        if leap {
            29
        } else {
            28
        }
    } else if month == 4 || month == 6 || month == 9 || month == 11 {
        30
    } else {
        31
    };
    day <= days
}

/// Adds whole days with chrono's `NaiveDate::checked_add_signed`; it claims
/// that chrono steps through the calendar day by day and gives `None`
/// exactly when the result leaves its range.
#[verifier::external_body]
fn chrono_add_days(year: i32, month: u32, day: u32, n: u32) -> (r: Option<(i32, u32, u32)>)
    requires
        valid_ymd((year as int, month as int, day as int)),
    ensures
        ({
            let t = add_days_ymd((year as int, month as int, day as int), n as nat);
            r == (if valid_ymd(t) {
                Some((t.0 as i32, t.1 as u32, t.2 as u32))
            } else {
                None
            })
        }),
{
    let d = chrono::NaiveDate::from_ymd_opt(year, month, day).expect("valid date");
    match d.checked_add_signed(chrono::Duration::days(n as i64)) {
        Some(e) => Some((e.year(), e.month(), e.day())),
        None => None,
    }
}

/// chrono's `weekday().num_days_from_monday()`; it claims the day of the week
/// of the proleptic Gregorian calendar, Monday = 0.
#[verifier::external_body]
fn chrono_weekday(year: i32, month: u32, day: u32) -> (r: u32)
    requires
        valid_ymd((year as int, month as int, day as int)),
    ensures
        r == weekday_of((year as int, month as int, day as int)),
{
    let d = chrono::NaiveDate::from_ymd_opt(year, month, day).expect("valid date");
    d.weekday().num_days_from_monday()
}

impl Date {
    #[verifier::type_invariant]
    spec fn inv(self) -> bool {
        valid_ymd((self.year as int, self.month as int, self.day as int))
    }

    /// Year, month and day.
    pub closed spec fn ymd(self) -> (int, int, int) {
        (self.year as int, self.month as int, self.day as int)
    }

    /// Dates agree where their year, month and day agree.
    pub proof fn lemma_ymd_determines(a: Date, b: Date)
        requires
            a.ymd() == b.ymd(),
        ensures
            a == b,
    {
    }

    /// The date `n` days later, as year, month and day.
    pub open spec fn plus_days(self, n: nat) -> (int, int, int) {
        add_days_ymd(self.ymd(), n)
    }

    /// The date exists and lies in chrono's range.
    pub fn lemma_valid(&self)
        ensures
            valid_ymd(self.ymd()),
    {
        proof {
            use_type_invariant(self);
        }
    }

    /// Makes the date `year`-`month`-`day`, or `None` where it does not exist
    /// or lies outside chrono's range.
    pub fn from_ymd_opt(year: i32, month: u32, day: u32) -> (r: Option<Date>)
        ensures
            r is Some <==> valid_ymd((year as int, month as int, day as int)),
            r matches Some(d) ==> d.ymd() == (year as int, month as int, day as int),
    {
        if ymd_ok(year, month, day) {
            Some(Date { year, month, day })
        } else {
            None
        }
    }

    pub fn year(&self) -> (r: i32)
        ensures
            r == self.ymd().0,
            valid_ymd(self.ymd()),
    {
        proof {
            use_type_invariant(self);
        }
        self.year
    }

    pub fn month(&self) -> (r: u32)
        ensures
            r == self.ymd().1,
            valid_ymd(self.ymd()),
    {
        proof {
            use_type_invariant(self);
        }
        self.month
    }

    pub fn day(&self) -> (r: u32)
        ensures
            r == self.ymd().2,
            valid_ymd(self.ymd()),
    {
        proof {
            use_type_invariant(self);
        }
        self.day
    }

    /// Day of the week.
    pub fn weekday(&self) -> (r: Weekday)
        ensures
            r.index() == weekday_of(self.ymd()),
    {
        proof {
            use_type_invariant(self);
        }
        let i = chrono_weekday(self.year, self.month, self.day);
        Weekday::from_index(i)
    }

    /// The date `n` days later, or `None` where it lies past chrono's range.
    pub fn checked_add_days(&self, n: u32) -> (r: Option<Date>)
        ensures
            r is Some <==> valid_ymd(self.plus_days(n as nat)),
            r matches Some(d) ==> d.ymd() == self.plus_days(n as nat),
    {
        proof {
            use_type_invariant(self);
        }
        match chrono_add_days(self.year, self.month, self.day, n) {
            Some((y, m, d)) => Some(Date { year: y, month: m, day: d }),
            None => None,
        }
    }
}

/// Year, month and day as integers.
pub open spec fn ymd_of(t: (i32, u32, u32)) -> (int, int, int) {
    (t.0 as int, t.1 as int, t.2 as int)
}

/// The date that chrono's `NaiveDate::parse_from_str` reads from `s` with the
/// format `fmt`, as year, month and day.
pub uninterp spec fn chrono_parsed_date(s: Seq<char>, fmt: Seq<char>) -> Option<(i32, u32, u32)>;

/// The time that chrono's `NaiveTime::parse_from_str` reads from `s` with the
/// format `fmt`, as hour, minute and second.
pub uninterp spec fn chrono_parsed_time(s: Seq<char>, fmt: Seq<char>) -> Option<(u32, u32, u32)>;

/// chrono's `NaiveDate::parse_from_str`; its result is named, and it claims
/// only that a date it gives back is a valid date of its range.
#[verifier::external_body]
fn chrono_parse_date(s: &Vec<char>, fmt: &str) -> (r: Option<(i32, u32, u32)>)
    ensures
        r == chrono_parsed_date(s@, fmt@),
        r matches Some(t) ==> valid_ymd(ymd_of(t)),
{
    let text: String = s.iter().collect();
    match chrono::NaiveDate::parse_from_str(&text, fmt) {
        Ok(d) => Some((d.year(), d.month(), d.day())),
        Err(_) => None,
    }
}

/// The two decimal digits of `x`, below 100.
pub open spec fn two_digits(x: int) -> Seq<char> {
    seq![(('0' as int) + x / 10) as char, (('0' as int) + x % 10) as char]
}

/// A time written `HH:MM:SS` with two digits each.
pub open spec fn hms_text(t: (int, int, int)) -> Seq<char> {
    two_digits(t.0) + seq![':'] + two_digits(t.1) + seq![':'] + two_digits(t.2)
}

/// chrono's `NaiveTime::parse_from_str`; its result is named. It claims that
/// hour, minute and second of a time it gives back are in range, and that
/// with the format `%H:%M:%S` it reads back a time written with two digits
/// each after one space (chrono skips white space before a number).
#[verifier::external_body]
fn chrono_parse_time(s: &Vec<char>, fmt: &str) -> (r: Option<(u32, u32, u32)>)
    ensures
        r == chrono_parsed_time(s@, fmt@),
        r matches Some(t) ==> t.0 < 24 && t.1 < 60 && t.2 < 60,
        forall|h: u32, m: u32, sec: u32|
            #![trigger hms_text((h as int, m as int, sec as int))]
            h < 24 && m < 60 && sec < 60 && fmt@ == "%H:%M:%S"@ && s@ == seq![' '] + hms_text(
                (h as int, m as int, sec as int),
            ) ==> r == Some((h, m, sec)),
{
    let text: String = s.iter().collect();
    match chrono::NaiveTime::parse_from_str(&text, fmt) {
        Ok(t) => Some((t.hour(), t.minute(), t.second())),
        Err(_) => None,
    }
}

/// Reads a date from `s` in the format `fmt`.
pub fn parse_date_str(s: &Vec<char>, fmt: &str) -> (r: Option<Date>)
    ensures
        r is Some <==> chrono_parsed_date(s@, fmt@) is Some,
        r matches Some(d) ==> d.ymd() == ymd_of(chrono_parsed_date(s@, fmt@)->0),
{
    match chrono_parse_date(s, fmt) {
        Some((y, m, d)) => Some(Date { year: y, month: m, day: d }),
        None => None,
    }
}

/// Reads a time of day from `s` in the format `fmt`.
pub fn parse_time_str(s: &Vec<char>, fmt: &str) -> (r: Option<Time>)
    ensures
        r is Some <==> chrono_parsed_time(s@, fmt@) is Some,
        r matches Some(t) ==> t.hms() == ({
            let p = chrono_parsed_time(s@, fmt@)->0;
            (p.0 as int, p.1 as int, p.2 as int)
        }),
        forall|h: u32, m: u32, sec: u32|
            #![trigger hms_text((h as int, m as int, sec as int))]
            h < 24 && m < 60 && sec < 60 && fmt@ == "%H:%M:%S"@ && s@ == seq![' '] + hms_text(
                (h as int, m as int, sec as int),
            ) ==> chrono_parsed_time(s@, fmt@) == Some((h, m, sec)),
{
    match chrono_parse_time(s, fmt) {
        Some((h, m, sec)) => Some(Time { hour: h, minute: m, second: sec }),
        None => None,
    }
}

/// A small step forward stays within the year or lands early in the next.
pub proof fn lemma_add_few_days(a: (int, int, int), n: nat)
    requires
        calendar_ok(a),
        n <= 28,
    ensures
        add_days_ymd(a, n).0 == a.0 || (add_days_ymd(a, n).0 == a.0 + 1 && add_days_ymd(a, n).1
            == 1 && add_days_ymd(a, n).2 <= n),
    decreases n,
{
    if n > 0 {
        lemma_add_few_days(a, (n - 1) as nat);
        lemma_add_days(a, (n - 1) as nat);
        lemma_next_ymd(add_days_ymd(a, (n - 1) as nat));
    }
}

/// A step of at most four weeks from a date before chrono's last year stays
/// in range.
pub proof fn lemma_add_few_days_valid(a: (int, int, int), n: nat)
    requires
        valid_ymd(a),
        a.0 < MAX_YEAR,
        n <= 28,
    ensures
        valid_ymd(add_days_ymd(a, n)),
{
    lemma_add_few_days(a, n);
    lemma_add_days(a, n);
}

/// chrono's `NaiveTime::format("%H:%M:%S")`; it claims two zero-padded
/// digits each for hour, minute and second.
/// It also claims that `NaiveTime::parse_from_str` with `%H:%M:%S` reads
/// back the time written.
#[verifier::external_body]
fn chrono_format_hms(hour: u32, minute: u32, second: u32) -> (r: String)
    requires
        hour < 24 && minute < 60 && second < 60,
    ensures
        r@ == hms_text((hour as int, minute as int, second as int)),
        chrono_parsed_time(r@, "%H:%M:%S"@) == Some((hour, minute, second)),
{
    let t = chrono::NaiveTime::from_hms_opt(hour, minute, second).expect("valid time");
    t.format("%H:%M:%S").to_string()
}

/// The four decimal digits of `x`, below 10000.
pub open spec fn four_digits(x: int) -> Seq<char> {
    seq![
        (('0' as int) + x / 1000) as char,
        (('0' as int) + (x / 100) % 10) as char,
        (('0' as int) + (x / 10) % 10) as char,
        (('0' as int) + x % 10) as char,
    ]
}

/// A date written `YYYY-MM-DD` with zero-padded digits.
pub open spec fn ymd_text(t: (int, int, int)) -> Seq<char> {
    four_digits(t.0) + seq!['-'] + two_digits(t.1) + seq!['-'] + two_digits(t.2)
}

/// The chrono formats this crate writes dates and times with; chrono's
/// `format(..).to_string()` panics on a format it cannot render, and these
/// it renders.
pub open spec fn known_date_format(f: Seq<char>) -> bool {
    f == "%Y-%m-%d"@ || f == "%b %e"@
}

/// The chrono formats this crate writes times of day with.
pub open spec fn known_time_format(f: Seq<char>) -> bool {
    f == "%I:%M %p"@ || f == "%H:%M"@ || f == "%H:%M:%S"@
}

/// The text that chrono's `NaiveDate::format` writes for a date with a
/// format.
pub uninterp spec fn chrono_formatted_date(ymd: (int, int, int), fmt: Seq<char>) -> Seq<char>;

/// chrono's `NaiveDate::format(..).to_string()`; its result is named. It
/// also claims that `NaiveDate::parse_from_str` with `%Y-%m-%d` reads back
/// the date that this format wrote (four zero-padded year digits, or a sign
/// and the digits outside 0 to 9999, which the parser accepts), and that
/// for the years 0 to 9999 this format writes the zero-padded digits of
/// year, month and day between two dashes.
#[verifier::external_body]
fn chrono_format_date(year: i32, month: u32, day: u32, fmt: &str) -> (r: String)
    requires
        valid_ymd((year as int, month as int, day as int)),
        known_date_format(fmt@),
    ensures
        r@ == chrono_formatted_date((year as int, month as int, day as int), fmt@),
        fmt@ == "%Y-%m-%d"@ ==> chrono_parsed_date(r@, "%Y-%m-%d"@) == Some((year, month, day)),
        fmt@ == "%Y-%m-%d"@ && 0 <= year <= 9999 ==> r@ == ymd_text(
            (year as int, month as int, day as int),
        ),
{
    let d = chrono::NaiveDate::from_ymd_opt(year, month, day).expect("valid date");
    d.format(fmt).to_string()
}

impl Date {
    /// The date written with a chrono format such as `%Y-%m-%d`.
    pub fn format(&self, fmt: &str) -> (r: String)
        requires
            known_date_format(fmt@),
        ensures
            r@ == chrono_formatted_date(self.ymd(), fmt@),
            fmt@ == "%Y-%m-%d"@ ==> (chrono_parsed_date(r@, "%Y-%m-%d"@) matches Some(p) && ymd_of(p)
                == self.ymd()),
            fmt@ == "%Y-%m-%d"@ && 0 <= self.ymd().0 <= 9999 ==> r@ == ymd_text(self.ymd()),
            valid_ymd(self.ymd()),
    {
        proof {
            use_type_invariant(self);
        }
        chrono_format_date(self.year, self.month, self.day, fmt)
    }
}

/// The text that chrono's `NaiveTime::format` writes for a time with a
/// format.
pub uninterp spec fn chrono_formatted_time(hms: (int, int, int), fmt: Seq<char>) -> Seq<char>;

/// chrono's `NaiveTime::format(..).to_string()`; its result is named. It
/// also claims that `%H:%M:%S` and `%H:%M` write two zero-padded digits for
/// each of hour, minute and second.
#[verifier::external_body]
fn chrono_format_time(hour: u32, minute: u32, second: u32, fmt: &str) -> (r: String)
    requires
        hour < 24 && minute < 60 && second < 60,
        known_time_format(fmt@),
    ensures
        r@ == chrono_formatted_time((hour as int, minute as int, second as int), fmt@),
        fmt@ == "%H:%M:%S"@ ==> r@ == hms_text((hour as int, minute as int, second as int)),
        fmt@ == "%H:%M"@ ==> r@ == two_digits(hour as int) + seq![':'] + two_digits(minute as int),
{
    let t = chrono::NaiveTime::from_hms_opt(hour, minute, second).expect("valid time");
    t.format(fmt).to_string()
}

/// A time of day with whole seconds.
#[derive(Clone, Copy, Debug, PartialEq, Eq, Structural)]
pub struct Time {
    pub(crate) hour: u32,
    pub(crate) minute: u32,
    pub(crate) second: u32,
}

impl Time {
    #[verifier::type_invariant]
    spec fn inv(self) -> bool {
        self.hour < 24 && self.minute < 60 && self.second < 60
    }

    /// Hour, minute and second.
    pub closed spec fn hms(self) -> (int, int, int) {
        (self.hour as int, self.minute as int, self.second as int)
    }

    /// Makes the time `hour`:`minute`:`second`, or `None` where one of them is
    /// out of range.
    pub fn from_hms_opt(hour: u32, minute: u32, second: u32) -> (r: Option<Time>)
        ensures
            r is Some <==> (hour < 24 && minute < 60 && second < 60),
            r matches Some(t) ==> t.hms() == (hour as int, minute as int, second as int),
    {
        if hour < 24 && minute < 60 && second < 60 {
            Some(Time { hour, minute, second })
        } else {
            None
        }
    }

    /// The time written with a chrono format such as `%I:%M %p`.
    pub fn format(&self, fmt: &str) -> (r: String)
        requires
            known_time_format(fmt@),
        ensures
            r@ == chrono_formatted_time(self.hms(), fmt@),
            fmt@ == "%H:%M:%S"@ ==> r@ == hms_text(self.hms()),
            fmt@ == "%H:%M"@ ==> r@ == two_digits(self.hms().0) + seq![':'] + two_digits(self.hms().1),
    {
        proof {
            use_type_invariant(self);
        }
        chrono_format_time(self.hour, self.minute, self.second, fmt)
    }

    /// Times agree where their hour, minute and second agree.
    pub proof fn lemma_hms_determines(a: Time, b: Time)
        requires
            a.hms() == b.hms(),
        ensures
            a == b,
    {
    }

    /// Midnight, the start of a day.
    pub fn midnight() -> (r: Time)
        ensures
            r.hms() == (0int, 0int, 0int),
    {
        Time { hour: 0, minute: 0, second: 0 }
    }

    /// The time as `HH:MM:SS`.
    pub fn format_hms(&self) -> (r: String)
        ensures
            r@ == hms_text(self.hms()),
            chrono_parsed_time(r@, "%H:%M:%S"@) matches Some(p) && (p.0 as int, p.1 as int, p.2 as int)
                == self.hms(),
    {
        proof {
            use_type_invariant(self);
        }
        chrono_format_hms(self.hour, self.minute, self.second)
    }

    pub fn hour(&self) -> (r: u32)
        ensures
            r == self.hms().0,
            r < 24,
    {
        proof {
            use_type_invariant(self);
        }
        self.hour
    }

    pub fn minute(&self) -> (r: u32)
        ensures
            r == self.hms().1,
            r < 60,
    {
        proof {
            use_type_invariant(self);
        }
        self.minute
    }

    pub fn second(&self) -> (r: u32)
        ensures
            r == self.hms().2,
            r < 60,
    {
        proof {
            use_type_invariant(self);
        }
        self.second
    }
}

} // verus!
