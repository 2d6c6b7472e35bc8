//! Quick-add parsing: a line such as "Buy groceries tomorrow at 5pm" gives a
//! title, an optional due date and an optional reminder time.
use crate::calendar::{
    add_days_ymd, calendar_ok, chrono_parsed_date, chrono_parsed_time, lemma_weekday_add_days, parse_date_str,
    parse_time_str, valid_ymd, weekday_of, ymd_of, Date, Time, MAX_YEAR, MIN_YEAR,
};
use crate::text::{
    chars_of, ends_with, eq_str, join, join_with, parse_u32, parse_u32_spec, slice,
    split_whitespace, string_of, to_lowercase, trim_by, trim_set, unicode_lowercase, views, words,
    TrimSet,
};
use vstd::prelude::*;

verus! {

/// A date as year, month and day, if there is one.
pub open spec fn opt_ymd(d: Option<Date>) -> Option<(int, int, int)> {
    match d {
        Some(x) => Some(x.ymd()),
        None => None,
    }
}

/// A time as hour, minute and second, if there is one.
pub open spec fn opt_hms(t: Option<Time>) -> Option<(int, int, int)> {
    match t {
        Some(x) => Some(x.hms()),
        None => None,
    }
}

/// The weekday (Monday = 0) that a lowercase date word names.
pub open spec fn weekday_word(w: Seq<char>) -> Option<int> {
    if w == "monday"@ || w == "mon"@ {
        Some(0)
    } else if w == "tuesday"@ || w == "tue"@ {
        Some(1)
    } else if w == "wednesday"@ || w == "wed"@ {
        Some(2)
    } else if w == "thursday"@ || w == "thu"@ {
        Some(3)
    } else if w == "friday"@ || w == "fri"@ {
        Some(4)
    } else if w == "saturday"@ || w == "sat"@ {
        Some(5)
    } else if w == "sunday"@ || w == "sun"@ {
        Some(6)
    } else {
        None
    }
}

/// The date a lowercase relative date word names, `tomorrow` or a weekday,
/// lies in chrono's range (other words name no date relative to today).
pub open spec fn relative_date_ok(token: Seq<char>, today: (int, int, int)) -> bool {
    let clean = trim_by(token, TrimSet::DateJunk);
    &&& clean == "tomorrow"@ ==> valid_ymd(add_days_ymd(today, 1))
    &&& weekday_word(clean) matches Some(wd) ==> valid_ymd(
        add_days_ymd(today, days_until_weekday(weekday_of(today), wd) as nat),
    )
}

/// Every relative date word among `ws`, lowercased, names a date in
/// chrono's range.
pub open spec fn relative_dates_ok(ws: Seq<Seq<char>>, today: (int, int, int)) -> bool {
    forall|k: int| 0 <= k < ws.len() ==> relative_date_ok(#[trigger] unicode_lowercase(ws[k]), today)
}

/// How many days after a day of weekday `from` the next day of weekday `to`
/// comes: 1 to 7.
pub open spec fn days_until_weekday(from: int, to: int) -> int {
    ((to - from + 6) % 7) + 1
}

pub open spec fn is_date_sep(c: char) -> bool {
    c == '-' || c == '/'
}

/// `s` holds exactly one `-` or `/`, at `k`.
pub open spec fn one_sep_at(s: Seq<char>, k: int) -> bool {
    0 <= k < s.len() && is_date_sep(s[k]) && forall|j: int|
        0 <= j < s.len() && j != k ==> !is_date_sep(#[trigger] s[j])
}

/// A month-day token such as `12-25` or `12/25`, in the given year.
pub open spec fn month_day_spec(s: Seq<char>, year: int) -> Option<(int, int, int)> {
    if exists|k: int| one_sep_at(s, k) {
        let k = choose|k: int| one_sep_at(s, k);
        match (parse_u32_spec(s.take(k)), parse_u32_spec(s.skip(k + 1))) {
            (Some(m), Some(d)) => if valid_ymd((year, m as int, d as int)) {
                Some((year, m as int, d as int))
            } else {
                None
            },
            _ => None,
        }
    } else {
        None
    }
}

/// The date that a lowercase word names, seen from `today`: `today`,
/// `tomorrow`, a weekday (its next occurrence after today), `YYYY-MM-DD`,
/// `YYYY/MM/DD`, or a month and day of this year.
pub open spec fn date_token_spec(token: Seq<char>, today: (int, int, int)) -> Option<(int, int, int)> {
    let clean = trim_by(token, TrimSet::DateJunk);
    if clean.len() == 0 {
        None
    } else if clean == "today"@ {
        Some(today)
    } else if clean == "tomorrow"@ {
        Some(add_days_ymd(today, 1))
    } else {
        match weekday_word(clean) {
            Some(wd) => Some(add_days_ymd(today, days_until_weekday(weekday_of(today), wd) as nat)),
            None => match chrono_parsed_date(clean, "%Y-%m-%d"@) {
                Some(t) => Some(ymd_of(t)),
                None => match chrono_parsed_date(clean, "%Y/%m/%d"@) {
                    Some(t) => Some(ymd_of(t)),
                    None => month_day_spec(clean, today.0),
                },
            },
        }
    }
}

/// The hour on the 24-hour clock for an hour read with an am/pm suffix.
pub open spec fn ampm_hour(h: int, is_am: bool, is_pm: bool) -> int {
    if is_pm && h < 12 {
        h + 12
    } else if is_am && h == 12 {
        0
    } else {
        h
    }
}

pub open spec fn seq_ends_with(s: Seq<char>, t: Seq<char>) -> bool {
    t.len() <= s.len() && s.skip(s.len() - t.len()) == t
}

/// The time that a lowercase word names: `HH:MM:SS`, `HH:MM`, or either of
/// `HH:MM` and `H` followed by `am` or `pm`.
pub open spec fn time_token_spec(token: Seq<char>) -> Option<(int, int, int)> {
    let clean = trim_by(token, TrimSet::TimeJunk);
    if clean.len() == 0 {
        None
    } else {
        match chrono_parsed_time(clean, "%H:%M:%S"@) {
            Some(t) => Some((t.0 as int, t.1 as int, t.2 as int)),
            None => match chrono_parsed_time(clean, "%H:%M"@) {
                Some(t) => Some((t.0 as int, t.1 as int, t.2 as int)),
                None => {
                    let lower = unicode_lowercase(clean);
                    let is_am = seq_ends_with(lower, "am"@);
                    let is_pm = seq_ends_with(lower, "pm"@);
                    if is_am || is_pm {
                        let ts = lower.take(lower.len() - 2);
                        match chrono_parsed_time(ts, "%H:%M"@) {
                            Some(t) => Some((ampm_hour(t.0 as int, is_am, is_pm), t.1 as int, 0)),
                            None => match parse_u32_spec(ts) {
                                Some(h) => if h <= 12 {
                                    Some((ampm_hour(h as int, is_am, is_pm), 0, 0))
                                } else {
                                    None
                                },
                                None => None,
                            },
                        }
                    } else {
                        None
                    }
                },
            },
        }
    }
}

pub open spec fn is_preposition(w: Seq<char>) -> bool {
    w == "on"@ || w == "at"@ || w == "by"@ || w == "due"@
}

/// The date of `next` followed by a weekday word at word `j`, such as "next
/// Friday": the next day of that weekday after today.
pub open spec fn next_weekday(words: Seq<Seq<char>>, j: int, today: (int, int, int)) -> Option<
    (int, int, int),
> {
    if 0 <= j && j + 1 < words.len() && unicode_lowercase(words[j]) == "next"@ && weekday_word(
        trim_by(unicode_lowercase(words[j + 1]), TrimSet::DateJunk),
    ) is Some {
        date_token_spec(unicode_lowercase(words[j + 1]), today)
    } else {
        None
    }
}

/// What word `i` yields: a date, a time, and how many following words it
/// takes along. A preposition takes `next` and a weekday word after it, or
/// the next word where that word is a date (and none is set yet) or a time
/// (and none is set yet); otherwise `next` takes a weekday word after it,
/// and the word itself is tried as a date and then as a time.
pub open spec fn word_match(
    words: Seq<Seq<char>>,
    i: int,
    due_set: bool,
    rem_set: bool,
    today: (int, int, int),
) -> (Option<(int, int, int)>, Option<(int, int, int)>, nat) {
    let wl = unicode_lowercase(words[i]);
    let ahead = if is_preposition(wl) && !due_set && next_weekday(words, i + 1, today) is Some {
        (next_weekday(words, i + 1, today), None, 2nat)
    } else if is_preposition(wl) && i + 1 < words.len() {
        let nl = unicode_lowercase(words[i + 1]);
        match date_token_spec(nl, today) {
            Some(d) => if !due_set {
                (Some(d), None, 1nat)
            } else {
                (None, None, 0nat)
            },
            None => match time_token_spec(nl) {
                Some(t) => if !rem_set {
                    (None, Some(t), 1nat)
                } else {
                    (None, None, 0nat)
                },
                None => (None, None, 0nat),
            },
        }
    } else {
        (None, None, 0nat)
    };
    if ahead.0 is None && ahead.1 is None {
        if !due_set && next_weekday(words, i, today) is Some {
            (next_weekday(words, i, today), None, 1nat)
        } else {
            let d = if !due_set {
                date_token_spec(wl, today)
            } else {
                None
            };
            let t = if d is None && !rem_set {
                time_token_spec(wl)
            } else {
                None
            };
            (d, t, 0nat)
        }
    } else {
        ahead
    }
}

/// The scan over the first `n` words: the title words kept, the due date,
/// the reminder time, and how many words are still to be skipped.
pub open spec fn scan(words: Seq<Seq<char>>, today: (int, int, int), n: nat) -> (
    Seq<Seq<char>>,
    Option<(int, int, int)>,
    Option<(int, int, int)>,
    nat,
)
    decreases n,
{
    if n == 0 {
        (Seq::empty(), None, None, 0)
    } else {
        let (clean, due, rem, skip) = scan(words, today, (n - 1) as nat);
        let i = n - 1;
        if skip > 0 {
            (clean, due, rem, (skip - 1) as nat)
        } else {
            let (d, t, consumed) = word_match(words, i, due is Some, rem is Some, today);
            match d {
                Some(dd) => (clean, Some(dd), rem, consumed),
                None => match t {
                    Some(tt) => (clean, due, Some(tt), consumed),
                    None => (clean.push(words[i]), due, rem, 0),
                },
            }
        }
    }
}

/// Title, due date and reminder time of a quick-add line.
pub open spec fn parsed_input(input: Seq<char>, today: (int, int, int)) -> (
    Seq<char>,
    Option<(int, int, int)>,
    Option<(int, int, int)>,
) {
    let ws = words(input);
    let st = scan(ws, today, ws.len());
    (join(st.0, " "@), st.1, st.2)
}

fn weekday_of_word(w: &Vec<char>) -> (r: Option<u32>)
    ensures
        match weekday_word(w@) {
            Some(i) => r == Some(i as u32),
            None => r is None,
        },
{
    if eq_str(w, "monday") || eq_str(w, "mon") {
        Some(0)
    } else if eq_str(w, "tuesday") || eq_str(w, "tue") {
        Some(1)
    } else if eq_str(w, "wednesday") || eq_str(w, "wed") {
        Some(2)
    } else if eq_str(w, "thursday") || eq_str(w, "thu") {
        Some(3)
    } else if eq_str(w, "friday") || eq_str(w, "fri") {
        Some(4)
    } else if eq_str(w, "saturday") || eq_str(w, "sat") {
        Some(5)
    } else if eq_str(w, "sunday") || eq_str(w, "sun") {
        Some(6)
    } else {
        None
    }
}

/// Reads a month-day token such as `12-25` in the given year.
pub fn parse_mm_dd(token: &Vec<char>, year: i32) -> (r: Option<Date>)
    requires
        MIN_YEAR <= year <= MAX_YEAR,
    ensures
        opt_ymd(r) == month_day_spec(token@, year as int),
{
    let n = token.len();
    let mut first: Option<usize> = None;
    let mut second = false;
    let mut i: usize = 0;
    while i < n
        invariant
            n == token@.len(),
            i <= n,
            first is None ==> !second && forall|j: int| 0 <= j < i ==> !is_date_sep(#[trigger] token@[j]),
            first matches Some(k) ==> {
                &&& k < i
                &&& is_date_sep(token@[k as int])
                &&& forall|j: int| 0 <= j < k ==> !is_date_sep(#[trigger] token@[j])
                &&& second <==> exists|j: int| k < j < i && is_date_sep(#[trigger] token@[j])
            },
        decreases n - i,
    {
        let c = token[i];
        if c == '-' || c == '/' {
            if first.is_none() {
                first = Some(i);
            } else {
                second = true;
            }
        }
        i += 1;
    }
    match first {
        Some(k) => {
            if second {
                proof {
                    let j = choose|j: int| k < j < n && is_date_sep(#[trigger] token@[j]);
                    assert forall|kk: int| !one_sep_at(token@, kk) by {
                        if one_sep_at(token@, kk) {
                            if kk != k {
                                assert(!is_date_sep(token@[k as int]));
                            } else {
                                assert(!is_date_sep(token@[j]));
                            }
                        }
                    }
                }
                None
            } else {
                assert(one_sep_at(token@, k as int));
                proof {
                    let kk = choose|kk: int| one_sep_at(token@, kk);
                    if kk != k {
                        assert(!is_date_sep(token@[k as int]));
                    }
                }
                let before = slice(token, 0, k);
                let after = slice(token, k + 1, n);
                assert(before@ =~= token@.take(k as int));
                assert(after@ =~= token@.skip(k + 1));
                let mm = parse_u32(&before);
                let dd = parse_u32(&after);
                match (mm, dd) {
                    (Some(m), Some(d)) => Date::from_ymd_opt(year, m, d),
                    _ => None,
                }
            }
        },
        None => {
            assert forall|kk: int| !one_sep_at(token@, kk) by {
                if one_sep_at(token@, kk) {
                    assert(is_date_sep(token@[kk]));
                }
            }
            None
        },
    }
}

/// Reads a date from a lowercase word, seen from `today`.
pub fn parse_date_token(token: &Vec<char>, today: &Date) -> (r: Option<Date>)
    requires
        relative_date_ok(token@, today.ymd()),
    ensures
        opt_ymd(r) == date_token_spec(token@, today.ymd()),
{
    today.lemma_valid();
    let clean = trim_set(token, TrimSet::DateJunk);
    if clean.len() == 0 {
        return None;
    }
    if eq_str(&clean, "today") {
        return Some(*today);
    }
    if eq_str(&clean, "tomorrow") {
        return today.checked_add_days(1);
    }
    match weekday_of_word(&clean) {
        Some(wd) => {
            let cur = today.weekday().num_days_from_monday();
            let k = ((wd + 6 - cur) % 7) + 1;
            assert(k == days_until_weekday(weekday_of(today.ymd()), wd as int));
            return today.checked_add_days(k);
        },
        None => {},
    }
    let ymd_dash = parse_date_str(&clean, "%Y-%m-%d");
    if ymd_dash.is_some() {
        return ymd_dash;
    }
    let ymd_slash = parse_date_str(&clean, "%Y/%m/%d");
    if ymd_slash.is_some() {
        return ymd_slash;
    }
    parse_mm_dd(&clean, today.year())
}

/// Reads a time of day from a lowercase word.
pub fn parse_time_token(token: &Vec<char>) -> (r: Option<Time>)
    ensures
        opt_hms(r) == time_token_spec(token@),
{
    let clean = trim_set(token, TrimSet::TimeJunk);
    if clean.len() == 0 {
        return None;
    }
    let hms = parse_time_str(&clean, "%H:%M:%S");
    if hms.is_some() {
        return hms;
    }
    let hm = parse_time_str(&clean, "%H:%M");
    if hm.is_some() {
        return hm;
    }
    let lower = to_lowercase(&clean);
    let is_am = ends_with(&lower, "am");
    let is_pm = ends_with(&lower, "pm");
    proof {
        reveal_strlit("am");
        reveal_strlit("pm");
    }
    if is_am || is_pm {
        let ts = slice(&lower, 0, lower.len() - 2);
        assert(ts@ =~= lower@.take(lower@.len() - 2));
        match parse_time_str(&ts, "%H:%M") {
            Some(t) => {
                let mut hour = t.hour();
                if is_pm && hour < 12 {
                    hour = hour + 12;
                } else if is_am && hour == 12 {
                    hour = 0;
                }
                return Time::from_hms_opt(hour, t.minute(), 0);
            },
            None => {},
        }
        match parse_u32(&ts) {
            Some(h0) => {
                if h0 <= 12 {
                    let mut h = h0;
                    if is_pm && h < 12 {
                        h = h + 12;
                    } else if is_am && h == 12 {
                        h = 0;
                    }
                    return Time::from_hms_opt(h, 0, 0);
                }
            },
            None => {},
        }
    }
    None
}

/// None of `ws` reads as a date, a time or `next`.
pub open spec fn plain_words(ws: Seq<Seq<char>>, today: (int, int, int)) -> bool {
    forall|k: int|
        0 <= k < ws.len() ==> date_token_spec(#[trigger] unicode_lowercase(ws[k]), today) is None
            && time_token_spec(unicode_lowercase(ws[k])) is None && unicode_lowercase(ws[k])
            != "next"@
}

proof fn lemma_scan_plain(ws: Seq<Seq<char>>, today: (int, int, int), n: nat)
    requires
        plain_words(ws, today),
        n <= ws.len(),
    ensures
        scan(ws, today, n) == (ws.take(n as int), None::<(int, int, int)>, None::<(int, int, int)>, 0nat),
    decreases n,
{
    if n == 0 {
        assert(ws.take(0) =~= Seq::<Seq<char>>::empty());
    } else {
        let i = n - 1;
        lemma_scan_plain(ws, today, (n - 1) as nat);
        assert(unicode_lowercase(ws[i]) != "next"@);
        if i + 1 < ws.len() {
            assert(unicode_lowercase(ws[i + 1]) != "next"@);
            assert(date_token_spec(unicode_lowercase(ws[i + 1]), today) is None);
        }
        assert(date_token_spec(unicode_lowercase(ws[i]), today) is None);
        assert(word_match(ws, i, false, false, today) == (None::<(int, int, int)>, None::<(int, int, int)>, 0nat));
        assert(ws.take(i).push(ws[i]) =~= ws.take(n as int));
    }
}

/// A line whose words read as no date, no time and no `next` is all title:
/// its words joined by single spaces, with no due date and no reminder.
pub proof fn lemma_plain_line_is_title(input: Seq<char>, today: (int, int, int))
    requires
        plain_words(words(input), today),
    ensures
        parsed_input(input, today) == (join(words(input), " "@), None::<(int, int, int)>, None::<(int, int, int)>),
{
    let ws = words(input);
    lemma_scan_plain(ws, today, ws.len());
    assert(ws.take(ws.len() as int) =~= ws);
}

/// A weekday word names the next day of that weekday after `today`: a day
/// one to seven days later that falls on that weekday, with no day of that
/// weekday between (so on a Wednesday, `wed` is a week later).
pub proof fn lemma_weekday_word_is_next(token: Seq<char>, today: (int, int, int), wd: int) -> (n: nat)
    requires
        calendar_ok(today),
        weekday_word(trim_by(token, TrimSet::DateJunk)) == Some(wd),
    ensures
        1 <= n <= 7,
        date_token_spec(token, today) == Some(add_days_ymd(today, n)),
        weekday_of(add_days_ymd(today, n)) == wd,
        forall|k: nat| 1 <= k < n ==> weekday_of(#[trigger] add_days_ymd(today, k)) != wd,
{
    reveal_strlit("today");
    reveal_strlit("tomorrow");
    reveal_strlit("monday");
    reveal_strlit("mon");
    reveal_strlit("tuesday");
    reveal_strlit("tue");
    reveal_strlit("wednesday");
    reveal_strlit("wed");
    reveal_strlit("thursday");
    reveal_strlit("thu");
    reveal_strlit("friday");
    reveal_strlit("fri");
    reveal_strlit("saturday");
    reveal_strlit("sat");
    reveal_strlit("sunday");
    reveal_strlit("sun");
    let clean = trim_by(token, TrimSet::DateJunk);
    assert(clean != "today"@ && clean != "tomorrow"@) by {
        if clean == "today"@ || clean == "tomorrow"@ {
            assert(clean[0] == 't');
            if clean.len() == 5 {
                assert(clean[1] == 'o');
            } else {
                assert(clean[1] == 'o');
            }
        }
    }
    let from = weekday_of(today);
    assert(0 <= from < 7);
    assert(0 <= wd < 7);
    let n = days_until_weekday(from, wd) as nat;
    lemma_weekday_add_days(today, n);
    assert forall|k: nat| 1 <= k < n implies weekday_of(#[trigger] add_days_ymd(today, k)) != wd by {
        lemma_weekday_add_days(today, k);
    }
    n
}

/// An `am` or `pm` suffix picks the half of the day. Where a time word
/// does not read as `%H:%M:%S` or `%H:%M` itself, and what stands before
/// its `am`/`pm` reads as the clock hour `h` (1 to 12) and minute `m` (as
/// `%H:%M`, or as a bare hour with minute 0), the word names minute `m` of
/// an hour that matches `h` on the 12-hour dial: from 12 to 23 after `pm`
/// (so `12:30pm` is half past noon), from 0 to 11 after `am` (so `12am` is
/// midnight).
pub proof fn lemma_am_pm_half_day(token: Seq<char>, lower: Seq<char>, h: int, m: int)
    requires
        trim_by(token, TrimSet::TimeJunk).len() > 0,
        chrono_parsed_time(trim_by(token, TrimSet::TimeJunk), "%H:%M:%S"@) is None,
        chrono_parsed_time(trim_by(token, TrimSet::TimeJunk), "%H:%M"@) is None,
        lower == unicode_lowercase(trim_by(token, TrimSet::TimeJunk)),
        seq_ends_with(lower, "am"@) || seq_ends_with(lower, "pm"@),
        1 <= h <= 12,
        (chrono_parsed_time(lower.take(lower.len() - 2), "%H:%M"@) matches Some(p) && p.0 == h
            && p.1 == m) || (chrono_parsed_time(lower.take(lower.len() - 2), "%H:%M"@) is None
            && parse_u32_spec(lower.take(lower.len() - 2)) == Some(h as u32) && m == 0),
    ensures
        time_token_spec(token) matches Some(r) && r.0 % 12 == h % 12 && r.1 == m && r.2 == 0,
        seq_ends_with(lower, "pm"@) ==> (time_token_spec(token) matches Some(r) && 12 <= r.0 < 24),
        !seq_ends_with(lower, "pm"@) ==> (time_token_spec(token) matches Some(r) && 0 <= r.0 < 12),
{
    reveal_strlit("am");
    reveal_strlit("pm");
    if seq_ends_with(lower, "pm"@) && seq_ends_with(lower, "am"@) {
        assert(lower.skip(lower.len() - 2)[0] == "pm"@[0]);
        assert(lower.skip(lower.len() - 2)[0] == "am"@[0]);
    }
}

fn is_preposition_exec(w: &Vec<char>) -> (r: bool)
    ensures
        r == is_preposition(w@),
{
    eq_str(w, "on") || eq_str(w, "at") || eq_str(w, "by") || eq_str(w, "due")
}

fn next_weekday_exec(words: &Vec<Vec<char>>, j: usize, today: &Date) -> (r: Option<Date>)
    requires
        relative_dates_ok(views(words@), today.ymd()),
    ensures
        opt_ymd(r) == next_weekday(views(words@), j as int, today.ymd()),
{
    if j >= words.len() || j + 1 >= words.len() {
        return None;
    }
    let wl = to_lowercase(&words[j]);
    if !eq_str(&wl, "next") {
        return None;
    }
    let nl = to_lowercase(&words[j + 1]);
    let clean = trim_set(&nl, TrimSet::DateJunk);
    if weekday_of_word(&clean).is_none() {
        return None;
    }
    parse_date_token(&nl, today)
}

fn match_word(words: &Vec<Vec<char>>, i: usize, due_set: bool, rem_set: bool, today: &Date) -> (r: (
    Option<Date>,
    Option<Time>,
    usize,
))
    requires
        i < words@.len(),
        relative_dates_ok(views(words@), today.ymd()),
    ensures
        (opt_ymd(r.0), opt_hms(r.1), r.2 as nat) == word_match(
            views(words@),
            i as int,
            due_set,
            rem_set,
            today.ymd(),
        ),
        r.2 <= 2,
{
    let ghost ws = views(words@);
    let wl = to_lowercase(&words[i]);
    let mut d: Option<Date> = None;
    let mut t: Option<Time> = None;
    let mut consumed: usize = 0;
    if is_preposition_exec(&wl) && !due_set && i < words.len() - 1 {
        let after = next_weekday_exec(words, i + 1, today);
        if after.is_some() {
            return (after, None, 2);
        }
    }
    if is_preposition_exec(&wl) && i < words.len() - 1 {
        let nl = to_lowercase(&words[i + 1]);
        match parse_date_token(&nl, today) {
            Some(date) => {
                if !due_set {
                    d = Some(date);
                    consumed = 1;
                }
            },
            None => {
                match parse_time_token(&nl) {
                    Some(time) => {
                        if !rem_set {
                            t = Some(time);
                            consumed = 1;
                        }
                    },
                    None => {},
                }
            },
        }
    }
    if d.is_none() && t.is_none() {
        if !due_set {
            let after = next_weekday_exec(words, i, today);
            if after.is_some() {
                return (after, None, 1);
            }
        }
        if !due_set {
            d = parse_date_token(&wl, today);
        }
        if d.is_none() && !rem_set {
            t = parse_time_token(&wl);
        }
        consumed = 0;
    }
    (d, t, consumed)
}

/// Splits a quick-add line into its title, due date and reminder time, with
/// relative dates taken from `today`.
///
/// Words that give the due date or the reminder time leave the title, and so
/// do a preposition (`on`, `at`, `by`, `due`) in front of one and a `next`
/// in front of a weekday ("next Friday"). The title is the remaining words
/// joined by single spaces. Each relative date word ("tomorrow", a weekday)
/// must name a date in chrono's range.
pub fn parse_task_input(input: &str, today: Date) -> (r: (String, Option<Date>, Option<Time>))
    requires
        relative_dates_ok(words(input@), today.ymd()),
    ensures
        (r.0@, opt_ymd(r.1), opt_hms(r.2)) == parsed_input(input@, today.ymd()),
{
    let chars = chars_of(input);
    let word_list = split_whitespace(&chars);
    let ghost ws = views(word_list@);
    let mut clean: Vec<Vec<char>> = Vec::new();
    let mut due: Option<Date> = None;
    let mut rem: Option<Time> = None;
    let mut skip: usize = 0;
    let mut i: usize = 0;
    while i < word_list.len()
        invariant
            ws == views(word_list@),
            ws == words(input@),
            i <= word_list@.len(),
            relative_dates_ok(ws, today.ymd()),
            skip <= 2,
            (views(clean@), opt_ymd(due), opt_hms(rem), skip as nat) == scan(ws, today.ymd(), i as nat),
        decreases word_list.len() - i,
    {
        let ghost clean_before = views(clean@);
        if skip > 0 {
            skip = skip - 1;
        } else {
            let (d, t, consumed) = match_word(&word_list, i, due.is_some(), rem.is_some(), &today);
            if d.is_some() {
                due = d;
                skip = consumed;
            } else if t.is_some() {
                rem = t;
                skip = consumed;
            } else {
                let w = word_list[i].clone();
                clean.push(w);
                assert(views(clean@) =~= clean_before.push(ws[i as int]));
            }
        }
        i += 1;
    }
    let title = join_with(&clean, " ");
    (string_of(&title), due, rem)
}

} // verus!
