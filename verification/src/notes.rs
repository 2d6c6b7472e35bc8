//! Reminder lines in task notes. A reminder time of day stays in the local
//! store: Google Tasks keeps no time of day, and notes sent to Google are
//! cleaned of reminder lines (`[Reminder: HH:MM]`). Notes that come from
//! Google may still carry such a line, which is read.
use crate::calendar::{chrono_parsed_time, hms_text, parse_time_str, Time};
use crate::parser::opt_hms;
use crate::text::{
    chars_of, chars_of_string, ends_with, is_white_space, join, join_with, lines, lines_state,
    slice, split_lines, starts_with, string_of, strip_cr, trim_by, trim_set, views, TrimSet,
};
use vstd::prelude::*;

verus! {

pub open spec fn seq_starts_with(s: Seq<char>, t: Seq<char>) -> bool {
    t.len() <= s.len() && s.take(t.len() as int) == t
}

pub open spec fn seq_ends_with(s: Seq<char>, t: Seq<char>) -> bool {
    t.len() <= s.len() && s.skip(s.len() - t.len()) == t
}

/// A line that, trimmed, starts with `[Reminder:` and ends with `]`.
pub open spec fn is_reminder_line(l: Seq<char>) -> bool {
    let t = trim_by(l, TrimSet::WhiteSpace);
    seq_starts_with(t, "[Reminder:"@) && seq_ends_with(t, "]"@)
}

/// The lines that are not reminder lines, in order.
pub open spec fn kept_lines(ls: Seq<Seq<char>>) -> Seq<Seq<char>>
    decreases ls.len(),
{
    if ls.len() == 0 {
        Seq::empty()
    } else {
        let k = kept_lines(ls.drop_last());
        if is_reminder_line(ls.last()) {
            k
        } else {
            k.push(ls.last())
        }
    }
}

/// Notes without their reminder lines, trimmed.
pub open spec fn clean_notes(s: Seq<char>) -> Seq<char> {
    trim_by(join(kept_lines(lines(s)), "\n"@), TrimSet::WhiteSpace)
}

/// What stands between `[Reminder:` and `]` on a reminder line.
pub open spec fn reminder_part(l: Seq<char>) -> Seq<char> {
    let t = trim_by(l, TrimSet::WhiteSpace);
    t.subrange(10, t.len() - 1)
}

/// The time a line carries: a reminder line whose part reads as
/// `%H:%M:%S` or else `%H:%M`.
pub open spec fn line_reminder(l: Seq<char>) -> Option<(int, int, int)> {
    if is_reminder_line(l) {
        match chrono_parsed_time(reminder_part(l), "%H:%M:%S"@) {
            Some(t) => Some((t.0 as int, t.1 as int, t.2 as int)),
            None => match chrono_parsed_time(reminder_part(l), "%H:%M"@) {
                Some(t) => Some((t.0 as int, t.1 as int, t.2 as int)),
                None => None,
            },
        }
    } else {
        None
    }
}

/// The time of the last line that carries one.
pub open spec fn last_reminder(ls: Seq<Seq<char>>) -> Option<(int, int, int)>
    decreases ls.len(),
{
    if ls.len() == 0 {
        None
    } else {
        match line_reminder(ls.last()) {
            Some(t) => Some(t),
            None => last_reminder(ls.drop_last()),
        }
    }
}

/// Empty text as no text.
pub open spec fn non_empty(s: Seq<char>) -> Option<Seq<char>> {
    if s.len() == 0 {
        None
    } else {
        Some(s)
    }
}

pub open spec fn opt_view(s: Option<String>) -> Option<Seq<char>> {
    match s {
        Some(x) => Some(x@),
        None => None,
    }
}

/// The notes and the reminder time that notes coming from Google carry.
pub open spec fn extracted(notes: Option<Seq<char>>) -> (Option<Seq<char>>, Option<(int, int, int)>) {
    match notes {
        None => (None, None),
        Some(s) => (non_empty(clean_notes(s)), last_reminder(lines(s))),
    }
}

/// The notes sent to Google: the local notes cleaned of reminder lines,
/// with no notes where nothing is left. The reminder time is not sent.
pub open spec fn pushed_notes(notes: Option<Seq<char>>) -> Option<Seq<char>> {
    match notes {
        Some(n) => non_empty(clean_notes(n)),
        None => None,
    }
}

fn is_reminder_line_exec(line: &Vec<char>) -> (r: bool)
    ensures
        r == is_reminder_line(line@),
{
    let t = trim_set(line, TrimSet::WhiteSpace);
    starts_with(&t, "[Reminder:") && ends_with(&t, "]")
}

fn kept_lines_exec(ls: &Vec<Vec<char>>) -> (r: Vec<Vec<char>>)
    ensures
        views(r@) == kept_lines(views(ls@)),
{
    let mut out: Vec<Vec<char>> = Vec::new();
    let mut i: usize = 0;
    while i < ls.len()
        invariant
            i <= ls@.len(),
            views(out@) == kept_lines(views(ls@).take(i as int)),
        decreases ls.len() - i,
    {
        assert(views(ls@).take(i + 1).drop_last() =~= views(ls@).take(i as int));
        let ghost before = views(out@);
        if !is_reminder_line_exec(&ls[i]) {
            out.push(ls[i].clone());
            assert(views(out@) =~= before.push(ls@[i as int]@));
        }
        i += 1;
    }
    assert(views(ls@).take(ls@.len() as int) =~= views(ls@));
    out
}

/// Removes the reminder lines from notes and trims what is left.
pub fn clean_reminder_from_notes(notes: &str) -> (r: String)
    ensures
        r@ == clean_notes(notes@),
{
    let chars = chars_of(notes);
    let ls = split_lines(&chars);
    let kept = kept_lines_exec(&ls);
    let joined = join_with(&kept, "\n");
    let trimmed = trim_set(&joined, TrimSet::WhiteSpace);
    string_of(&trimmed)
}

/// chrono reads back, with `%H:%M:%S`, a time written with two digits each
/// after one space, as `p` may be.
pub open spec fn reads_back(p: Seq<char>) -> bool {
    forall|h: u32, m: u32, s: u32|
        #![trigger hms_text((h as int, m as int, s as int))]
        h < 24 && m < 60 && s < 60 && p == seq![' '] + hms_text((h as int, m as int, s as int))
            ==> chrono_parsed_time(p, "%H:%M:%S"@) == Some((h, m, s))
}

fn line_reminder_exec(line: &Vec<char>) -> (r: Option<Time>)
    ensures
        opt_hms(r) == line_reminder(line@),
        is_reminder_line(line@) ==> reads_back(reminder_part(line@)),
{
    let t = trim_set(line, TrimSet::WhiteSpace);
    if starts_with(&t, "[Reminder:") && ends_with(&t, "]") {
        proof {
            reveal_strlit("[Reminder:");
            reveal_strlit("]");
            assert("[Reminder:"@.len() == 10);
            assert("]"@.len() == 1);
            if t@.len() <= 10 {
                assert(t@.take(10)[9] == "[Reminder:"@[9]);
                assert(t@.skip(t@.len() - 1)[0] == "]"@[0]);
                assert(t@[9] == ':');
                assert(t@[t@.len() - 1] == ']');
            }
        }
        let part = slice(&t, 10, t.len() - 1);
        assert(part@ == reminder_part(line@));
        let with_secs = parse_time_str(&part, "%H:%M:%S");
        if with_secs.is_some() {
            return with_secs;
        }
        parse_time_str(&part, "%H:%M")
    } else {
        None
    }
}

/// Clean notes `c` with a reminder line for the time `t` after them, as
/// notes that carry a reminder time are written.
pub open spec fn reminder_notes(c: Seq<char>, t: (int, int, int)) -> Seq<char> {
    if c.len() == 0 {
        reminder_line(t)
    } else {
        c + "\n"@ + reminder_line(t)
    }
}

/// Splits notes that come from Google into the notes proper, without
/// reminder lines and trimmed (`None` where nothing is left), and the time
/// of the last reminder line that carries a readable time. Notes cleaned of
/// reminder lines, with the line `[Reminder: HH:MM:SS]` for a time written
/// after them, read back as the cleaned notes and that time (unless a `\r`
/// before a `\n` is left in the cleaned notes).
pub fn extract_reminder_from_notes(notes: &Option<String>) -> (r: (Option<String>, Option<Time>))
    ensures
        (opt_view(r.0), opt_hms(r.1)) == extracted(opt_view(*notes)),
        forall|n: Seq<char>, t: (int, int, int)|
            #![trigger reminder_notes(clean_notes(n), t)]
            0 <= t.0 < 24 && 0 <= t.1 < 60 && 0 <= t.2 < 60 && !has_crlf(clean_notes(n)) && opt_view(*notes)
                == Some(reminder_notes(clean_notes(n), t)) ==> (opt_view(r.0), opt_hms(r.1)) == (
                non_empty(clean_notes(n)),
                Some(t),
            ),
{
    let notes_str = match notes {
        Some(n) => n,
        None => return (None, None),
    };
    let chars = chars_of_string(notes_str);
    let ls = split_lines(&chars);
    let ghost lv = views(ls@);
    let mut cleaned_lines: Vec<Vec<char>> = Vec::new();
    let mut reminder_time: Option<Time> = None;
    let mut i: usize = 0;
    while i < ls.len()
        invariant
            lv == views(ls@),
            lv == lines(chars@),
            i <= ls@.len(),
            views(cleaned_lines@) == kept_lines(lv.take(i as int)),
            opt_hms(reminder_time) == last_reminder(lv.take(i as int)),
            forall|j: int|
                #![trigger lv[j]]
                0 <= j < i && is_reminder_line(lv[j]) ==> reads_back(reminder_part(lv[j])),
        decreases ls.len() - i,
    {
        assert(lv.take(i + 1).drop_last() =~= lv.take(i as int));
        assert(lv.take(i + 1).last() == lv[i as int]);
        let line = &ls[i];
        let ghost before = views(cleaned_lines@);
        if is_reminder_line_exec(line) {
            let t = line_reminder_exec(line);
            if t.is_some() {
                reminder_time = t;
            }
        } else {
            cleaned_lines.push(line.clone());
            assert(views(cleaned_lines@) =~= before.push(lv[i as int]));
        }
        i += 1;
    }
    assert(lv.take(ls@.len() as int) =~= lv);
    let joined = join_with(&cleaned_lines, "\n");
    let trimmed = trim_set(&joined, TrimSet::WhiteSpace);
    let final_notes = if trimmed.len() == 0 {
        None
    } else {
        Some(string_of(&trimmed))
    };
    proof {
        assert forall|n: Seq<char>, t: (int, int, int)|
            #![trigger reminder_notes(clean_notes(n), t)]
            0 <= t.0 < 24 && 0 <= t.1 < 60 && 0 <= t.2 < 60 && !has_crlf(clean_notes(n)) && opt_view(*notes)
                == Some(reminder_notes(clean_notes(n), t)) implies (opt_view(final_notes), opt_hms(reminder_time))
            == (non_empty(clean_notes(n)), Some(t)) by {
            let c = clean_notes(n);
            lemma_clean_twice(n);
            lemma_reminder_notes(c, t);
            let j = lv.len() - 1;
            assert(lv[j] == reminder_line(t));
            assert(reads_back(reminder_part(lv[j])));
        }
    }
    (final_notes, reminder_time)
}

/// The notes to send to Google for a task with these local notes: cleaned
/// of reminder lines, none where nothing is left.
pub fn notes_for_push(notes: &Option<String>) -> (r: Option<String>)
    ensures
        opt_view(r) == pushed_notes(opt_view(*notes)),
{
    match notes {
        Some(existing) => {
            let cleaned = clean_reminder_from_notes(existing.as_str());
            if cleaned.as_str().unicode_len() == 0 {
                None
            } else {
                Some(cleaned)
            }
        },
        None => None,
    }
}

/// No `\n` in `s`.
pub open spec fn one_line(s: Seq<char>) -> bool {
    forall|i: int| 0 <= i < s.len() ==> s[i] != '\n'
}

proof fn lemma_lines_state_one_line(r: Seq<char>)
    requires
        one_line(r),
    ensures
        lines_state(r) == (Seq::<Seq<char>>::empty(), r),
    decreases r.len(),
{
    if r.len() > 0 {
        lemma_lines_state_one_line(r.drop_last());
        assert(r.drop_last().push(r.last()) =~= r);
    }
}

proof fn lemma_lines_state_after_newline(p: Seq<char>, r: Seq<char>)
    requires
        one_line(r),
    ensures
        lines_state(p + "\n"@ + r) == (lines_state(p).0.push(lines_state(p).1), r),
    decreases r.len(),
{
    reveal_strlit("\n");
    if r.len() == 0 {
        assert(p + "\n"@ + r =~= p.push('\n'));
        assert((p + "\n"@ + r).drop_last() =~= p);
    } else {
        lemma_lines_state_after_newline(p, r.drop_last());
        assert((p + "\n"@ + r).drop_last() =~= p + "\n"@ + r.drop_last());
        assert(r.drop_last().push(r.last()) =~= r);
    }
}

proof fn lemma_trail_count_stops(t: Seq<char>, k: TrimSet)
    requires
        crate::text::trail_count(t, k) < t.len(),
    ensures
        !crate::text::in_trim_set(k, t[t.len() - crate::text::trail_count(t, k) - 1]),
    decreases t.len(),
{
    if t.len() > 0 && crate::text::in_trim_set(k, t.last()) {
        lemma_trail_count_stops(t.drop_last(), k);
    }
}

proof fn lemma_trail_count_le(t: Seq<char>, k: TrimSet)
    ensures
        crate::text::trail_count(t, k) <= t.len(),
    decreases t.len(),
{
    if t.len() > 0 {
        lemma_trail_count_le(t.drop_last(), k);
    }
}

/// A non-empty trimmed text ends in a char that is not white space.
proof fn lemma_trimmed_last(s: Seq<char>)
    requires
        trim_by(s, TrimSet::WhiteSpace).len() > 0,
    ensures
        !is_white_space(trim_by(s, TrimSet::WhiteSpace).last()),
{
    let t = s.skip(crate::text::lead_count(s, TrimSet::WhiteSpace) as int);
    lemma_trail_count_le(t, TrimSet::WhiteSpace);
    lemma_trail_count_stops(t, TrimSet::WhiteSpace);
}

/// Empty notes clean to empty notes.
pub proof fn lemma_clean_empty()
    ensures
        clean_notes(Seq::empty()) == Seq::<char>::empty(),
{
    assert(lines_state(Seq::<char>::empty()) == (Seq::<Seq<char>>::empty(), Seq::<char>::empty()));
    assert(lines(Seq::<char>::empty()) =~= Seq::<Seq<char>>::empty());
}

// ------------------------------------------------------------------
// Cleaned notes carry no reminder line

/// The pieces of a text between its `\n`s, the last one included even
/// where it is empty.
pub open spec fn pieces(s: Seq<char>) -> Seq<Seq<char>> {
    lines_state(s).0.push(lines_state(s).1)
}

/// No piece of `s` is a reminder line.
pub open spec fn no_reminder_piece(s: Seq<char>) -> bool {
    forall|i: int| 0 <= i < pieces(s).len() ==> !is_reminder_line(#[trigger] pieces(s)[i])
}

proof fn lemma_lead_in_set(s: Seq<char>, k: TrimSet, j: int)
    requires
        0 <= j < crate::text::lead_count(s, k),
    ensures
        j < s.len(),
        crate::text::in_trim_set(k, s[j]),
    decreases s.len(),
{
    if j > 0 {
        lemma_lead_in_set(s.drop_first(), k, j - 1);
    }
}

proof fn lemma_trail_in_set(t: Seq<char>, k: TrimSet, j: int)
    requires
        0 <= j < crate::text::trail_count(t, k),
    ensures
        j < t.len(),
        crate::text::in_trim_set(k, t[t.len() - 1 - j]),
    decreases t.len(),
{
    if j > 0 {
        lemma_trail_in_set(t.drop_last(), k, j - 1);
    }
}

proof fn lemma_lead_count_le(s: Seq<char>, k: TrimSet)
    ensures
        crate::text::lead_count(s, k) <= s.len(),
    decreases s.len(),
{
    if s.len() > 0 {
        lemma_lead_count_le(s.drop_first(), k);
    }
}

proof fn lemma_lead_count_push(p: Seq<char>, c: char, k: TrimSet)
    ensures
        crate::text::lead_count(p, k) < p.len() ==> crate::text::lead_count(p.push(c), k)
            == crate::text::lead_count(p, k),
        crate::text::lead_count(p, k) == p.len() ==> crate::text::lead_count(p.push(c), k) == p.len()
            + (if crate::text::in_trim_set(k, c) {
            1int
        } else {
            0int
        }),
    decreases p.len(),
{
    if p.len() == 0 {
        assert(p.push(c).drop_first() =~= Seq::<char>::empty());
        assert(p.push(c)[0] == c);
        assert(crate::text::lead_count(Seq::<char>::empty(), k) == 0);
    } else {
        assert(p.push(c).drop_first() =~= p.drop_first().push(c));
        assert(p.push(c)[0] == p[0]);
        lemma_lead_count_push(p.drop_first(), c, k);
        lemma_lead_count_le(p.drop_first(), k);
    }
}

/// A trailing white-space char does not change what trimming leaves.
proof fn lemma_trim_push_ws(p: Seq<char>, c: char)
    requires
        is_white_space(c),
    ensures
        trim_by(p.push(c), TrimSet::WhiteSpace) == trim_by(p, TrimSet::WhiteSpace),
{
    let k = TrimSet::WhiteSpace;
    let l = crate::text::lead_count(p, k);
    lemma_lead_count_le(p, k);
    lemma_lead_count_push(p, c, k);
    if l < p.len() {
        let t = p.skip(l as int);
        assert(p.push(c).skip(l as int) =~= t.push(c));
        assert(t.push(c).drop_last() =~= t);
        lemma_trail_count_le(t, k);
        assert(t.push(c).take(t.push(c).len() - crate::text::trail_count(t.push(c), k)) =~= t.take(
            t.len() - crate::text::trail_count(t, k),
        ));
    } else {
        assert(p.skip(l as int) =~= Seq::<char>::empty());
        assert(p.push(c).skip(p.len() + 1int) =~= Seq::<char>::empty());
    }
}

/// A leading white-space char does not change what trimming leaves.
proof fn lemma_trim_prepend_ws(p: Seq<char>, c: char)
    requires
        is_white_space(c),
    ensures
        trim_by(seq![c] + p, TrimSet::WhiteSpace) == trim_by(p, TrimSet::WhiteSpace),
{
    let k = TrimSet::WhiteSpace;
    let q = seq![c] + p;
    assert(q.drop_first() =~= p);
    assert(q[0] == c);
    let l = crate::text::lead_count(p, k);
    lemma_lead_count_le(p, k);
    assert(crate::text::lead_count(q, k) == 1 + l);
    assert(q.skip(1 + l as int) =~= p.skip(l as int));
}

proof fn lemma_pieces_push(s: Seq<char>, c: char)
    ensures
        pieces(s.push(c)) == (if c == '\n' {
            pieces(s).push(Seq::<char>::empty())
        } else {
            pieces(s).drop_last().push(pieces(s).last().push(c))
        }),
{
    assert(s.push(c).drop_last() =~= s);
    assert(s.push(c).last() == c);
    if c == '\n' {
        assert(pieces(s.push(c)) =~= pieces(s).push(Seq::<char>::empty()));
    } else {
        assert(pieces(s.push(c)) =~= pieces(s).drop_last().push(pieces(s).last().push(c)));
    }
}

proof fn lemma_pieces_prepend(c: char, s: Seq<char>)
    ensures
        pieces(seq![c] + s) == (if c == '\n' {
            seq![Seq::<char>::empty()] + pieces(s)
        } else {
            seq![seq![c] + pieces(s)[0]] + pieces(s).skip(1)
        }),
    decreases s.len(),
{
    let e = Seq::<char>::empty();
    if s.len() == 0 {
        assert(seq![c] + s =~= Seq::<char>::empty().push(c));
        lemma_pieces_push(Seq::<char>::empty(), c);
        assert(pieces(Seq::<char>::empty()) =~= seq![e]);
        if c == '\n' {
            assert(pieces(seq![c] + s) =~= seq![e] + pieces(s));
        } else {
            assert(pieces(seq![c] + s) =~= seq![seq![c] + pieces(s)[0]] + pieces(s).skip(1));
        }
    } else {
        let s0 = s.drop_last();
        let d = s.last();
        assert(s0.push(d) =~= s);
        assert(seq![c] + s =~= (seq![c] + s0).push(d));
        lemma_pieces_prepend(c, s0);
        lemma_pieces_push(seq![c] + s0, d);
        lemma_pieces_push(s0, d);
        let p0 = pieces(s0);
        assert(p0.len() >= 1);
        if d == '\n' {
            if c == '\n' {
                assert(pieces(seq![c] + s) =~= seq![e] + pieces(s));
            } else {
                assert(pieces(s) =~= p0.push(e));
                assert(pieces(s)[0] == p0[0]);
                assert(pieces(s).skip(1) =~= p0.skip(1).push(e));
                assert(pieces(seq![c] + s) =~= seq![seq![c] + pieces(s)[0]] + pieces(s).skip(1));
            }
        } else {
            if c == '\n' {
                assert(pieces(seq![c] + s) =~= seq![e] + pieces(s));
            } else if p0.len() == 1 {
                assert(pieces(s) =~= seq![p0[0].push(d)]);
                assert(seq![c] + p0[0].push(d) =~= (seq![c] + p0[0]).push(d));
                assert(pieces(seq![c] + s) =~= seq![seq![c] + pieces(s)[0]] + pieces(s).skip(1));
            } else {
                assert(pieces(s) =~= p0.drop_last().push(p0.last().push(d)));
                assert(pieces(s)[0] == p0[0]);
                assert(pieces(s).skip(1) =~= p0.skip(1).drop_last().push(p0.last().push(d)));
                assert(pieces(seq![c] + s) =~= seq![seq![c] + pieces(s)[0]] + pieces(s).skip(1));
            }
        }
    }
}

proof fn lemma_no_reminder_drop_last(s: Seq<char>)
    requires
        s.len() > 0,
        is_white_space(s.last()),
        no_reminder_piece(s),
    ensures
        no_reminder_piece(s.drop_last()),
{
    let s0 = s.drop_last();
    let c = s.last();
    assert(s0.push(c) =~= s);
    lemma_pieces_push(s0, c);
    assert forall|i: int| 0 <= i < pieces(s0).len() implies !is_reminder_line(#[trigger] pieces(s0)[i]) by {
        if c == '\n' {
            assert(pieces(s)[i] == pieces(s0)[i]);
        } else if i < pieces(s0).len() - 1 {
            assert(pieces(s)[i] == pieces(s0)[i]);
        } else {
            assert(pieces(s)[i] == pieces(s0).last().push(c));
            lemma_trim_push_ws(pieces(s0).last(), c);
        }
    }
}

proof fn lemma_no_reminder_drop_first(s: Seq<char>)
    requires
        s.len() > 0,
        is_white_space(s[0]),
        no_reminder_piece(s),
    ensures
        no_reminder_piece(s.drop_first()),
{
    let s1 = s.drop_first();
    let c = s[0];
    assert(seq![c] + s1 =~= s);
    lemma_pieces_prepend(c, s1);
    assert forall|i: int| 0 <= i < pieces(s1).len() implies !is_reminder_line(#[trigger] pieces(s1)[i]) by {
        if c == '\n' {
            assert(pieces(s)[i + 1] == pieces(s1)[i]);
        } else if i > 0 {
            assert(pieces(s)[i] == pieces(s1)[i]);
        } else {
            assert(pieces(s)[0] == seq![c] + pieces(s1)[0]);
            lemma_trim_prepend_ws(pieces(s1)[0], c);
        }
    }
}

proof fn lemma_no_reminder_skip(s: Seq<char>, i: int)
    requires
        no_reminder_piece(s),
        0 <= i <= crate::text::lead_count(s, TrimSet::WhiteSpace),
    ensures
        no_reminder_piece(s.skip(i)),
    decreases i,
{
    if i == 0 {
        assert(s.skip(0) =~= s);
    } else {
        lemma_no_reminder_skip(s, i - 1);
        lemma_lead_in_set(s, TrimSet::WhiteSpace, i - 1);
        assert(s.skip(i - 1)[0] == s[i - 1]);
        assert(s.skip(i) =~= s.skip(i - 1).drop_first());
        lemma_no_reminder_drop_first(s.skip(i - 1));
    }
}

proof fn lemma_no_reminder_take(t: Seq<char>, k: int)
    requires
        no_reminder_piece(t),
        0 <= k <= crate::text::trail_count(t, TrimSet::WhiteSpace),
    ensures
        no_reminder_piece(t.take(t.len() - k)),
    decreases k,
{
    lemma_trail_count_le(t, TrimSet::WhiteSpace);
    if k == 0 {
        assert(t.take(t.len() as int) =~= t);
    } else {
        lemma_no_reminder_take(t, k - 1);
        lemma_trail_in_set(t, TrimSet::WhiteSpace, k - 1);
        let u = t.take(t.len() - k + 1);
        assert(u.last() == t[t.len() - k]);
        assert(t.take(t.len() - k) =~= u.drop_last());
        lemma_no_reminder_drop_last(u);
    }
}

proof fn lemma_no_reminder_trim(s: Seq<char>)
    requires
        no_reminder_piece(s),
    ensures
        no_reminder_piece(trim_by(s, TrimSet::WhiteSpace)),
{
    let k = TrimSet::WhiteSpace;
    let l = crate::text::lead_count(s, k);
    lemma_lead_count_le(s, k);
    lemma_no_reminder_skip(s, l as int);
    let t = s.skip(l as int);
    lemma_no_reminder_take(t, crate::text::trail_count(t, k) as int);
}

proof fn lemma_lines_state_one_line_parts(s: Seq<char>)
    ensures
        forall|i: int| 0 <= i < lines_state(s).0.len() ==> one_line(#[trigger] lines_state(s).0[i]),
        one_line(lines_state(s).1),
    decreases s.len(),
{
    if s.len() > 0 {
        lemma_lines_state_one_line_parts(s.drop_last());
    }
}

proof fn lemma_lines_one_line(s: Seq<char>)
    ensures
        forall|i: int| 0 <= i < lines(s).len() ==> one_line(#[trigger] lines(s)[i]),
{
    lemma_lines_state_one_line_parts(s);
}

proof fn lemma_kept_lines(ls: Seq<Seq<char>>)
    requires
        forall|i: int| 0 <= i < ls.len() ==> one_line(#[trigger] ls[i]),
    ensures
        forall|i: int| 0 <= i < kept_lines(ls).len() ==> one_line(#[trigger] kept_lines(ls)[i])
            && !is_reminder_line(kept_lines(ls)[i]),
    decreases ls.len(),
{
    if ls.len() > 0 {
        assert forall|i: int| 0 <= i < ls.drop_last().len() implies one_line(#[trigger] ls.drop_last()[i]) by {
            assert(ls.drop_last()[i] == ls[i]);
        }
        lemma_kept_lines(ls.drop_last());
        let k = kept_lines(ls.drop_last());
        assert(one_line(ls[ls.len() - 1]));
        if !is_reminder_line(ls.last()) {
            assert forall|i: int| 0 <= i < k.len() + 1 implies one_line(#[trigger] k.push(ls.last())[i])
                && !is_reminder_line(k.push(ls.last())[i]) by {
                if i < k.len() {
                    assert(k.push(ls.last())[i] == k[i]);
                }
            }
        }
    }
}

proof fn lemma_pieces_join(ks: Seq<Seq<char>>)
    requires
        ks.len() > 0,
        forall|i: int| 0 <= i < ks.len() ==> one_line(#[trigger] ks[i]),
    ensures
        pieces(join(ks, "\n"@)) == ks,
    decreases ks.len(),
{
    if ks.len() == 1 {
        lemma_lines_state_one_line(ks[0]);
        assert(pieces(join(ks, "\n"@)) =~= ks);
    } else {
        let d = ks.drop_last();
        assert forall|i: int| 0 <= i < d.len() implies one_line(#[trigger] d[i]) by {
            assert(d[i] == ks[i]);
        }
        lemma_pieces_join(d);
        assert(one_line(ks.last()));
        lemma_lines_state_after_newline(join(d, "\n"@), ks.last());
        assert(pieces(join(ks, "\n"@)) =~= pieces(join(d, "\n"@)).push(ks.last()));
        assert(d.push(ks.last()) =~= ks);
    }
}

proof fn lemma_last_reminder_none(ls: Seq<Seq<char>>)
    requires
        forall|i: int| 0 <= i < ls.len() ==> !is_reminder_line(#[trigger] ls[i]),
    ensures
        last_reminder(ls) is None,
    decreases ls.len(),
{
    if ls.len() > 0 {
        assert forall|i: int| 0 <= i < ls.drop_last().len() implies !is_reminder_line(#[trigger] ls.drop_last()[i]) by {
            assert(ls.drop_last()[i] == ls[i]);
        }
        lemma_last_reminder_none(ls.drop_last());
        assert(!is_reminder_line(ls.last()));
    }
}

proof fn lemma_lines_of_no_reminder(u: Seq<char>)
    requires
        no_reminder_piece(u),
    ensures
        forall|i: int| 0 <= i < lines(u).len() ==> !is_reminder_line(#[trigger] lines(u)[i]),
        last_reminder(lines(u)) is None,
{
    let ls = lines(u);
    assert forall|i: int| 0 <= i < ls.len() implies !is_reminder_line(#[trigger] ls[i]) by {
        let p = pieces(u)[i];
        assert(!is_reminder_line(p));
        if i < lines_state(u).0.len() {
            assert(ls[i] == strip_cr(p));
            if p.len() > 0 && p.last() == '\r' {
                assert(p.drop_last().push('\r') =~= p);
                lemma_trim_push_ws(p.drop_last(), '\r');
            }
        } else {
            assert(ls[i] == p);
        }
    }
    lemma_last_reminder_none(ls);
}

/// Cleaned notes are trimmed and carry no reminder line, so no reminder
/// time.
pub proof fn lemma_cleaned_has_no_reminder(x: Seq<char>)
    ensures
        trim_by(clean_notes(x), TrimSet::WhiteSpace) == clean_notes(x),
        forall|i: int|
            0 <= i < lines(clean_notes(x)).len() ==> !is_reminder_line(#[trigger] lines(clean_notes(x))[i]),
        last_reminder(lines(clean_notes(x))) is None,
{
    lemma_trim_twice(join(kept_lines(lines(x)), "\n"@));
    let ks = kept_lines(lines(x));
    lemma_lines_one_line(x);
    lemma_kept_lines(lines(x));
    if ks.len() == 0 {
        let j = join(ks, "\n"@);
        assert(j =~= Seq::<char>::empty());
        lemma_clean_empty();
        assert(trim_by(j, TrimSet::WhiteSpace) =~= Seq::<char>::empty());
        assert(lines(Seq::<char>::empty()) =~= Seq::<Seq<char>>::empty());
    } else {
        lemma_pieces_join(ks);
        let j = join(ks, "\n"@);
        assert(no_reminder_piece(j));
        lemma_no_reminder_trim(j);
        lemma_lines_of_no_reminder(trim_by(j, TrimSet::WhiteSpace));
    }
}


// ------------------------------------------------------------------
// Cleaning twice cleans once

/// A `\r` directly before a `\n` somewhere in `s`.
pub open spec fn has_crlf(s: Seq<char>) -> bool {
    exists|i: int| 0 <= i && i + 1 < s.len() && #[trigger] s[i] == '\r' && s[i + 1] == '\n'
}

/// Scanning text with no `\r` before a `\n`: no finished line ends with
/// `\r`, and the line being read ends with the text's last char.
proof fn lemma_lines_state_no_crlf(s: Seq<char>)
    requires
        !has_crlf(s),
    ensures
        forall|i: int|
            0 <= i < lines_state(s).0.len() && #[trigger] lines_state(s).0[i].len() > 0
                ==> lines_state(s).0[i].last() != '\r',
        lines_state(s).1.len() > 0 ==> lines_state(s).1.last() == s.last(),
    decreases s.len(),
{
    if s.len() > 0 {
        let s0 = s.drop_last();
        assert forall|i: int| 0 <= i && i + 1 < s0.len() implies !(#[trigger] s0[i] == '\r' && s0[i + 1]
            == '\n') by {
            assert(s[i] == s0[i] && s[i + 1] == s0[i + 1]);
        }
        lemma_lines_state_no_crlf(s0);
        let cur = lines_state(s0).1;
        if s.last() == '\n' && cur.len() > 0 {
            assert(cur.last() == s0.last());
            assert(s[s.len() - 2] == s0.last());
            assert(s[s.len() - 1] == '\n');
        }
    }
}

proof fn lemma_lead_count_stops(s: Seq<char>, k: TrimSet)
    requires
        crate::text::lead_count(s, k) < s.len(),
    ensures
        !crate::text::in_trim_set(k, s[crate::text::lead_count(s, k) as int]),
    decreases s.len(),
{
    if crate::text::in_trim_set(k, s[0]) {
        lemma_lead_count_stops(s.drop_first(), k);
    }
}

/// Trimming twice trims once.
proof fn lemma_trim_twice(s: Seq<char>)
    ensures
        trim_by(trim_by(s, TrimSet::WhiteSpace), TrimSet::WhiteSpace) == trim_by(s, TrimSet::WhiteSpace),
{
    let k = TrimSet::WhiteSpace;
    let t = trim_by(s, k);
    if t.len() == 0 {
        assert(crate::text::lead_count(t, k) == 0);
        assert(trim_by(t, k) =~= t);
    } else {
        lemma_lead_count_le(s, k);
        let l = crate::text::lead_count(s, k);
        let u = s.skip(l as int);
        lemma_trail_count_le(u, k);
        assert(t[0] == s[l as int]);
        lemma_lead_count_stops(s, k);
        lemma_trimmed_last(s);
        assert(crate::text::lead_count(t, k) == 0);
        assert(crate::text::trail_count(t, k) == 0);
        assert(trim_by(t, k) =~= t);
    }
}

proof fn lemma_join_pieces(s: Seq<char>)
    ensures
        join(pieces(s), "\n"@) == s,
    decreases s.len(),
{
    reveal_strlit("\n");
    if s.len() == 0 {
        assert(pieces(s) =~= seq![Seq::<char>::empty()]);
    } else {
        let s0 = s.drop_last();
        let c = s.last();
        assert(s0.push(c) =~= s);
        lemma_join_pieces(s0);
        lemma_pieces_push(s0, c);
        let p = pieces(s0);
        if c == '\n' {
            assert(p.push(Seq::<char>::empty()).drop_last() =~= p);
            assert(join(p.push(Seq::<char>::empty()), "\n"@) =~= s0 + "\n"@ + Seq::<char>::empty());
            assert(s0 + "\n"@ + Seq::<char>::empty() =~= s);
        } else if p.len() == 1 {
            assert(p.drop_last().push(p.last().push(c)) =~= seq![p[0].push(c)]);
            assert(s0 == p[0]);
            assert(p[0].push(c) =~= s);
        } else {
            let q = p.drop_last().push(p.last().push(c));
            assert(q.drop_last() =~= p.drop_last());
            assert(join(q, "\n"@) == join(p.drop_last(), "\n"@) + "\n"@ + p.last().push(c));
            assert(join(p, "\n"@) == join(p.drop_last(), "\n"@) + "\n"@ + p.last());
            assert(join(p.drop_last(), "\n"@) + "\n"@ + p.last().push(c) =~= (join(
                p.drop_last(),
                "\n"@,
            ) + "\n"@ + p.last()).push(c));
        }
    }
}

proof fn lemma_lines_are_pieces(t: Seq<char>)
    requires
        !has_crlf(t),
        t.len() > 0,
        t.last() != '\n',
    ensures
        lines(t) == pieces(t),
{
    lemma_lines_state_no_crlf(t);
    assert(t.drop_last().push(t.last()) =~= t);
    let done = lines_state(t).0;
    assert(lines_state(t).1.len() > 0);
    assert forall|i: int| 0 <= i < done.len() implies strip_cr(#[trigger] done[i]) == done[i] by {
        if done[i].len() > 0 {
            assert(done[i].last() != '\r');
        }
    }
    assert(done.map_values(|l: Seq<char>| strip_cr(l)) =~= done);
    assert(lines(t) =~= pieces(t));
}

proof fn lemma_kept_all(ls: Seq<Seq<char>>)
    requires
        forall|i: int| 0 <= i < ls.len() ==> !is_reminder_line(#[trigger] ls[i]),
    ensures
        kept_lines(ls) == ls,
    decreases ls.len(),
{
    if ls.len() > 0 {
        assert forall|i: int| 0 <= i < ls.drop_last().len() implies !is_reminder_line(#[trigger] ls.drop_last()[i]) by {
            assert(ls.drop_last()[i] == ls[i]);
        }
        lemma_kept_all(ls.drop_last());
        assert(!is_reminder_line(ls[ls.len() - 1]));
        assert(ls.drop_last().push(ls.last()) =~= ls);
    }
}

/// Cleaning notes twice cleans them once, unless a `\r` before a `\n`
/// is left after the first cleaning (as of `a\r\r\nb`, which cleans to
/// `a\r\nb` and then to `a\nb`).
pub proof fn lemma_clean_twice(x: Seq<char>)
    requires
        !has_crlf(clean_notes(x)),
    ensures
        clean_notes(clean_notes(x)) == clean_notes(x),
{
    let ks = kept_lines(lines(x));
    lemma_clean_empty();
    lemma_lines_one_line(x);
    lemma_kept_lines(lines(x));
    if ks.len() == 0 {
        assert(join(ks, "\n"@) =~= Seq::<char>::empty());
        assert(trim_by(Seq::<char>::empty(), TrimSet::WhiteSpace) =~= Seq::<char>::empty());
    } else {
        let j = join(ks, "\n"@);
        let t = trim_by(j, TrimSet::WhiteSpace);
        lemma_pieces_join(ks);
        assert(no_reminder_piece(j));
        lemma_no_reminder_trim(j);
        if t.len() == 0 {
            assert(t =~= Seq::<char>::empty());
        } else {
            lemma_trimmed_last(j);
            lemma_lines_are_pieces(t);
            lemma_kept_all(pieces(t));
            lemma_join_pieces(t);
            lemma_trim_twice(j);
        }
    }
}

/// What a push sends, a pull reads back: the notes come back as sent, with
/// no reminder time, unless a `\r` before a `\n` is left in what is sent.
pub proof fn lemma_pull_reads_pushed_notes(n: Option<Seq<char>>)
    requires
        n matches Some(x) ==> !has_crlf(clean_notes(x)),
    ensures
        extracted(pushed_notes(n)) == (pushed_notes(n), None::<(int, int, int)>),
{
    if let Some(x) = n {
        lemma_clean_twice(x);
        lemma_cleaned_has_no_reminder(x);
    }
}


// ------------------------------------------------------------------
// A reminder line reads back

/// The reminder line for a time.
pub open spec fn reminder_line(t: (int, int, int)) -> Seq<char> {
    "[Reminder: "@ + hms_text(t) + "]"@
}

proof fn lemma_hms_text(t: (int, int, int))
    requires
        0 <= t.0 < 24 && 0 <= t.1 < 60 && 0 <= t.2 < 60,
    ensures
        hms_text(t).len() == 8,
        forall|i: int| 0 <= i < 8 ==> hms_text(t)[i] == ':' || ('0' <= #[trigger] hms_text(t)[i] && hms_text(t)[i] <= '9'),
{
    let x = hms_text(t);
    assert(x.len() == 8);
    assert forall|i: int| 0 <= i < 8 implies x[i] == ':' || ('0' <= #[trigger] x[i] && x[i] <= '9') by {
        if i == 2 || i == 5 {
        } else {
        }
    }
}

proof fn lemma_reminder_line(t: (int, int, int))
    requires
        0 <= t.0 < 24 && 0 <= t.1 < 60 && 0 <= t.2 < 60,
    ensures
        one_line(reminder_line(t)),
        is_reminder_line(reminder_line(t)),
        reminder_part(reminder_line(t)) == seq![' '] + hms_text(t),
        lines(reminder_line(t)) == seq![reminder_line(t)],
        reminder_line(t).len() > 0 && reminder_line(t).last() == ']',
{
    reveal_strlit("[Reminder: ");
    reveal_strlit("[Reminder:");
    reveal_strlit("]");
    lemma_hms_text(t);
    let r = reminder_line(t);
    let h = hms_text(t);
    assert(r.len() == 20);
    assert forall|i: int| 0 <= i < r.len() implies r[i] != '\n' by {
        if 11 <= i < 19 {
            assert(r[i] == h[i - 11]);
        }
    }
    assert(r[0] == '[');
    assert(r[19] == ']');
    let k = TrimSet::WhiteSpace;
    assert(crate::text::lead_count(r, k) == 0);
    assert(r.skip(0) =~= r);
    assert(crate::text::trail_count(r, k) == 0);
    assert(trim_by(r, k) =~= r);
    assert(r.take(10) =~= "[Reminder:"@);
    assert(r.skip(19) =~= "]"@);
    assert(r.subrange(10, 19) =~= seq![' '] + h);
    lemma_lines_state_one_line(r);
    assert(lines(r) =~= seq![r]);
}

/// Clean notes followed by a reminder line read back as the notes and, where
/// chrono reads the line's time back, that time.
proof fn lemma_reminder_notes(c: Seq<char>, t: (int, int, int))
    requires
        0 <= t.0 < 24 && 0 <= t.1 < 60 && 0 <= t.2 < 60,
        clean_notes(c) == c,
    ensures
        lines(reminder_notes(c, t)).len() > 0,
        lines(reminder_notes(c, t)).last() == reminder_line(t),
        is_reminder_line(reminder_line(t)),
        reminder_part(reminder_line(t)) == seq![' '] + hms_text(t),
        reads_back(seq![' '] + hms_text(t)) ==> extracted(Some(reminder_notes(c, t))) == (
            non_empty(c),
            Some(t),
        ),
{
    lemma_reminder_line(t);
    lemma_clean_empty();
    let r = reminder_line(t);
    let e = reminder_notes(c, t);
    if c.len() == 0 {
        assert(seq![r].drop_last() =~= Seq::<Seq<char>>::empty());
        assert(seq![r].last() == r);
        assert(is_reminder_line(seq![r].last()));
        assert(kept_lines(Seq::<Seq<char>>::empty()) =~= Seq::<Seq<char>>::empty());
        assert(kept_lines(seq![r]) == kept_lines(seq![r].drop_last()));
        assert(kept_lines(seq![r]) =~= Seq::<Seq<char>>::empty());
        assert(join(Seq::<Seq<char>>::empty(), "\n"@) =~= Seq::<char>::empty());
        assert(clean_notes(e) == clean_notes(Seq::<char>::empty()));
    } else {
        reveal_strlit("\n");
        let j = join(kept_lines(lines(c)), "\n"@);
        lemma_trimmed_last(j);
        assert(c.last() != '\n');
        assert(c.drop_last().push(c.last()) =~= c);
        assert(lines_state(c).1.len() > 0);
        lemma_lines_state_after_newline(c, r);
        assert(e == c + "\n"@ + r);
        let all_c = lines_state(c).0.push(lines_state(c).1);
        assert(lines_state(e) == (all_c, r));
        assert(strip_cr(r) == r);
        assert(all_c.push(r).map_values(|l: Seq<char>| strip_cr(l)) =~= all_c.map_values(
            |l: Seq<char>| strip_cr(l),
        ).push(r));
        assert(lines(e) =~= lines(c).push(r));
        assert(lines(c).push(r).drop_last() =~= lines(c));
        assert(kept_lines(lines(e)) == kept_lines(lines(c)));
    }
    if reads_back(seq![' '] + hms_text(t)) {
        let h = t.0 as u32;
        let m = t.1 as u32;
        let s = t.2 as u32;
        assert(hms_text((h as int, m as int, s as int)) == hms_text(t));
        assert(chrono_parsed_time(reminder_part(r), "%H:%M:%S"@) == Some((h, m, s)));
        assert(line_reminder(r) == Some(t));
        assert(lines(e).last() == r);
        assert(lines(e).len() > 0);
    }
}

} // verus!
