//! Text as sequences of chars: splitting into words and lines, trimming,
//! joining, and the few std character facts the parsers rely on.
use vstd::prelude::*;

verus! {

/// The Unicode `White_Space` property, which `char::is_whitespace` tests.
pub open spec fn is_white_space(c: char) -> bool {
    let x = c as u32;
    (9 <= x <= 13) || x == 32 || x == 0x85 || x == 0xa0 || x == 0x1680 || (0x2000 <= x <= 0x200a)
        || x == 0x2028 || x == 0x2029 || x == 0x202f || x == 0x205f || x == 0x3000
}

/// What `char::is_alphanumeric` answers (the Unicode Alphabetic and Numeric
/// properties).
pub uninterp spec fn unicode_alphanumeric(c: char) -> bool;

/// What `str::to_lowercase` gives for a string.
pub uninterp spec fn unicode_lowercase(s: Seq<char>) -> Seq<char>;

/// Whether `c` is white space (the Unicode `White_Space` property, as
/// `char::is_whitespace` documents it).
pub(crate) fn char_is_whitespace(c: char) -> (r: bool)
    ensures
        r == is_white_space(c),
{
    let x = c as u32;
    (9 <= x && x <= 13) || x == 32 || x == 0x85 || x == 0xa0 || x == 0x1680 || (0x2000 <= x && x
        <= 0x200a) || x == 0x2028 || x == 0x2029 || x == 0x202f || x == 0x205f || x == 0x3000
}

/// An ASCII char.
pub open spec fn is_ascii_char(c: char) -> bool {
    (c as u32) < 128
}

/// An ASCII letter or digit.
pub open spec fn is_ascii_alnum(c: char) -> bool {
    ('a' <= c && c <= 'z') || ('A' <= c && c <= 'Z') || ('0' <= c && c <= '9')
}

/// The ASCII lowercase of an ASCII char.
pub open spec fn ascii_lower(c: char) -> char {
    if 'A' <= c && c <= 'Z' {
        ((c as u32) + 32) as char
    } else {
        c
    }
}

/// std's `char::is_alphanumeric`; its answer is named. It claims what the
/// std documentation gives for ASCII: exactly the letters and digits.
#[verifier::external_body]
pub(crate) fn char_is_alphanumeric(c: char) -> (r: bool)
    ensures
        r == unicode_alphanumeric(c),
        is_ascii_char(c) ==> (r == is_ascii_alnum(c)),
{
    c.is_alphanumeric()
}

/// std's `str::to_lowercase`; its result is named. It claims what the std
/// documentation gives for ASCII text: each capital letter becomes its small
/// letter, and the other chars stay.
#[verifier::external_body]
pub(crate) fn to_lowercase(s: &Vec<char>) -> (r: Vec<char>)
    ensures
        r@ == unicode_lowercase(s@),
        (forall|i: int| 0 <= i < s@.len() ==> is_ascii_char(#[trigger] s@[i])) ==> r@ == s@.map_values(
            |c: char| ascii_lower(c),
        ),
{
    let text: String = s.iter().collect();
    text.to_lowercase().chars().collect()
}

/// std's `String::push`; it claims that the char is appended.
#[verifier::external_body]
fn push_char(s: &mut String, c: char)
    ensures
        final(s)@ == old(s)@.push(c),
{
    s.push(c);
}

/// The chars of a string slice.
pub fn chars_of(s: &str) -> (r: Vec<char>)
    ensures
        r@ == s@,
{
    let n = s.unicode_len();
    let mut v: Vec<char> = Vec::new();
    let mut i: usize = 0;
    while i < n
        invariant
            n == s@.len(),
            i <= n,
            v@ == s@.take(i as int),
        decreases n - i,
    {
        v.push(s.get_char(i));
        i += 1;
        assert(v@ =~= s@.take(i as int));
    }
    assert(v@ =~= s@);
    v
}

/// The string made of the given chars.
pub fn string_of(v: &Vec<char>) -> (r: String)
    ensures
        r@ == v@,
{
    let mut s = String::new();
    let mut i: usize = 0;
    while i < v.len()
        invariant
            i <= v.len(),
            s@ == v@.take(i as int),
        decreases v.len() - i,
    {
        push_char(&mut s, v[i]);
        i += 1;
        assert(s@ =~= v@.take(i as int));
    }
    assert(s@ =~= v@);
    s
}

/// The chars of a string.
pub fn chars_of_string(s: &String) -> (r: Vec<char>)
    ensures
        r@ == s@,
{
    chars_of(s.as_str())
}

/// `s` equals the literal `t`.
pub fn eq_str(s: &Vec<char>, t: &str) -> (r: bool)
    ensures
        r == (s@ == t@),
{
    let n = t.unicode_len();
    if s.len() != n {
        return false;
    }
    let mut i: usize = 0;
    while i < n
        invariant
            n == t@.len(),
            n == s@.len(),
            i <= n,
            s@.take(i as int) == t@.take(i as int),
        decreases n - i,
    {
        if s[i] != t.get_char(i) {
            assert(s@[i as int] != t@[i as int]);
            return false;
        }
        i += 1;
        assert(s@.take(i as int) =~= t@.take(i as int)) by {
            assert forall|j: int| 0 <= j < i implies s@.take(i as int)[j] == t@.take(i as int)[j] by {
                if j < i - 1 {
                    assert(s@.take(i - 1)[j] == t@.take(i - 1)[j]);
                }
            }
        }
    }
    assert(s@ =~= s@.take(n as int));
    assert(t@ =~= t@.take(n as int));
    true
}

/// `s` ends with the literal `t`.
pub fn ends_with(s: &Vec<char>, t: &str) -> (r: bool)
    ensures
        r == (t@.len() <= s@.len() && s@.skip(s@.len() - t@.len()) == t@),
{
    let n = t.unicode_len();
    if n > s.len() {
        return false;
    }
    let off = s.len() - n;
    let mut i: usize = 0;
    while i < n
        invariant
            n == t@.len(),
            off + n == s.len(),
            i <= n,
            forall|j: int| 0 <= j < i ==> s@[off + j] == t@[j],
        decreases n - i,
    {
        if s[off + i] != t.get_char(i) {
            assert(s@.skip(off as int)[i as int] != t@[i as int]);
            return false;
        }
        i += 1;
    }
    assert(s@.skip(off as int) =~= t@);
    true
}

/// `s` starts with the literal `t`.
pub fn starts_with(s: &Vec<char>, t: &str) -> (r: bool)
    ensures
        r == (t@.len() <= s@.len() && s@.take(t@.len() as int) == t@),
{
    let n = t.unicode_len();
    if n > s.len() {
        return false;
    }
    let mut i: usize = 0;
    while i < n
        invariant
            n == t@.len(),
            n <= s@.len(),
            i <= n,
            forall|j: int| 0 <= j < i ==> s@[j] == t@[j],
        decreases n - i,
    {
        if s[i] != t.get_char(i) {
            assert(s@.take(n as int)[i as int] != t@[i as int]);
            return false;
        }
        i += 1;
    }
    assert(s@.take(n as int) =~= t@);
    true
}

/// The chars of `s` from `start` to `end`.
pub fn slice(s: &Vec<char>, start: usize, end: usize) -> (r: Vec<char>)
    requires
        start <= end <= s@.len(),
    ensures
        r@ == s@.subrange(start as int, end as int),
{
    let mut v: Vec<char> = Vec::new();
    let mut i = start;
    while i < end
        invariant
            start <= i <= end,
            end <= s@.len(),
            v@ == s@.subrange(start as int, i as int),
        decreases end - i,
    {
        v.push(s[i]);
        i += 1;
        assert(v@ =~= s@.subrange(start as int, i as int));
    }
    v
}

/// The views of a sequence of char vectors.
pub open spec fn views(v: Seq<Vec<char>>) -> Seq<Seq<char>> {
    v.map_values(|x: Vec<char>| x@)
}

// ------------------------------------------------------------------
// Words

/// Scanning `s` left to right: the words finished so far and the word
/// being read.
pub open spec fn words_state(s: Seq<char>) -> (Seq<Seq<char>>, Seq<char>)
    decreases s.len(),
{
    if s.len() == 0 {
        (Seq::empty(), Seq::empty())
    } else {
        let (done, cur) = words_state(s.drop_last());
        let c = s.last();
        if is_white_space(c) {
            if cur.len() > 0 {
                (done.push(cur), Seq::empty())
            } else {
                (done, cur)
            }
        } else {
            (done, cur.push(c))
        }
    }
}

/// The maximal runs of non-white-space chars of `s`, in order, as
/// `str::split_whitespace` gives them.
pub open spec fn words(s: Seq<char>) -> Seq<Seq<char>> {
    let (done, cur) = words_state(s);
    if cur.len() > 0 {
        done.push(cur)
    } else {
        done
    }
}

/// Splits `s` into its words.
pub fn split_whitespace(s: &Vec<char>) -> (r: Vec<Vec<char>>)
    ensures
        views(r@) == words(s@),
{
    let mut done: Vec<Vec<char>> = Vec::new();
    let mut cur: Vec<char> = Vec::new();
    let mut i: usize = 0;
    while i < s.len()
        invariant
            i <= s@.len(),
            (views(done@), cur@) == words_state(s@.take(i as int)),
        decreases s.len() - i,
    {
        let c = s[i];
        assert(s@.take(i + 1).drop_last() =~= s@.take(i as int));
        if char_is_whitespace(c) {
            if cur.len() > 0 {
                let w = cur;
                done.push(w);
                cur = Vec::new();
                assert(views(done@) =~= views(done@.drop_last()).push(w@));
            }
        } else {
            cur.push(c);
        }
        i += 1;
    }
    assert(s@.take(s@.len() as int) =~= s@);
    if cur.len() > 0 {
        let w = cur;
        done.push(w);
        assert(views(done@) =~= views(done@.drop_last()).push(w@));
    }
    done
}

/// `parts` joined with `sep` between each two of them.
pub open spec fn join(parts: Seq<Seq<char>>, sep: Seq<char>) -> Seq<char>
    decreases parts.len(),
{
    if parts.len() == 0 {
        Seq::empty()
    } else if parts.len() == 1 {
        parts[0]
    } else {
        join(parts.drop_last(), sep) + sep + parts.last()
    }
}

/// Joins `parts` with `sep`.
pub fn join_with(parts: &Vec<Vec<char>>, sep: &str) -> (r: Vec<char>)
    ensures
        r@ == join(views(parts@), sep@),
{
    let sepv = chars_of(sep);
    let mut out: Vec<char> = Vec::new();
    let mut i: usize = 0;
    while i < parts.len()
        invariant
            i <= parts@.len(),
            sepv@ == sep@,
            out@ == join(views(parts@.take(i as int)), sep@),
        decreases parts.len() - i,
    {
        let ghost before = out@;
        if i > 0 {
            let mut k: usize = 0;
            while k < sepv.len()
                invariant
                    k <= sepv@.len(),
                    out@ == before + sepv@.take(k as int),
                decreases sepv.len() - k,
            {
                out.push(sepv[k]);
                k += 1;
                assert(out@ =~= before + sepv@.take(k as int));
            }
            assert(sepv@.take(sepv@.len() as int) =~= sepv@);
        }
        let ghost mid = out@;
        let p = &parts[i];
        let mut k: usize = 0;
        while k < p.len()
            invariant
                k <= p@.len(),
                out@ == mid + p@.take(k as int),
            decreases p.len() - k,
        {
            out.push(p[k]);
            k += 1;
            assert(out@ =~= mid + p@.take(k as int));
        }
        assert(p@.take(p@.len() as int) =~= p@);
        assert(views(parts@.take(i + 1)).drop_last() =~= views(parts@.take(i as int)));
        assert(views(parts@.take(i + 1)).last() == p@);
        if i == 0 {
            assert(out@ =~= join(views(parts@.take(1)), sep@));
        }
        i += 1;
    }
    assert(parts@.take(parts@.len() as int) =~= parts@);
    out
}

// ------------------------------------------------------------------
// Trimming

/// The sets of chars that the trimming in this crate strips.
#[derive(Clone, Copy, Debug, PartialEq, Eq, Structural)]
pub enum TrimSet {
    /// What surrounds a date token: not alphanumeric and not `-` or `/`.
    DateJunk,
    /// What surrounds a time token: not alphanumeric and not `:`.
    TimeJunk,
    /// White space, as `str::trim` strips it.
    WhiteSpace,
}

pub open spec fn in_trim_set(k: TrimSet, c: char) -> bool {
    match k {
        TrimSet::DateJunk => !unicode_alphanumeric(c) && c != '-' && c != '/',
        TrimSet::TimeJunk => !unicode_alphanumeric(c) && c != ':',
        TrimSet::WhiteSpace => is_white_space(c),
    }
}

fn trims(k: TrimSet, c: char) -> (r: bool)
    ensures
        r == in_trim_set(k, c),
{
    match k {
        TrimSet::DateJunk => !char_is_alphanumeric(c) && c != '-' && c != '/',
        TrimSet::TimeJunk => !char_is_alphanumeric(c) && c != ':',
        TrimSet::WhiteSpace => char_is_whitespace(c),
    }
}

/// The number of leading chars of `s` in the set.
pub open spec fn lead_count(s: Seq<char>, k: TrimSet) -> nat
    decreases s.len(),
{
    if s.len() > 0 && in_trim_set(k, s[0]) {
        1 + lead_count(s.drop_first(), k)
    } else {
        0
    }
}

/// The number of trailing chars of `s` in the set.
pub open spec fn trail_count(s: Seq<char>, k: TrimSet) -> nat
    decreases s.len(),
{
    if s.len() > 0 && in_trim_set(k, s.last()) {
        1 + trail_count(s.drop_last(), k)
    } else {
        0
    }
}

/// `s` without its leading and trailing chars of the set, as
/// `str::trim_matches` gives it.
pub open spec fn trim_by(s: Seq<char>, k: TrimSet) -> Seq<char> {
    let t = s.skip(lead_count(s, k) as int);
    t.take(t.len() - trail_count(t, k))
}

proof fn lemma_lead_count(s: Seq<char>, k: TrimSet, i: int)
    requires
        0 <= i <= s.len(),
        forall|j: int| 0 <= j < i ==> in_trim_set(k, #[trigger] s[j]),
    ensures
        lead_count(s, k) == i + lead_count(s.skip(i), k),
    decreases i,
{
    if i > 0 {
        lemma_lead_count(s.drop_first(), k, i - 1);
        assert(s.drop_first().skip(i - 1) =~= s.skip(i));
    } else {
        assert(s.skip(0) =~= s);
    }
}

proof fn lemma_trail_count(s: Seq<char>, k: TrimSet, i: int)
    requires
        0 <= i <= s.len(),
        forall|j: int| s.len() - i <= j < s.len() ==> in_trim_set(k, #[trigger] s[j]),
    ensures
        trail_count(s, k) == i + trail_count(s.take(s.len() - i), k),
    decreases i,
{
    if i > 0 {
        lemma_trail_count(s.drop_last(), k, i - 1);
        assert(s.drop_last().take(s.drop_last().len() - (i - 1)) =~= s.take(s.len() - i));
    } else {
        assert(s.take(s.len() as int) =~= s);
    }
}

/// Strips the leading and trailing chars of the set.
pub fn trim_set(s: &Vec<char>, k: TrimSet) -> (r: Vec<char>)
    ensures
        r@ == trim_by(s@, k),
{
    let n = s.len();
    let mut a: usize = 0;
    while a < n && trims(k, s[a])
        invariant
            n == s@.len(),
            a <= n,
            forall|j: int| 0 <= j < a ==> in_trim_set(k, #[trigger] s@[j]),
        decreases n - a,
    {
        a += 1;
    }
    proof {
        lemma_lead_count(s@, k, a as int);
        if a < n {
            assert(s@.skip(a as int)[0] == s@[a as int]);
        }
        assert(lead_count(s@.skip(a as int), k) == 0);
    }
    let ghost t = s@.skip(a as int);
    let mut b: usize = n;
    while b > a && trims(k, s[b - 1])
        invariant
            n == s@.len(),
            a <= b <= n,
            t == s@.skip(a as int),
            forall|j: int| b - a <= j < t.len() ==> in_trim_set(k, #[trigger] t[j]),
        decreases b - a,
    {
        b -= 1;
    }
    proof {
        lemma_trail_count(t, k, (n - b) as int);
        let u = t.take(t.len() - (n - b));
        if b > a {
            assert(u.last() == s@[b - 1]);
        }
        assert(trail_count(u, k) == 0);
        assert(u =~= s@.subrange(a as int, b as int));
    }
    slice(s, a, b)
}

// ------------------------------------------------------------------
// Lines

/// Scanning `s`: the lines finished so far and the line being read, split
/// at `\n`.
pub open spec fn lines_state(s: Seq<char>) -> (Seq<Seq<char>>, Seq<char>)
    decreases s.len(),
{
    if s.len() == 0 {
        (Seq::empty(), Seq::empty())
    } else {
        let (done, cur) = lines_state(s.drop_last());
        if s.last() == '\n' {
            (done.push(cur), Seq::empty())
        } else {
            (done, cur.push(s.last()))
        }
    }
}

/// A line without one trailing `\r`.
pub open spec fn strip_cr(l: Seq<char>) -> Seq<char> {
    if l.len() > 0 && l.last() == '\r' {
        l.drop_last()
    } else {
        l
    }
}

/// The lines of `s` as `str::lines` documents them: split at `\n` or
/// `\r\n`, so that a line ended by `\n` loses one trailing `\r`; a last line
/// without `\n` stays as it is, and a final `\n` ends no empty line.
pub open spec fn lines(s: Seq<char>) -> Seq<Seq<char>> {
    let (done, cur) = lines_state(s);
    let ended = done.map_values(|l: Seq<char>| strip_cr(l));
    if cur.len() > 0 {
        ended.push(cur)
    } else {
        ended
    }
}

fn strip_cr_exec(l: Vec<char>) -> (r: Vec<char>)
    ensures
        r@ == strip_cr(l@),
{
    let mut l = l;
    if l.len() > 0 && l[l.len() - 1] == '\r' {
        l.pop();
    }
    l
}

/// Splits `s` into its lines.
pub fn split_lines(s: &Vec<char>) -> (r: Vec<Vec<char>>)
    ensures
        views(r@) == lines(s@),
{
    let mut done: Vec<Vec<char>> = Vec::new();
    let mut cur: Vec<char> = Vec::new();
    let mut i: usize = 0;
    while i < s.len()
        invariant
            i <= s@.len(),
            (views(done@), cur@) == ({
                let (d, c) = lines_state(s@.take(i as int));
                (d.map_values(|l: Seq<char>| strip_cr(l)), c)
            }),
        decreases s.len() - i,
    {
        let c = s[i];
        assert(s@.take(i + 1).drop_last() =~= s@.take(i as int));
        let ghost d_old = lines_state(s@.take(i as int)).0;
        let ghost done_old = views(done@);
        if c == '\n' {
            let w = strip_cr_exec(cur);
            done.push(w);
            cur = Vec::new();
            assert(views(done@) =~= done_old.push(w@));
            assert(views(done@) =~= d_old.push(lines_state(s@.take(i as int)).1).map_values(
                |l: Seq<char>| strip_cr(l),
            ));
        } else {
            cur.push(c);
        }
        i += 1;
    }
    assert(s@.take(s@.len() as int) =~= s@);
    let ghost d_fin = lines_state(s@).0;
    let ghost done_fin = views(done@);
    if cur.len() > 0 {
        let ghost last = cur@;
        done.push(cur);
        assert(views(done@) =~= done_fin.push(last));
    }
    done
}

// ------------------------------------------------------------------
// Numbers

pub open spec fn is_ascii_digit(c: char) -> bool {
    '0' <= c <= '9'
}

/// The value of a string of decimal digits.
pub open spec fn digits_value(s: Seq<char>) -> nat
    decreases s.len(),
{
    if s.len() == 0 {
        0
    } else {
        digits_value(s.drop_last()) * 10 + ((s.last() as nat) - ('0' as nat)) as nat
    }
}

/// One or more ASCII digits whose value fits in a `u32`.
pub open spec fn digits_u32(d: Seq<char>) -> Option<u32> {
    if d.len() > 0 && (forall|i: int| 0 <= i < d.len() ==> is_ascii_digit(#[trigger] d[i]))
        && digits_value(d) <= u32::MAX {
        Some(digits_value(d) as u32)
    } else {
        None
    }
}

/// What `str::parse::<u32>` accepts: an optional `+` and then one or more
/// ASCII digits whose value fits in a `u32`.
pub open spec fn parse_u32_spec(s: Seq<char>) -> Option<u32> {
    if s.len() > 0 && s[0] == '+' {
        digits_u32(s.drop_first())
    } else {
        digits_u32(s)
    }
}

/// A prefix of a string of digits has no larger value.
proof fn lemma_digits_value_prefix(d: Seq<char>, k: int)
    requires
        0 <= k <= d.len(),
    ensures
        digits_value(d.take(k)) <= digits_value(d),
    decreases d.len() - k,
{
    if k == d.len() {
        assert(d.take(k) =~= d);
    } else {
        lemma_digits_value_prefix(d, k + 1);
        assert(d.take(k + 1).drop_last() =~= d.take(k));
    }
}

/// Reads a `u32` as `str::parse::<u32>` does.
pub(crate) fn parse_u32(s: &Vec<char>) -> (r: Option<u32>)
    ensures
        r == parse_u32_spec(s@),
{
    let start: usize = if s.len() > 0 && s[0] == '+' {
        1
    } else {
        0
    };
    let ghost d = s@.skip(start as int);
    assert(parse_u32_spec(s@) == digits_u32(d)) by {
        if s@.len() > 0 && s@[0] == '+' {
            assert(d =~= s@.drop_first());
        } else {
            assert(d =~= s@);
        }
    }
    if start >= s.len() {
        return None;
    }
    let mut value: u64 = 0;
    let mut i: usize = start;
    while i < s.len()
        invariant
            start < s@.len(),
            start <= i <= s@.len(),
            d == s@.skip(start as int),
            parse_u32_spec(s@) == digits_u32(d),
            forall|j: int| 0 <= j < i - start ==> is_ascii_digit(#[trigger] d[j]),
            value == digits_value(d.take(i - start)),
            value <= u32::MAX,
        decreases s.len() - i,
    {
        let c = s[i];
        assert(d[i - start] == c);
        if !('0' <= c && c <= '9') {
            assert(!is_ascii_digit(d[i - start]));
            return None;
        }
        let digit: u64 = (c as u32 - '0' as u32) as u64;
        assert(d.take(i + 1 - start).drop_last() =~= d.take(i - start));
        assert(d.take(i + 1 - start).last() == c);
        let next: u64 = value * 10 + digit;
        assert(next == digits_value(d.take(i + 1 - start)));
        if next > 4294967295 {
            proof {
                lemma_digits_value_prefix(d, i + 1 - start);
            }
            return None;
        }
        value = next;
        i += 1;
    }
    assert(d.take(i - start) =~= d);
    Some(value as u32)
}

} // verus!
