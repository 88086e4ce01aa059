//! Obsidian (moment.js style) date patterns such as `YYYY-MM-DD`.
use vstd::prelude::*;
use crate::date::{
    chrono_format_name, date_name, decimal, digits_value, is_valid_date, lemma_decimal_reads_back,
    long_month_name, long_weekday_name, padded, padded_chars, rem_100, short_month_name,
    short_weekday_name, decimal_chars, weekday_from_sunday, CalendarDate,
};
use crate::text::{push_str, str_chars, string_from_chars};

verus! {

/// Whether `s` starts with `k` copies of `c`.
pub open spec fn leading(s: Seq<char>, c: char, k: nat) -> bool {
    &&& s.len() >= k
    &&& forall|i: int| 0 <= i < k ==> s[i] == c
}

/// The token at the start of a non-empty `s`, the longest that matches, as
/// its length and what it renders to: `YYYY` (four-digit year), `YY`
/// (two-digit year), `MMMM` (month name), `MMM` (month abbreviation), `MM`
/// (two-digit month), `M` (month), `DD` (two-digit day), `D` (day), `dddd`
/// (weekday name), `ddd` (weekday abbreviation); any other character stands
/// for itself.
pub open spec fn date_token(s: Seq<char>, date: (int, int, int)) -> (int, Seq<char>) {
    let (y, m, d) = date;
    if leading(s, 'Y', 4) {
        (4, padded(y, 4))
    } else if leading(s, 'Y', 2) {
        (2, padded(rem_100(y), 2))
    } else if leading(s, 'M', 4) {
        (4, date_name("%B"@, date))
    } else if leading(s, 'M', 3) {
        (3, date_name("%b"@, date))
    } else if leading(s, 'M', 2) {
        (2, padded(m, 2))
    } else if leading(s, 'M', 1) {
        (1, decimal(m as nat))
    } else if leading(s, 'D', 2) {
        (2, padded(d, 2))
    } else if leading(s, 'D', 1) {
        (1, decimal(d as nat))
    } else if leading(s, 'd', 4) {
        (4, date_name("%A"@, date))
    } else if leading(s, 'd', 3) {
        (3, date_name("%a"@, date))
    } else {
        (1, s.take(1))
    }
}

/// A token is at least one character long and fits in the text.
pub proof fn lemma_date_token_len(s: Seq<char>, date: (int, int, int))
    requires
        s.len() > 0,
    ensures
        1 <= date_token(s, date).0 <= s.len(),
{
}

/// `pattern` rendered for `date`, read once from left to right: at each place
/// the longest token there is replaced by its value, and what a token puts in
/// is never read again.
pub open spec fn obsidian_date(pattern: Seq<char>, date: (int, int, int)) -> Seq<char>
    decreases pattern.len(),
{
    if pattern.len() == 0 {
        seq![]
    } else {
        let t = date_token(pattern, date);
        proof {
            lemma_date_token_len(pattern, date);
        }
        t.1 + obsidian_date(pattern.skip(t.0), date)
    }
}

/// `n` copies of `c`.
pub open spec fn run_of(c: char, n: nat) -> Seq<char> {
    Seq::new(n, |i: int| c)
}

/// Whether `n` copies of `c` make one of the date tokens.
pub open spec fn is_token_run(c: char, n: nat) -> bool {
    ||| c == 'Y' && (n == 2 || n == 4)
    ||| c == 'M' && 1 <= n <= 4
    ||| c == 'D' && 1 <= n <= 2
    ||| c == 'd' && (n == 3 || n == 4)
}

/// Each token on its own renders as documented: `YYYY` the year padded to
/// four digits, `YY` its last two digits, `MMMM` / `MMM` the month's English
/// name / abbreviation, `MM` / `M` the month with / without padding, `DD` /
/// `D` the day with / without padding, `dddd` / `ddd` the weekday's English
/// name / abbreviation.
pub proof fn lemma_single_token_renderings(date: (int, int, int))
    ensures
        obsidian_date(seq!['Y', 'Y', 'Y', 'Y'], date) == padded(date.0, 4),
        obsidian_date(seq!['Y', 'Y'], date) == padded(rem_100(date.0), 2),
        obsidian_date(seq!['M', 'M', 'M', 'M'], date) == long_month_name(date.1),
        obsidian_date(seq!['M', 'M', 'M'], date) == short_month_name(date.1),
        obsidian_date(seq!['M', 'M'], date) == padded(date.1, 2),
        obsidian_date(seq!['M'], date) == decimal(date.1 as nat),
        obsidian_date(seq!['D', 'D'], date) == padded(date.2, 2),
        obsidian_date(seq!['D'], date) == decimal(date.2 as nat),
        obsidian_date(seq!['d', 'd', 'd', 'd'], date) == long_weekday_name(weekday_from_sunday(date.0, date.1, date.2)),
        obsidian_date(seq!['d', 'd', 'd'], date) == short_weekday_name(weekday_from_sunday(date.0, date.1, date.2)),
{
    reveal_strlit("%B");
    reveal_strlit("%b");
    reveal_strlit("%A");
    reveal_strlit("%a");
    assert("%b"@[1] != "%B"@[1] && "%A"@[1] != "%B"@[1] && "%A"@[1] != "%b"@[1]);
    assert("%a"@[1] != "%B"@[1] && "%a"@[1] != "%b"@[1] && "%a"@[1] != "%A"@[1]);
    let e = Seq::<char>::empty();
    assert(obsidian_date(e, date) == e);
    lemma_run_renders('Y', 4, date);
    lemma_run_renders('Y', 2, date);
    lemma_run_renders('M', 4, date);
    lemma_run_renders('M', 3, date);
    lemma_run_renders('M', 2, date);
    lemma_run_renders('M', 1, date);
    lemma_run_renders('D', 2, date);
    lemma_run_renders('D', 1, date);
    lemma_run_renders('d', 4, date);
    lemma_run_renders('d', 3, date);
    assert(seq!['Y', 'Y', 'Y', 'Y'] =~= run_of('Y', 4));
    assert(seq!['Y', 'Y'] =~= run_of('Y', 2));
    assert(seq!['M', 'M', 'M', 'M'] =~= run_of('M', 4));
    assert(seq!['M', 'M', 'M'] =~= run_of('M', 3));
    assert(seq!['M', 'M'] =~= run_of('M', 2));
    assert(seq!['M'] =~= run_of('M', 1));
    assert(seq!['D', 'D'] =~= run_of('D', 2));
    assert(seq!['D'] =~= run_of('D', 1));
    assert(seq!['d', 'd', 'd', 'd'] =~= run_of('d', 4));
    assert(seq!['d', 'd', 'd'] =~= run_of('d', 3));
}

/// A token on its own renders as its value and nothing more.
proof fn lemma_run_renders(c: char, n: nat, date: (int, int, int))
    requires
        is_token_run(c, n),
    ensures
        obsidian_date(run_of(c, n), date) == date_token(run_of(c, n), date).1,
        forall|c2: char, k: nat| k >= 1 ==> #[trigger] leading(run_of(c, n), c2, k) == (c2 == c && k <= n),
{
    let r = run_of(c, n);
    let e = Seq::<char>::empty();
    assert forall|c2: char, k: nat| k >= 1 implies #[trigger] leading(r, c2, k) == (c2 == c && k <= n) by {
        lemma_leading_run(c, n, e, c2, k);
    }
    assert(leading(r, 'Y', 4) == (c == 'Y' && 4 <= n));
    assert(leading(r, 'Y', 2) == (c == 'Y' && 2 <= n));
    assert(leading(r, 'M', 4) == (c == 'M' && 4 <= n));
    assert(leading(r, 'M', 3) == (c == 'M' && 3 <= n));
    assert(leading(r, 'M', 2) == (c == 'M' && 2 <= n));
    assert(leading(r, 'M', 1) == (c == 'M' && 1 <= n));
    assert(leading(r, 'D', 2) == (c == 'D' && 2 <= n));
    assert(leading(r, 'D', 1) == (c == 'D' && 1 <= n));
    assert(leading(r, 'd', 4) == (c == 'd' && 4 <= n));
    assert(leading(r, 'd', 3) == (c == 'd' && 3 <= n));
    assert(date_token(r, date).0 == n);
    assert(r.skip(n as int) =~= e);
    assert(obsidian_date(e, date) == e);
    assert(obsidian_date(r, date) =~= date_token(r, date).1 + e);
}

/// The `D` token gives the whole day of the month: read back as a number it
/// is the day, for days 10 to 31 too.
pub proof fn lemma_day_reads_back(date: (int, int, int))
    requires
        is_valid_date(date.0, date.1, date.2),
    ensures
        digits_value(obsidian_date(seq!['D'], date)) == date.2,
        digits_value(obsidian_date(seq!['M'], date)) == date.1,
{
    lemma_single_token_renderings(date);
    lemma_decimal_reads_back(date.2 as nat);
    lemma_decimal_reads_back(date.1 as nat);
}

proof fn lemma_leading_run(c: char, n: nat, rest: Seq<char>, c2: char, k: nat)
    requires
        n >= 1,
        k >= 1,
        rest.len() == 0 || rest[0] != c,
    ensures
        leading(run_of(c, n) + rest, c2, k) == leading(run_of(c, n), c2, k),
        leading(run_of(c, n), c2, k) == (c2 == c && k <= n),
{
    let r = run_of(c, n);
    let s = r + rest;
    assert(s[0] == c && r[0] == c);
    if c2 == c && k <= n {
        assert forall|i: int| 0 <= i < k implies s[i] == c2 by {
            assert(s[i] == r[i]);
        }
    } else if c2 == c {
        if s.len() >= k {
            assert(s[n as int] == rest[0]);
        }
    }
}

/// A whole token followed by text that does not continue it renders as the
/// token followed by the rendering of that text: what a token puts in is not
/// read again, and a token does not reach past its own letters.
pub proof fn lemma_token_then_rest(c: char, n: nat, rest: Seq<char>, date: (int, int, int))
    requires
        is_token_run(c, n),
        rest.len() == 0 || rest[0] != c,
    ensures
        obsidian_date(run_of(c, n) + rest, date) == obsidian_date(run_of(c, n), date) + obsidian_date(rest, date),
{
    let r = run_of(c, n);
    let s = r + rest;
    lemma_leading_run(c, n, rest, 'Y', 4);
    lemma_leading_run(c, n, rest, 'Y', 2);
    lemma_leading_run(c, n, rest, 'M', 4);
    lemma_leading_run(c, n, rest, 'M', 3);
    lemma_leading_run(c, n, rest, 'M', 2);
    lemma_leading_run(c, n, rest, 'M', 1);
    lemma_leading_run(c, n, rest, 'D', 2);
    lemma_leading_run(c, n, rest, 'D', 1);
    lemma_leading_run(c, n, rest, 'd', 4);
    lemma_leading_run(c, n, rest, 'd', 3);
    assert(date_token(s, date) == date_token(r, date));
    assert(date_token(r, date).0 == n);
    assert(s.skip(n as int) =~= rest);
    assert(r.skip(n as int) =~= Seq::<char>::empty());
    assert(obsidian_date(Seq::<char>::empty(), date) =~= Seq::<char>::empty());
}

/// A character that starts no token stands for itself.
pub proof fn lemma_other_char_kept(c: char, rest: Seq<char>, date: (int, int, int))
    requires
        c != 'Y' && c != 'M' && c != 'D' && c != 'd',
    ensures
        obsidian_date(seq![c] + rest, date) == seq![c] + obsidian_date(rest, date),
{
    let s = seq![c] + rest;
    assert(s[0] == c);
    assert(s.take(1) =~= seq![c]);
    assert(s.skip(1) =~= rest);
}

/// The renderings of one date, one for each token.
struct DateParts {
    yyyy: String,
    yy: String,
    mmmm: String,
    mmm: String,
    mm: String,
    m: String,
    dd: String,
    d: String,
    dddd: String,
    ddd: String,
}

spec fn parts_of(p: DateParts, date: (int, int, int)) -> bool {
    &&& p.yyyy@ == padded(date.0, 4)
    &&& p.yy@ == padded(rem_100(date.0), 2)
    &&& p.mmmm@ == date_name("%B"@, date)
    &&& p.mmm@ == date_name("%b"@, date)
    &&& p.mm@ == padded(date.1, 2)
    &&& p.m@ == decimal(date.1 as nat)
    &&& p.dd@ == padded(date.2, 2)
    &&& p.d@ == decimal(date.2 as nat)
    &&& p.dddd@ == date_name("%A"@, date)
    &&& p.ddd@ == date_name("%a"@, date)
}

fn date_parts(date: &CalendarDate) -> (r: DateParts)
    ensures
        parts_of(r, date@),
{
    let y = date.year();
    let m = date.month();
    let d = date.day();
    let yyyy = padded_chars(y as i64, 4);
    let yr: i64 = if y >= 0 { (y % 100) as i64 } else { 0 - ((0 - y) % 100) as i64 };
    let yy = padded_chars(yr, 2);
    let mm = padded_chars(m as i64, 2);
    let dd = padded_chars(d as i64, 2);
    let m1 = decimal_chars(m as u64);
    let d1 = decimal_chars(d as u64);
    DateParts {
        yyyy: string_from_chars(yyyy.as_slice()),
        yy: string_from_chars(yy.as_slice()),
        mmmm: chrono_format_name(date, "%B"),
        mmm: chrono_format_name(date, "%b"),
        mm: string_from_chars(mm.as_slice()),
        m: string_from_chars(m1.as_slice()),
        dd: string_from_chars(dd.as_slice()),
        d: string_from_chars(d1.as_slice()),
        dddd: chrono_format_name(date, "%A"),
        ddd: chrono_format_name(date, "%a"),
    }
}

/// Whether `k` copies of `c` stand at index `i` of `p`.
fn leading_at(p: &Vec<char>, i: usize, c: char, k: usize) -> (b: bool)
    requires
        i <= p@.len(),
    ensures
        b == leading(p@.skip(i as int), c, k as nat),
{
    if p.len() - i < k {
        return false;
    }
    let ghost s = p@.skip(i as int);
    let mut j: usize = 0;
    while j < k
        invariant
            s == p@.skip(i as int),
            i + k <= p.len(),
            j <= k,
            forall|t: int| 0 <= t < j ==> s[t] == c,
        decreases k - j,
    {
        if p[i + j] != c {
            assert(s[j as int] == p@[i + j]);
            return false;
        }
        assert(s[j as int] == p@[i + j]);
        j = j + 1;
    }
    true
}

/// The token at index `i` of `p`: its length, and its rendering, or `None`
/// when the character stands for itself.
fn next_token<'a>(p: &Vec<char>, i: usize, date: &CalendarDate, parts: &'a DateParts) -> (r: (usize, Option<&'a str>))
    requires
        i < p@.len(),
        parts_of(*parts, date@),
    ensures
        r.0 as int == date_token(p@.skip(i as int), date@).0,
        match r.1 {
            Some(t) => t@ == date_token(p@.skip(i as int), date@).1,
            None => date_token(p@.skip(i as int), date@).1 == seq![p@[i as int]],
        },
{
    if leading_at(p, i, 'Y', 4) {
        (4, Some(parts.yyyy.as_str()))
    } else if leading_at(p, i, 'Y', 2) {
        (2, Some(parts.yy.as_str()))
    } else if leading_at(p, i, 'M', 4) {
        (4, Some(parts.mmmm.as_str()))
    } else if leading_at(p, i, 'M', 3) {
        (3, Some(parts.mmm.as_str()))
    } else if leading_at(p, i, 'M', 2) {
        (2, Some(parts.mm.as_str()))
    } else if leading_at(p, i, 'M', 1) {
        (1, Some(parts.m.as_str()))
    } else if leading_at(p, i, 'D', 2) {
        (2, Some(parts.dd.as_str()))
    } else if leading_at(p, i, 'D', 1) {
        (1, Some(parts.d.as_str()))
    } else if leading_at(p, i, 'd', 4) {
        (4, Some(parts.dddd.as_str()))
    } else if leading_at(p, i, 'd', 3) {
        (3, Some(parts.ddd.as_str()))
    } else {
        assert(p@.skip(i as int).take(1) =~= seq![p@[i as int]]);
        (1, None)
    }
}

/// The daily note name for `date` under an Obsidian date pattern.
pub fn format_obsidian_date(pattern: &str, date: CalendarDate) -> (r: String)
    ensures
        r@ == obsidian_date(pattern@, date@),
{
    let parts = date_parts(&date);
    let p = str_chars(pattern);
    let n = p.len();
    let mut out: Vec<char> = Vec::new();
    let mut i: usize = 0;
    assert(p@.skip(0) =~= p@);
    while i < n
        invariant
            n == p@.len(),
            i <= n,
            parts_of(parts, date@),
            out@ + obsidian_date(p@.skip(i as int), date@) == obsidian_date(p@, date@),
        decreases n - i,
    {
        let ghost s = p@.skip(i as int);
        proof {
            lemma_date_token_len(s, date@);
        }
        let (k, v) = next_token(&p, i, &date, &parts);
        let ghost before = out@;
        match v {
            Some(t) => push_str(&mut out, t),
            None => out.push(p[i]),
        }
        assert(out@ == before + date_token(s, date@).1);
        assert(s.skip(k as int) =~= p@.skip(i + k));
        i = i + k;
    }
    assert(out@ + obsidian_date(p@.skip(n as int), date@) =~= out@);
    string_from_chars(out.as_slice())
}

} // verus!
