//! Obsidian core template variables for a new daily note.
use vstd::prelude::*;
use crate::date::{is_valid_date, parse_date, today_local, chrono_parsed_date, CalendarDate};
use crate::text::{
    chars_range, find, find_from, lemma_find, replace_all, replace_all_chars, str_chars,
    string_from_chars,
};
use crate::vault::date_format::{format_obsidian_date, obsidian_date};

verus! {

/// The opening of a `{{date:FORMAT}}` variable.
pub open spec fn date_open() -> Seq<char> {
    seq!['{', '{', 'd', 'a', 't', 'e', ':']
}

/// The closing of a template variable.
pub open spec fn var_close() -> Seq<char> {
    seq!['}', '}']
}

/// An index `find` gives leaves room for the pattern.
pub proof fn lemma_find_bounds(s: Seq<char>, pat: Seq<char>)
    ensures
        find(s, pat) matches Some(i) ==> 0 <= i && i + pat.len() <= s.len(),
{
    lemma_find(s, pat);
}

/// `content` with each `{{date:FORMAT}}` replaced by `date` under `FORMAT`,
/// from the left; from an opening without a closing `}}` on, the text is
/// left as it is.
pub open spec fn date_vars_replaced(content: Seq<char>, date: (int, int, int)) -> Seq<char>
    decreases content.len(),
{
    match find(content, date_open()) {
        None => content,
        Some(start) => {
            proof {
                lemma_find_bounds(content, date_open());
            }
            let rest = content.skip(start + date_open().len());
            match find(rest, var_close()) {
                Some(end) => {
                    proof {
                        lemma_find_bounds(rest, var_close());
                    }
                    content.take(start) + obsidian_date(rest.take(end), date)
                        + date_vars_replaced(rest.skip(end + var_close().len()), date)
                },
                None => content,
            }
        },
    }
}

/// A template with its variables filled in: `{{date:FORMAT}}` by `date`,
/// then `{{title}}` and `{{date}}` by the note's title, `{{time}}` by `time`.
pub open spec fn template_applied(content: Seq<char>, title: Seq<char>, time: Seq<char>, date: (int, int, int)) -> Seq<char> {
    let s1 = date_vars_replaced(content, date);
    let s2 = replace_all(s1, "{{title}}"@, title);
    let s3 = replace_all(s2, "{{date}}"@, title);
    replace_all(s3, "{{time}}"@, time)
}

/// The pattern daily-note titles are read back as dates with.
pub open spec fn title_date_pattern() -> Seq<char> {
    "%Y-%m-%d"@
}

/// The date a note title stands for, given today's date: the title read as
/// `YYYY-MM-DD` by chrono, or `today` when it does not read as one.
pub fn resolve_date_on(title: &str, today: CalendarDate) -> (r: CalendarDate)
    ensures
        match chrono_parsed_date(title@, title_date_pattern()) {
            Some(d) => r@ == d,
            None => r == today,
        },
        is_valid_date(r@.0, r@.1, r@.2),
{
    let r = match parse_date(title, "%Y-%m-%d") {
        Some(d) => d,
        None => today,
    };
    // Reading the year brings in that the date is a valid one.
    let _ = r.year();
    r
}

/// The date a note title stands for: the title read as `YYYY-MM-DD` by
/// chrono, or today's local date (from the clock) when it does not read as
/// one.
pub fn resolve_date(title: &str) -> (r: CalendarDate)
    ensures
        chrono_parsed_date(title@, title_date_pattern()) matches Some(d) ==> r@ == d,
{
    resolve_date_on(title, today_local())
}

/// `content` with each `{{date:FORMAT}}` replaced by `date` under `FORMAT`.
pub fn replace_date_format_vars(content: &str, date: CalendarDate) -> (r: String)
    ensures
        r@ == date_vars_replaced(content@, date@),
{
    let c = str_chars(content);
    let open = str_chars("{{date:");
    let close = str_chars("}}");
    proof {
        reveal_strlit("{{date:");
        reveal_strlit("}}");
        assert(open@ =~= date_open());
        assert(close@ =~= var_close());
    }
    let n = c.len();
    let mut out: Vec<char> = Vec::new();
    let mut pos: usize = 0;
    assert(c@.skip(0) =~= c@);
    loop
        invariant_except_break
            n == c@.len(),
            open@ == date_open(),
            close@ == var_close(),
            pos <= n,
            out@ + date_vars_replaced(c@.skip(pos as int), date@) == date_vars_replaced(c@, date@),
        ensures
            out@ == date_vars_replaced(c@, date@),
        decreases n - pos,
    {
        let ghost cur = c@.skip(pos as int);
        match find_from(&c, &open, pos) {
            None => {
                let mut tail = chars_range(&c, pos, n);
                assert(tail@ =~= cur);
                assert(date_vars_replaced(cur, date@) == cur);
                out.append(&mut tail);
                break;
            },
            Some(start) => {
                let after = start + open.len();
                let ghost rest = cur.skip(start - pos + date_open().len());
                assert(rest =~= c@.skip(after as int));
                match find_from(&c, &close, after) {
                    Some(end) => {
                        let mut head = chars_range(&c, pos, start);
                        assert(head@ =~= cur.take(start - pos));
                        out.append(&mut head);
                        let pattern = chars_range(&c, after, end);
                        assert(pattern@ =~= rest.take(end - after));
                        let pattern_str = string_from_chars(pattern.as_slice());
                        let formatted = format_obsidian_date(pattern_str.as_str(), date);
                        let mut fc = str_chars(formatted.as_str());
                        out.append(&mut fc);
                        let next = end + close.len();
                        assert(rest.skip(end - after + var_close().len()) =~= c@.skip(next as int));
                        pos = next;
                    },
                    None => {
                        let mut tail = chars_range(&c, pos, n);
                        assert(tail@ =~= cur);
                        assert(date_vars_replaced(cur, date@) == cur);
                        out.append(&mut tail);
                        break;
                    },
                }
            },
        }
    }
    string_from_chars(out.as_slice())
}

fn replace_var(s: Vec<char>, var: &str, value: &str) -> (r: Vec<char>)
    ensures
        r@ == replace_all(s@, var@, value@),
{
    let v = str_chars(var);
    let w = str_chars(value);
    replace_all_chars(&s, &v, &w)
}

/// A template filled in for a note titled `title` created at `time`, its
/// `{{date:FORMAT}}` variables rendered for `date`.
pub fn apply_template_for_date(content: &str, title: &str, time: &str, date: CalendarDate) -> (r: String)
    ensures
        r@ == template_applied(content@, title@, time@, date@),
{
    let s1 = replace_date_format_vars(content, date);
    let mut out = str_chars(s1.as_str());
    out = replace_var(out, "{{title}}", title);
    out = replace_var(out, "{{date}}", title);
    out = replace_var(out, "{{time}}", time);
    string_from_chars(out.as_slice())
}

/// A template filled in for a note titled `title` created at `time`. The
/// `{{date:FORMAT}}` variables are rendered for the date the title reads as
/// (`YYYY-MM-DD`), or for today when it reads as none.
pub fn apply_template(content: &str, title: &str, time: &str) -> (r: String)
    ensures
        exists|d: (int, int, int)| {
            &&& is_valid_date(d.0, d.1, d.2)
            &&& r@ == template_applied(content@, title@, time@, d)
            &&& (chrono_parsed_date(title@, title_date_pattern()) matches Some(p) ==> d == p)
        },
{
    let today = today_local();
    let r = apply_template_on(content, title, time, today);
    proof {
        let d = template_date(title@, today@);
        assert(is_valid_date(d.0, d.1, d.2) && r@ == template_applied(content@, title@, time@, d));
    }
    r
}

/// The date a template's `{{date:FORMAT}}` variables are rendered for: the
/// title read as `YYYY-MM-DD`, else `today`.
pub open spec fn template_date(title: Seq<char>, today: (int, int, int)) -> (int, int, int) {
    match chrono_parsed_date(title, title_date_pattern()) {
        Some(d) => d,
        None => today,
    }
}

/// A template filled in for a note titled `title` created at `time`, given
/// today's date: its `{{date:FORMAT}}` variables are rendered for the date
/// the title reads as (`YYYY-MM-DD`), or for `today` when it reads as none.
pub fn apply_template_on(content: &str, title: &str, time: &str, today: CalendarDate) -> (r: String)
    ensures
        r@ == template_applied(content@, title@, time@, template_date(title@, today@)),
        ({
            let d = template_date(title@, today@);
            is_valid_date(d.0, d.1, d.2)
        }),
{
    let date = resolve_date_on(title, today);
    apply_template_for_date(content, title, time, date)
}

} // verus!
