//! Character-sequence primitives shared by the formatters: whitespace,
//! trimming, line splitting, joining and pattern replacement.
use vstd::prelude::*;

verus! {

/// The characters with the Unicode `White_Space` property, which is what
/// `char::is_whitespace` and `str::trim` go by.
pub open spec fn is_white_space(c: char) -> bool {
    ||| ('\u{9}' <= c && c <= '\u{d}')
    ||| c == ' '
    ||| c == '\u{85}'
    ||| c == '\u{a0}'
    ||| c == '\u{1680}'
    ||| ('\u{2000}' <= c && c <= '\u{200a}')
    ||| c == '\u{2028}'
    ||| c == '\u{2029}'
    ||| c == '\u{202f}'
    ||| c == '\u{205f}'
    ||| c == '\u{3000}'
}

/// `s` without its leading white space.
pub open spec fn trim_start(s: Seq<char>) -> Seq<char>
    decreases s.len(),
{
    if s.len() > 0 && is_white_space(s[0]) {
        trim_start(s.drop_first())
    } else {
        s
    }
}

/// `s` without its trailing white space.
pub open spec fn trim_end(s: Seq<char>) -> Seq<char>
    decreases s.len(),
{
    if s.len() > 0 && is_white_space(s.last()) {
        trim_end(s.drop_last())
    } else {
        s
    }
}

/// `s` without leading and trailing white space.
pub open spec fn trim(s: Seq<char>) -> Seq<char> {
    trim_end(trim_start(s))
}

/// The characters of a string slice, in order.
#[verifier::external_body]
pub(crate) fn str_chars(s: &str) -> (v: Vec<char>)
    ensures
        v@ == s@,
{
    s.chars().collect()
}

/// The string made of the given characters, in order.
#[verifier::external_body]
pub(crate) fn string_from_chars(v: &[char]) -> (s: String)
    ensures
        s@ == v@,
{
    v.iter().collect()
}

/// Whether `c` has the Unicode `White_Space` property.
pub fn is_white_space_char(c: char) -> (b: bool)
    ensures
        b == is_white_space(c),
{
    ('\u{9}' <= c && c <= '\u{d}') || c == ' ' || c == '\u{85}' || c == '\u{a0}'
        || c == '\u{1680}' || ('\u{2000}' <= c && c <= '\u{200a}') || c == '\u{2028}'
        || c == '\u{2029}' || c == '\u{202f}' || c == '\u{205f}' || c == '\u{3000}'
}

proof fn lemma_trim_start_skip(s: Seq<char>, i: int)
    requires
        0 <= i <= s.len(),
        forall|k: int| 0 <= k < i ==> is_white_space(#[trigger] s[k]),
    ensures
        trim_start(s) == trim_start(s.skip(i)),
    decreases i,
{
    if i > 0 {
        assert(s.skip(1).skip(i - 1) =~= s.skip(i));
        lemma_trim_start_skip(s.drop_first(), i - 1);
        assert(s.drop_first() =~= s.skip(1));
    } else {
        assert(s.skip(0) =~= s);
    }
}

proof fn lemma_trim_end_take(s: Seq<char>, j: int)
    requires
        0 <= j <= s.len(),
        forall|k: int| j <= k < s.len() ==> is_white_space(#[trigger] s[k]),
    ensures
        trim_end(s) == trim_end(s.take(j)),
    decreases s.len() - j,
{
    if j < s.len() {
        assert(s.drop_last().take(j) =~= s.take(j));
        lemma_trim_end_take(s.drop_last(), j);
    } else {
        assert(s.take(j) =~= s);
    }
}

/// Trimming a sequence that starts and ends with non-white-space changes nothing.
pub proof fn lemma_trim_of_trimmed(s: Seq<char>)
    requires
        s.len() > 0 ==> !is_white_space(s[0]) && !is_white_space(s.last()),
    ensures
        trim(s) == s,
{
}

/// Trimming twice is trimming once.
pub proof fn lemma_trim_idempotent(s: Seq<char>)
    ensures
        trim(trim(s)) == trim(s),
{
    lemma_trim_shape(s);
    lemma_trim_of_trimmed(trim(s));
}

/// A text without line feeds is a single line (or none, when empty).
pub proof fn lemma_single_line(s: Seq<char>)
    requires
        forall|i: int| 0 <= i < s.len() ==> s[i] != '\n',
    ensures
        s.len() > 0 ==> lines(s) == seq![s],
        s.len() == 0 ==> lines(s) == Seq::<Seq<char>>::empty(),
{
    if s.len() > 0 {
        lemma_newline_pos(s, s.len() as int);
    }
}

/// What `trim` leaves is empty or begins and ends with a non-white-space character.
pub proof fn lemma_trim_shape(s: Seq<char>)
    ensures
        trim(s).len() > 0 ==> !is_white_space(trim(s)[0]) && !is_white_space(trim(s).last()),
        trim(s).len() <= s.len(),
    decreases s.len(),
{
    lemma_trim_start_shape(s);
    lemma_trim_end_shape(trim_start(s));
}

proof fn lemma_trim_start_shape(s: Seq<char>)
    ensures
        trim_start(s).len() > 0 ==> !is_white_space(trim_start(s)[0]),
        trim_start(s).len() <= s.len(),
    decreases s.len(),
{
    if s.len() > 0 && is_white_space(s[0]) {
        lemma_trim_start_shape(s.drop_first());
    }
}

proof fn lemma_trim_end_shape(s: Seq<char>)
    ensures
        trim_end(s).len() <= s.len(),
        trim_end(s).len() > 0 ==> !is_white_space(trim_end(s).last()),
        trim_end(s).len() > 0 ==> trim_end(s)[0] == s[0],
    decreases s.len(),
{
    if s.len() > 0 && is_white_space(s.last()) {
        lemma_trim_end_shape(s.drop_last());
    }
}

/// The characters of `s` without leading and trailing white space.
pub fn trim_chars(s: &Vec<char>) -> (r: Vec<char>)
    ensures
        r@ == trim(s@),
{
    let n = s.len();
    let mut i: usize = 0;
    while i < n && is_white_space_char(s[i])
        invariant
            n == s@.len(),
            0 <= i <= n,
            forall|k: int| 0 <= k < i ==> is_white_space(#[trigger] s@[k]),
        decreases n - i,
    {
        i = i + 1;
    }
    proof {
        lemma_trim_start_skip(s@, i as int);
    }
    let ghost rest = s@.skip(i as int);
    assert(trim_start(rest) == rest);
    let mut j: usize = n;
    while j > i && is_white_space_char(s[j - 1])
        invariant
            n == s@.len(),
            0 <= i <= j <= n,
            rest == s@.skip(i as int),
            forall|k: int| j <= k < n ==> is_white_space(#[trigger] s@[k]),
        decreases j,
    {
        j = j - 1;
    }
    proof {
        let jj = (j - i) as int;
        assert forall|k: int| jj <= k < rest.len() implies is_white_space(#[trigger] rest[k]) by {
            assert(rest[k] == s@[k + i]);
        }
        lemma_trim_end_take(rest, jj);
        assert(rest.take(jj) =~= s@.subrange(i as int, j as int));
    }
    let mut r: Vec<char> = Vec::new();
    let mut k: usize = i;
    while k < j
        invariant
            i <= k <= j <= n,
            n == s@.len(),
            r@ == s@.subrange(i as int, k as int),
        decreases j - k,
    {
        r.push(s[k]);
        k = k + 1;
        assert(r@ =~= s@.subrange(i as int, k as int));
    }
    r
}

/// `s` without leading and trailing white space, as `str::trim` gives it.
pub fn trim_str(s: &str) -> (r: String)
    ensures
        r@ == trim(s@),
{
    let v = str_chars(s);
    let t = trim_chars(&v);
    string_from_chars(t.as_slice())
}


/// Index of the first line feed in `s`, or `s.len()` when there is none.
pub open spec fn newline_pos(s: Seq<char>) -> nat
    decreases s.len(),
{
    if s.len() == 0 || s[0] == '\n' {
        0
    } else {
        1 + newline_pos(s.drop_first())
    }
}

/// A line with one trailing carriage return removed.
pub open spec fn strip_cr(l: Seq<char>) -> Seq<char> {
    if l.len() > 0 && l.last() == '\r' {
        l.drop_last()
    } else {
        l
    }
}

/// The lines of `s` as `str::lines` yields them: split at each `\n`, a `\r`
/// right before a `\n` dropped, and no empty line after a final `\n`.
pub open spec fn lines(s: Seq<char>) -> Seq<Seq<char>>
    decreases s.len(),
{
    if s.len() == 0 {
        seq![]
    } else {
        let k = newline_pos(s);
        if k >= s.len() {
            seq![s]
        } else {
            seq![strip_cr(s.take(k as int))] + lines(s.skip((k + 1) as int))
        }
    }
}

/// The parts joined with `sep` between neighbours.
pub open spec fn join(parts: Seq<Seq<char>>, sep: Seq<char>) -> Seq<char>
    decreases parts.len(),
{
    if parts.len() == 0 {
        seq![]
    } else if parts.len() == 1 {
        parts[0]
    } else {
        join(parts.drop_last(), sep) + sep + parts.last()
    }
}

/// Each part preceded by `prefix`, all concatenated.
pub open spec fn concat_prefixed(parts: Seq<Seq<char>>, prefix: Seq<char>) -> Seq<char>
    decreases parts.len(),
{
    if parts.len() == 0 {
        seq![]
    } else {
        concat_prefixed(parts.drop_last(), prefix) + prefix + parts.last()
    }
}

/// Each part with `prefix` put in front.
pub open spec fn prefix_each(parts: Seq<Seq<char>>, prefix: Seq<char>) -> Seq<Seq<char>> {
    parts.map_values(|l: Seq<char>| prefix + l)
}

/// Whether `pat` occurs in `s` at index `i`.
pub open spec fn occurs_at(s: Seq<char>, pat: Seq<char>, i: int) -> bool {
    0 <= i && i + pat.len() <= s.len() && s.subrange(i, i + pat.len()) == pat
}

/// The index of the first occurrence of `pat` in `s`, as `str::find` gives it.
pub open spec fn find(s: Seq<char>, pat: Seq<char>) -> Option<int>
    decreases s.len(),
{
    if pat.len() > s.len() {
        None
    } else if s.take(pat.len() as int) == pat {
        Some(0)
    } else if s.len() == 0 {
        None
    } else {
        match find(s.drop_first(), pat) {
            Some(i) => Some(i + 1),
            None => None,
        }
    }
}

/// `s` with every occurrence of `pat` replaced by `rep`, scanning from the
/// left and never overlapping, as `str::replace` does.
pub open spec fn replace_all(s: Seq<char>, pat: Seq<char>, rep: Seq<char>) -> Seq<char>
    decreases s.len(),
{
    if pat.len() == 0 || s.len() < pat.len() {
        s
    } else if s.take(pat.len() as int) == pat {
        rep + replace_all(s.skip(pat.len() as int), pat, rep)
    } else {
        seq![s[0]] + replace_all(s.drop_first(), pat, rep)
    }
}

/// With no line feed before index `m` and one at `m` (or the end there), `newline_pos` is `m`.
pub proof fn lemma_newline_pos(s: Seq<char>, m: int)
    requires
        0 <= m <= s.len(),
        forall|k: int| 0 <= k < m ==> #[trigger] s[k] != '\n',
        m == s.len() || s[m] == '\n',
    ensures
        newline_pos(s) == m,
    decreases m,
{
    if m > 0 {
        lemma_newline_pos(s.drop_first(), m - 1);
    }
}

/// The index of the first line feed in `s`, or its length when there is none.
pub fn newline_index(s: &Vec<char>) -> (k: usize)
    ensures
        k == newline_pos(s@),
        k <= s@.len(),
{
    let mut i: usize = 0;
    while i < s.len() && s[i] != '\n'
        invariant
            0 <= i <= s@.len(),
            forall|k: int| 0 <= k < i ==> #[trigger] s@[k] != '\n',
        decreases s@.len() - i,
    {
        i = i + 1;
    }
    proof {
        lemma_newline_pos(s@, i as int);
    }
    i
}

/// The characters of `s` from `from` up to (not including) `to`.
pub fn chars_range(s: &Vec<char>, from: usize, to: usize) -> (r: Vec<char>)
    requires
        from <= to <= s@.len(),
    ensures
        r@ == s@.subrange(from as int, to as int),
{
    let mut r: Vec<char> = Vec::new();
    let mut k: usize = from;
    while k < to
        invariant
            from <= k <= to <= s@.len(),
            r@ == s@.subrange(from as int, k as int),
        decreases to - k,
    {
        r.push(s[k]);
        k = k + 1;
        assert(r@ =~= s@.subrange(from as int, k as int));
    }
    r
}

fn strip_cr_chars(l: Vec<char>) -> (r: Vec<char>)
    ensures
        r@ == strip_cr(l@),
{
    let ghost orig = l@;
    let mut l = l;
    if l.len() > 0 && l[l.len() - 1] == '\r' {
        l.pop();
        assert(l@ =~= strip_cr(orig));
    }
    l
}

/// Joining a first part onto further parts puts the separator between it
/// and their join.
pub proof fn lemma_join_cons(x: Seq<char>, xs: Seq<Seq<char>>, sep: Seq<char>)
    requires
        xs.len() > 0,
    ensures
        join(seq![x] + xs, sep) == x + sep + join(xs, sep),
    decreases xs.len(),
{
    let all = seq![x] + xs;
    if xs.len() == 1 {
        assert(all.drop_last() =~= seq![x]);
        assert(all.last() == xs[0]);
        assert(join(seq![x], sep) == x);
        assert(join(all, sep) == join(all.drop_last(), sep) + sep + all.last());
        assert(join(xs, sep) == xs[0]);
    } else {
        assert(all.drop_last() =~= seq![x] + xs.drop_last());
        assert(all.last() == xs.last());
        lemma_join_cons(x, xs.drop_last(), sep);
        assert(join(all, sep) == join(all.drop_last(), sep) + sep + all.last());
        assert(join(xs, sep) == join(xs.drop_last(), sep) + sep + xs.last());
        assert(join(all, sep) =~= x + sep + join(xs, sep));
    }
}

/// A first line without a line feed, then a line feed, then more text: the
/// lines are that first line (less a trailing carriage return) followed by
/// the lines of the rest.
pub proof fn lemma_lines_cons(a: Seq<char>, rest: Seq<char>)
    requires
        forall|i: int| 0 <= i < a.len() ==> a[i] != '\n',
    ensures
        lines(a + seq!['\n'] + rest) == seq![strip_cr(a)] + lines(rest),
{
    let s = a + seq!['\n'] + rest;
    assert forall|k: int| 0 <= k < a.len() implies #[trigger] s[k] != '\n' by {
        assert(s[k] == a[k]);
    }
    assert(s[a.len() as int] == '\n');
    lemma_newline_pos(s, a.len() as int);
    assert(s.take(a.len() as int) =~= a);
    assert(s.skip(a.len() as int + 1) =~= rest);
}

/// The deep view of a character vector is its view.
pub proof fn lemma_chars_deep_view(x: Vec<char>)
    ensures
        x.deep_view() == x@,
{
    assert(x.deep_view() =~= x@);
}

/// The lines of `s`, as `str::lines` yields them.
pub fn lines_of(s: &Vec<char>) -> (r: Vec<Vec<char>>)
    ensures
        r.deep_view() == lines(s@),
{
    let n = s.len();
    let mut out: Vec<Vec<char>> = Vec::new();
    let mut start: usize = 0;
    let mut i: usize = 0;
    assert(s@.skip(0) =~= s@);
    assert(out.deep_view() + lines(s@.skip(0)) =~= lines(s@));
    while i < n
        invariant
            n == s@.len(),
            start <= i <= n,
            forall|k: int| start <= k < i ==> #[trigger] s@[k] != '\n',
            out.deep_view() + lines(s@.skip(start as int)) == lines(s@),
        decreases n - i,
    {
        if s[i] == '\n' {
            let ghost rest = s@.skip(start as int);
            proof {
                assert forall|k: int| 0 <= k < i - start implies #[trigger] rest[k] != '\n' by {
                    assert(rest[k] == s@[k + start]);
                }
                lemma_newline_pos(rest, i - start);
                assert(rest.take(i - start) =~= s@.subrange(start as int, i as int));
                assert(rest.skip(i - start + 1) =~= s@.skip(i + 1));
            }
            let line = strip_cr_chars(chars_range(s, start, i));
            let ghost before = out.deep_view();
            out.push(line);
            proof {
                lemma_chars_deep_view(line);
                assert(out.deep_view() =~= before.push(line@));
                assert(lines(rest) == seq![line@] + lines(s@.skip(i + 1)));
                assert(before + lines(rest) =~= out.deep_view() + lines(s@.skip(i + 1)));
            }
            start = i + 1;
        }
        i = i + 1;
    }
    if start < n {
        let ghost rest = s@.skip(start as int);
        proof {
            assert forall|k: int| 0 <= k < rest.len() implies #[trigger] rest[k] != '\n' by {
                assert(rest[k] == s@[k + start]);
            }
            lemma_newline_pos(rest, rest.len() as int);
        }
        let last = chars_range(s, start, n);
        let ghost before = out.deep_view();
        out.push(last);
        proof {
            lemma_chars_deep_view(last);
            assert(last@ =~= rest);
            assert(out.deep_view() =~= before.push(last@));
            assert(lines(s@.skip(n as int)) =~= Seq::<Seq<char>>::empty()) by {
                assert(s@.skip(n as int).len() == 0);
            }
            assert(before + lines(rest) =~= out.deep_view());
        }
    } else {
        proof {
            assert(s@.skip(start as int).len() == 0);
            assert(out.deep_view() + lines(s@.skip(start as int)) =~= out.deep_view());
        }
    }
    out
}

/// `parts` joined with `sep` between neighbours, each first preceded by `prefix`.
pub fn join_prefixed(parts: &Vec<Vec<char>>, prefix: &Vec<char>, sep: &Vec<char>) -> (r: Vec<char>)
    ensures
        r@ == join(prefix_each(parts.deep_view(), prefix@), sep@),
{
    let ghost all = prefix_each(parts.deep_view(), prefix@);
    let mut out: Vec<char> = Vec::new();
    let mut i: usize = 0;
    while i < parts.len()
        invariant
            0 <= i <= parts@.len(),
            all == prefix_each(parts.deep_view(), prefix@),
            all.len() == parts@.len(),
            out@ == join(all.take(i as int), sep@),
        decreases parts@.len() - i,
    {
        let ghost taken = all.take(i as int + 1);
        assert(taken.drop_last() =~= all.take(i as int));
        proof {
            lemma_chars_deep_view(parts@[i as int]);
        }
        assert(taken.last() == prefix@ + parts@[i as int]@);
        if i > 0 {
            let mut s = sep.clone();
            out.append(&mut s);
        }
        let mut p = prefix.clone();
        out.append(&mut p);
        let mut l = parts[i].clone();
        out.append(&mut l);
        i = i + 1;
        proof {
            if i == 1 {
                assert(taken.len() == 1);
                assert(out@ =~= join(taken, sep@));
            } else {
                assert(out@ =~= join(taken, sep@));
            }
        }
    }
    assert(all.take(parts@.len() as int) =~= all);
    out
}

/// `parts`, each preceded by `prefix`, concatenated; `start` says from which part.
pub fn concat_prefixed_from(parts: &Vec<Vec<char>>, start: usize, prefix: &Vec<char>) -> (r: Vec<char>)
    requires
        start <= parts@.len(),
    ensures
        r@ == concat_prefixed(parts.deep_view().skip(start as int), prefix@),
{
    let ghost all = parts.deep_view().skip(start as int);
    let mut out: Vec<char> = Vec::new();
    let mut i: usize = start;
    while i < parts.len()
        invariant
            start <= i <= parts@.len(),
            all == parts.deep_view().skip(start as int),
            out@ == concat_prefixed(all.take(i - start), prefix@),
        decreases parts@.len() - i,
    {
        let ghost taken = all.take(i - start + 1);
        assert(taken.drop_last() =~= all.take(i - start));
        proof {
            lemma_chars_deep_view(parts@[i as int]);
        }
        assert(taken.last() == parts@[i as int]@);
        let mut p = prefix.clone();
        out.append(&mut p);
        let mut l = parts[i].clone();
        out.append(&mut l);
        i = i + 1;
        assert(out@ =~= concat_prefixed(taken, prefix@));
    }
    assert(all.take(parts@.len() - start) =~= all);
    out
}

/// Whether `pat` occurs in `s` at index `i`.
pub fn occurs_at_exec(s: &Vec<char>, pat: &Vec<char>, i: usize) -> (b: bool)
    ensures
        b == occurs_at(s@, pat@, i as int),
{
    if i > s.len() || pat.len() > s.len() - i {
        return false;
    }
    let mut k: usize = 0;
    let n = s.len();
    while k < pat.len()
        invariant
            n == s@.len(),
            i + pat@.len() <= s@.len(),
            0 <= k <= pat@.len(),
            forall|j: int| 0 <= j < k ==> s@[i + j] == pat@[j],
        decreases pat@.len() - k,
    {
        if s[i + k] != pat[k] {
            assert(s@.subrange(i as int, i + pat@.len())[k as int] != pat@[k as int]);
            return false;
        }
        k = k + 1;
    }
    assert(s@.subrange(i as int, i + pat@.len()) =~= pat@);
    true
}

/// `s` with every occurrence of `pat` replaced by `rep`, as `str::replace` does it.
pub fn replace_all_chars(s: &Vec<char>, pat: &Vec<char>, rep: &Vec<char>) -> (r: Vec<char>)
    ensures
        r@ == replace_all(s@, pat@, rep@),
{
    let n = s.len();
    let mut out: Vec<char> = Vec::new();
    let mut i: usize = 0;
    if pat.len() == 0 {
        return s.clone();
    }
    assert(s@.skip(0) =~= s@);
    while i < n
        invariant
            n == s@.len(),
            0 <= i <= n,
            pat@.len() > 0,
            out@ + replace_all(s@.skip(i as int), pat@, rep@) == replace_all(s@, pat@, rep@),
        decreases n - i,
    {
        let ghost rest = s@.skip(i as int);
        if occurs_at_exec(s, pat, i) {
            proof {
                assert(rest.take(pat@.len() as int) =~= s@.subrange(i as int, i + pat@.len()));
                assert(rest.skip(pat@.len() as int) =~= s@.skip(i + pat@.len()));
            }
            let mut r2 = rep.clone();
            let ghost before = out@;
            out.append(&mut r2);
            i = i + pat.len();
            assert(before + replace_all(rest, pat@, rep@) =~= out@ + replace_all(s@.skip(i as int), pat@, rep@));
        } else {
            proof {
                if rest.len() >= pat@.len() {
                    assert(rest.take(pat@.len() as int) =~= s@.subrange(i as int, i + pat@.len()));
                } else {
                    assert(replace_all(rest, pat@, rep@) == rest);
                    assert(rest.drop_first().len() < pat@.len());
                    assert(replace_all(rest.drop_first(), pat@, rep@) == rest.drop_first());
                }
                assert(rest.drop_first() =~= s@.skip(i + 1));
                assert(replace_all(rest, pat@, rep@) =~= seq![s@[i as int]] + replace_all(s@.skip(i + 1), pat@, rep@));
            }
            let ghost before = out@;
            out.push(s[i]);
            i = i + 1;
            assert(before + replace_all(rest, pat@, rep@) =~= out@ + replace_all(s@.skip(i as int), pat@, rep@));
        }
    }
    assert(s@.skip(n as int).len() == 0);
    assert(out@ + replace_all(s@.skip(n as int), pat@, rep@) =~= out@);
    out
}

/// What `find` gives: the first index where `pat` occurs, or none when it
/// occurs nowhere.
pub proof fn lemma_find(s: Seq<char>, pat: Seq<char>)
    ensures
        find(s, pat) matches Some(i) ==> {
            &&& occurs_at(s, pat, i)
            &&& forall|j: int| 0 <= j < i ==> !occurs_at(s, pat, j)
        },
        find(s, pat) is None ==> forall|j: int| !occurs_at(s, pat, j),
    decreases s.len(),
{
    if pat.len() > s.len() {
    } else if s.take(pat.len() as int) == pat {
        assert(s.subrange(0, pat.len() as int) =~= s.take(pat.len() as int));
    } else if s.len() == 0 {
        assert(s.take(pat.len() as int) =~= pat);
    } else {
        let t = s.drop_first();
        lemma_find(t, pat);
        assert(!occurs_at(s, pat, 0)) by {
            assert(s.subrange(0, pat.len() as int) =~= s.take(pat.len() as int));
        }
        assert forall|j: int| 1 <= j implies occurs_at(s, pat, j) == occurs_at(t, pat, j - 1) by {
            if 0 <= j - 1 && j - 1 + pat.len() <= t.len() {
                assert(s.subrange(j, j + pat.len()) =~= t.subrange(j - 1, j - 1 + pat.len()));
            }
        }
        if let Some(i) = find(t, pat) {
            assert forall|j: int| 0 <= j < i + 1 implies !occurs_at(s, pat, j) by {
                if j >= 1 {
                    assert(occurs_at(s, pat, j) == occurs_at(t, pat, j - 1));
                }
            }
        } else {
            assert forall|j: int| !occurs_at(s, pat, j) by {
                if j >= 1 {
                    assert(occurs_at(s, pat, j) == occurs_at(t, pat, j - 1));
                }
            }
        }
    }
}

/// The characterization fixes `find`: an occurrence with none before it is
/// what `find` returns.
pub proof fn lemma_find_unique(s: Seq<char>, pat: Seq<char>, i: int)
    requires
        occurs_at(s, pat, i),
        forall|j: int| 0 <= j < i ==> !occurs_at(s, pat, j),
    ensures
        find(s, pat) == Some(i),
{
    lemma_find(s, pat);
    if let Some(k) = find(s, pat) {
        if k < i {
        } else if k > i {
        }
    }
}

/// The index of the first occurrence of `pat` in `s` at or after `from`.
pub fn find_from(s: &Vec<char>, pat: &Vec<char>, from: usize) -> (r: Option<usize>)
    requires
        from <= s@.len(),
    ensures
        find(s@.skip(from as int), pat@) == match r {
            Some(i) => Some(i - from),
            None => None::<int>,
        },
        r matches Some(i) ==> from <= i && i + pat@.len() <= s@.len(),
{
    let n = s.len();
    let plen = pat.len();
    let ghost t = s@.skip(from as int);
    let mut i: usize = from;
    while plen <= n - i
        invariant
            n == s@.len(),
            plen == pat@.len(),
            from <= i <= n,
            t == s@.skip(from as int),
            forall|j: int| 0 <= j < i - from ==> !occurs_at(t, pat@, j),
        decreases n - i,
    {
        proof {
            if plen == 0 {
                assert(s@.subrange(i as int, i as int) =~= pat@);
            }
        }
        if occurs_at_exec(s, pat, i) {
            proof {
                assert(occurs_at(t, pat@, i - from)) by {
                    assert(t.subrange(i - from, i - from + plen) =~= s@.subrange(i as int, i + plen));
                }
                lemma_find_unique(t, pat@, i - from);
            }
            return Some(i);
        }
        proof {
            assert(!occurs_at(t, pat@, i - from)) by {
                if occurs_at(t, pat@, i - from) {
                    assert(t.subrange(i - from, i - from + plen) =~= s@.subrange(i as int, i + plen));
                }
            }
        }
        i = i + 1;
    }
    proof {
        lemma_find(t, pat@);
        assert forall|j: int| !occurs_at(t, pat@, j) by {
            if 0 <= j < i - from {
            }
        }
    }
    None
}

/// The characters of `v` followed by those of `s`.
pub fn push_str(v: &mut Vec<char>, s: &str)
    ensures
        final(v)@ == old(v)@ + s@,
{
    let mut t = str_chars(s);
    v.append(&mut t);
}

} // verus!
