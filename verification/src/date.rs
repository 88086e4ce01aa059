//! Calendar dates and their decimal and English renderings.
use vstd::prelude::*;
use chrono::Datelike;

verus! {

/// Smallest year a date can have (that of `chrono::NaiveDate::MIN`).
pub const MIN_YEAR: i32 = -262143;
/// Largest year a date can have (that of `chrono::NaiveDate::MAX`).
pub const MAX_YEAR: i32 = 262142;

/// Whether `year` is a leap year of the proleptic Gregorian calendar.
pub open spec fn is_leap_year(year: int) -> bool {
    (year % 4 == 0 && year % 100 != 0) || year % 400 == 0
}

/// The number of days of a month.
pub open spec fn days_in_month(year: int, month: int) -> int {
    if month == 2 {
        if is_leap_year(year) { 29 } else { 28 }
    } else if month == 4 || month == 6 || month == 9 || month == 11 {
        30
    } else {
        31
    }
}

/// Whether year, month and day name a day of the proleptic Gregorian calendar
/// in the range of `chrono::NaiveDate`.
pub open spec fn is_valid_date(year: int, month: int, day: int) -> bool {
    &&& MIN_YEAR <= year <= MAX_YEAR
    &&& 1 <= month <= 12
    &&& 1 <= day <= days_in_month(year, month)
}

/// A day of the proleptic Gregorian calendar.
#[derive(Debug, Clone, Copy, PartialEq, Eq)]
pub struct CalendarDate {
    year: i32,
    month: u32,
    day: u32,
}

impl View for CalendarDate {
    type V = (int, int, int);

    open spec fn view(&self) -> (int, int, int) {
        (self.spec_year() as int, self.spec_month() as int, self.spec_day() as int)
    }
}

impl CalendarDate {
    /// The year.
    pub closed spec fn spec_year(self) -> i32 {
        self.year
    }

    /// The month, 1 to 12.
    pub closed spec fn spec_month(self) -> u32 {
        self.month
    }

    /// The day of the month, from 1.
    pub closed spec fn spec_day(self) -> u32 {
        self.day
    }

    #[verifier::type_invariant]
    closed spec fn inv(self) -> bool {
        is_valid_date(self.year as int, self.month as int, self.day as int)
    }

    /// The date with this year, month and day, when there is one.
    pub fn from_ymd_opt(year: i32, month: u32, day: u32) -> (r: Option<CalendarDate>)
        ensures
            r is Some <==> is_valid_date(year as int, month as int, day as int),
            r matches Some(d) ==> d@ == (year as int, month as int, day as int),
    {
        if year < MIN_YEAR || year > MAX_YEAR || month < 1 || month > 12 || day < 1 {
            return None;
        }
        let a: u32 = if year < 0 { (0 - year) as u32 } else { year as u32 };
        let leap = (a % 4 == 0 && a % 100 != 0) || a % 400 == 0;
        assert(leap == is_leap_year(year as int)) by {
            if year < 0 {
                assert(a as int == -(year as int));
                assert(((year as int) % 4 == 0) == ((a as int) % 4 == 0));
                assert(((year as int) % 100 == 0) == ((a as int) % 100 == 0));
                assert(((year as int) % 400 == 0) == ((a as int) % 400 == 0));
            }
        }
        let days: u32 = if month == 2 {
            if leap { 29 } else { 28 }
        } else if month == 4 || month == 6 || month == 9 || month == 11 {
            30
        } else {
            31
        };
        if day > days {
            return None;
        }
        Some(CalendarDate { year, month, day })
    }

    /// The year.
    pub fn year(&self) -> (r: i32)
        ensures
            r == self@.0,
            is_valid_date(self@.0, self@.1, self@.2),
    {
        proof {
            use_type_invariant(self);
        }
        self.year
    }

    /// The month, 1 to 12.
    pub fn month(&self) -> (r: u32)
        ensures
            r == self@.1,
            1 <= r <= 12,
    {
        proof {
            use_type_invariant(self);
        }
        self.month
    }

    /// The day of the month, from 1.
    pub fn day(&self) -> (r: u32)
        ensures
            r == self@.2,
            1 <= r <= 31,
    {
        proof {
            use_type_invariant(self);
        }
        self.day
    }
}

/// Days from 1970-01-01 to the given day of the proleptic Gregorian calendar.
pub open spec fn days_from_civil(year: int, month: int, day: int) -> int {
    let y = if month <= 2 { year - 1 } else { year };
    let era = y / 400;
    let yoe = y - era * 400;
    let mp = if month > 2 { month - 3 } else { month + 9 };
    let doy = (153 * mp + 2) / 5 + day - 1;
    let doe = yoe * 365 + yoe / 4 - yoe / 100 + doy;
    era * 146097 + doe - 719468
}

/// The day of the week, counted from Sunday (0) to Saturday (6).
pub open spec fn weekday_from_sunday(year: int, month: int, day: int) -> int {
    (days_from_civil(year, month, day) + 4) % 7
}

/// The English name of a month, 1 to 12.
pub open spec fn long_month_name(month: int) -> Seq<char> {
    if month == 1 { "January"@ }
    else if month == 2 { "February"@ }
    else if month == 3 { "March"@ }
    else if month == 4 { "April"@ }
    else if month == 5 { "May"@ }
    else if month == 6 { "June"@ }
    else if month == 7 { "July"@ }
    else if month == 8 { "August"@ }
    else if month == 9 { "September"@ }
    else if month == 10 { "October"@ }
    else if month == 11 { "November"@ }
    else { "December"@ }
}

/// The three-letter English name of a month, 1 to 12.
pub open spec fn short_month_name(month: int) -> Seq<char> {
    if month == 1 { "Jan"@ }
    else if month == 2 { "Feb"@ }
    else if month == 3 { "Mar"@ }
    else if month == 4 { "Apr"@ }
    else if month == 5 { "May"@ }
    else if month == 6 { "Jun"@ }
    else if month == 7 { "Jul"@ }
    else if month == 8 { "Aug"@ }
    else if month == 9 { "Sep"@ }
    else if month == 10 { "Oct"@ }
    else if month == 11 { "Nov"@ }
    else { "Dec"@ }
}

/// The English name of a day of the week counted from Sunday (0).
pub open spec fn long_weekday_name(w: int) -> Seq<char> {
    if w == 0 { "Sunday"@ }
    else if w == 1 { "Monday"@ }
    else if w == 2 { "Tuesday"@ }
    else if w == 3 { "Wednesday"@ }
    else if w == 4 { "Thursday"@ }
    else if w == 5 { "Friday"@ }
    else { "Saturday"@ }
}

/// The three-letter English name of a day of the week counted from Sunday (0).
pub open spec fn short_weekday_name(w: int) -> Seq<char> {
    if w == 0 { "Sun"@ }
    else if w == 1 { "Mon"@ }
    else if w == 2 { "Tue"@ }
    else if w == 3 { "Wed"@ }
    else if w == 4 { "Thu"@ }
    else if w == 5 { "Fri"@ }
    else { "Sat"@ }
}

/// Whether `pattern` is one of the four `strftime` name patterns used here.
pub open spec fn is_name_pattern(pattern: Seq<char>) -> bool {
    pattern == "%B"@ || pattern == "%b"@ || pattern == "%A"@ || pattern == "%a"@
}

/// What chrono renders for a date under one of the name patterns.
pub open spec fn date_name(pattern: Seq<char>, date: (int, int, int)) -> Seq<char> {
    let w = weekday_from_sunday(date.0, date.1, date.2);
    if pattern == "%B"@ {
        long_month_name(date.1)
    } else if pattern == "%b"@ {
        short_month_name(date.1)
    } else if pattern == "%A"@ {
        long_weekday_name(w)
    } else {
        short_weekday_name(w)
    }
}

/// chrono's `NaiveDate::format` under a name pattern: `%B` the month's name,
/// `%b` its three-letter abbreviation, `%A` the weekday's name, `%a` its
/// abbreviation, all in English (chrono's default locale).
#[verifier::external_body]
pub(crate) fn chrono_format_name(date: &CalendarDate, pattern: &str) -> (r: String)
    requires
        is_name_pattern(pattern@),
    ensures
        r@ == date_name(pattern@, date@),
{
    let d = chrono::NaiveDate::from_ymd_opt(date.year, date.month, date.day).unwrap();
    d.format(pattern).to_string()
}

/// The date chrono's `NaiveDate::parse_from_str` reads from `text` under the
/// `strftime` pattern `pattern`, or `None` when it rejects the text.
pub uninterp spec fn chrono_parsed_date(text: Seq<char>, pattern: Seq<char>) -> Option<(int, int, int)>;

/// chrono's `NaiveDate::parse_from_str`: the date read from `text` under
/// `pattern`, `None` when chrono rejects it. Which texts it accepts is not
/// restated here; the result is named by `chrono_parsed_date`.
#[verifier::external_body]
pub(crate) fn parse_date(text: &str, pattern: &str) -> (r: Option<CalendarDate>)
    ensures
        chrono_parsed_date(text@, pattern@) == match r {
            Some(d) => Some(d@),
            None => None::<(int, int, int)>,
        },
{
    match chrono::NaiveDate::parse_from_str(text, pattern) {
        Ok(d) => Some(CalendarDate { year: d.year(), month: d.month(), day: d.day() }),
        Err(_) => None,
    }
}

/// chrono's `Local::now().date_naive()`: today in the machine's time zone.
/// Nothing is stated of which day it is.
#[verifier::external_body]
pub(crate) fn today_local() -> (r: CalendarDate) {
    let d = chrono::Local::now().date_naive();
    CalendarDate { year: d.year(), month: d.month(), day: d.day() }
}

/// The decimal digit for `k`, 0 to 9.
pub open spec fn digit_char(k: int) -> char {
    if k == 0 { '0' }
    else if k == 1 { '1' }
    else if k == 2 { '2' }
    else if k == 3 { '3' }
    else if k == 4 { '4' }
    else if k == 5 { '5' }
    else if k == 6 { '6' }
    else if k == 7 { '7' }
    else if k == 8 { '8' }
    else { '9' }
}

/// The decimal digits of `n`, without leading zeros.
pub open spec fn decimal(n: nat) -> Seq<char>
    decreases n,
{
    if n < 10 {
        seq![digit_char(n as int)]
    } else {
        decimal(n / 10) + seq![digit_char((n % 10) as int)]
    }
}

/// The value of a decimal digit character, or -1 for another character.
pub open spec fn digit_value(c: char) -> int {
    if c == '0' { 0 }
    else if c == '1' { 1 }
    else if c == '2' { 2 }
    else if c == '3' { 3 }
    else if c == '4' { 4 }
    else if c == '5' { 5 }
    else if c == '6' { 6 }
    else if c == '7' { 7 }
    else if c == '8' { 8 }
    else if c == '9' { 9 }
    else { -1 }
}

/// The number a string of decimal digits reads as.
pub open spec fn digits_value(s: Seq<char>) -> int
    decreases s.len(),
{
    if s.len() == 0 {
        0
    } else {
        digits_value(s.drop_last()) * 10 + digit_value(s.last())
    }
}

/// `decimal(n)` is digits only, without a leading zero (but for 0 itself),
/// and reads back as `n`.
pub proof fn lemma_decimal_reads_back(n: nat)
    ensures
        digits_value(decimal(n)) == n,
        decimal(n).len() >= 1,
        forall|i: int| 0 <= i < decimal(n).len() ==> 0 <= #[trigger] digit_value(decimal(n)[i]) <= 9,
        n >= 10 ==> decimal(n)[0] != '0',
    decreases n,
{
    let d = decimal(n);
    if n < 10 {
        assert(d.drop_last() =~= Seq::<char>::empty());
        assert(digits_value(d.drop_last()) == 0);
        assert(digit_value(digit_char(n as int)) == n);
    }
    if n >= 10 {
        lemma_decimal_reads_back(n / 10);
        assert(digit_value(digit_char((n % 10) as int)) == n % 10);
        assert(digits_value(d) == digits_value(d.drop_last()) * 10 + digit_value(d.last()));
        assert(d.drop_last() =~= decimal(n / 10));
        assert(d[0] == decimal(n / 10)[0]);
        assert forall|i: int| 0 <= i < d.len() implies 0 <= #[trigger] digit_value(d[i]) <= 9 by {
            if i < d.len() - 1 {
                assert(d[i] == decimal(n / 10)[i]);
            }
        }
        assert((n / 10) * 10 + n % 10 == n);
        if n / 10 >= 10 {
        } else {
            assert(n / 10 >= 1);
        }
    }
}

/// `v` in decimal, zero-padded after the sign to at least `width`
/// characters, as `format!("{:0width$}", v)` writes it.
pub open spec fn padded(v: int, width: nat) -> Seq<char> {
    let sign: Seq<char> = if v < 0 { seq!['-'] } else { seq![] };
    let digits = decimal((if v < 0 { -v } else { v }) as nat);
    let fill: int = width - sign.len() - digits.len();
    sign + Seq::new((if fill > 0 { fill } else { 0 }) as nat, |i: int| '0') + digits
}

/// `y % 100` as Rust computes it (the sign follows `y`).
pub open spec fn rem_100(y: int) -> int {
    if y >= 0 { y % 100 } else { -((-y) % 100) }
}

fn digit(k: u64) -> (c: char)
    requires
        k < 10,
    ensures
        c == digit_char(k as int),
{
    if k == 0 { '0' }
    else if k == 1 { '1' }
    else if k == 2 { '2' }
    else if k == 3 { '3' }
    else if k == 4 { '4' }
    else if k == 5 { '5' }
    else if k == 6 { '6' }
    else if k == 7 { '7' }
    else if k == 8 { '8' }
    else { '9' }
}

/// The decimal digits of `n`.
pub fn decimal_chars(n: u64) -> (r: Vec<char>)
    ensures
        r@ == decimal(n as nat),
    decreases n,
{
    if n < 10 {
        let mut v: Vec<char> = Vec::new();
        v.push(digit(n));
        v
    } else {
        let mut v = decimal_chars(n / 10);
        v.push(digit(n % 10));
        v
    }
}

proof fn lemma_decimal_len(n: nat)
    ensures
        1 <= decimal(n).len(),
        n < 10 ==> decimal(n).len() <= 1,
        n < 100 ==> decimal(n).len() <= 2,
        n < 1000 ==> decimal(n).len() <= 3,
        n < 10000 ==> decimal(n).len() <= 4,
        n < 100000 ==> decimal(n).len() <= 5,
        n < 1000000 ==> decimal(n).len() <= 6,
    decreases n,
{
    if n >= 10 {
        lemma_decimal_len(n / 10);
    }
}

/// `v` in decimal, zero-padded after the sign to at least `width` characters.
pub fn padded_chars(v: i64, width: usize) -> (r: Vec<char>)
    requires
        -1000000 < v < 1000000,
        width <= 16,
    ensures
        r@ == padded(v as int, width as nat),
{
    let neg = v < 0;
    let mag: u64 = if neg { (0 - v) as u64 } else { v as u64 };
    let digits = decimal_chars(mag);
    proof {
        lemma_decimal_len(mag as nat);
    }
    let mut out: Vec<char> = Vec::new();
    if neg {
        out.push('-');
    }
    let used: usize = out.len() + digits.len();
    let mut k: usize = used;
    let ghost sign = out@;
    while k < width
        invariant
            used <= k <= width || (k == used && used >= width),
            out@ == sign + Seq::new((k - used) as nat, |i: int| '0'),
        decreases width - k,
    {
        out.push('0');
        k = k + 1;
        assert(out@ =~= sign + Seq::new((k - used) as nat, |i: int| '0'));
    }
    let mut d = digits;
    out.append(&mut d);
    proof {
        let fill: int = width - sign.len() - digits@.len();
        assert(Seq::new((k - used) as nat, |i: int| '0') =~= Seq::new((if fill > 0 { fill } else { 0 }) as nat, |i: int| '0'));
    }
    out
}

} // verus!
