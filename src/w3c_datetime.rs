//! Dates and date-times of the W3C profile of RFC 3339, redisplayed with the
//! precision they were written in.

use vstd::prelude::*;
use chrono::{Datelike, Timelike};

verus! {

#[verifier::external_type_specification]
#[verifier::external_body]
pub struct ExChronoParseError(chrono::ParseError);

/// How finely an instant is redisplayed.
#[derive(Debug, Clone, Copy, PartialEq, Eq, Structural)]
pub enum Precision {
    WholeSeconds,
    Milliseconds,
}

/// A day of the proleptic Gregorian calendar.
#[derive(Debug, Clone, Copy, PartialEq, Eq, Structural)]
pub struct CalendarDate {
    pub year: i32,
    pub month: u32,
    pub day: u32,
}

/// A local date and time of day together with its offset from UTC.
#[derive(Debug, Clone, Copy, PartialEq, Eq, Structural)]
pub struct Instant {
    pub date: CalendarDate,
    pub hour: u32,
    pub minute: u32,
    pub second: u32,
    /// Nanoseconds past the second; a leap second counts from 1_000_000_000.
    pub nanosecond: u32,
    pub offset_seconds: i32,
}

/// A `lastmod` value: a bare date, or an instant with the precision it was
/// written in.
#[derive(Debug, Clone, Copy, PartialEq, Eq, Structural)]
pub enum W3CDateTime {
    DateTime(Instant, Precision),
    Date(CalendarDate),
}

/// The text is neither a `YYYY-MM-DD` date nor an RFC 3339 date-time.
#[derive(Debug, Clone, Copy, PartialEq, Eq, Structural)]
pub struct DateTimeParseError;

pub open spec fn is_leap_year(y: int) -> bool {
    (y % 4 == 0 && y % 100 != 0) || y % 400 == 0
}

pub open spec fn days_in_month(y: int, m: int) -> int {
    if m == 2 {
        if is_leap_year(y) { 29 } else { 28 }
    } else if m == 4 || m == 6 || m == 9 || m == 11 {
        30
    } else {
        31
    }
}

/// A real calendar day with a four-digit year.
pub open spec fn valid_date(ymd: (int, int, int)) -> bool {
    &&& 0 <= ymd.0 <= 9999
    &&& 1 <= ymd.1 <= 12
    &&& 1 <= ymd.2 <= days_in_month(ymd.0, ymd.1)
}

pub open spec fn is_digit(c: char) -> bool {
    c == '0' || c == '1' || c == '2' || c == '3' || c == '4' || c == '5' || c == '6' || c == '7'
        || c == '8' || c == '9'
}

pub open spec fn digit_value(c: char) -> int {
    if c == '1' {
        1
    } else if c == '2' {
        2
    } else if c == '3' {
        3
    } else if c == '4' {
        4
    } else if c == '5' {
        5
    } else if c == '6' {
        6
    } else if c == '7' {
        7
    } else if c == '8' {
        8
    } else if c == '9' {
        9
    } else {
        0
    }
}

/// Ten characters `YYYY-MM-DD`, every `Y`, `M` and `D` a decimal digit.
pub open spec fn is_ymd_text(s: Seq<char>) -> bool {
    &&& s.len() == 10
    &&& s[4] == '-'
    &&& s[7] == '-'
    &&& forall|i: int| 0 <= i < 10 && i != 4 && i != 7 ==> is_digit(#[trigger] s[i])
}

/// The year, month and day written in a `YYYY-MM-DD` text.
pub open spec fn ymd_of(s: Seq<char>) -> (int, int, int) {
    (
        digit_value(s[0]) * 1000 + digit_value(s[1]) * 100 + digit_value(s[2]) * 10
            + digit_value(s[3]),
        digit_value(s[5]) * 10 + digit_value(s[6]),
        digit_value(s[8]) * 10 + digit_value(s[9]),
    )
}

/// Milliseconds where the text has a fraction of a second, whole seconds
/// otherwise.
pub open spec fn precision_of(s: Seq<char>) -> Precision {
    if s.contains('.') {
        Precision::Milliseconds
    } else {
        Precision::WholeSeconds
    }
}

impl CalendarDate {
    pub open spec fn ymd(self) -> (int, int, int) {
        (self.year as int, self.month as int, self.day as int)
    }

    pub open spec fn wf(self) -> bool {
        valid_date(self.ymd())
    }
}

impl Instant {
    /// Year, month, day, hour, minute, second, nanosecond and offset.
    pub open spec fn fields(self) -> (int, int, int, int, int, int, int, int) {
        (
            self.date.year as int,
            self.date.month as int,
            self.date.day as int,
            self.hour as int,
            self.minute as int,
            self.second as int,
            self.nanosecond as int,
            self.offset_seconds as int,
        )
    }

    pub open spec fn wf(self) -> bool {
        &&& self.date.wf()
        &&& self.hour < 24
        &&& self.minute < 60
        &&& self.second < 60
        &&& (self.nanosecond < 1_000_000_000 || (self.second == 59 && self.nanosecond
            < 2_000_000_000))
        &&& -86_400 < self.offset_seconds < 86_400
    }
}

/// The date-time that chrono reads from an RFC 3339 text: the fields of
/// `Instant::fields`, or `None` where the text is refused.
pub uninterp spec fn rfc3339_parse(s: Seq<char>) -> Option<(int, int, int, int, int, int, int, int)>;

/// The RFC 3339 text that chrono writes for the fields of `Instant::fields`,
/// with three fractional digits where `millis` holds and none otherwise.
pub uninterp spec fn rfc3339_text(fields: (int, int, int, int, int, int, int, int), millis: bool) -> Seq<char>;

/// Relies on chrono's `NaiveDate::from_str` (the `%Y-%m-%d` form): on a
/// `YYYY-MM-DD` text it succeeds exactly on real calendar days, with the
/// numbers written there.
#[verifier::external_body]
fn chrono_parse_date(s: &str) -> (r: Result<(i32, u32, u32), chrono::ParseError>)
    ensures
        is_ymd_text(s@) ==> (r is Ok <==> valid_date(ymd_of(s@))),
        is_ymd_text(s@) ==> (r matches Ok(t) ==> (t.0 as int, t.1 as int, t.2 as int) == ymd_of(
            s@,
        )),
{
    s.parse::<chrono::NaiveDate>().map(|d| (d.year(), d.month(), d.day()))
}

/// Relies on chrono's `DateTime::parse_from_rfc3339`: the local date and time
/// and the offset that it reads. A value it returns has a four-digit year, a
/// real date and time of day (a leap second as nanoseconds past 59) and an
/// offset under a day.
#[verifier::external_body]
fn chrono_parse_rfc3339(s: &str) -> (r: Result<
    (i32, u32, u32, u32, u32, u32, u32, i32),
    chrono::ParseError,
>)
    ensures
        match r {
            Ok(t) => rfc3339_parse(s@) == Some(
                (
                    t.0 as int,
                    t.1 as int,
                    t.2 as int,
                    t.3 as int,
                    t.4 as int,
                    t.5 as int,
                    t.6 as int,
                    t.7 as int,
                ),
            ) && (Instant {
                date: CalendarDate { year: t.0, month: t.1, day: t.2 },
                hour: t.3,
                minute: t.4,
                second: t.5,
                nanosecond: t.6,
                offset_seconds: t.7,
            }).wf(),
            Err(_) => rfc3339_parse(s@) is None,
        },
{
    chrono::DateTime::parse_from_rfc3339(s).map(
        |dt| {
            let l = dt.naive_local();
            let off = dt.offset().local_minus_utc();
            (l.year(), l.month(), l.day(), l.hour(), l.minute(), l.second(), l.nanosecond(), off)
        },
    )
}

/// Relies on chrono's `NaiveDate::format("%Y-%m-%d")`: the year zero-padded
/// to four digits, month and day to two, joined by `-`.
#[verifier::external_body]
fn chrono_format_date(d: CalendarDate) -> (r: String)
    requires
        d.wf(),
    ensures
        is_ymd_text(r@),
        ymd_of(r@) == d.ymd(),
{
    let date = chrono::NaiveDate::from_ymd_opt(d.year, d.month, d.day).unwrap();
    date.format("%Y-%m-%d").to_string()
}

/// Relies on chrono's `DateTime::to_rfc3339_opts` with `Z` for a zero offset,
/// in whole seconds or in milliseconds.
#[verifier::external_body]
fn chrono_format_rfc3339(t: Instant, millis: bool) -> (r: String)
    requires
        t.wf(),
    ensures
        r@ == rfc3339_text(t.fields(), millis),
{
    let offset = chrono::FixedOffset::east_opt(t.offset_seconds).unwrap();
    let local = chrono::NaiveDate::from_ymd_opt(t.date.year, t.date.month, t.date.day).unwrap()
        .and_hms_nano_opt(t.hour, t.minute, t.second, t.nanosecond).unwrap();
    let form = if millis {
        chrono::SecondsFormat::Millis
    } else {
        chrono::SecondsFormat::Secs
    };
    local.and_local_timezone(offset).unwrap().to_rfc3339_opts(form, true)
}

/// Whether `parse` accepts the text.
pub open spec fn parse_accepts(s: Seq<char>) -> bool {
    if s.len() == 10 {
        is_ymd_text(s) && valid_date(ymd_of(s))
    } else {
        rfc3339_parse(s) is Some
    }
}

/// `v` is what `parse` makes of the text.
pub open spec fn parses_to(s: Seq<char>, v: W3CDateTime) -> bool {
    if s.len() == 10 {
        v matches W3CDateTime::Date(d) && d.ymd() == ymd_of(s)
    } else {
        v matches W3CDateTime::DateTime(t, p) && rfc3339_parse(s) == Some(t.fields()) && p
            == precision_of(s)
    }
}

/// `out` is the text that `to_string` writes for `v`.
pub open spec fn formats_to(v: W3CDateTime, out: Seq<char>) -> bool {
    match v {
        W3CDateTime::Date(d) => is_ymd_text(out) && ymd_of(out) == d.ymd(),
        W3CDateTime::DateTime(t, p) => out == rfc3339_text(
            t.fields(),
            p == Precision::Milliseconds,
        ),
    }
}

proof fn lemma_digit_unique(c: char, e: char)
    requires
        is_digit(c),
        is_digit(e),
        digit_value(c) == digit_value(e),
    ensures
        c == e,
{
}

proof fn lemma_digits_unique(x: Seq<int>, y: Seq<int>)
    requires
        x.len() == 4,
        y.len() == 4,
        forall|i: int| 0 <= i < 4 ==> 0 <= #[trigger] x[i] <= 9 && 0 <= y[i] <= 9,
        x[0] * 1000 + x[1] * 100 + x[2] * 10 + x[3] == y[0] * 1000 + y[1] * 100 + y[2] * 10
            + y[3],
    ensures
        x =~= y,
{
    assert(0 <= x[0] <= 9 && 0 <= y[0] <= 9);
    assert(0 <= x[1] <= 9 && 0 <= y[1] <= 9);
    assert(0 <= x[2] <= 9 && 0 <= y[2] <= 9);
    assert(0 <= x[3] <= 9 && 0 <= y[3] <= 9);
}

/// Two `YYYY-MM-DD` texts that spell the same year, month and day are the
/// same text.
pub proof fn lemma_ymd_text_unique(a: Seq<char>, b: Seq<char>)
    requires
        is_ymd_text(a),
        is_ymd_text(b),
        ymd_of(a) == ymd_of(b),
    ensures
        a == b,
{
    assert forall|i: int| 0 <= i < 10 && i != 4 && i != 7 implies 0 <= digit_value(#[trigger] a[i])
        <= 9 && 0 <= digit_value(b[i]) <= 9 && is_digit(a[i]) && is_digit(b[i]) by {
        assert(is_digit(a[i]));
        assert(is_digit(b[i]));
    }
    let ya = seq![digit_value(a[0]), digit_value(a[1]), digit_value(a[2]), digit_value(a[3])];
    let yb = seq![digit_value(b[0]), digit_value(b[1]), digit_value(b[2]), digit_value(b[3])];
    lemma_digits_unique(ya, yb);
    assert(ya[0] == yb[0] && ya[1] == yb[1] && ya[2] == yb[2] && ya[3] == yb[3]);
    let ma = seq![0, 0, digit_value(a[5]), digit_value(a[6])];
    let mb = seq![0, 0, digit_value(b[5]), digit_value(b[6])];
    lemma_digits_unique(ma, mb);
    assert(ma[2] == mb[2] && ma[3] == mb[3]);
    let da = seq![0, 0, digit_value(a[8]), digit_value(a[9])];
    let db = seq![0, 0, digit_value(b[8]), digit_value(b[9])];
    lemma_digits_unique(da, db);
    assert(da[2] == db[2] && da[3] == db[3]);
    assert forall|i: int| 0 <= i < 10 implies #[trigger] a[i] == b[i] by {
        if i != 4 && i != 7 {
            lemma_digit_unique(a[i], b[i]);
        }
    }
    assert(a =~= b);
}

/// Every `YYYY-MM-DD` text of a real calendar day is accepted by `parse`,
/// and `to_string` of what it gives is that same text.
pub proof fn lemma_date_round_trip(d: Seq<char>)
    requires
        is_ymd_text(d),
        valid_date(ymd_of(d)),
    ensures
        parse_accepts(d),
        forall|v: W3CDateTime, out: Seq<char>|
            #![trigger parses_to(d, v), formats_to(v, out)]
            parses_to(d, v) && formats_to(v, out) ==> out == d,
{
    assert forall|v: W3CDateTime, out: Seq<char>|
        parses_to(d, v) && formats_to(v, out) implies out == d by {
        lemma_ymd_text_unique(out, d);
    }
}

impl W3CDateTime {
    pub open spec fn wf(self) -> bool {
        match self {
            W3CDateTime::Date(d) => d.wf(),
            W3CDateTime::DateTime(t, _) => t.wf(),
        }
    }

    /// Reads a `YYYY-MM-DD` date (exactly ten characters) or an RFC 3339
    /// date-time with its offset.
    pub fn new(string: &str) -> (r: Result<W3CDateTime, DateTimeParseError>)
        ensures
            r is Ok <==> parse_accepts(string@),
            r matches Ok(v) ==> parses_to(string@, v) && v.wf(),
    {
        Self::parse(string)
    }

    /// Reads a `YYYY-MM-DD` date (exactly ten characters) or an RFC 3339
    /// date-time with its offset.
    pub fn parse(string: &str) -> (r: Result<W3CDateTime, DateTimeParseError>)
        ensures
            r is Ok <==> parse_accepts(string@),
            r matches Ok(v) ==> parses_to(string@, v) && v.wf(),
    {
        let n = string.unicode_len();
        if n == 10 {
            if !is_ymd_shaped(string) {
                return Err(DateTimeParseError);
            }
            match chrono_parse_date(string) {
                Ok((year, month, day)) => Ok(W3CDateTime::Date(CalendarDate { year, month, day })),
                Err(_) => Err(DateTimeParseError),
            }
        } else {
            match chrono_parse_rfc3339(string) {
                Ok(t) => {
                    let instant = Instant {
                        date: CalendarDate { year: t.0, month: t.1, day: t.2 },
                        hour: t.3,
                        minute: t.4,
                        second: t.5,
                        nanosecond: t.6,
                        offset_seconds: t.7,
                    };
                    Ok(W3CDateTime::DateTime(instant, precision_of_text(string)))
                },
                Err(_) => Err(DateTimeParseError),
            }
        }
    }

    /// The text of the value: `YYYY-MM-DD` for a date, RFC 3339 in the
    /// recorded precision for an instant.
    pub fn to_string(&self) -> (r: String)
        requires
            self.wf(),
        ensures
            formats_to(*self, r@),
    {
        match *self {
            W3CDateTime::Date(d) => chrono_format_date(d),
            W3CDateTime::DateTime(t, p) => chrono_format_rfc3339(
                t,
                match p {
                    Precision::Milliseconds => true,
                    Precision::WholeSeconds => false,
                },
            ),
        }
    }
}

fn is_ymd_shaped(s: &str) -> (r: bool)
    requires
        s@.len() == 10,
    ensures
        r == is_ymd_text(s@),
{
    let mut i: usize = 0;
    while i < 10
        invariant
            s@.len() == 10,
            i <= 10,
            forall|k: int| 0 <= k < i && k != 4 && k != 7 ==> is_digit(#[trigger] s@[k]),
        decreases 10 - i,
    {
        let c = s.get_char(i);
        if i == 4 || i == 7 {
            if c != '-' {
                return false;
            }
        } else if !(c == '0' || c == '1' || c == '2' || c == '3' || c == '4' || c == '5' || c
            == '6' || c == '7' || c == '8' || c == '9') {
            return false;
        }
        i = i + 1;
    }
    s.get_char(4) == '-' && s.get_char(7) == '-'
}

fn precision_of_text(s: &str) -> (r: Precision)
    ensures
        r == precision_of(s@),
{
    let n = s.unicode_len();
    let mut i: usize = 0;
    while i < n
        invariant
            n == s@.len(),
            i <= n,
            forall|k: int| 0 <= k < i ==> s@[k] != '.',
        decreases n - i,
    {
        if s.get_char(i) == '.' {
            return Precision::Milliseconds;
        }
        i = i + 1;
    }
    Precision::WholeSeconds
}

} // verus!
