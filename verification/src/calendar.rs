//! Calendar dates as plain values, and the calls into `chrono` that check,
//! write and read them.
use vstd::prelude::*;
use crate::text::{decimal, digit_char};

verus! {

/// The earliest year a `chrono::NaiveDate` can hold.
pub open spec fn min_year() -> int {
    -262143
}

/// The latest year a `chrono::NaiveDate` can hold.
pub open spec fn max_year() -> int {
    262142
}

/// Leap years of the proleptic Gregorian calendar.
pub open spec fn is_leap_year(y: int) -> bool {
    (y % 4 == 0 && y % 100 != 0) || y % 400 == 0
}

/// The number of days in month `m` of year `y`.
pub open spec fn days_in_month(y: int, m: int) -> int {
    if m == 2 {
        if is_leap_year(y) { 29 } else { 28 }
    } else if m == 4 || m == 6 || m == 9 || m == 11 {
        30
    } else {
        31
    }
}

/// Whether year, month and day name a day that `chrono::NaiveDate` can hold.
pub open spec fn valid_ymd(y: int, m: int, d: int) -> bool {
    &&& min_year() <= y <= max_year()
    &&& 1 <= m <= 12
    &&& 1 <= d <= days_in_month(y, m)
}

/// `s` padded on the left with '0' up to `width` characters.
pub open spec fn zero_pad(s: Seq<char>, width: nat) -> Seq<char> {
    if s.len() < width {
        Seq::new((width - s.len()) as nat, |i: int| '0') + s
    } else {
        s
    }
}

/// A year as `%Y` writes it: at least four digits, with a sign when the
/// year lies outside 0..=9999.
pub open spec fn year_text(y: int) -> Seq<char> {
    let digits = zero_pad(decimal(if y < 0 { (-y) as nat } else { y as nat }), 4);
    if y < 0 {
        seq!['-'] + digits
    } else if y > 9999 {
        seq!['+'] + digits
    } else {
        digits
    }
}

/// A month or day number as `%m` and `%d` write it: two digits.
pub open spec fn two_digits(n: int) -> Seq<char> {
    seq![digit_char((n / 10) as nat), digit_char((n % 10) as nat)]
}

/// The format `%Y<sep>%m<sep>%d`.
pub open spec fn date_pattern(sep: char) -> Seq<char> {
    seq!['%', 'Y', sep, '%', 'm', sep, '%', 'd']
}

/// Whether `fmt` is `%Y-%m-%d` or `%Y_%m_%d`.
pub open spec fn supported_pattern(fmt: Seq<char>) -> bool {
    fmt.len() == 8 && (fmt[2] == '-' || fmt[2] == '_') && fmt == date_pattern(fmt[2])
}

/// A date written with `date_pattern(sep)`.
pub open spec fn date_text(y: int, m: int, d: int, sep: char) -> Seq<char> {
    year_text(y) + seq![sep] + two_digits(m) + seq![sep] + two_digits(d)
}

/// What `chrono::NaiveDate::parse_from_str(text, fmt)` gives, as year,
/// month and day.
pub uninterp spec fn parsed_date(text: Seq<char>, fmt: Seq<char>) -> Option<(i32, u32, u32)>;

/// Calls `chrono::NaiveDate::from_ymd_opt`. Claimed: it gives a date exactly
/// for the years `chrono` can hold, months 1 to 12 and the days that month has
/// in the proleptic Gregorian calendar (its source checks the year range
/// against `MIN_YEAR` and `MAX_YEAR` and the month and day against a table of
/// month lengths with the leap year flag).
#[verifier::external_body]
fn chrono_date_exists(year: i32, month: u32, day: u32) -> (r: bool)
    ensures
        r == valid_ymd(year as int, month as int, day as int),
{
    chrono::NaiveDate::from_ymd_opt(year, month, day).is_some()
}

/// Calls `chrono::NaiveDate::format(fmt).to_string()` on the date with these
/// year, month and day. Claimed: with `%Y-%m-%d` or `%Y_%m_%d` it writes the
/// year as `%Y` does (four digits, zero padded, with a sign outside
/// 0..=9999), then the separator, the month and the day as two digits each.
#[verifier::external_body]
fn chrono_format_date(year: i32, month: u32, day: u32, fmt: &str) -> (r: String)
    requires
        valid_ymd(year as int, month as int, day as int),
        supported_pattern(fmt@),
    ensures
        r@ == date_text(year as int, month as int, day as int, fmt@[2]),
{
    chrono::NaiveDate::from_ymd_opt(year, month, day).unwrap().format(fmt).to_string()
}

/// The error `chrono` reports for a text it cannot read as a date.
#[verifier::external_type_specification]
#[verifier::external_body]
pub struct ExParseError(chrono::ParseError);

/// Year, month and day read from a text, or why none could be read.
pub type ParsedYmd = Result<(i32, u32, u32), chrono::ParseError>;

/// The year, month and day read, if any.
pub open spec fn parsed_value(r: ParsedYmd) -> Option<(i32, u32, u32)> {
    match r {
        Ok(t) => Some(t),
        Err(_) => None,
    }
}

/// Calls `chrono::NaiveDate::parse_from_str(text, fmt)` and gives year,
/// month and day of the date it reads. Claimed: it reads a date exactly when
/// `parsed_date` of the two texts is one, and then that date; a date it
/// reads is valid; and a date written with a supported pattern reads back
/// as itself (numbers are read greedily with an optional sign for the year,
/// literals must match, nothing may be left). Not said: which other texts
/// are accepted, and which error is reported.
#[verifier::external_body]
fn chrono_parse_date(text: &str, fmt: &str) -> (r: ParsedYmd)
    ensures
        r is Ok <==> parsed_date(text@, fmt@) is Some,
        r matches Ok(t) ==> parsed_date(text@, fmt@) == Some(t),
        r matches Ok(t) ==> valid_ymd(t.0 as int, t.1 as int, t.2 as int),
        forall|w: (i32, u32, u32)|
            valid_ymd(w.0 as int, w.1 as int, w.2 as int) && supported_pattern(fmt@) && text@
                == #[trigger] date_text(w.0 as int, w.1 as int, w.2 as int, fmt@[2]) ==> parsed_value(r) == Some(w),
{
    match chrono::NaiveDate::parse_from_str(text, fmt) {
        Ok(d) => Ok((chrono::Datelike::year(&d), chrono::Datelike::month(&d), chrono::Datelike::day(&d))),
        Err(e) => Err(e),
    }
}

/// Why a text is not a date.
#[derive(Debug)]
pub enum DateError {
    /// `chrono` could not read it with the format.
    Parse(chrono::ParseError),
}

/// A day of the proleptic Gregorian calendar, in the range `chrono` supports.
#[derive(Clone, Copy, Debug, PartialEq, Eq, Hash)]
pub struct CalendarDate {
    pub(crate) year: i32,
    pub(crate) month: u32,
    pub(crate) day: u32,
}

/// Lexicographic order on (year, month, day), the order of days in time.
pub open spec fn ymd_less(a: (int, int, int), b: (int, int, int)) -> bool {
    a.0 < b.0 || (a.0 == b.0 && (a.1 < b.1 || (a.1 == b.1 && a.2 < b.2)))
}

impl CalendarDate {
    #[verifier::type_invariant]
    spec fn inv(self) -> bool {
        valid_ymd(self.year as int, self.month as int, self.day as int)
    }

    /// Year, month and day.
    pub closed spec fn ymd(self) -> (int, int, int) {
        (self.year as int, self.month as int, self.day as int)
    }

    /// The date with this year, month and day, if there is one.
    pub fn new(year: i32, month: u32, day: u32) -> (r: Option<CalendarDate>)
        ensures
            r is Some <==> valid_ymd(year as int, month as int, day as int),
            r matches Some(d) ==> d.ymd() == (year as int, month as int, day as int),
    {
        if chrono_date_exists(year, month, day) {
            Some(CalendarDate { year, month, day })
        } else {
            None
        }
    }

    /// The year.
    pub fn year(&self) -> (r: i32)
        ensures
            r == self.ymd().0,
            valid_ymd(self.ymd().0, self.ymd().1, self.ymd().2),
    {
        proof { use_type_invariant(self); }
        self.year
    }

    /// The month, 1 to 12.
    pub fn month(&self) -> (r: u32)
        ensures
            r == self.ymd().1,
            valid_ymd(self.ymd().0, self.ymd().1, self.ymd().2),
    {
        proof { use_type_invariant(self); }
        self.month
    }

    /// The day of the month.
    pub fn day(&self) -> (r: u32)
        ensures
            r == self.ymd().2,
            valid_ymd(self.ymd().0, self.ymd().1, self.ymd().2),
    {
        proof { use_type_invariant(self); }
        self.day
    }

    /// The date written with `fmt`, `%Y-%m-%d` or `%Y_%m_%d`.
    pub fn format(&self, fmt: &str) -> (r: String)
        requires
            supported_pattern(fmt@),
        ensures
            r@ == date_text(self.ymd().0, self.ymd().1, self.ymd().2, fmt@[2]),
    {
        proof { use_type_invariant(self); }
        chrono_format_date(self.year, self.month, self.day, fmt)
    }

    /// The date `text` holds when read with `fmt`; an error when it holds
    /// none.
    pub fn parse(text: &str, fmt: &str) -> (r: Result<CalendarDate, DateError>)
        ensures
            r is Ok <==> parsed_date(text@, fmt@) is Some,
            r matches Ok(d) ==> parsed_date(text@, fmt@) matches Some(t) && d.ymd() == (
                t.0 as int,
                t.1 as int,
                t.2 as int,
            ),
            forall|y: i32, m: u32, d: u32|
                valid_ymd(y as int, m as int, d as int) && supported_pattern(fmt@) && text@
                    == #[trigger] date_text(y as int, m as int, d as int, fmt@[2]) ==> (r matches Ok(
                    e,
                ) && e.ymd() == (y as int, m as int, d as int)),
            forall|y: i32, m: u32, d: u32|
                valid_ymd(y as int, m as int, d as int) && supported_pattern(fmt@) && text@
                    == #[trigger] date_text(y as int, m as int, d as int, fmt@[2]) ==> parsed_date(
                    text@,
                    fmt@,
                ) == Some((y, m, d)),
    {
        let r = chrono_parse_date(text, fmt);
        assert forall|y: i32, m: u32, d: u32|
            valid_ymd(y as int, m as int, d as int) && supported_pattern(fmt@) && text@
                == #[trigger] date_text(y as int, m as int, d as int, fmt@[2]) implies (r matches Ok(t) && t == (y, m, d)) by {
            let w = (y, m, d);
            assert(date_text(w.0 as int, w.1 as int, w.2 as int, fmt@[2]) == date_text(y as int, m as int, d as int, fmt@[2]));
        }
        match r {
            Ok((y, m, d)) => Ok(CalendarDate { year: y, month: m, day: d }),
            Err(e) => Err(DateError::Parse(e)),
        }
    }

    /// Dates with the same year, month and day are the same date.
    pub proof fn lemma_ymd_injective(a: CalendarDate, b: CalendarDate)
        ensures
            a.ymd() == b.ymd() ==> a == b,
    {
    }

    /// Whether `self` is an earlier day than `other`.
    pub fn is_before(&self, other: &CalendarDate) -> (r: bool)
        ensures
            r == ymd_less(self.ymd(), other.ymd()),
    {
        self.year < other.year || (self.year == other.year && (self.month < other.month || (
        self.month == other.month && self.day < other.day)))
    }
}


impl Default for CalendarDate {
    /// 1970-01-01, the default of `chrono::NaiveDate`.
    fn default() -> (r: CalendarDate)
        ensures
            r.ymd() == (1970int, 1int, 1int),
    {
        CalendarDate { year: 1970, month: 1, day: 1 }
    }
}

} // verus!
