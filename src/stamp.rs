//! Wall-clock timestamps and the folder names made from them.
use chrono::{Datelike, Timelike};
use vstd::prelude::*;

verus! {

/// A local date and time to the second.
#[derive(Clone, Copy, Debug, PartialEq, Eq, Structural)]
pub struct Stamp {
    pub year: i32,
    pub month: u32,
    pub day: u32,
    pub hour: u32,
    pub minute: u32,
    pub second: u32,
}

/// The earliest and latest years of chrono's calendar.
pub const MIN_YEAR: i32 = -262143;

pub const MAX_YEAR: i32 = 262142;

/// How a backup folder is named: day, month, year, hour, minute, second.
pub const FOLDER_FORMAT: &'static str = "%d.%m.%Y %H.%M.%S";

pub open spec fn is_leap_year(y: int) -> bool {
    (y % 4 == 0 && y % 100 != 0) || y % 400 == 0
}

pub open spec fn days_in_month(y: int, m: int) -> int {
    if m == 2 {
        if is_leap_year(y) {
            29
        } else {
            28
        }
    } else if m == 4 || m == 6 || m == 9 || m == 11 {
        30
    } else {
        31
    }
}

/// A date of the proleptic Gregorian calendar and a time without leap second.
pub open spec fn valid_stamp(s: Stamp) -> bool {
    &&& MIN_YEAR <= s.year <= MAX_YEAR
    &&& 1 <= s.month <= 12
    &&& 1 <= s.day <= days_in_month(s.year as int, s.month as int)
    &&& s.hour < 24
    &&& s.minute < 60
    &&& s.second < 60
}

/// The decimal digit for `d` below ten.
pub open spec fn digit(d: int) -> char {
    (d + 48) as char
}

/// `n` below a hundred, in two digits.
pub open spec fn two_digits(n: int) -> Seq<char> {
    seq![digit(n / 10), digit(n % 10)]
}

/// `n` below ten thousand, in four digits.
pub open spec fn four_digits(n: int) -> Seq<char> {
    seq![digit(n / 1000), digit((n / 100) % 10), digit((n / 10) % 10), digit(n % 10)]
}

/// `DD.MM.YYYY HH.MM.SS`, each field padded with zeros.
pub open spec fn stamp_text(s: Stamp) -> Seq<char> {
    two_digits(s.day as int) + seq!['.'] + two_digits(s.month as int) + seq!['.'] + four_digits(
        s.year as int,
    ) + seq![' '] + two_digits(s.hour as int) + seq!['.'] + two_digits(s.minute as int) + seq!['.']
        + two_digits(s.second as int)
}

/// Relies on chrono's `Local::now` with `Datelike` and `Timelike`: the local
/// date and time, a valid date of its calendar, seconds from 0 to 59.
#[verifier::external_body]
pub fn local_now() -> (r: Stamp)
    ensures
        valid_stamp(r),
{
    let now = chrono::Local::now();
    Stamp {
        year: now.year(),
        month: now.month(),
        day: now.day(),
        hour: now.hour(),
        minute: now.minute(),
        second: now.second(),
    }
}

/// Relies on chrono's `NaiveDate::from_ymd_opt`, `NaiveDate::and_hms_opt` and
/// `NaiveDateTime::format`: both constructors accept a valid stamp. Only the
/// folder pattern is taken, whose specifiers a date and time always fill; with
/// it the fields come zero-padded, the year to four digits when it lies
/// between 0 and 9999.
#[verifier::external_body]
fn format_stamp(s: &Stamp, pattern: &str) -> (r: String)
    requires
        valid_stamp(*s),
        pattern@ == FOLDER_FORMAT@,
    ensures
        0 <= s.year <= 9999 ==> r@ == stamp_text(*s),
{
    let date = chrono::NaiveDate::from_ymd_opt(s.year, s.month, s.day).unwrap();
    let time = date.and_hms_opt(s.hour, s.minute, s.second).unwrap();
    time.format(pattern).to_string()
}

/// The name of the backup folder for a run started at `s`.
pub fn folder_name(s: &Stamp) -> (r: String)
    requires
        valid_stamp(*s),
    ensures
        0 <= s.year <= 9999 ==> r@ == stamp_text(*s),
{
    format_stamp(s, FOLDER_FORMAT)
}

proof fn lemma_digit_injective(a: int, b: int)
    requires
        0 <= a < 10,
        0 <= b < 10,
        digit(a) == digit(b),
    ensures
        a == b,
{
}

proof fn lemma_two_digits_injective(a: int, b: int)
    requires
        0 <= a < 100,
        0 <= b < 100,
        two_digits(a) == two_digits(b),
    ensures
        a == b,
{
    assert(two_digits(a)[0] == two_digits(b)[0]);
    assert(two_digits(a)[1] == two_digits(b)[1]);
    lemma_digit_injective(a / 10, b / 10);
    lemma_digit_injective(a % 10, b % 10);
}

#[verifier::rlimit(40)]
proof fn lemma_four_digits_injective(a: int, b: int)
    requires
        0 <= a < 10000,
        0 <= b < 10000,
        four_digits(a) == four_digits(b),
    ensures
        a == b,
{
    assert(four_digits(a)[0] == four_digits(b)[0]);
    assert(four_digits(a)[1] == four_digits(b)[1]);
    assert(four_digits(a)[2] == four_digits(b)[2]);
    assert(four_digits(a)[3] == four_digits(b)[3]);
    lemma_digit_injective(a / 1000, b / 1000);
    lemma_digit_injective((a / 100) % 10, (b / 100) % 10);
    lemma_digit_injective((a / 10) % 10, (b / 10) % 10);
    lemma_digit_injective(a % 10, b % 10);
}

/// Runs started at different seconds get different folder names, for years
/// from 0 to 9999.
pub proof fn lemma_distinct_stamps_distinct_names(a: Stamp, b: Stamp)
    requires
        valid_stamp(a),
        valid_stamp(b),
        0 <= a.year <= 9999,
        0 <= b.year <= 9999,
        a != b,
    ensures
        stamp_text(a) != stamp_text(b),
{
    if stamp_text(a) == stamp_text(b) {
        let ta = stamp_text(a);
        let tb = stamp_text(b);
        assert(ta.subrange(0, 2) =~= two_digits(a.day as int));
        assert(tb.subrange(0, 2) =~= two_digits(b.day as int));
        assert(ta.subrange(3, 5) =~= two_digits(a.month as int));
        assert(tb.subrange(3, 5) =~= two_digits(b.month as int));
        assert(ta.subrange(6, 10) =~= four_digits(a.year as int));
        assert(tb.subrange(6, 10) =~= four_digits(b.year as int));
        assert(ta.subrange(11, 13) =~= two_digits(a.hour as int));
        assert(tb.subrange(11, 13) =~= two_digits(b.hour as int));
        assert(ta.subrange(14, 16) =~= two_digits(a.minute as int));
        assert(tb.subrange(14, 16) =~= two_digits(b.minute as int));
        assert(ta.subrange(17, 19) =~= two_digits(a.second as int));
        assert(tb.subrange(17, 19) =~= two_digits(b.second as int));
        lemma_two_digits_injective(a.day as int, b.day as int);
        lemma_two_digits_injective(a.month as int, b.month as int);
        lemma_four_digits_injective(a.year as int, b.year as int);
        lemma_two_digits_injective(a.hour as int, b.hour as int);
        lemma_two_digits_injective(a.minute as int, b.minute as int);
        lemma_two_digits_injective(a.second as int, b.second as int);
    }
}

} // verus!
