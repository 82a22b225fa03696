//! Calendar date-times and the text form they are read from.
use vstd::prelude::*;

verus! {

/// A calendar date and a time of day with second resolution, without a time
/// zone. `month` counts from 1 (January).
#[derive(Clone, Copy, Debug, PartialEq, Eq, Structural)]
pub struct Timestamp {
    pub year: i32,
    pub month: u8,
    pub day: u8,
    pub hour: u8,
    pub minute: u8,
    pub second: u8,
}

/// The layout of a date-time text, in the notation of the `time` crate.
pub const DATE_TIME_LAYOUT: &'static str = "[year]:[month]:[day] [hour]:[minute]:[second]";

pub open spec fn is_digit(c: char) -> bool {
    '0' <= c && c <= '9'
}

pub open spec fn digit_value(c: char) -> int {
    c as int - '0' as int
}

/// `s[i..i + 2]` are two decimal digits whose value is `v`.
pub open spec fn two_digits(s: Seq<char>, i: int, v: int) -> bool {
    &&& is_digit(s[i])
    &&& is_digit(s[i + 1])
    &&& v == 10 * digit_value(s[i]) + digit_value(s[i + 1])
}

/// `s[i..i + 4]` are four decimal digits whose value is `v`.
pub open spec fn four_digits(s: Seq<char>, i: int, v: int) -> bool {
    &&& is_digit(s[i])
    &&& is_digit(s[i + 1])
    &&& is_digit(s[i + 2])
    &&& is_digit(s[i + 3])
    &&& v == 1000 * digit_value(s[i]) + 100 * digit_value(s[i + 1]) + 10 * digit_value(s[i + 2])
        + digit_value(s[i + 3])
}

/// `y` is a year of four digits, with or without a leading sign.
pub open spec fn year_text(y: Seq<char>, v: int) -> bool {
    ||| y.len() == 4 && four_digits(y, 0, v)
    ||| y.len() == 5 && y[0] == '+' && four_digits(y, 1, v)
    ||| y.len() == 5 && y[0] == '-' && four_digits(y, 1, -v)
}

/// The separators of `:MM:DD HH:MM:SS`, the fixed-width part that ends a
/// date-time text, stand where they belong.
pub open spec fn date_time_separators(s: Seq<char>) -> bool {
    let n = s.len() as int;
    &&& n >= 19
    &&& s[n - 15] == ':'
    &&& s[n - 12] == ':'
    &&& s[n - 9] == ' '
    &&& s[n - 6] == ':'
    &&& s[n - 3] == ':'
}

/// `s` is the text `YYYY:MM:DD HH:MM:SS` (the year perhaps signed) of `t`.
pub open spec fn date_time_text(s: Seq<char>, t: Timestamp) -> bool {
    let n = s.len() as int;
    &&& date_time_separators(s)
    &&& year_text(s.subrange(0, n - 15), t.year as int)
    &&& two_digits(s, n - 14, t.month as int)
    &&& two_digits(s, n - 11, t.day as int)
    &&& two_digits(s, n - 8, t.hour as int)
    &&& two_digits(s, n - 5, t.minute as int)
    &&& two_digits(s, n - 2, t.second as int)
}

/// The date-time that the `time` crate reads from `s` in the layout
/// `DATE_TIME_LAYOUT`, if it reads one.
pub uninterp spec fn date_time_parse(s: Seq<char>) -> Option<Timestamp>;

/// The text that `String::from_utf8_lossy` makes of `b`.
pub uninterp spec fn lossy_text(b: Seq<u8>) -> Seq<char>;

/// Every byte of `b` is ASCII.
pub open spec fn all_ascii(b: Seq<u8>) -> bool {
    forall|i: int| 0 <= i < b.len() ==> b[i] < 128
}

/// The characters of the ASCII bytes `b`.
pub open spec fn ascii_chars(b: Seq<u8>) -> Seq<char> {
    b.map_values(|x: u8| x as char)
}

/// Relies on `String::from_utf8_lossy`: the result depends on the bytes alone,
/// and valid UTF-8 (ASCII in particular) is kept as it is.
#[verifier::external_body]
pub(crate) fn utf8_lossy(b: &[u8]) -> (r: String)
    ensures
        r@ == lossy_text(b@),
        all_ascii(b@) ==> r@ == ascii_chars(b@),
{
    String::from_utf8_lossy(b).into_owned()
}

/// Relies on `time::format_description::parse` to read `layout`, and on
/// `time::PrimitiveDateTime::parse` to read `s` by it: the result depends on
/// the text alone, and a date-time is read only from the whole text in that
/// layout, each field from its digits.
#[verifier::external_body]
pub(crate) fn parse_date_time(s: &str, layout: &str) -> (r: Option<Timestamp>)
    requires
        layout@ == DATE_TIME_LAYOUT@,
    ensures
        r == date_time_parse(s@),
        r matches Some(t) ==> date_time_text(s@, t),
{
    let items = time::format_description::parse(layout).ok()?;
    let t = time::PrimitiveDateTime::parse(s, &items).ok()?;
    Some(Timestamp {
        year: t.year(),
        month: u8::from(t.month()),
        day: t.day(),
        hour: t.hour(),
        minute: t.minute(),
        second: t.second(),
    })
}

} // verus!
