//! What is read from outside: the local time and fresh identifiers.

use crate::number::is_digit;
use vstd::prelude::*;

verus! {

/// A moment of the local day.
pub struct Clock {
    /// The calendar day, counted from the first of January of the year one.
    pub day: i32,
    pub hour: u32,
    pub minute: u32,
}

impl Clock {
    /// The hour and the minute are those of a day.
    pub open spec fn wf(self) -> bool {
        self.hour < 24 && self.minute < 60
    }
}

/// `s[from..to]` holds digits only.
pub open spec fn digits_between(s: Seq<char>, from: int, to: int) -> bool {
    forall|i: int| from <= i < to ==> is_digit(#[trigger] s[i])
}

/// A year in decimal: at least four digits, with a sign in front where it is not
/// between zero and 9999.
pub open spec fn is_year(s: Seq<char>) -> bool {
    ||| s.len() == 4 && digits_between(s, 0, 4)
    ||| s.len() > 4 && (s[0] == '+' || s[0] == '-') && digits_between(s, 1, s.len() as int)
}

/// `s[at..at + 2]` holds two digits that spell a number from `least` to `most`.
pub open spec fn is_field(s: Seq<char>, at: int, least: int, most: int) -> bool {
    is_digit(s[at]) && is_digit(s[at + 1]) && least <= (s[at] as int - '0' as int) * 10 + (s[at
        + 1] as int - '0' as int) <= most
}

/// The time of day as `14:30`.
pub open spec fn is_time_of_day(s: Seq<char>) -> bool {
    s.len() == 5 && is_field(s, 0, 0, 23) && s[2] == ':' && is_field(s, 3, 0, 59)
}

/// A moment as `2026-06-25 14:30`, the year as [`is_year`] has it.
pub open spec fn is_minute_stamp(s: Seq<char>) -> bool {
    let y = s.len() - 12;
    &&& s.len() >= 16
    &&& is_year(s.take(y))
    &&& s[y] == '-' && is_field(s, y + 1, 1, 12)
    &&& s[y + 3] == '-' && is_field(s, y + 4, 1, 31)
    &&& s[y + 6] == ' '
    &&& is_time_of_day(s.skip(y + 7))
}

/// A moment as `20260625-143200`, the year as [`is_year`] has it.
pub open spec fn is_file_stamp(s: Seq<char>) -> bool {
    let y = s.len() - 11;
    &&& s.len() >= 15
    &&& is_year(s.take(y))
    &&& is_field(s, y, 1, 12)
    &&& is_field(s, y + 2, 1, 31)
    &&& s[y + 4] == '-'
    &&& is_field(s, y + 5, 0, 23)
    &&& is_field(s, y + 7, 0, 59)
    &&& is_field(s, y + 9, 0, 60)
}

/// There is no line break in a moment.
pub proof fn lemma_stamp_is_flat(s: Seq<char>)
    requires
        is_minute_stamp(s),
    ensures
        forall|i: int| 0 <= i < s.len() ==> #[trigger] s[i] != '\n',
{
    let y = s.len() - 12;
    let year = s.take(y);
    let time = s.skip(y + 7);
    assert forall|i: int| 0 <= i < s.len() implies #[trigger] s[i] != '\n' by {
        if i < y {
            assert(s[i] == year[i]);
            assert(is_digit(year[i]) || year[i] == '+' || year[i] == '-');
        } else if i >= y + 7 {
            assert(s[i] == time[i - y - 7]);
        }
    }
}

/// `chrono::Local::now`, its `format` and the `to_string` of that: the local
/// time in one of the three layouts in use. Which moment it is depends on the
/// machine; that every field is a zero-padded number of its fixed width and in
/// its range, with the year as [`is_year`] has it, does not.
#[verifier::external_body]
fn local_time(layout: &str) -> (r: String)
    requires
        layout@ == "%H:%M"@ || layout@ == "%Y-%m-%d %H:%M"@ || layout@ == "%Y%m%d-%H%M%S"@,
    ensures
        layout@ == "%H:%M"@ ==> is_time_of_day(r@),
        layout@ == "%Y-%m-%d %H:%M"@ ==> is_minute_stamp(r@),
        layout@ == "%Y%m%d-%H%M%S"@ ==> is_file_stamp(r@),
{
    chrono::Local::now().format(layout).to_string()
}

/// The time of day now, as `14:30`.
pub fn time_of_day() -> (r: String)
    ensures
        is_time_of_day(r@),
{
    local_time("%H:%M")
}

/// The moment now, as `2026-06-25 14:30`.
pub fn minute_stamp() -> (r: String)
    ensures
        is_minute_stamp(r@),
{
    local_time("%Y-%m-%d %H:%M")
}

/// The moment now, as `20260625-143200`.
pub fn file_stamp() -> (r: String)
    ensures
        is_file_stamp(r@),
{
    local_time("%Y%m%d-%H%M%S")
}

/// `chrono::Local::now` taken apart by `hour`, `minute` and `num_days_from_ce`
/// of its date: the hour is below 24 and the minute below 60, whatever the
/// machine's clock and time zone say.
#[verifier::external_body]
pub(crate) fn local_clock() -> (r: Clock)
    ensures
        r.wf(),
{
    let now = chrono::Local::now();
    Clock {
        day: chrono::Datelike::num_days_from_ce(&now.date_naive()),
        hour: chrono::Timelike::hour(&now),
        minute: chrono::Timelike::minute(&now),
    }
}

/// A lower-case hexadecimal digit.
pub open spec fn is_hex_digit(c: char) -> bool {
    is_digit(c) || 'a' <= c <= 'f'
}

/// A random identifier as `67e55044-10b1-426f-9247-bb680e5fe0c8`.
pub open spec fn is_random_id(s: Seq<char>) -> bool {
    &&& s.len() == 36
    &&& s[14] == '4'
    &&& s[19] == '8' || s[19] == '9' || s[19] == 'a' || s[19] == 'b'
    &&& forall|i: int|
        0 <= i < 36 ==> if i == 8 || i == 13 || i == 18 || i == 23 {
            #[trigger] s[i] == '-'
        } else {
            is_hex_digit(s[i])
        }
}

/// `uuid::Uuid::new_v4` and its `to_string`: a fresh random identifier in the
/// hyphenated lower-case form, with the version and variant digits in their
/// places. Which one it is, is left to chance.
#[verifier::external_body]
fn random_id() -> (r: String)
    ensures
        is_random_id(r@),
{
    uuid::Uuid::new_v4().to_string()
}

/// A fresh identifier for a bot or a temporary file.
pub fn fresh_id() -> (r: String)
    ensures
        is_random_id(r@),
{
    random_id()
}

} // verus!
