//! The labels of the shell's clock, formatted through chrono from the local
//! wall-clock time.
use vstd::prelude::*;

use crate::text::digit_char;

verus! {

/// The date label, `%a, %d %b` (such as `Tue, 14 Nov`), of the wall-clock
/// time `local_seconds` seconds after midnight of 1 January 1970.
pub uninterp spec fn date_label_of(local_seconds: int) -> Seq<char>;

/// The time label, `%H:%M`, of the wall-clock time `local_seconds` seconds
/// after midnight of 1 January 1970: the hour and the minute of that day,
/// each in two digits.
pub open spec fn time_label_of(local_seconds: int) -> Seq<char> {
    let of_day = local_seconds % 86400;
    let hour = of_day / 3600;
    let minute = of_day % 3600 / 60;
    seq![digit_char(hour / 10), digit_char(hour % 10), ':', digit_char(minute / 10), digit_char(minute % 10)]
}

/// The wall-clock times that chrono can place: within about 253 000 years
/// of 1970.
pub open spec fn clock_in_range(local_seconds: int) -> bool {
    -8_000_000_000_000 <= local_seconds <= 8_000_000_000_000
}

/// Calls `chrono::DateTime::from_timestamp(local_seconds, 0)` and formats
/// the result with `format("%a, %d %b")` and `format("%H:%M")`. Within the
/// range admitted, `from_timestamp` returns a value (it returns none only
/// beyond chrono's years -262143 to 262142). Claimed: the date label is
/// `date_label_of` the time; the time label is its hour and minute of the
/// day in two digits each, as chrono's table of specifiers gives `%H` and
/// `%M`. Which weekday and month names the date label holds is left to the
/// name.
#[verifier::external_body]
pub(crate) fn clock_labels(local_seconds: i64) -> (r: (String, String))
    requires
        clock_in_range(local_seconds as int),
    ensures
        r.0@ == date_label_of(local_seconds as int),
        r.1@ == time_label_of(local_seconds as int),
{
    let at = chrono::DateTime::from_timestamp(local_seconds, 0).unwrap_or_default();
    (at.format("%a, %d %b").to_string(), at.format("%H:%M").to_string())
}

} // verus!
