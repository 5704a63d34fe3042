//! Modification times as local calendar text (`YYYY-MM-DD HH:MM:SS`).

use chrono::{DateTime, Local};
use vstd::prelude::*;

verus! {

/// The calendar date and time, `YYYY-MM-DD HH:MM:SS`, that lies `secs`
/// seconds after 1970-01-01 00:00:00, as chrono writes it.
pub uninterp spec fn calendar_text(secs: int) -> Seq<char>;

/// Instants, in seconds from the Unix epoch, that chrono can represent: some
/// 253,000 years either side of 1970, well inside chrono's years
/// -262,143 to 262,142.
pub open spec fn in_calendar_range(secs: int) -> bool {
    -8_000_000_000_000 <= secs <= 8_000_000_000_000
}

/// Instants whose local date and time chrono can represent, whatever the
/// zone: local time differs from UTC by less than a day.
pub open spec fn in_local_range(secs: int) -> bool {
    -8_000_000_000_000 + 86400 <= secs <= 8_000_000_000_000 - 86400
}

/// Relies on chrono's `DateTime::from_timestamp` (`None` only when the date
/// falls outside chrono's years) and on chrono's formatting of the date and
/// time it holds with `%Y-%m-%d %H:%M:%S`.
#[verifier::external_body]
fn utc_calendar_text(secs: i64) -> (r: Option<String>)
    ensures
        r matches Some(t) ==> t@ == calendar_text(secs as int),
        in_calendar_range(secs as int) ==> r is Some,
{
    match DateTime::from_timestamp(secs, 0) {
        Some(dt) => Some(dt.naive_utc().format("%Y-%m-%d %H:%M:%S").to_string()),
        None => None,
    }
}

/// Relies on chrono's `Local` time zone: the number of seconds that local
/// time is ahead of UTC at the instant `secs` (`FixedOffset::local_minus_utc`,
/// which chrono keeps strictly within one day), or `None` when
/// `DateTime::from_timestamp` cannot represent the instant.
#[verifier::external_body]
fn local_offset_at(secs: i64) -> (r: Option<i32>)
    ensures
        r matches Some(o) ==> -86400 < o < 86400,
        in_calendar_range(secs as int) ==> r is Some,
{
    match DateTime::from_timestamp(secs, 0) {
        Some(dt) => Some(dt.with_timezone(&Local).offset().local_minus_utc()),
        None => None,
    }
}

/// `t` is the calendar text of the instant `secs` in some time zone.
pub open spec fn is_local_text(secs: int, t: Seq<char>) -> bool {
    exists|o: int| -86400 < o < 86400 && t == #[trigger] calendar_text(secs + o)
}

/// The calendar text of the instant `secs` (seconds since the Unix epoch) in
/// a zone `offset` seconds ahead of UTC; `None` where the shifted instant is
/// out of range.
pub fn time_text_at(secs: i64, offset: i32) -> (r: Option<String>)
    ensures
        r matches Some(t) ==> t@ == calendar_text(secs + offset),
        in_calendar_range(secs + offset) ==> r is Some,
        !(i64::MIN <= secs + offset <= i64::MAX) ==> r is None,
{
    match secs.checked_add(offset as i64) {
        None => None,
        Some(local) => utc_calendar_text(local),
    }
}

/// The calendar text of the instant `secs` in the local time zone; `None`
/// where that instant cannot be represented.
pub fn local_time_text(secs: i64) -> (r: Option<String>)
    ensures
        r matches Some(t) ==> is_local_text(secs as int, t@),
        in_local_range(secs as int) ==> r is Some,
{
    match local_offset_at(secs) {
        None => None,
        Some(offset) => time_text_at(secs, offset),
    }
}

} // verus!
