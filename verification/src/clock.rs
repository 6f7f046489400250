//! The clock and the local calendar: the current time, the local time
//! zone's offset, and calendar arithmetic and formatting in local time.

use crate::model::{in_clock_range, nanos_per_second, signed_nanos, UnixTime};
use vstd::prelude::*;

verus! {

/// Whether a time lies where local calendar conversion works: from the
/// start of the third of January of year -9999 up to the start of the
/// thirtieth of December of year 9999 (UTC), so that any local offset
/// within 25:59:59 keeps it within the calendar's years.
pub open spec fn presentable_time(nanos: int) -> bool {
    -377_704_944_000 * crate::model::nanos_per_second() <= nanos < 253_402_128_000
        * crate::model::nanos_per_second()
}

/// Whether a time lies in the range of dates that the local calendar can
/// present.
pub fn is_presentable(t: UnixTime) -> (r: bool)
    ensures
        r == presentable_time(t@),
{
    let s: u64 = t.whole_seconds();
    let ns: u32 = t.subsecond_nanos();
    let ghost m: int = if t@ < 0 { -t@ } else { t@ };
    proof {
        assert(m == s * 1_000_000_000 + ns) by (nonlinear_arith)
            requires
                m >= 0,
                s == m / 1_000_000_000,
                ns == m % 1_000_000_000,
        ;
    }
    if t.is_before_epoch() {
        proof {
            assert((s < 377_704_944_000 || (s == 377_704_944_000 && ns == 0)) <==> m
                <= 377_704_944_000 * 1_000_000_000) by (nonlinear_arith)
                requires
                    m == s * 1_000_000_000 + ns,
                    0 <= ns < 1_000_000_000,
                    s >= 0,
            ;
        }
        s < 377_704_944_000 || (s == 377_704_944_000 && ns == 0)
    } else {
        proof {
            assert((s < 253_402_128_000) <==> m < 253_402_128_000 * 1_000_000_000) by (nonlinear_arith)
                requires
                    m == s * 1_000_000_000 + ns,
                    0 <= ns < 1_000_000_000,
                    s >= 0,
            ;
        }
        s < 253_402_128_000
    }
}

/// The text that `time` formats for a time shifted by a UTC offset in
/// seconds, with a format description, or the message of its error.
pub uninterp spec fn local_time_text(nanos: int, offset_seconds: int, description: Seq<char>) -> Result<
    Seq<char>,
    Seq<char>,
>;

/// The offset from UTC, in whole seconds, of the system's local time zone
/// at a time: `time::OffsetDateTime::from_unix_timestamp_nanos`, then
/// `time::UtcOffset::local_offset_at`; or the message of an error.
///
/// The offset depends on the machine's time zone settings, so nothing ties
/// it to the time; claimed only that a `UtcOffset` lies within 25:59:59 of
/// UTC.
#[verifier::external_body]
pub(crate) fn local_offset_seconds(t: UnixTime) -> (r: Result<i32, String>)
    requires
        presentable_time(t@),
    ensures
        r matches Ok(s) ==> -93_599 <= s <= 93_599,
{
    let utc = time::OffsetDateTime::from_unix_timestamp_nanos(t.as_nanos()).map_err(|e| e.to_string())?;
    match time::UtcOffset::local_offset_at(utc) {
        Ok(offset) => Ok(offset.whole_seconds()),
        Err(error) => Err(error.to_string()),
    }
}

/// Formats a time, shifted by a UTC offset, with `time::OffsetDateTime::format`
/// and a format description read by `time::format_description::parse`; the
/// time comes from `time::OffsetDateTime::from_unix_timestamp_nanos` and the
/// offset from `time::UtcOffset::from_whole_seconds`.
///
/// Claimed: the result is `local_time_text` of the time, the offset and the
/// description.
#[verifier::external_body]
pub(crate) fn format_local(t: UnixTime, offset_seconds: i32, description: &str) -> (r: Result<String, String>)
    requires
        presentable_time(t@),
        -93_599 <= offset_seconds <= 93_599,
    ensures
        crate::serialization::text_result_view(r) == local_time_text(
            t@,
            offset_seconds as int,
            description@,
        ),
{
    let utc = time::OffsetDateTime::from_unix_timestamp_nanos(t.as_nanos()).map_err(|e| e.to_string())?;
    let offset = time::UtcOffset::from_whole_seconds(offset_seconds).map_err(|e| e.to_string())?;
    let items = time::format_description::parse(description).map_err(|e| e.to_string())?;
    utc.to_offset(offset).format(&items).map_err(|e| e.to_string())
}

/// Reads the system clock with `std::time::SystemTime::now`.
///
/// The time depends on the moment of the call; claimed only that the
/// nanoseconds are below a second and that the time lies within the range
/// of a clock counting whole seconds in a signed 64-bit integer, as the
/// platform's `SystemTime` does.
#[verifier::external_body]
pub(crate) fn system_now() -> (r: (bool, u64, u32))
    ensures
        r.2 < 1_000_000_000,
        in_clock_range(signed_nanos(r.0, r.1, r.2)),
{
    match std::time::SystemTime::now().duration_since(std::time::UNIX_EPOCH) {
        Ok(after) => (false, after.as_secs(), after.subsec_nanos()),
        Err(error) => (true, error.duration().as_secs(), error.duration().subsec_nanos()),
    }
}

/// Returns the current time, as the system clock reports it; it lies in
/// the clock's range.
pub fn current_time() -> (r: UnixTime)
    ensures
        in_clock_range(r@),
{
    let (before, seconds, nanoseconds) = system_now();
    let t = if before {
        UnixTime::before_epoch(seconds, nanoseconds)
    } else {
        UnixTime::after_epoch(seconds, nanoseconds)
    };
    t.unwrap()
}

/// The local day, counted from 1970-01-01, of a time at a UTC offset: the
/// whole seconds of the time shifted by the offset, in days of 86,400
/// seconds.
pub open spec fn local_day(nanos: int, offset_seconds: int) -> int {
    (nanos / nanos_per_second() + offset_seconds) / 86_400
}

/// The first day of the calendar, -9999-01-01, counted from 1970-01-01.
pub open spec fn first_calendar_day() -> int {
    -4_371_587
}

/// The last day of the calendar, 9999-12-31, counted from 1970-01-01.
pub open spec fn last_calendar_day() -> int {
    2_932_896
}

/// The day of the week, counted from Monday as zero, of the local date that
/// lies `days` after the local date of a time, at a UTC offset (1970-01-01
/// was a Thursday), or `None` where that date lies beyond the calendar.
pub open spec fn local_weekday(nanos: int, offset_seconds: int, days: int) -> Option<int> {
    let d = local_day(nanos, offset_seconds) + days;
    if first_calendar_day() <= d <= last_calendar_day() {
        Some((d + 3) % 7)
    } else {
        None
    }
}

/// The signed nanoseconds from the epoch of the local time `hour:minute:00`
/// on the local date `days` after that of a time, at a UTC offset, or `None`
/// where that date lies beyond the calendar.
pub open spec fn local_instant(
    nanos: int,
    offset_seconds: int,
    days: int,
    hour: int,
    minute: int,
) -> Option<int> {
    let d = local_day(nanos, offset_seconds) + days;
    if first_calendar_day() <= d <= last_calendar_day() {
        Some((d * 86_400 + hour * 3_600 + minute * 60 - offset_seconds) * nanos_per_second())
    } else {
        None
    }
}

/// The weekday, counted from Monday as zero, of the local date `days` after
/// the local date of a time: `time::Date::checked_add` on the date of
/// `time::OffsetDateTime::to_offset` (the time from
/// `OffsetDateTime::from_unix_timestamp_nanos`, the offset from
/// `UtcOffset::from_whole_seconds`), then `Date::weekday`.
///
/// Claimed: the result is `local_weekday` of the time, offset and days. The
/// time and the offset lie within what `time` accepts (a presentable time
/// keeps its local date inside the years -9999 to 9999 that `Date` holds),
/// so neither conversion fails; the local date is the Unix day of the
/// shifted seconds, `checked_add` gives no date beyond 9999-12-31 or before
/// -9999-01-01, and `Weekday::number_days_from_monday` counts from Monday.
#[verifier::external_body]
pub(crate) fn weekday_after(t: UnixTime, offset_seconds: i32, days: i64) -> (r: Option<u8>)
    requires
        presentable_time(t@),
        -93_599 <= offset_seconds <= 93_599,
        0 <= days < 8,
    ensures
        match r {
            Some(w) => w < 7 && local_weekday(t@, offset_seconds as int, days as int) == Some(w as int),
            None => local_weekday(t@, offset_seconds as int, days as int) is None,
        },
{
    let Ok(utc) = time::OffsetDateTime::from_unix_timestamp_nanos(t.as_nanos()) else { return None };
    let Ok(offset) = time::UtcOffset::from_whole_seconds(offset_seconds) else { return None };
    match utc.to_offset(offset).date().checked_add(time::Duration::days(days)) {
        Some(date) => Some(date.weekday().number_days_from_monday()),
        None => None,
    }
}

/// The instant of local time `hour:minute:00` on the local date `days` after
/// that of a time: `time::Date::checked_add`, then `Date::with_hms` and
/// `PrimitiveDateTime::assume_offset`, read back with
/// `OffsetDateTime::unix_timestamp_nanos`.
///
/// Claimed: the result is `local_instant` of the time, offset, days, hour
/// and minute: as for `weekday_after`, the conversions succeed and
/// `checked_add` gives no date outside -9999-01-01 to 9999-12-31; a valid
/// hour and minute make `with_hms` succeed; and the instant of a local
/// date-time is its seconds from the epoch less the offset. It lies within
/// the clock's range, as every date-time of those years does.
#[verifier::external_body]
pub(crate) fn instant_on(t: UnixTime, offset_seconds: i32, days: i64, hour: u8, minute: u8) -> (r: Option<
    i128,
>)
    requires
        presentable_time(t@),
        -93_599 <= offset_seconds <= 93_599,
        0 <= days < 8,
        hour < 24,
        minute < 60,
    ensures
        match r {
            Some(nanos) => in_clock_range(nanos as int) && local_instant(
                t@,
                offset_seconds as int,
                days as int,
                hour as int,
                minute as int,
            ) == Some(nanos as int),
            None => local_instant(
                t@,
                offset_seconds as int,
                days as int,
                hour as int,
                minute as int,
            ) is None,
        },
{
    let Ok(utc) = time::OffsetDateTime::from_unix_timestamp_nanos(t.as_nanos()) else { return None };
    let Ok(offset) = time::UtcOffset::from_whole_seconds(offset_seconds) else { return None };
    let date = utc.to_offset(offset).date().checked_add(time::Duration::days(days))?;
    let Ok(local) = date.with_hms(hour, minute, 0) else { return None };
    Some(local.assume_offset(offset).unix_timestamp_nanos())
}

} // verus!
