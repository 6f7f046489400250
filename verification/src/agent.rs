//! The machine-level coordinator: schedule settings, discovery, consent and
//! collection over approved connections, and the bookkeeping of one Update
//! Record run.

use crate::clock::{
    local_time_text, presentable_time, instant_on, local_instant, local_offset_seconds, local_weekday,
    weekday_after,
};
use crate::connector::{
    extension_error_text, ConnectorExtension, DiscoveredSourceCandidate,
    ExtensionError,
};
use crate::engine::Engine;
use crate::model::{ConnectorId, Event, EventId, EventView};
use crate::operations::{
    opt_time, ConfigurationView, ManualStatusView, ManualUpdateStatus, ScheduledReconciliationStatus,
    ScheduledStatusView, ConnectionId, ConnectionRecord, ConnectionStatus, ConnectionView, DiscoveredSource,
    DiscoveredSourceId, DiscoveryStatus, ReconciliationCounts, ReconciliationState,
    SourceRecordView, decisions_kept, lemma_decisions_kept_reflexive, lemma_decisions_kept_transitive,
    lemma_upsert_keeps_decisions, upsert_effect,
};
use crate::presenter::{date_format, record_date_for, RecordDate, RecordGenerationResult};
use crate::store::{Store, StoreView};
use crate::text::decimal_text;
use crate::operations::{
    GlobalMonitoringState, LocalReconciliationTime, ReconciliationConfiguration,
    ReconciliationSchedule,
};
use crate::scan::{pieces_between, parse_u8, parse_u8_text, split_at_char};
use crate::store::{store_error_text, StoreError};
use crate::text::{chars_of, push_str, str_eq};
use crate::model::{signed_nanos, UnixTime};
use vstd::prelude::*;

verus! {

/// Errors from the agent's operations.
#[derive(Debug)]
pub enum AgentError {
    Store(StoreError),
    Extension(ExtensionError),
    InvalidLocalTime,
    InvalidWeekdays,
    Schedule(String),
    NoRecordFolder,
    MonitoringPaused,
    Presenter(String),
}

/// The message that describes an agent error.
pub open spec fn agent_error_text(e: AgentError) -> Seq<char> {
    match e {
        AgentError::Store(error) => "agent storage error: "@ + store_error_text(error),
        AgentError::Extension(error) => "agent connector error: "@ + extension_error_text(error),
        AgentError::InvalidLocalTime => "invalid local reconciliation time"@,
        AgentError::InvalidWeekdays => "invalid selected weekdays"@,
        AgentError::Schedule(m) => "schedule error: "@ + m@,
        AgentError::NoRecordFolder => "no Record Folder configured"@,
        AgentError::MonitoringPaused => "global monitoring is paused"@,
        AgentError::Presenter(m) => "record generation failed: "@ + m@,
    }
}

impl AgentError {
    /// Describes the error for a person.
    pub fn message(&self) -> (r: String)
        ensures
            r@ == agent_error_text(*self),
    {
        let mut s = String::new();
        match self {
            AgentError::Store(error) => {
                push_str(&mut s, "agent storage error: ");
                let m = error.message();
                push_str(&mut s, m.as_str());
            },
            AgentError::Extension(error) => {
                push_str(&mut s, "agent connector error: ");
                let m = error.message();
                push_str(&mut s, m.as_str());
            },
            AgentError::InvalidLocalTime => {
                push_str(&mut s, "invalid local reconciliation time");
            },
            AgentError::InvalidWeekdays => {
                push_str(&mut s, "invalid selected weekdays");
            },
            AgentError::Schedule(m) => {
                push_str(&mut s, "schedule error: ");
                push_str(&mut s, m.as_str());
            },
            AgentError::NoRecordFolder => {
                push_str(&mut s, "no Record Folder configured");
            },
            AgentError::MonitoringPaused => {
                push_str(&mut s, "global monitoring is paused");
            },
            AgentError::Presenter(m) => {
                push_str(&mut s, "record generation failed: ");
                push_str(&mut s, m.as_str());
            },
        }
        s
    }
}

/// The text before the first occurrence of `c` and the text after it, if
/// `c` occurs.
pub open spec fn split_once_char(s: Seq<char>, c: char) -> Option<(Seq<char>, Seq<char>)> {
    let p = pieces_between(s, c);
    if p.len() < 2 {
        None
    } else {
        Some((p[0], s.skip(p[0].len() as int + 1)))
    }
}

/// The local time `HH:MM` reads as, if it names a time of day: the hour and
/// minute are `u8` numbers up to 23 and 59.
pub open spec fn local_time_from(value: Seq<char>) -> Option<LocalReconciliationTime> {
    match split_once_char(value, ':') {
        None => None,
        Some((h, m)) => match (parse_u8_text(h), parse_u8_text(m)) {
            (Some(hour), Some(minute)) => if hour > 23 || minute > 59 {
                None
            } else {
                Some(LocalReconciliationTime { hour, minute })
            },
            _ => None,
        },
    }
}

proof fn lemma_first_piece(s: Seq<char>, c: char)
    ensures
        pieces_between(s, c).len() >= 1,
        pieces_between(s, c)[0].len() <= s.len(),
        pieces_between(s, c).len() >= 2 ==> pieces_between(s, c)[0].len() < s.len() && s[pieces_between(
            s,
            c,
        )[0].len() as int] == c,
        pieces_between(s, c).len() == 1 ==> pieces_between(s, c)[0] == s,
        pieces_between(s, c)[0] == s.take(pieces_between(s, c)[0].len() as int),
    decreases s.len(),
{
    crate::scan::lemma_pieces_between_nonempty(s, c);
    if s.len() > 0 {
        lemma_first_piece(s.drop_last(), c);
        let d = s.drop_last();
        let pd = pieces_between(d, c);
        if pd.len() >= 2 {
            assert(s[pd[0].len() as int] == d[pd[0].len() as int]);
            assert(s.take(pd[0].len() as int) =~= d.take(pd[0].len() as int));
        } else {
            if s.last() == c {
                assert(pd[0] == d);
                assert(s[pd[0].len() as int] == c);
                assert(s.take(d.len() as int) =~= d);
            } else {
                assert(pieces_between(s, c)[0] == d.push(s.last()));
                assert(s =~= d.push(s.last()));
            }
        }
    } else {
        assert(pieces_between(s, c)[0] =~= s);
    }
}

/// Reads a local reconciliation time written `HH:MM`.
pub fn parse_local_time(value: &str) -> (r: Result<LocalReconciliationTime, AgentError>)
    ensures
        match local_time_from(value@) {
            Some(t) => r == Ok::<LocalReconciliationTime, AgentError>(t),
            None => r matches Err(AgentError::InvalidLocalTime),
        },
{
    let chars = chars_of(value);
    let pieces = split_at_char(&chars, ':');
    proof {
        lemma_first_piece(value@, ':');
    }
    if pieces.len() < 2 {
        return Err(AgentError::InvalidLocalTime);
    }
    let first_len = pieces[0].len();
    let total = chars.len();
    assert(first_len < total);
    let rest = crate::scan::slice_chars(&chars, first_len + 1, total);
    assert(rest@ =~= value@.skip(first_len + 1));
    let hour = match parse_u8(&pieces[0]) {
        Some(h) => h,
        None => return Err(AgentError::InvalidLocalTime),
    };
    let minute = match parse_u8(&rest) {
        Some(m) => m,
        None => return Err(AgentError::InvalidLocalTime),
    };
    if hour > 23 || minute > 59 {
        return Err(AgentError::InvalidLocalTime);
    }
    Ok(LocalReconciliationTime { hour, minute })
}

/// The bit of a day name, Monday as bit zero.
pub open spec fn day_bit(token: Seq<char>) -> Option<u8> {
    if token == "mon"@ {
        Some(0u8)
    } else if token == "tue"@ {
        Some(1u8)
    } else if token == "wed"@ {
        Some(2u8)
    } else if token == "thu"@ {
        Some(3u8)
    } else if token == "fri"@ {
        Some(4u8)
    } else if token == "sat"@ {
        Some(5u8)
    } else if token == "sun"@ {
        Some(6u8)
    } else {
        None
    }
}

/// The day mask that day names select, if every name is known.
pub open spec fn selected_mask(tokens: Seq<Seq<char>>) -> Option<u8>
    decreases tokens.len(),
{
    if tokens.len() == 0 {
        Some(0u8)
    } else {
        match (selected_mask(tokens.drop_last()), day_bit(tokens.last())) {
            (Some(mask), Some(bit)) => Some(mask | (1u8 << bit)),
            _ => None,
        }
    }
}

/// The schedule that text names: `daily`, `weekdays`, or comma-separated
/// day names (`mon` to `sun`) selecting at least one day.
pub open spec fn schedule_from(value: Seq<char>) -> Option<ReconciliationSchedule> {
    if value == "daily"@ {
        Some(ReconciliationSchedule::Daily)
    } else if value == "weekdays"@ {
        Some(ReconciliationSchedule::Weekdays)
    } else {
        match selected_mask(pieces_between(value, ',')) {
            Some(mask) => if mask == 0 {
                None
            } else {
                Some(ReconciliationSchedule::Selected(mask))
            },
            None => None,
        }
    }
}

/// Returns the bit of a day name.
fn day_bit_of(token: &Vec<char>) -> (r: Option<u8>)
    ensures
        r == day_bit(token@),
{
    let t = crate::scan::chars_to_string(token);
    if str_eq(t.as_str(), "mon") {
        Some(0)
    } else if str_eq(t.as_str(), "tue") {
        Some(1)
    } else if str_eq(t.as_str(), "wed") {
        Some(2)
    } else if str_eq(t.as_str(), "thu") {
        Some(3)
    } else if str_eq(t.as_str(), "fri") {
        Some(4)
    } else if str_eq(t.as_str(), "sat") {
        Some(5)
    } else if str_eq(t.as_str(), "sun") {
        Some(6)
    } else {
        None
    }
}

/// Reads a reconciliation schedule: `daily`, `weekdays`, or comma-separated
/// day names.
pub fn parse_schedule(value: &str) -> (r: Result<ReconciliationSchedule, AgentError>)
    ensures
        match schedule_from(value@) {
            Some(s) => r == Ok::<ReconciliationSchedule, AgentError>(s),
            None => r matches Err(AgentError::InvalidWeekdays),
        },
{
    if str_eq(value, "daily") {
        return Ok(ReconciliationSchedule::Daily);
    }
    if str_eq(value, "weekdays") {
        return Ok(ReconciliationSchedule::Weekdays);
    }
    let chars = chars_of(value);
    let tokens = split_at_char(&chars, ',');
    let ghost all = pieces_between(value@, ',');
    let mut mask: u8 = 0;
    let mut i: usize = 0;
    while i < tokens.len()
        invariant
            i <= tokens@.len(),
            tokens@.len() == all.len(),
            all == pieces_between(value@, ','),
            forall|k: int| 0 <= k < tokens@.len() ==> (#[trigger] tokens@[k])@ == all[k],
            selected_mask(all.take(i as int)) == Some(mask),
            value@ != "daily"@,
            value@ != "weekdays"@,
        decreases tokens.len() - i,
    {
        assert(all.take(i + 1).drop_last() =~= all.take(i as int));
        assert(all.take(i + 1).last() == tokens@[i as int]@);
        let bit = match day_bit_of(&tokens[i]) {
            Some(b) => b,
            None => {
                proof {
                    lemma_mask_failure_persists(all, i as int + 1);
                }
                return Err(AgentError::InvalidWeekdays);
            },
        };
        mask = mask | (1u8 << bit);
        i = i + 1;
    }
    assert(all.take(i as int) =~= all);
    if mask == 0 {
        Err(AgentError::InvalidWeekdays)
    } else {
        Ok(ReconciliationSchedule::Selected(mask))
    }
}

proof fn lemma_mask_failure_persists(t: Seq<Seq<char>>, k: int)
    requires
        0 <= k <= t.len(),
        selected_mask(t.take(k)) is None,
    ensures
        selected_mask(t) is None,
    decreases t.len() - k,
{
    if k < t.len() {
        assert(t.take(k + 1).drop_last() =~= t.take(k));
        lemma_mask_failure_persists(t, k + 1);
    } else {
        assert(t.take(k) =~= t);
    }
}

/// Whether a schedule runs on a weekday, counted from Monday as zero.
pub open spec fn eligible_on(schedule: ReconciliationSchedule, weekday: u8) -> bool {
    match schedule {
        ReconciliationSchedule::Daily => true,
        ReconciliationSchedule::Weekdays => weekday != 5 && weekday != 6,
        ReconciliationSchedule::Selected(mask) => mask & (1u8 << weekday) != 0,
    }
}

/// Whether a schedule runs on a weekday, counted from Monday as zero.
pub fn eligible(schedule: ReconciliationSchedule, weekday: u8) -> (r: bool)
    requires
        weekday < 7,
    ensures
        r == eligible_on(schedule, weekday),
{
    match schedule {
        ReconciliationSchedule::Daily => true,
        ReconciliationSchedule::Weekdays => weekday != 5 && weekday != 6,
        ReconciliationSchedule::Selected(mask) => mask & (1u8 << weekday) != 0,
    }
}

/// The message of a schedule whose local date lies beyond the calendar.
pub open spec fn date_overflow_message() -> Seq<char> {
    "date overflow"@
}

/// Returns the message of a schedule whose local date lies beyond the calendar.
fn date_overflow() -> (r: String)
    ensures
        r@ == date_overflow_message(),
{
    "date overflow".to_owned()
}

/// The next scheduled run at or after `now`, trying the local dates from
/// today on for a week, at a local UTC offset: the first eligible date whose
/// scheduled time is not before `now` (any later date qualifies), or none,
/// or the message of a calendar failure.
pub open spec fn next_run_from(
    now: int,
    offset: int,
    schedule: ReconciliationSchedule,
    hour: u8,
    minute: u8,
    days: int,
) -> Result<Option<int>, Seq<char>>
    decreases 8 - days,
{
    if days >= 8 || days < 0 {
        Ok(None)
    } else {
        match local_weekday(now, offset, days) {
            None => Err(date_overflow_message()),
            Some(weekday) => if !eligible_on(schedule, weekday as u8) {
                next_run_from(now, offset, schedule, hour, minute, days + 1)
            } else {
                match local_instant(now, offset, days, hour as int, minute as int) {
                    None => Err(date_overflow_message()),
                    Some(candidate) => if days > 0 || candidate >= now {
                        Ok(Some(candidate))
                    } else {
                        next_run_from(now, offset, schedule, hour, minute, days + 1)
                    },
                }
            },
        }
    }
}

/// The Weekdays schedule runs exactly Monday to Friday (weekdays 0 to 4,
/// counted from Monday), and the Daily schedule on every day of the week.
pub proof fn law_weekdays_schedule_is_monday_to_friday(weekday: u8)
    requires
        weekday < 7,
    ensures
        eligible_on(ReconciliationSchedule::Weekdays, weekday) <==> weekday < 5,
        eligible_on(ReconciliationSchedule::Daily, weekday),
{
}

/// A Selected schedule runs on exactly the weekdays whose bit its mask
/// holds: weekday `d` (counted from Monday) when the mask's binary digit of
/// weight 2 to the power `d` is one.
pub proof fn law_selected_schedule_follows_its_mask(mask: u8, weekday: u8)
    requires
        weekday < 7,
    ensures
        eligible_on(ReconciliationSchedule::Selected(mask), weekday) <==> (mask as int
            / vstd::arithmetic::power2::pow2(weekday as nat) as int) % 2 == 1,
{
    vstd::arithmetic::power2::lemma2_to64();
    if weekday == 0 {
        assert(mask & (1u8 << 0u8) != 0 <==> (mask / 1) % 2 == 1) by (bit_vector);
    } else if weekday == 1 {
        assert(mask & (1u8 << 1u8) != 0 <==> (mask / 2) % 2 == 1) by (bit_vector);
    } else if weekday == 2 {
        assert(mask & (1u8 << 2u8) != 0 <==> (mask / 4) % 2 == 1) by (bit_vector);
    } else if weekday == 3 {
        assert(mask & (1u8 << 3u8) != 0 <==> (mask / 8) % 2 == 1) by (bit_vector);
    } else if weekday == 4 {
        assert(mask & (1u8 << 4u8) != 0 <==> (mask / 16) % 2 == 1) by (bit_vector);
    } else if weekday == 5 {
        assert(mask & (1u8 << 5u8) != 0 <==> (mask / 32) % 2 == 1) by (bit_vector);
    } else {
        assert(mask & (1u8 << 6u8) != 0 <==> (mask / 64) % 2 == 1) by (bit_vector);
    }
}

/// Whether the search for a Weekdays run passes over the local date `j`
/// days after that of `now`: a Saturday or a Sunday, or today when the
/// scheduled time has already passed.
pub open spec fn weekday_search_passes(now: int, offset: int, hour: u8, minute: u8, j: int) -> bool {
    match local_weekday(now, offset, j) {
        None => false,
        Some(w) => w >= 5 || (j == 0 && match local_instant(now, offset, 0, hour as int, minute as int) {
            Some(x) => x < now,
            None => false,
        }),
    }
}

proof fn lemma_weekdays_search(now: int, offset: int, hour: u8, minute: u8, d: int, t: int)
    requires
        0 <= d,
        next_run_from(now, offset, ReconciliationSchedule::Weekdays, hour, minute, d) == Ok::<
            Option<int>,
            Seq<char>,
        >(Some(t)),
    ensures
        exists|k: int|
            d <= k < 8 && #[trigger] local_instant(now, offset, k, hour as int, minute as int) == Some(
                t,
            ) && (local_weekday(now, offset, k) matches Some(w) && w < 5) && (k > 0 || t >= now)
                && forall|j: int| d <= j < k ==> weekday_search_passes(now, offset, hour, minute, j),
    decreases 8 - d,
{
    let w = local_weekday(now, offset, d)->Some_0;
    assert(0 <= w < 7);
    if !eligible_on(ReconciliationSchedule::Weekdays, w as u8) {
        assert(w >= 5);
        lemma_weekdays_search(now, offset, hour, minute, d + 1, t);
        let k = choose|k: int|
            d + 1 <= k < 8 && #[trigger] local_instant(now, offset, k, hour as int, minute as int)
                == Some(t) && (local_weekday(now, offset, k) matches Some(w) && w < 5) && (k > 0
                || t >= now) && forall|j: int|
                d + 1 <= j < k ==> weekday_search_passes(now, offset, hour, minute, j);
        assert forall|j: int| d <= j < k implies weekday_search_passes(now, offset, hour, minute, j) by {
        }
        assert(local_instant(now, offset, k, hour as int, minute as int) == Some(t));
    } else {
        assert(w < 5);
        let c = local_instant(now, offset, d, hour as int, minute as int)->Some_0;
        if d > 0 || c >= now {
            assert(local_instant(now, offset, d, hour as int, minute as int) == Some(t));
        } else {
            lemma_weekdays_search(now, offset, hour, minute, d + 1, t);
            let k = choose|k: int|
                d + 1 <= k < 8 && #[trigger] local_instant(now, offset, k, hour as int, minute as int)
                    == Some(t) && (local_weekday(now, offset, k) matches Some(w) && w < 5) && (k > 0
                    || t >= now) && forall|j: int|
                    d + 1 <= j < k ==> weekday_search_passes(now, offset, hour, minute, j);
            assert forall|j: int| d <= j < k implies weekday_search_passes(now, offset, hour, minute, j) by {
            }
            assert(local_instant(now, offset, k, hour as int, minute as int) == Some(t));
        }
    }
}

/// A Weekdays schedule runs Monday to Friday and skips no such day: its
/// next run is at the scheduled time on a local Monday to Friday (today only
/// when that time has not passed), and every local date before it in the
/// search is a Saturday or a Sunday, or today with the time already passed.
pub proof fn law_weekdays_run_monday_to_friday(now: int, offset: int, hour: u8, minute: u8, t: int)
    requires
        next_run_from(now, offset, ReconciliationSchedule::Weekdays, hour, minute, 0) == Ok::<
            Option<int>,
            Seq<char>,
        >(Some(t)),
    ensures
        exists|k: int|
            0 <= k < 8 && #[trigger] local_instant(now, offset, k, hour as int, minute as int) == Some(
                t,
            ) && (local_weekday(now, offset, k) matches Some(w) && w < 5) && (k > 0 || t >= now)
                && forall|j: int| 0 <= j < k ==> weekday_search_passes(now, offset, hour, minute, j),
{
    lemma_weekdays_search(now, offset, hour, minute, 0, t);
}

/// Whether `r` reports the outcome of scheduling at some local offset.
pub open spec fn scheduled_at(
    r: Result<Option<UnixTime>, AgentError>,
    now: int,
    configuration: crate::operations::ConfigurationView,
) -> bool {
    exists|offset: int|
        -93_599 <= offset <= 93_599 && #[trigger] next_run_from(
            now,
            offset,
            configuration.schedule,
            configuration.time.hour,
            configuration.time.minute,
            0,
        ) == match r {
            Ok(Some(t)) => Ok::<Option<int>, Seq<char>>(Some(t@)),
            Ok(None) => Ok::<Option<int>, Seq<char>>(None),
            Err(AgentError::Schedule(m)) => Err::<Option<int>, Seq<char>>(m@),
            Err(_) => Err::<Option<int>, Seq<char>>(Seq::empty()),
        }
}

/// Calculates the next eligible run at or after `now` at a given local UTC
/// offset: the first of the local dates from today on, for a week, that the
/// schedule selects and whose scheduled time is not before `now` (any later
/// date qualifies), or none; or the message of a calendar failure.
pub fn next_run_at(configuration: &ReconciliationConfiguration, now: UnixTime, offset: i32) -> (r: Result<
    Option<UnixTime>,
    AgentError,
>)
    requires
        presentable_time(now@),
        -93_599 <= offset <= 93_599,
        configuration.time.hour <= 23,
        configuration.time.minute <= 59,
    ensures
        match r {
            Ok(n) => next_run_from(
                now@,
                offset as int,
                configuration.schedule,
                configuration.time.hour,
                configuration.time.minute,
                0,
            ) == Ok::<Option<int>, Seq<char>>(crate::operations::opt_time(n)),
            Err(AgentError::Schedule(m)) => next_run_from(
                now@,
                offset as int,
                configuration.schedule,
                configuration.time.hour,
                configuration.time.minute,
                0,
            ) == Err::<Option<int>, Seq<char>>(m@),
            Err(_) => false,
        },
{
    let schedule = configuration.schedule;
    let hour = configuration.time.hour;
    let minute = configuration.time.minute;
    let mut days: i64 = 0;
    while days < 8
        invariant
            0 <= days <= 8,
            presentable_time(now@),
            -93_599 <= offset <= 93_599,
            hour < 24,
            minute < 60,
            next_run_from(now@, offset as int, schedule, hour, minute, 0) == next_run_from(
                now@,
                offset as int,
                schedule,
                hour,
                minute,
                days as int,
            ),
            schedule == configuration.schedule,
            hour == configuration.time.hour,
            minute == configuration.time.minute,
        decreases 8 - days,
    {
        let weekday = match weekday_after(now, offset, days) {
            Some(w) => w,
            None => {
                let r = Err(AgentError::Schedule(date_overflow()));
                proof {
                    assert(next_run_from(now@, offset as int, schedule, hour, minute, 0) == Err::<
                        Option<int>,
                        Seq<char>,
                    >(date_overflow_message()));
                }
                return r;
            },
        };
        if eligible(schedule, weekday) {
            let nanos: i128 = match instant_on(now, offset, days, hour, minute) {
                Some(v) => v,
                None => {
                    let r = Err(AgentError::Schedule(date_overflow()));
                    proof {
                        assert(next_run_from(now@, offset as int, schedule, hour, minute, 0) == Err::<
                            Option<int>,
                            Seq<char>,
                        >(date_overflow_message()));
                    }
                    return r;
                },
            };
            let candidate = UnixTime::from_nanos(nanos);
            let c = candidate.unwrap();
            if days > 0 || !c.is_earlier_than(&now) {
                let r = Ok(Some(c));
                proof {
                    assert(next_run_from(now@, offset as int, schedule, hour, minute, 0) == Ok::<
                        Option<int>,
                        Seq<char>,
                    >(Some(c@)));
                }
                return r;
            }
        }
        days = days + 1;
    }
    let r = Ok(None);
    proof {
        assert(next_run_from(now@, offset as int, schedule, hour, minute, 0) == Ok::<
            Option<int>,
            Seq<char>,
        >(None));
    }
    r
}

/// Calculates the next local eligible schedule occurrence at or after `now`.
/// Paused monitoring has none; an hour above 23 or a minute above 59 is an
/// invalid local time. Otherwise it is what [`next_run_at`] gives at the
/// system's local offset, or a schedule error when that offset cannot be
/// found.
pub fn next_eligible_run(configuration: &ReconciliationConfiguration, now: UnixTime) -> (r: Result<
    Option<UnixTime>,
    AgentError,
>)
    requires
        presentable_time(now@),
    ensures
        configuration.monitoring == GlobalMonitoringState::Paused ==> r matches Ok(None),
        configuration.monitoring != GlobalMonitoringState::Paused && (configuration.time.hour > 23
            || configuration.time.minute > 59) ==> r matches Err(AgentError::InvalidLocalTime),
        configuration.monitoring != GlobalMonitoringState::Paused && configuration.time.hour <= 23
            && configuration.time.minute <= 59 ==> (r matches Err(AgentError::Schedule(_))
            || r is Ok),
        r is Ok && configuration.monitoring != GlobalMonitoringState::Paused ==> scheduled_at(
            r,
            now@,
            configuration@,
        ),
{
    if configuration.monitoring == GlobalMonitoringState::Paused {
        return Ok(None);
    }
    if configuration.time.hour > 23 || configuration.time.minute > 59 {
        return Err(AgentError::InvalidLocalTime);
    }
    let offset = match local_offset_seconds(now) {
        Ok(o) => o,
        Err(m) => return Err(AgentError::Schedule(m)),
    };
    let r = next_run_at(configuration, now, offset);
    proof {
        if r is Ok {
            assert(scheduled_at(r, now@, configuration@)) by {
                assert(next_run_from(
                    now@,
                    offset as int,
                    configuration.schedule,
                    configuration.time.hour,
                    configuration.time.minute,
                    0,
                ) == Ok::<Option<int>, Seq<char>>(crate::operations::opt_time(r->Ok_0)));
            }
        }
    }
    r
}

/// The discovered source that a candidate becomes when seen at `now`: its
/// identifier joins the connector and the source identity, and it awaits a
/// consent decision.
pub open spec fn source_for(c: crate::connector::CandidateView, now: int) -> SourceRecordView {
    SourceRecordView {
        id: "source:"@ + c.connector_id + ":"@ + c.source_identity,
        connector_id: c.connector_id,
        source_identity: c.source_identity,
        display_name: c.display_name,
        local_reference: c.local_reference,
        first_discovered: now,
        last_seen: now,
        status: DiscoveryStatus::AwaitingDecision,
        metadata: c.metadata,
        configuration: c.configuration,
    }
}

/// Returns the discovered source that a candidate becomes when seen at `now`.
pub fn to_source(c: &DiscoveredSourceCandidate, now: UnixTime) -> (r: DiscoveredSource)
    ensures
        r@ == source_for(c@, now@),
{
    let mut id = String::new();
    push_str(&mut id, "source:");
    push_str(&mut id, c.connector_id().as_str());
    push_str(&mut id, ":");
    push_str(&mut id, c.source_identity());
    let local_reference = match c.local_reference() {
        Some(v) => Some(v.to_owned()),
        None => None,
    };
    DiscoveredSource {
        id: DiscoveredSourceId::from_string(id),
        connector_id: c.connector_id().duplicate(),
        source_identity: c.source_identity().to_owned(),
        display_name: c.display_name().to_owned(),
        local_reference,
        first_discovered: now,
        last_seen: now,
        status: DiscoveryStatus::AwaitingDecision,
        metadata: c.metadata().duplicate(),
        configuration: c.configuration().to_owned(),
    }
}

/// The sources that candidates become when seen at `now`, in order.
pub open spec fn sources_seen(candidates: Seq<DiscoveredSourceCandidate>, now: int) -> Seq<
    SourceRecordView,
> {
    Seq::new(candidates.len(), |i: int| source_for(candidates[i]@, now))
}

/// Whether recording the sources `seen` one after another takes the known
/// sources from `before` to `after`, each being refreshed or added as
/// `upsert_effect` says.
pub open spec fn recorded_in_order(
    before: Seq<SourceRecordView>,
    after: Seq<SourceRecordView>,
    seen: Seq<SourceRecordView>,
) -> bool
    decreases seen.len(),
{
    if seen.len() == 0 {
        after == before
    } else {
        exists|mid: Seq<SourceRecordView>, stored: SourceRecordView|
            #[trigger] upsert_effect(mid, after, seen.last(), Some(stored)) && recorded_in_order(
                before,
                mid,
                seen.drop_last(),
            )
    }
}

/// Records discovered candidates, seen at `now`, one after another as
/// sources awaiting a consent decision (a known source is refreshed and
/// keeps its decision). Returns how many were recorded: all of them, unless
/// the store refuses one, whose error is then returned, the candidates
/// before it having been recorded. Nothing else in the store changes.
pub fn record_candidates(store: &mut Store, candidates: &Vec<DiscoveredSourceCandidate>, now: UnixTime) -> (r:
    Result<usize, StoreError>)
    ensures
        final(store)@.history == old(store)@.history,
        final(store)@.operations.connections == old(store)@.operations.connections,
        final(store)@.configuration == old(store)@.configuration,
        final(store)@.manual_update == old(store)@.manual_update,
        final(store)@.scheduled_reconciliation == old(store)@.scheduled_reconciliation,
        decisions_kept(old(store)@.operations.sources, final(store)@.operations.sources),
        r matches Ok(n) ==> n == candidates@.len() && recorded_in_order(
            old(store)@.operations.sources,
            final(store)@.operations.sources,
            sources_seen(candidates@, now@),
        ),
        r matches Err(e) ==> e is Database && exists|k: int|
            0 <= k < candidates@.len() && recorded_in_order(
                old(store)@.operations.sources,
                final(store)@.operations.sources,
                #[trigger] sources_seen(candidates@, now@).take(k),
            ) && upsert_effect(
                final(store)@.operations.sources,
                final(store)@.operations.sources,
                sources_seen(candidates@, now@)[k],
                None,
            ),
{
    let ghost seen = sources_seen(candidates@, now@);
    let ghost start = store@.operations.sources;
    proof {
        lemma_decisions_kept_reflexive(start);
        assert(seen.take(0) =~= Seq::<SourceRecordView>::empty());
    }
    let mut i: usize = 0;
    while i < candidates.len()
        invariant
            i <= candidates@.len(),
            seen == sources_seen(candidates@, now@),
            start == old(store)@.operations.sources,
            store@.history == old(store)@.history,
            store@.operations.connections == old(store)@.operations.connections,
            store@.configuration == old(store)@.configuration,
            store@.manual_update == old(store)@.manual_update,
            store@.scheduled_reconciliation == old(store)@.scheduled_reconciliation,
            decisions_kept(start, store@.operations.sources),
            recorded_in_order(start, store@.operations.sources, seen.take(i as int)),
        decreases candidates.len() - i,
    {
        let source = to_source(&candidates[i], now);
        let ghost before = store@.operations.sources;
        let outcome = store.upsert_discovered_source(&source);
        proof {
            assert(source@ == seen[i as int]);
            match &outcome {
                Ok(stored) => lemma_upsert_keeps_decisions(
                    before,
                    store@.operations.sources,
                    source@,
                    Some(stored@),
                ),
                Err(_) => lemma_upsert_keeps_decisions(before, store@.operations.sources, source@, None),
            }
            lemma_decisions_kept_transitive(start, before, store@.operations.sources);
        }
        match outcome {
            Ok(stored) => {
                proof {
                    let next = seen.take(i + 1);
                    assert(next.drop_last() =~= seen.take(i as int));
                    assert(next.last() == seen[i as int]);
                    assert(upsert_effect(before, store@.operations.sources, next.last(), Some(stored@)));
                }
            },
            Err(e) => {
                proof {
                    assert(store@.operations.sources == before);
                    assert(recorded_in_order(
                        start,
                        store@.operations.sources,
                        sources_seen(candidates@, now@).take(i as int),
                    ));
                }
                return Err(e);
            },
        }
        i = i + 1;
    }
    proof {
        assert(seen.take(candidates@.len() as int) =~= seen);
    }
    Ok(candidates.len())
}

/// The nanoseconds from the epoch to a time, or zero before the epoch.
pub open spec fn suffix_value(now: int) -> nat {
    if now < 0 {
        0
    } else {
        now as nat
    }
}

/// Whether `after` is `before` with the connection `c` inserted somewhere.
pub open spec fn connection_added(before: Seq<ConnectionView>, after: Seq<ConnectionView>, c: ConnectionView) -> bool {
    exists|p: int| 0 <= p <= before.len() && after == before.insert(p, c)
}

/// The identifier of a connection approved at `now` for a source.
pub open spec fn connection_id_for(source: Seq<char>, now: int) -> Seq<char> {
    "connection:"@ + source + ":"@ + decimal_text(suffix_value(now))
}

/// Returns the identifier of a connection approved at `now` for a source.
pub fn connection_id_for_source(source: &DiscoveredSourceId, now: UnixTime) -> (r: ConnectionId)
    ensures
        r@ == connection_id_for(source@, now@),
{
    let mut id = String::new();
    push_str(&mut id, "connection:");
    push_str(&mut id, source.as_str());
    push_str(&mut id, ":");
    let suffix: u128 = if now.is_before_epoch() {
        0
    } else {
        let seconds = now.whole_seconds() as u128;
        let sub = now.subsecond_nanos() as u128;
        assert(seconds * 1_000_000_000 + sub == now@) by (nonlinear_arith)
            requires
                seconds == now@ / 1_000_000_000,
                sub == now@ % 1_000_000_000,
                now@ >= 0,
        ;
        seconds * 1_000_000_000 + sub
    };
    crate::text::push_decimal_u128(&mut id, suffix);
    ConnectionId::from_string(id)
}

/// Counts of one collection cycle over the approved connections.
#[derive(Clone, Copy, Debug, Default, Eq, PartialEq)]
pub struct CollectionCycleReport {
    pub imported: usize,
    pub failed: usize,
    pub skipped: usize,
}

/// Counts of one Update Record run.
#[derive(Clone, Copy, Debug, Default, Eq, PartialEq)]
pub struct UpdateRecordResult {
    pub imported: usize,
    pub failed: usize,
    pub dates_generated: usize,
    pub files_created: usize,
    pub files_updated: usize,
    pub files_unchanged: usize,
}

/// The number of connections that are not enabled.
pub open spec fn not_enabled_count(connections: Seq<ConnectionView>) -> nat
    decreases connections.len(),
{
    if connections.len() == 0 {
        0
    } else {
        not_enabled_count(connections.drop_last()) + if connections.last().status
            != ConnectionStatus::Enabled {
            1nat
        } else {
            0nat
        }
    }
}

/// Whether every event of `before` is still among those of `after`.
pub open spec fn events_kept(before: Seq<EventView>, after: Seq<EventView>) -> bool {
    forall|e: EventView| #[trigger] before.contains(e) ==> after.contains(e)
}

/// Whether `after` is `before` with, at most, the outcome of its last
/// collection attempt changed.
pub open spec fn attempt_recorded(before: ConnectionView, after: ConnectionView) -> bool {
    after == ConnectionView {
        last_attempt: after.last_attempt,
        last_success: after.last_success,
        last_error: after.last_error,
        ..before
    }
}

/// Whether the connections `after` are those of `before`, each with at most
/// its last attempt recorded, and those not enabled left as they were.
pub open spec fn connections_attempted(before: Seq<ConnectionView>, after: Seq<ConnectionView>) -> bool {
    &&& after.len() == before.len()
    &&& forall|i: int| 0 <= i < before.len() ==> attempt_recorded(before[i], #[trigger] after[i])
    &&& forall|i: int|
        0 <= i < before.len() && before[i].status != ConnectionStatus::Enabled ==> #[trigger] after[i]
            == before[i]
}

/// Whether a collection cycle changed the store from `before` to `after`
/// only by adding events and recording collection attempts.
pub open spec fn collected(before: StoreView, after: StoreView) -> bool {
    &&& events_kept(before.history.events, after.history.events)
    &&& after.history.events.len() >= before.history.events.len()
    &&& after.history.annotations == before.history.annotations
    &&& after.operations.sources == before.operations.sources
    &&& connections_attempted(before.operations.connections, after.operations.connections)
    &&& after.configuration == before.configuration
    &&& after.manual_update == before.manual_update
    &&& after.scheduled_reconciliation == before.scheduled_reconciliation
}

/// A connection after one collection attempt at `t`: it succeeded when
/// `error` is none, and otherwise failed with that message.
pub open spec fn attempt_made(before: ConnectionView, t: int, error: Option<Seq<char>>) -> ConnectionView {
    ConnectionView {
        last_attempt: Some(t),
        last_success: if error is None {
            Some(t)
        } else {
            before.last_success
        },
        last_error: error,
        ..before
    }
}

/// The message recorded for a connection whose connector has no extension.
pub open spec fn unsupported_message() -> Seq<char> {
    "unsupported connector"@
}

/// Whether `after` is `before` with one collection attempt recorded, and,
/// when no extension is held for its connector (`ids` are those held), one
/// that failed as unsupported.
pub open spec fn attempt_logged(before: ConnectionView, after: ConnectionView, ids: Seq<Seq<char>>) -> bool {
    exists|t: int, error: Option<Seq<char>>|
        #[trigger] attempt_made(before, t, error) == after && (!ids.contains(before.connector_id)
            ==> error == Some(unsupported_message()))
}

/// Whether an attempt's recorded error follows from opening a connection
/// with `configuration` through an extension: some outcome the extension
/// can give was reached; a refusal is recorded with its message, and after
/// an opened connection either nothing (success) or the message of an
/// error that the connector reported during collection.
pub open spec fn attempt_opened<E: ConnectorExtension>(
    extension: E,
    configuration: Seq<char>,
    error: Option<Seq<char>>,
) -> bool {
    exists|outcome: Result<E::Connection, ExtensionError>|
        #[trigger] extension.opens(configuration, outcome) && match outcome {
            Err(e) => error == Some(crate::connector::extension_error_text(e)),
            Ok(_) => match error {
                None => true,
                Some(m) => exists|ce: crate::connector::ConnectorError|
                    m == #[trigger] crate::engine::engine_error_text(crate::engine::EngineError::Connector(ce)),
            },
        }
}

/// Whether the attempt recorded for `after`, a connection whose connector
/// has an extension among `held` (keyed by `ids`), came from that
/// extension, when it follows its laws.
pub open spec fn attempt_traced<E: ConnectorExtension>(
    before: ConnectionView,
    after: ConnectionView,
    ids: Seq<Seq<char>>,
    held: Seq<E>,
) -> bool {
    ids.contains(before.connector_id) ==> exists|k: int|
        0 <= k < ids.len() && k < held.len() && ids[k] == before.connector_id && (
        #[trigger] held[k].obeys_extension_laws() ==> attempt_opened(
            held[k],
            before.configuration,
            after.last_error,
        ))
}

proof fn lemma_traced_by_error<E: ConnectorExtension>(
    before: ConnectionView,
    first: ConnectionView,
    second: ConnectionView,
    ids: Seq<Seq<char>>,
    held: Seq<E>,
)
    requires
        attempt_traced(before, first, ids, held),
        first.last_error == second.last_error,
    ensures
        attempt_traced(before, second, ids, held),
{
    if ids.contains(before.connector_id) {
        let k = choose|k: int|
            0 <= k < ids.len() && k < held.len() && ids[k] == before.connector_id && (
            #[trigger] held[k].obeys_extension_laws() ==> attempt_opened(
                held[k],
                before.configuration,
                first.last_error,
            ));
        assert(held[k].obeys_extension_laws() ==> attempt_opened(
            held[k],
            before.configuration,
            second.last_error,
        ));
    }
}

/// The view of an optional message.
pub open spec fn opt_text(m: Option<String>) -> Option<Seq<char>> {
    match m {
        Some(t) => Some(t@),
        None => None,
    }
}

/// The number among the first `n` connections of those enabled whose
/// attempt failed.
pub open spec fn failed_among(before: Seq<ConnectionView>, after: Seq<ConnectionView>, n: int) -> nat
    decreases n,
{
    if n <= 0 {
        0
    } else {
        failed_among(before, after, n - 1) + if before[n - 1].status == ConnectionStatus::Enabled
            && after[n - 1].last_error is Some {
            1nat
        } else {
            0nat
        }
    }
}

/// The number among the first `n` connections of those enabled whose
/// attempt succeeded.
pub open spec fn succeeded_among(before: Seq<ConnectionView>, after: Seq<ConnectionView>, n: int) -> nat
    decreases n,
{
    if n <= 0 {
        0
    } else {
        succeeded_among(before, after, n - 1) + if before[n - 1].status == ConnectionStatus::Enabled
            && after[n - 1].last_error is None {
            1nat
        } else {
            0nat
        }
    }
}

/// The events appended by the successful attempts among the first `n`
/// connections, `added[i]` being what the attempt on connection `i` appended.
pub open spec fn imported_among(
    before: Seq<ConnectionView>,
    after: Seq<ConnectionView>,
    added: Seq<nat>,
    n: int,
) -> nat
    decreases n,
{
    if n <= 0 {
        0
    } else {
        imported_among(before, after, added, n - 1) + if before[n - 1].status
            == ConnectionStatus::Enabled && after[n - 1].last_error is None {
            added[n - 1]
        } else {
            0nat
        }
    }
}

/// The sum of counts.
pub open spec fn total(added: Seq<nat>) -> nat
    decreases added.len(),
{
    if added.len() == 0 {
        0
    } else {
        total(added.drop_last()) + added.last()
    }
}

/// Whether `added` gives, for each connection, the events its attempt
/// appended: none for a connection that is not enabled; together all the
/// events that `after` has beyond `before`; `imported` of them by
/// successful attempts.
pub open spec fn appended_by(
    added: Seq<nat>,
    before: StoreView,
    after: StoreView,
    imported: nat,
) -> bool {
    let b = before.operations.connections;
    let a = after.operations.connections;
    &&& added.len() == b.len()
    &&& after.history.events.len() == before.history.events.len() + total(added)
    &&& imported == imported_among(b, a, added, b.len() as int)
    &&& forall|i: int| 0 <= i < b.len() && b[i].status != ConnectionStatus::Enabled ==> added[i] == 0
}

/// What one collection cycle did, with extensions held for `ids`: it only
/// added events and recorded attempts; every enabled connection got one
/// attempt recorded, failed as unsupported where no extension is held;
/// `failed` counts the failed attempts and `imported` the events that the
/// successful ones appended; and with no enabled connection the history
/// stayed as it was.
pub open spec fn cycle_outcome(
    before: StoreView,
    after: StoreView,
    ids: Seq<Seq<char>>,
    imported: nat,
    failed: nat,
) -> bool {
    let b = before.operations.connections;
    let a = after.operations.connections;
    &&& collected(before, after)
    &&& forall|i: int|
        0 <= i < b.len() && b[i].status == ConnectionStatus::Enabled ==> attempt_logged(
            b[i],
            #[trigger] a[i],
            ids,
        )
    &&& failed == failed_among(b, a, b.len() as int)
    &&& not_enabled_count(b) + failed + succeeded_among(b, a, b.len() as int) == b.len()
    &&& exists|added: Seq<nat>| #[trigger] appended_by(added, before, after, imported)
    &&& not_enabled_count(b) == b.len() ==> after.history == before.history
}

proof fn lemma_counts_prefix(
    b: Seq<ConnectionView>,
    a1: Seq<ConnectionView>,
    a2: Seq<ConnectionView>,
    added1: Seq<nat>,
    added2: Seq<nat>,
    n: int,
)
    requires
        0 <= n,
        forall|j: int| 0 <= j < n ==> a1[j] == a2[j] && added1[j] == added2[j],
    ensures
        failed_among(b, a1, n) == failed_among(b, a2, n),
        succeeded_among(b, a1, n) == succeeded_among(b, a2, n),
        imported_among(b, a1, added1, n) == imported_among(b, a2, added2, n),
    decreases n,
{
    if n > 0 {
        lemma_counts_prefix(b, a1, a2, added1, added2, n - 1);
    }
}

proof fn lemma_total_push(added: Seq<nat>, x: nat)
    ensures
        total(added.push(x)) == total(added) + x,
{
    assert(added.push(x).drop_last() =~= added);
}

proof fn lemma_counts_cover(b: Seq<ConnectionView>, a: Seq<ConnectionView>, n: int)
    requires
        0 <= n <= b.len(),
    ensures
        not_enabled_count(b.take(n)) + failed_among(b, a, n) + succeeded_among(b, a, n) == n,
    decreases n,
{
    if n > 0 {
        assert(b.take(n).drop_last() =~= b.take(n - 1));
        lemma_counts_cover(b, a, n - 1);
    }
}

/// The identifiers of events.
pub open spec fn event_ids(events: Seq<EventView>) -> Seq<Seq<char>> {
    events.map_values(|e: EventView| e.id)
}

/// The events whose identifiers are not among `known`, in their order.
pub open spec fn unknown_events(events: Seq<EventView>, known: Seq<Seq<char>>) -> Seq<EventView>
    decreases events.len(),
{
    if events.len() == 0 {
        Seq::empty()
    } else {
        let rest = unknown_events(events.drop_last(), known);
        if known.contains(events.last().id) {
            rest
        } else {
            rest.push(events.last())
        }
    }
}

/// The configuration saved when an Update Record run starts at `now`.
pub open spec fn started_configuration(c: ConfigurationView, now: int) -> ConfigurationView {
    ConfigurationView {
        last_attempt: Some(now),
        state: ReconciliationState::Running,
        last_error: None,
        ..c
    }
}

/// The configuration saved when an Update Record run fails with `message`.
pub open spec fn failed_configuration(c: ConfigurationView, message: Seq<char>) -> ConfigurationView {
    ConfigurationView { state: ReconciliationState::Failed, last_error: Some(message), ..c }
}

/// The counts saved when an Update Record run succeeds.
pub open spec fn run_counts(result: UpdateRecordResult) -> ReconciliationCounts {
    ReconciliationCounts {
        imported: result.imported as u64,
        duplicates: 0,
        rejected: 0,
        failed: result.failed as u64,
    }
}

/// The configuration saved when an Update Record run succeeds at `now`.
pub open spec fn finished_configuration(
    c: ConfigurationView,
    now: int,
    result: UpdateRecordResult,
) -> ConfigurationView {
    ConfigurationView {
        last_success: Some(now),
        state: ReconciliationState::Succeeded,
        counts: run_counts(result),
        ..c
    }
}

/// Whether two configurations hold the same settings: monitoring state,
/// Record Folder, schedule, time of day and next run.
pub open spec fn settings_kept(before: ConfigurationView, after: ConfigurationView) -> bool {
    &&& after.monitoring == before.monitoring
    &&& after.record_folder == before.record_folder
    &&& after.schedule == before.schedule
    &&& after.time == before.time
    &&& after.next_run == before.next_run
}

/// An Update Record run, however it ends, leaves the monitoring state and
/// every other setting as it found them.
pub proof fn law_update_record_keeps_settings(
    c: ConfigurationView,
    started: int,
    finished: int,
    message: Seq<char>,
    result: UpdateRecordResult,
)
    ensures
        settings_kept(c, started_configuration(c, started)),
        settings_kept(c, failed_configuration(started_configuration(c, started), message)),
        settings_kept(
            c,
            finished_configuration(started_configuration(c, started), finished, result),
        ),
{
}

/// The manual status saved when a manual run starts at `now`.
pub open spec fn started_manual(m: ManualStatusView, now: int) -> ManualStatusView {
    ManualStatusView {
        last_attempt: Some(now),
        state: ReconciliationState::Running,
        last_error: None,
        ..m
    }
}

/// The manual status saved when a manual run fails with `message`.
pub open spec fn failed_manual(m: ManualStatusView, message: Seq<char>) -> ManualStatusView {
    ManualStatusView { state: ReconciliationState::Failed, last_error: Some(message), ..m }
}

/// The manual status saved when a manual run succeeds at `now`.
pub open spec fn finished_manual(m: ManualStatusView, now: int, result: UpdateRecordResult) -> ManualStatusView {
    ManualStatusView {
        last_success: Some(now),
        state: ReconciliationState::Succeeded,
        counts: run_counts(result),
        ..m
    }
}

/// The scheduled status saved when a scheduled run starts at `now`.
pub open spec fn started_scheduled(s: ScheduledStatusView, now: int) -> ScheduledStatusView {
    ScheduledStatusView {
        last_attempt: Some(now),
        state: ReconciliationState::Running,
        last_error: None,
        ..s
    }
}

/// The scheduled status saved when a scheduled run fails with `message`.
pub open spec fn failed_scheduled(s: ScheduledStatusView, message: Seq<char>) -> ScheduledStatusView {
    ScheduledStatusView { state: ReconciliationState::Failed, last_error: Some(message), ..s }
}

/// The scheduled status saved when a scheduled run for the local date
/// `date` succeeds at `now`.
pub open spec fn finished_scheduled(
    s: ScheduledStatusView,
    now: int,
    result: UpdateRecordResult,
    date: Seq<char>,
) -> ScheduledStatusView {
    ScheduledStatusView {
        last_success: Some(now),
        state: ReconciliationState::Succeeded,
        counts: run_counts(result),
        last_reconciled_local_date: Some(date),
        ..s
    }
}

/// A scheduled run that succeeds reconciles its own local date and counts
/// as a success whatever it found, a run that imported nothing included;
/// its attempt time stays the one saved when it started.
pub proof fn law_scheduled_run_reconciles_its_date(
    s: ScheduledStatusView,
    started: int,
    finished: int,
    result: UpdateRecordResult,
    date: Seq<char>,
)
    ensures
        finished_scheduled(started_scheduled(s, started), finished, result, date).last_reconciled_local_date
            == Some(date),
        finished_scheduled(started_scheduled(s, started), finished, result, date).state
            == ReconciliationState::Succeeded,
        finished_scheduled(started_scheduled(s, started), finished, no_counts(), date).counts.imported
            == 0,
        finished_scheduled(started_scheduled(s, started), finished, result, date).last_attempt
            == Some(started),
{
}

/// What started an Update Record run.
#[derive(Clone, Debug, Eq, PartialEq)]
pub enum UpdateRecordRunKind {
    /// A person asked for it.
    ManualUpdate,
    /// The scheduler ran it for an eligible local date.
    ScheduledDailyReconciliation { eligible_local_date: String },
}

/// The eligible local date of a scheduled run, or `None` for a manual run.
pub open spec fn scheduled_date(kind: UpdateRecordRunKind) -> Option<Seq<char>> {
    match kind {
        UpdateRecordRunKind::ManualUpdate => None,
        UpdateRecordRunKind::ScheduledDailyReconciliation { eligible_local_date } => Some(
            eligible_local_date@,
        ),
    }
}

/// Whether a store holds the configuration and run statuses of a run.
pub open spec fn run_saved(store: StoreView, run: UpdateRecordRun) -> bool {
    &&& store.configuration == run.configuration()
    &&& store.manual_update == run.manual()
    &&& store.scheduled_reconciliation == run.scheduled()
}

/// The zero counts an Update Record run starts from.
pub open spec fn no_counts() -> UpdateRecordResult {
    UpdateRecordResult {
        imported: 0,
        failed: 0,
        dates_generated: 0,
        files_created: 0,
        files_updated: 0,
        files_unchanged: 0,
    }
}

/// The state of an Update Record run between its steps: what started it,
/// the configuration and run statuses it saves, its Record Folder, the
/// events stored when it began, and its counts so far.
pub struct UpdateRecordRun {
    kind: UpdateRecordRunKind,
    configuration: ReconciliationConfiguration,
    manual: ManualUpdateStatus,
    scheduled: ScheduledReconciliationStatus,
    folder: String,
    known: Vec<EventId>,
    result: UpdateRecordResult,
}

impl UpdateRecordRun {
    /// The eligible local date of a scheduled run, or `None` for a manual run.
    pub closed spec fn date(&self) -> Option<Seq<char>> {
        scheduled_date(self.kind)
    }

    /// The configuration as the run last saved it.
    pub closed spec fn configuration(&self) -> ConfigurationView {
        self.configuration@
    }

    /// The manual run status as the run last saved it.
    pub closed spec fn manual(&self) -> ManualStatusView {
        self.manual@
    }

    /// The scheduled run status as the run last saved it.
    pub closed spec fn scheduled(&self) -> ScheduledStatusView {
        self.scheduled@
    }

    /// The Record Folder the run writes to.
    pub closed spec fn folder_text(&self) -> Seq<char> {
        self.folder@
    }

    /// The identifiers of the events stored when the run began.
    pub closed spec fn known(&self) -> Seq<Seq<char>> {
        self.known@.map_values(|e: EventId| e@)
    }

    /// The counts so far.
    pub closed spec fn counts(&self) -> UpdateRecordResult {
        self.result
    }

    /// Whether an event with this identifier was stored when the run began.
    pub fn knows(&self, id: &EventId) -> (r: bool)
        ensures
            r == self.known().contains(id@),
    {
        let mut i: usize = 0;
        while i < self.known.len()
            invariant
                i <= self.known@.len(),
                forall|j: int| 0 <= j < i ==> (#[trigger] self.known@[j])@ != id@,
            decreases self.known.len() - i,
        {
            if self.known[i].same_as(id) {
                assert(self.known()[i as int] == id@);
                return true;
            }
            i = i + 1;
        }
        assert forall|j: int| 0 <= j < self.known().len() implies self.known()[j] != id@ by {
            assert(self.known()[j] == self.known@[j]@);
        }
        false
    }

    /// Returns the Record Folder.
    pub fn folder(&self) -> (r: &str)
        ensures
            r@ == self.folder_text(),
    {
        self.folder.as_str()
    }

    /// Returns the counts so far.
    pub fn result(&self) -> (r: UpdateRecordResult)
        ensures
            r == self.counts(),
    {
        self.result
    }

    /// Adds the counts of the records generated for one new event.
    pub fn add_generated(&mut self, generated: &RecordGenerationResult)
        requires
            old(self).counts().dates_generated + generated.dates_generated <= usize::MAX,
            old(self).counts().files_created + generated.files_created <= usize::MAX,
            old(self).counts().files_updated + generated.files_updated <= usize::MAX,
            old(self).counts().files_unchanged + generated.files_unchanged <= usize::MAX,
        ensures
            final(self).date() == old(self).date(),
            final(self).configuration() == old(self).configuration(),
            final(self).manual() == old(self).manual(),
            final(self).scheduled() == old(self).scheduled(),
            final(self).folder_text() == old(self).folder_text(),
            final(self).known() == old(self).known(),
            final(self).counts() == (UpdateRecordResult {
                dates_generated: (old(self).counts().dates_generated
                    + generated.dates_generated) as usize,
                files_created: (old(self).counts().files_created + generated.files_created) as usize,
                files_updated: (old(self).counts().files_updated + generated.files_updated) as usize,
                files_unchanged: (old(self).counts().files_unchanged
                    + generated.files_unchanged) as usize,
                ..old(self).counts()
            }),
    {
        self.result.dates_generated = self.result.dates_generated + generated.dates_generated;
        self.result.files_created = self.result.files_created + generated.files_created;
        self.result.files_updated = self.result.files_updated + generated.files_updated;
        self.result.files_unchanged = self.result.files_unchanged + generated.files_unchanged;
    }
}

/// What one collection attempt on a connection came to: the time it was
/// made, the number of events it appended, that number again when the run
/// succeeded, and the message recorded when it failed.
struct AttemptOutcome {
    now: UnixTime,
    appended: usize,
    imported: Option<usize>,
    error: Option<String>,
}

/// Machine-level coordinator over connector extensions. It owns no source
/// parsing; extensions do.
#[verifier::reject_recursive_types(E)]
pub struct Agent<E: ConnectorExtension> {
    store: Store,
    extensions: Vec<(ConnectorId, E)>,
}

impl<E: ConnectorExtension> Agent<E> {
    /// The content of the agent's store.
    pub closed spec fn stored(&self) -> StoreView {
        self.store@
    }

    /// The connectors that extensions are held for, in ascending order.
    pub closed spec fn extension_ids(&self) -> Seq<Seq<char>> {
        self.extensions@.map_values(|e: (ConnectorId, E)| e.0@)
    }

    /// The extensions held, in the order of `extension_ids`.
    pub closed spec fn extensions_held(&self) -> Seq<E> {
        self.extensions@.map_values(|e: (ConnectorId, E)| e.1)
    }

    /// Creates an agent over a store and extensions; an extension replaces an
    /// earlier one for the same connector.
    pub fn new(store: Store, extensions: Vec<E>) -> (r: Self)
        ensures
            r.stored() == store@,
            forall|i: int, j: int|
                0 <= i < j < r.extension_ids().len() ==> crate::text::text_lt(
                    #[trigger] r.extension_ids()[i],
                    #[trigger] r.extension_ids()[j],
                ),
    {
        let mut held: Vec<(ConnectorId, E)> = Vec::new();
        let mut remaining = extensions;
        let mut incoming: Vec<E> = Vec::new();
        while remaining.len() > 0
            invariant
                true,
            decreases remaining.len(),
        {
            let e = remaining.pop().unwrap();
            incoming.push(e);
        }
        while incoming.len() > 0
            invariant
                forall|i: int, j: int|
                    0 <= i < j < held@.len() ==> crate::text::text_lt(
                        #[trigger] held@[i].0@,
                        #[trigger] held@[j].0@,
                    ),
            decreases incoming.len(),
        {
            let e = incoming.pop().unwrap();
            let id = e.connector_id().duplicate();
            insert_extension(&mut held, id, e);
        }
        Agent { store, extensions: held }
    }

    /// Returns the store.
    pub fn store(&self) -> (r: &Store)
        ensures
            r@ == self.stored(),
    {
        &self.store
    }

    /// Gives up the agent, returning its store.
    pub fn into_store(self) -> (r: Store)
        ensures
            r@ == self.stored(),
    {
        self.store
    }

    /// Discovers sources with every extension, in ascending connector order,
    /// and records each candidate as awaiting a consent decision; returns how
    /// many candidates were recorded. Discovery never adds evidence.
    pub fn discover(&mut self, roots: &[String]) -> (r: Result<usize, AgentError>)
        ensures
            final(self).stored().history == old(self).stored().history,
            final(self).stored().operations.connections == old(self).stored().operations.connections,
            final(self).stored().configuration == old(self).stored().configuration,
            final(self).stored().manual_update == old(self).stored().manual_update,
            final(self).stored().scheduled_reconciliation == old(self).stored().scheduled_reconciliation,
            decisions_kept(old(self).stored().operations.sources, final(self).stored().operations.sources),
            final(self).extension_ids() == old(self).extension_ids(),
            old(self).extension_ids().len() == 0 ==> (r matches Ok(n) && n == 0)
                && final(self).stored() == old(self).stored(),
    {
        let now = crate::clock::current_time();
        let mut count: usize = 0;
        let mut k: usize = 0;
        proof {
            lemma_decisions_kept_reflexive(self.store@.operations.sources);
        }
        while k < self.extensions.len()
            invariant
                self.store@.history == old(self).store@.history,
                self.store@.operations.connections == old(self).store@.operations.connections,
                self.store@.configuration == old(self).store@.configuration,
                self.store@.manual_update == old(self).store@.manual_update,
                self.store@.scheduled_reconciliation == old(self).store@.scheduled_reconciliation,
                decisions_kept(old(self).store@.operations.sources, self.store@.operations.sources),
                self.extensions@ == old(self).extensions@,
                k <= self.extensions@.len(),
                k == 0 ==> self.store@ == old(self).store@ && count == 0,
            decreases self.extensions.len() - k,
        {
            let candidates = match self.extensions[k].1.discover(roots) {
                Ok(c) => c,
                Err(e) => return Err(AgentError::Extension(e)),
            };
            let ghost before = self.store@.operations.sources;
            let recorded = record_candidates(&mut self.store, &candidates, now);
            proof {
                lemma_decisions_kept_transitive(
                    old(self).store@.operations.sources,
                    before,
                    self.store@.operations.sources,
                );
            }
            let n = match recorded {
                Ok(n) => n,
                Err(e) => return Err(AgentError::Store(e)),
            };
            count = count.saturating_add(n);
            k = k + 1;
        }
        assert(old(self).extension_ids().len() == self.extensions@.len());
        Ok(count)
    }

    /// Collects once from every enabled connection, in the order the store
    /// lists them, recording each attempt's outcome. Connections that are not
    /// enabled are skipped and left untouched; a connection whose connector
    /// has no extension, cannot be opened or fails counts as failed.
    #[verifier::spinoff_prover]
    pub fn collect_once(&mut self) -> (r: Result<CollectionCycleReport, AgentError>)
        ensures
            r matches Ok(report) && cycle_outcome(
                old(self).stored(),
                final(self).stored(),
                old(self).extension_ids(),
                report.imported as nat,
                report.failed as nat,
            ) && report.skipped == not_enabled_count(old(self).stored().operations.connections),
            final(self).extension_ids() == old(self).extension_ids(),
            forall|i: int|
                0 <= i < old(self).stored().operations.connections.len()
                    && old(self).stored().operations.connections[i].status == ConnectionStatus::Enabled
                    ==> attempt_traced(
                    old(self).stored().operations.connections[i],
                    #[trigger] final(self).stored().operations.connections[i],
                    old(self).extension_ids(),
                    old(self).extensions_held(),
                ),
    {
        let ghost before = self.store@;
        let ghost ids = self.extension_ids();
        self.store.check_valid();
        let connections = match self.store.list_connections() {
            Ok(c) => c,
            Err(e) => return Err(AgentError::Store(e)),
        };
        let ghost listed = connections@.map_values(|c: ConnectionRecord| c@);
        let ghost mut added: Seq<nat> = Seq::empty();
        let mut report = CollectionCycleReport { imported: 0, failed: 0, skipped: 0 };
        let mut i: usize = 0;
        while i < connections.len()
            invariant
                i <= connections@.len(),
                listed == connections@.map_values(|c: ConnectionRecord| c@),
                listed == before.operations.connections,
                before == old(self).store@,
                ids == old(self).extension_ids(),
                self.extensions@ == old(self).extensions@,
                crate::operations::operations_valid(before.operations),
                crate::operations::operations_valid(self.store@.operations),
                collected(before, self.store@),
                added.len() == i,
                self.store@.history.events.len() == before.history.events.len() + total(added),
                report.imported == imported_among(listed, self.store@.operations.connections, added, i as int),
                report.failed == failed_among(listed, self.store@.operations.connections, i as int),
                report.skipped == not_enabled_count(listed.take(i as int)),
                report.imported <= total(added),
                report.skipped + report.failed <= i,
                report.skipped == i ==> self.store@.history == before.history,
                forall|j: int| 0 <= j < i && listed[j].status != ConnectionStatus::Enabled ==> added[j] == 0,
                forall|j: int|
                    0 <= j < i && listed[j].status == ConnectionStatus::Enabled ==> attempt_logged(
                        listed[j],
                        #[trigger] self.store@.operations.connections[j],
                        ids,
                    ),
                forall|j: int|
                    i <= j < listed.len() ==> #[trigger] self.store@.operations.connections[j]
                        == listed[j],
                forall|j: int|
                    0 <= j < i && listed[j].status == ConnectionStatus::Enabled ==> attempt_traced(
                        listed[j],
                        #[trigger] self.store@.operations.connections[j],
                        old(self).extension_ids(),
                        old(self).extensions_held(),
                    ),
            decreases connections.len() - i,
        {
            let connection = &connections[i];
            let ghost conns = self.store@.operations.connections;
            proof {
                assert(listed.take(i + 1).drop_last() =~= listed.take(i as int));
                assert(listed[i as int] == connection@);
                lemma_total_push(added, 0);
            }
            let enabled = match connection.status {
                ConnectionStatus::Enabled => true,
                _ => false,
            };
            if !enabled {
                report.skipped = report.skipped + 1;
                proof {
                    lemma_counts_prefix(listed, conns, conns, added, added.push(0), i as int);
                    added = added.push(0);
                }
            } else {
                let ghost at_start = self.store@;
                let outcome = self.collect_connection(connection);
                proof {
                    let traced = ConnectionView { last_error: opt_text(outcome.error), ..connection@ };
                    assert(attempt_traced(connection@, traced, self.extension_ids(), self.extensions_held()));
                    assert(self.extension_ids() == old(self).extension_ids());
                    assert(self.extensions_held() == old(self).extensions_held());
                    assert(attempt_traced(
                        listed[i as int],
                        traced,
                        old(self).extension_ids(),
                        old(self).extensions_held(),
                    ));
                }
                proof {
                    crate::operations::lemma_connection_index_unique(
                        at_start.operations.connections,
                        i as int,
                    );
                }
                match self.store.update_connection_result(
                    &connection.id,
                    outcome.now,
                    outcome.imported.is_some(),
                    match &outcome.error {
                        Some(m) => Some(m.as_str()),
                        None => None,
                    },
                ) {
                    Ok(()) => {},
                    Err(e) => return Err(AgentError::Store(e)),
                }
                self.store.check_valid();
                let _ = self.store.event_count();
                let ghost error: Option<Seq<char>> = match outcome.error {
                    Some(m) => Some(m@),
                    None => None,
                };
                proof {
                    let after = self.store@.operations.connections;
                    assert(after == conns.update(i as int, attempt_made(listed[i as int], outcome.now@, error)));
                    assert(attempt_logged(listed[i as int], after[i as int], ids));
                    assert(after[i as int].last_error == opt_text(outcome.error));
                    lemma_traced_by_error(
                        listed[i as int],
                        ConnectionView { last_error: opt_text(outcome.error), ..connection@ },
                        after[i as int],
                        old(self).extension_ids(),
                        old(self).extensions_held(),
                    );
                    assert(attempt_traced(
                        listed[i as int],
                        after[i as int],
                        old(self).extension_ids(),
                        old(self).extensions_held(),
                    ));
                    let bigger = added.push(outcome.appended as nat);
                    lemma_counts_prefix(listed, conns, after, added, bigger, i as int);
                    lemma_total_push(added, outcome.appended as nat);
                    added = bigger;
                }
                match outcome.imported {
                    Some(n) => {
                        report.imported = report.imported + n;
                    },
                    None => {
                        report.failed = report.failed + 1;
                    },
                }
            }
            i = i + 1;
        }
        proof {
            assert(listed.take(listed.len() as int) =~= listed);
            lemma_counts_cover(listed, self.store@.operations.connections, listed.len() as int);
            assert(appended_by(added, before, self.store@, report.imported as nat));
        }
        Ok(report)
    }

    /// Begins an Update Record run: it needs a Record Folder, and is refused
    /// while global monitoring is paused unless forced. The configuration,
    /// and the status of the run's kind, are saved as running, with the
    /// attempt's time and no error.
    pub fn begin_update_record(&mut self, force: bool, kind: UpdateRecordRunKind) -> (r: Result<
        UpdateRecordRun,
        AgentError,
    >)
        ensures
            final(self).stored().history == old(self).stored().history,
            final(self).stored().operations == old(self).stored().operations,
            ({
                let c = old(self).stored().configuration;
                if c.record_folder is None {
                    r matches Err(AgentError::NoRecordFolder) && final(self).stored()
                        == old(self).stored()
                } else if c.monitoring == GlobalMonitoringState::Paused && !force {
                    r matches Err(AgentError::MonitoringPaused) && final(self).stored()
                        == old(self).stored()
                } else {
                    r matches Ok(run) && run.configuration().last_attempt is Some && {
                        let t = run.configuration().last_attempt.unwrap();
                        &&& run.date() == scheduled_date(kind)
                        &&& run.configuration() == started_configuration(c, t)
                        &&& run.manual() == if kind is ManualUpdate {
                            started_manual(old(self).stored().manual_update, t)
                        } else {
                            old(self).stored().manual_update
                        }
                        &&& run.scheduled() == if kind is ManualUpdate {
                            old(self).stored().scheduled_reconciliation
                        } else {
                            started_scheduled(old(self).stored().scheduled_reconciliation, t)
                        }
                        &&& run_saved(final(self).stored(), run)
                        &&& run.folder_text() == c.record_folder.unwrap()
                        &&& run.known() == event_ids(old(self).stored().history.events)
                        &&& run.counts() == no_counts()
                    }
                }
            }),
    {
        let mut configuration = match self.store.reconciliation_configuration() {
            Ok(c) => c,
            Err(e) => return Err(AgentError::Store(e)),
        };
        let folder = match &configuration.record_folder {
            Some(f) => f.clone(),
            None => return Err(AgentError::NoRecordFolder),
        };
        let paused = match configuration.monitoring {
            GlobalMonitoringState::Paused => true,
            GlobalMonitoringState::Enabled => false,
        };
        if paused && !force {
            return Err(AgentError::MonitoringPaused);
        }
        let mut manual = match self.store.manual_update_status() {
            Ok(m) => m,
            Err(e) => return Err(AgentError::Store(e)),
        };
        let mut scheduled = match self.store.scheduled_reconciliation_status() {
            Ok(v) => v,
            Err(e) => return Err(AgentError::Store(e)),
        };
        let now = crate::clock::current_time();
        configuration.last_attempt = Some(now);
        configuration.state = ReconciliationState::Running;
        configuration.last_error = None;
        match self.store.save_reconciliation_configuration(&configuration) {
            Ok(()) => {},
            Err(e) => return Err(AgentError::Store(e)),
        }
        match &kind {
            UpdateRecordRunKind::ManualUpdate => {
                manual.last_attempt = Some(now);
                manual.state = ReconciliationState::Running;
                manual.last_error = None;
                match self.store.save_manual_update_status(&manual) {
                    Ok(()) => {},
                    Err(e) => return Err(AgentError::Store(e)),
                }
            },
            UpdateRecordRunKind::ScheduledDailyReconciliation { .. } => {
                scheduled.last_attempt = Some(now);
                scheduled.state = ReconciliationState::Running;
                scheduled.last_error = None;
                match self.store.save_scheduled_reconciliation_status(&scheduled) {
                    Ok(()) => {},
                    Err(e) => return Err(AgentError::Store(e)),
                }
            },
        }
        let events = match self.store.list_events() {
            Ok(v) => v,
            Err(e) => return Err(AgentError::Store(e)),
        };
        let ghost listed = events@.map_values(|e: Event| e@);
        let mut known: Vec<EventId> = Vec::new();
        let mut i: usize = 0;
        while i < events.len()
            invariant
                i <= events@.len(),
                listed == events@.map_values(|e: Event| e@),
                known@.map_values(|e: EventId| e@) =~= event_ids(listed).take(i as int),
            decreases events.len() - i,
        {
            let ghost prev = known@.map_values(|e: EventId| e@);
            known.push(events[i].id().duplicate());
            assert(listed[i as int].id == events@[i as int]@.id);
            assert(event_ids(listed)[i as int] == listed[i as int].id);
            assert(known@.map_values(|e: EventId| e@) =~= prev.push(listed[i as int].id));
            assert(known@.map_values(|e: EventId| e@) =~= event_ids(listed).take(i + 1));
            i = i + 1;
        }
        assert(event_ids(listed).take(listed.len() as int) =~= event_ids(listed));
        let result = UpdateRecordResult {
            imported: 0,
            failed: 0,
            dates_generated: 0,
            files_created: 0,
            files_updated: 0,
            files_unchanged: 0,
        };
        Ok(UpdateRecordRun { kind, configuration, manual, scheduled, folder, known, result })
    }

    /// Saves the configuration, and the status of the run's kind, of a
    /// failed run, with the error's message, and returns the error.
    pub fn fail_update_record(&mut self, run: &UpdateRecordRun, error: AgentError) -> (r: AgentError)
        ensures
            final(self).stored().history == old(self).stored().history,
            final(self).stored().operations == old(self).stored().operations,
            final(self).stored().configuration == failed_configuration(
                run.configuration(),
                agent_error_text(error),
            ),
            final(self).stored().manual_update == if run.date() is None {
                failed_manual(run.manual(), agent_error_text(error))
            } else {
                old(self).stored().manual_update
            },
            final(self).stored().scheduled_reconciliation == if run.date() is None {
                old(self).stored().scheduled_reconciliation
            } else {
                failed_scheduled(run.scheduled(), agent_error_text(error))
            },
            r == error,
    {
        let message = error.message();
        let mut configuration = run.configuration.duplicate();
        configuration.state = ReconciliationState::Failed;
        configuration.last_error = Some(message.clone());
        match self.store.save_reconciliation_configuration(&configuration) {
            Ok(()) => {},
            Err(e) => return AgentError::Store(e),
        }
        match &run.kind {
            UpdateRecordRunKind::ManualUpdate => {
                let mut manual = run.manual.duplicate();
                manual.state = ReconciliationState::Failed;
                manual.last_error = Some(message);
                match self.store.save_manual_update_status(&manual) {
                    Ok(()) => error,
                    Err(e) => AgentError::Store(e),
                }
            },
            UpdateRecordRunKind::ScheduledDailyReconciliation { .. } => {
                let mut scheduled = run.scheduled.duplicate();
                scheduled.state = ReconciliationState::Failed;
                scheduled.last_error = Some(message);
                match self.store.save_scheduled_reconciliation_status(&scheduled) {
                    Ok(()) => error,
                    Err(e) => AgentError::Store(e),
                }
            },
        }
    }

    /// Collects from every enabled connection for the run and takes the
    /// imported and failed counts from that collection.
    pub fn collect_for_update(&mut self, run: &mut UpdateRecordRun) -> (r: Result<(), AgentError>)
        ensures
            r is Ok,
            collected(old(self).stored(), final(self).stored()),
            final(run).date() == old(run).date(),
            final(run).configuration() == old(run).configuration(),
            final(run).manual() == old(run).manual(),
            final(run).scheduled() == old(run).scheduled(),
            final(run).folder_text() == old(run).folder_text(),
            final(run).known() == old(run).known(),
            cycle_outcome(
                old(self).stored(),
                final(self).stored(),
                old(self).extension_ids(),
                final(run).counts().imported as nat,
                final(run).counts().failed as nat,
            ),
            final(self).extension_ids() == old(self).extension_ids(),
            forall|i: int|
                0 <= i < old(self).stored().operations.connections.len()
                    && old(self).stored().operations.connections[i].status == ConnectionStatus::Enabled
                    ==> attempt_traced(
                    old(self).stored().operations.connections[i],
                    #[trigger] final(self).stored().operations.connections[i],
                    old(self).extension_ids(),
                    old(self).extensions_held(),
                ),
            final(run).counts() == (UpdateRecordResult {
                imported: final(run).counts().imported,
                failed: final(run).counts().failed,
                ..old(run).counts()
            }),
    {
        match self.collect_once() {
            Ok(report) => {
                run.result.imported = report.imported;
                run.result.failed = report.failed;
                Ok(())
            },
            Err(error) => Err(self.fail_update_record(run, error)),
        }
    }

    /// Lists the events stored since the run began, in the store's order.
    pub fn new_events(&self, run: &UpdateRecordRun) -> (r: Result<Vec<Event>, AgentError>)
        ensures
            r matches Ok(events) && events@.map_values(|e: Event| e@) == unknown_events(
                self.stored().history.events,
                run.known(),
            ),
    {
        let events = match self.store.list_events() {
            Ok(v) => v,
            Err(e) => return Err(AgentError::Store(e)),
        };
        let ghost listed = events@.map_values(|e: Event| e@);
        let mut out: Vec<Event> = Vec::new();
        let mut i: usize = 0;
        while i < events.len()
            invariant
                i <= events@.len(),
                listed == events@.map_values(|e: Event| e@),
                listed == self.stored().history.events,
                out@.map_values(|e: Event| e@) == unknown_events(listed.take(i as int), run.known()),
            decreases events.len() - i,
        {
            let event = &events[i];
            proof {
                assert(listed.take(i + 1).drop_last() =~= listed.take(i as int));
                assert(listed.take(i + 1).last() == event@);
            }
            if !run.knows(event.id()) {
                let ghost before = out@.map_values(|e: Event| e@);
                out.push(event.duplicate());
                assert(out@.map_values(|e: Event| e@) =~= before.push(event@));
            }
            i = i + 1;
        }
        assert(listed.take(listed.len() as int) =~= listed);
        Ok(out)
    }

    /// The local date of the record that a new event belongs to. When it
    /// cannot be computed the run fails, and its configuration says so.
    pub fn date_for_update(&mut self, run: &UpdateRecordRun, event: &Event) -> (r: Result<
        RecordDate,
        AgentError,
    >)
        requires
            presentable_time(event@.occurred_at),
        ensures
            final(self).stored().history == old(self).stored().history,
            final(self).stored().operations == old(self).stored().operations,
            match r {
                Ok(d) => final(self).stored() == old(self).stored() && exists|offset: int|
                    -93_599 <= offset <= 93_599 && #[trigger] local_time_text(
                        event@.occurred_at,
                        offset,
                        date_format(),
                    ) == Ok::<Seq<char>, Seq<char>>(d@),
                Err(e) => e matches AgentError::Presenter(_) && final(self).stored().configuration
                    == failed_configuration(run.configuration(), agent_error_text(e))
                    && final(self).stored().manual_update == if run.date() is None {
                    failed_manual(run.manual(), agent_error_text(e))
                } else {
                    old(self).stored().manual_update
                } && final(self).stored().scheduled_reconciliation == if run.date() is None {
                    old(self).stored().scheduled_reconciliation
                } else {
                    failed_scheduled(run.scheduled(), agent_error_text(e))
                },
            },
    {
        match record_date_for(event.occurred_at().as_system_time()) {
            Ok(d) => Ok(d),
            Err(e) => {
                let error = AgentError::Presenter(e.message());
                Err(self.fail_update_record(run, error))
            },
        }
    }

    /// Ends a run successfully: the configuration, and the status of the
    /// run's kind, are saved as succeeded, with the time and the run's
    /// imported and failed counts; a scheduled run also records its date.
    pub fn finish_update_record(&mut self, run: UpdateRecordRun) -> (r: Result<
        UpdateRecordResult,
        AgentError,
    >)
        ensures
            final(self).stored().history == old(self).stored().history,
            final(self).stored().operations == old(self).stored().operations,
            r matches Ok(result) && result == run.counts()
                && final(self).stored().configuration.last_success is Some && {
                let t = final(self).stored().configuration.last_success.unwrap();
                &&& final(self).stored().configuration == finished_configuration(
                    run.configuration(),
                    t,
                    result,
                )
                &&& final(self).stored().manual_update == match run.date() {
                    None => finished_manual(run.manual(), t, result),
                    Some(_) => old(self).stored().manual_update,
                }
                &&& final(self).stored().scheduled_reconciliation == match run.date() {
                    None => old(self).stored().scheduled_reconciliation,
                    Some(date) => finished_scheduled(run.scheduled(), t, result, date),
                }
            },
    {
        let UpdateRecordRun {
            kind,
            mut configuration,
            mut manual,
            mut scheduled,
            folder: _,
            known: _,
            result,
        } = run;
        let now = crate::clock::current_time();
        let counts = ReconciliationCounts {
            imported: result.imported as u64,
            duplicates: 0,
            rejected: 0,
            failed: result.failed as u64,
        };
        configuration.last_success = Some(now);
        configuration.state = ReconciliationState::Succeeded;
        configuration.counts = counts;
        match self.store.save_reconciliation_configuration(&configuration) {
            Ok(()) => {},
            Err(e) => return Err(AgentError::Store(e)),
        }
        match kind {
            UpdateRecordRunKind::ManualUpdate => {
                manual.last_success = Some(now);
                manual.state = ReconciliationState::Succeeded;
                manual.counts = counts;
                match self.store.save_manual_update_status(&manual) {
                    Ok(()) => Ok(result),
                    Err(e) => Err(AgentError::Store(e)),
                }
            },
            UpdateRecordRunKind::ScheduledDailyReconciliation { eligible_local_date } => {
                scheduled.last_success = Some(now);
                scheduled.state = ReconciliationState::Succeeded;
                scheduled.counts = counts;
                scheduled.last_reconciled_local_date = Some(eligible_local_date);
                match self.store.save_scheduled_reconciliation_status(&scheduled) {
                    Ok(()) => Ok(result),
                    Err(e) => Err(AgentError::Store(e)),
                }
            },
        }
    }

    /// The position of the extension held for a connector, if any.
    fn extension_position(&self, id: &ConnectorId) -> (r: Option<usize>)
        ensures
            match r {
                Some(k) => k < self.extensions@.len() && self.extensions@[k as int].0@ == id@,
                None => forall|k: int|
                    0 <= k < self.extensions@.len() ==> (#[trigger] self.extensions@[k]).0@ != id@,
            },
    {
        let mut k: usize = 0;
        while k < self.extensions.len()
            invariant
                k <= self.extensions@.len(),
                forall|j: int| 0 <= j < k ==> (#[trigger] self.extensions@[j]).0@ != id@,
            decreases self.extensions.len() - k,
        {
            if self.extensions[k].0.same_as(id) {
                return Some(k);
            }
            k = k + 1;
        }
        None
    }

    /// Runs the collector of one enabled connection through a fresh engine
    /// holding the store, and reports the outcome to be recorded for it.
    fn collect_connection(&mut self, connection: &ConnectionRecord) -> (r: AttemptOutcome)
        requires
            crate::operations::operations_valid(old(self).store@.operations),
        ensures
            final(self).extensions@ == old(self).extensions@,
            crate::operations::operations_valid(final(self).store@.operations),
            final(self).store@.operations == old(self).store@.operations,
            final(self).store@.history.annotations == old(self).store@.history.annotations,
            final(self).store@.configuration == old(self).store@.configuration,
            final(self).store@.manual_update == old(self).store@.manual_update,
            final(self).store@.scheduled_reconciliation == old(self).store@.scheduled_reconciliation,
            events_kept(old(self).store@.history.events, final(self).store@.history.events),
            final(self).store@.history.events.len() == old(self).store@.history.events.len()
                + r.appended,
            match r.imported {
                Some(n) => n == r.appended && r.error is None,
                None => r.error is Some,
            },
            attempt_traced(
                connection@,
                ConnectionView { last_error: opt_text(r.error), ..connection@ },
                old(self).extension_ids(),
                old(self).extensions_held(),
            ),
            !old(self).extension_ids().contains(connection@.connector_id) ==> r.appended == 0,
            !old(self).extension_ids().contains(connection@.connector_id) ==> (r.error matches Some(
                m,
            ) && m@ == unsupported_message()),
    {
        let now = crate::clock::current_time();
        let k: usize = match self.extension_position(&connection.connector_id) {
            Some(k) => {
                assert(self.extension_ids()[k as int] == connection@.connector_id);
                k
            },
            None => {
                return AttemptOutcome {
                    now,
                    appended: 0,
                    imported: None,
                    error: Some("unsupported connector".to_owned()),
                };
            },
        };
        let ghost ext = self.extensions@[k as int].1;
        let ghost ids = self.extension_ids();
        let ghost config = connection@.configuration;
        proof {
            assert(self.extensions_held()[k as int] == ext);
        }
        let opened = self.extensions[k].1.open_connection(connection.configuration.as_str());
        let ghost outcome = opened;
        let mut connector = match opened {
            Ok(c) => c,
            Err(e) => {
                let message = e.message();
                proof {
                    if ext.obeys_extension_laws() {
                        assert(ext.opens(config, outcome));
                        assert(attempt_opened(ext, config, Some(message@)));
                    }
                    assert(ids[k as int] == connection@.connector_id);
                }
                return AttemptOutcome { now, appended: 0, imported: None, error: Some(message) };
            },
        };
        let descriptor = self.extensions[k].1.descriptor();
        let start: usize = self.store.event_count();
        let mut taken = Store::empty();
        std::mem::swap(&mut self.store, &mut taken);
        let mut engine = Engine::new(taken);
        match engine.register(descriptor) {
            Ok(()) => {},
            Err(e) => {
                self.store = engine.into_store();
                return AttemptOutcome { now, appended: 0, imported: None, error: Some(e.message()) };
            },
        }
        let collected = engine.collect(&mut connector);
        self.store = engine.into_store();
        self.store.check_valid();
        let end: usize = self.store.event_count();
        let appended: usize = end - start;
        match collected {
            Ok(report) => {
                let n: usize = report.accepted_events();
                proof {
                    if ext.obeys_extension_laws() {
                        assert(ext.opens(config, outcome));
                        assert(attempt_opened(ext, config, None));
                    }
                    assert(ids[k as int] == connection@.connector_id);
                }
                AttemptOutcome { now, appended, imported: Some(n), error: None }
            },
            Err(e) => {
                let message = e.message();
                proof {
                    if ext.obeys_extension_laws() {
                        assert(ext.opens(config, outcome));
                        let ce = e->Connector_0;
                        assert(message@ == crate::engine::engine_error_text(
                            crate::engine::EngineError::Connector(ce),
                        ));
                        assert(attempt_opened(ext, config, Some(message@)));
                    }
                    assert(ids[k as int] == connection@.connector_id);
                }
                AttemptOutcome { now, appended, imported: None, error: Some(message) }
            },
        }
    }

    /// Approves a source awaiting a decision: the source is marked connected
    /// and an enabled connection is added whose identifier joins the source
    /// and the time of approval. A missing, connected or declined source is
    /// refused with nothing changed.
    pub fn approve(&mut self, id: &DiscoveredSourceId) -> (r: Result<ConnectionId, AgentError>)
        ensures
            final(self).stored().history == old(self).stored().history,
            final(self).stored().configuration == old(self).stored().configuration,
            final(self).stored().manual_update == old(self).stored().manual_update,
            final(self).stored().scheduled_reconciliation == old(self).stored().scheduled_reconciliation,
            final(self).extension_ids() == old(self).extension_ids(),
            match crate::operations::source_index(old(self).stored().operations.sources, id@) {
                None => r matches Err(AgentError::Store(StoreError::MissingDiscoveredSource(e)))
                    && e@ == id@ && final(self).stored() == old(self).stored(),
                Some(i) => {
                    let source = old(self).stored().operations.sources[i];
                    if source.status == DiscoveryStatus::Connected {
                        r matches Err(AgentError::Store(StoreError::ConnectionAlreadyApproved(e)))
                            && e@ == id@ && final(self).stored() == old(self).stored()
                    } else if source.status == DiscoveryStatus::Declined {
                        r matches Err(AgentError::Store(StoreError::ConnectionNotApproved(e)))
                            && e@ == id@ && final(self).stored() == old(self).stored()
                    } else {
                        &&& final(self).stored().operations.sources
                            == old(self).stored().operations.sources.update(
                            i,
                            SourceRecordView { status: DiscoveryStatus::Connected, ..source },
                        )
                        &&& r matches Err(AgentError::Store(StoreError::Database { .. }))
                            ==> final(self).stored().operations.connections
                            == old(self).stored().operations.connections
                        &&& (r is Ok || r matches Err(AgentError::Store(StoreError::Database { .. })))
                        &&& r matches Ok(c) ==> exists|now: int|
                            #[trigger] connection_id_for(id@, now) == c@ && connection_added(
                                old(self).stored().operations.connections,
                                final(self).stored().operations.connections,
                                crate::operations::approved_connection(source, c@, now),
                            )
                    }
                },
            },
    {
        let now = crate::clock::current_time();
        let connection = connection_id_for_source(id, now);
        let ghost before = self.store@.operations.connections;
        match self.store.approve_source(id, &connection, now) {
            Ok(_) => {
                proof {
                    let source = old(self).store@.operations.sources[crate::operations::source_index(
                        old(self).store@.operations.sources,
                        id@,
                    ).unwrap()];
                    assert(connection_added(
                        before,
                        self.store@.operations.connections,
                        crate::operations::approved_connection(source, connection@, now@),
                    ));
                }
                Ok(connection)
            },
            Err(e) => Err(AgentError::Store(e)),
        }
    }

    /// Declines a discovered source.
    pub fn decline(&mut self, id: &DiscoveredSourceId) -> (r: Result<(), AgentError>)
        ensures
            final(self).stored().history == old(self).stored().history,
            final(self).stored().operations.connections == old(self).stored().operations.connections,
            final(self).stored().configuration == old(self).stored().configuration,
            final(self).stored().manual_update == old(self).stored().manual_update,
            final(self).stored().scheduled_reconciliation == old(self).stored().scheduled_reconciliation,
            final(self).extension_ids() == old(self).extension_ids(),
            match crate::operations::source_index(old(self).stored().operations.sources, id@) {
                None => r matches Err(AgentError::Store(StoreError::MissingDiscoveredSource(e)))
                    && e@ == id@ && final(self).stored() == old(self).stored(),
                Some(i) => r is Ok && final(self).stored().operations.sources
                    == old(self).stored().operations.sources.update(
                    i,
                    SourceRecordView {
                        status: DiscoveryStatus::Declined,
                        ..old(self).stored().operations.sources[i]
                    },
                ),
            },
    {
        match self.store.decline_source(id) {
            Ok(()) => Ok(()),
            Err(e) => Err(AgentError::Store(e)),
        }
    }

    /// Changes a connection's status, when the transition is allowed.
    pub fn set_status(&mut self, id: &ConnectionId, status: ConnectionStatus) -> (r: Result<
        (),
        AgentError,
    >)
        ensures
            final(self).stored().history == old(self).stored().history,
            final(self).stored().operations.sources == old(self).stored().operations.sources,
            final(self).stored().configuration == old(self).stored().configuration,
            final(self).stored().manual_update == old(self).stored().manual_update,
            final(self).stored().scheduled_reconciliation == old(self).stored().scheduled_reconciliation,
            final(self).extension_ids() == old(self).extension_ids(),
            match crate::operations::connection_index(old(self).stored().operations.connections, id@) {
                None => r matches Err(AgentError::Store(StoreError::MissingConnection(e))) && e@
                    == id@ && final(self).stored() == old(self).stored(),
                Some(i) => {
                    let current = old(self).stored().operations.connections[i];
                    if crate::operations::transition_allowed(current.status, status) {
                        r is Ok && exists|now: int|
                            final(self).stored().operations.connections
                                == old(self).stored().operations.connections.update(
                                i,
                                #[trigger] crate::operations::with_status(current, status, now),
                            )
                    } else {
                        r matches Err(
                            AgentError::Store(
                                StoreError::InvalidConnectionTransition { id: e, from, to },
                            ),
                        ) && e@ == id@ && from == current.status && to == status
                            && final(self).stored() == old(self).stored()
                    }
                },
            },
    {
        let now = crate::clock::current_time();
        match self.store.set_connection_status(id, status, now) {
            Ok(()) => Ok(()),
            Err(e) => Err(AgentError::Store(e)),
        }
    }
}

/// Inserts an extension under its connector identifier, keeping identifiers
/// ascending and replacing an extension held for the same connector.
#[verifier::spinoff_prover]
fn insert_extension<E>(held: &mut Vec<(ConnectorId, E)>, id: ConnectorId, extension: E)
    requires
        forall|i: int, j: int|
            0 <= i < j < old(held)@.len() ==> crate::text::text_lt(
                #[trigger] old(held)@[i].0@,
                #[trigger] old(held)@[j].0@,
            ),
    ensures
        forall|i: int, j: int|
            0 <= i < j < final(held)@.len() ==> crate::text::text_lt(
                #[trigger] final(held)@[i].0@,
                #[trigger] final(held)@[j].0@,
            ),
        exists|i: int| 0 <= i < final(held)@.len() && (#[trigger] final(held)@[i]).0@ == id@,
{
    let ghost before = held@;
    let ghost k = id@;
    let target = chars_of(id.as_str());
    let mut p: usize = 0;
    while p < held.len()
        invariant
            p <= held@.len(),
            held@ == before,
            target@ == k,
            forall|i: int, j: int|
                0 <= i < j < before.len() ==> crate::text::text_lt(
                    #[trigger] before[i].0@,
                    #[trigger] before[j].0@,
                ),
            forall|j: int| 0 <= j < p ==> crate::text::text_lt(#[trigger] before[j].0@, k),
        ensures
            p <= held@.len(),
            held@ == before,
            forall|j: int| 0 <= j < p ==> crate::text::text_lt(#[trigger] before[j].0@, k),
            p < held@.len() ==> !crate::text::text_lt(before[p as int].0@, k),
        decreases held.len() - p,
    {
        let current = chars_of(held[p].0.as_str());
        if !crate::text::chars_lt(&current, &target) {
            break;
        }
        p = p + 1;
    }
    if p < held.len() && held[p].0.same_as(&id) {
        let _ = held.remove(p);
        held.insert(p, (id, extension));
        proof {
            assert forall|i: int, j: int| 0 <= i < j < held@.len() implies crate::text::text_lt(
                #[trigger] held@[i].0@,
                #[trigger] held@[j].0@,
            ) by {
                assert(held@[i].0@ == before[i].0@);
                assert(held@[j].0@ == before[j].0@);
            }
            assert(held@[p as int].0@ == k);
        }
        return;
    }
    proof {
        if p < before.len() {
            crate::text::lemma_text_lt_total(before[p as int].0@, k);
        }
    }
    held.insert(p, (id, extension));
    proof {
        let after = held@;
        assert(after[p as int].0@ == k);
        assert forall|a: int, b: int| 0 <= a < b < after.len() implies crate::text::text_lt(
            #[trigger] after[a].0@,
            #[trigger] after[b].0@,
        ) by {
            if b < p {
                assert(after[a] == before[a]);
                assert(after[b] == before[b]);
            } else if b == p {
                assert(after[a] == before[a]);
            } else if a < p {
                assert(after[a] == before[a]);
                assert(after[b] == before[b - 1]);
                if b - 1 > p {
                    crate::text::lemma_text_lt_transitive(k, before[p as int].0@, before[b - 1].0@);
                }
                crate::text::lemma_text_lt_transitive(before[a].0@, k, before[b - 1].0@);
            } else if a == p {
                assert(after[b] == before[b - 1]);
                if b - 1 > p {
                    crate::text::lemma_text_lt_transitive(k, before[p as int].0@, before[b - 1].0@);
                }
            } else {
                assert(after[a] == before[a - 1]);
                assert(after[b] == before[b - 1]);
            }
        }
    }
}

} // verus!
