//! The service facade's decisions: status reports, settings changes, the
//! mapping of agent errors, and what the scheduler does next.

use crate::agent::{agent_error_text, next_eligible_run, next_run_at, next_run_from, AgentError};
use crate::clock::presentable_time;
use crate::model::UnixTime;
use crate::operations::{
    ConfigurationView, ConnectionStatus, ConnectionView, DiscoveryStatus, GlobalMonitoringState,
    ManualUpdateStatus, ReconciliationConfiguration, ScheduledReconciliationStatus,
    SourceRecordView,
};
use crate::store::{Store, StoreError, StoreView};
use crate::text::push_str;
use vstd::prelude::*;

verus! {

/// Where the scheduler loop stands.
#[derive(Clone, Copy, Debug, Eq, PartialEq, Structural)]
pub enum SchedulerLifecycle {
    Stopped,
    Paused,
    Waiting,
    Updating,
    Failed,
}

/// What the scheduler reports of itself and of scheduled reconciliation.
#[derive(Clone, Debug, Eq, PartialEq)]
pub struct SchedulerStatus {
    pub running: bool,
    pub lifecycle: SchedulerLifecycle,
    pub monitoring: GlobalMonitoringState,
    pub next_run: Option<UnixTime>,
    pub last_attempt: Option<UnixTime>,
    pub last_success: Option<UnixTime>,
    pub last_error: Option<String>,
    pub record_folder: Option<String>,
    pub connected_sources: usize,
    pub update_running: bool,
}

/// The service's operational status.
#[derive(Clone, Debug, Eq, PartialEq)]
pub struct ServiceStatus {
    pub configuration: ReconciliationConfiguration,
    pub manual_update: ManualUpdateStatus,
    pub scheduled_reconciliation: ScheduledReconciliationStatus,
    pub connected_sources: usize,
    pub awaiting_consent: usize,
    pub update_running: bool,
}

/// Errors at the service boundary.
#[derive(Debug)]
pub enum ServiceError {
    Database(String),
    Agent(String),
    UpdateAlreadyRunning,
    SchedulerAlreadyRunning,
    SchedulerNotRunning,
    UnknownSource,
    UnknownConnection,
    PlatformUnavailable,
}

/// The message that describes a service error.
pub open spec fn service_error_text(e: ServiceError) -> Seq<char> {
    match e {
        ServiceError::Database(v) => "database error: "@ + v@,
        ServiceError::Agent(v) => "service operation failed: "@ + v@,
        ServiceError::UpdateAlreadyRunning => "Update Record already running"@,
        ServiceError::SchedulerAlreadyRunning => "scheduler already running"@,
        ServiceError::SchedulerNotRunning => "scheduler is not running"@,
        ServiceError::UnknownSource => "unknown source"@,
        ServiceError::UnknownConnection => "unknown connection"@,
        ServiceError::PlatformUnavailable => "platform operation unavailable"@,
    }
}

impl ServiceError {
    /// Describes the error for a person.
    pub fn message(&self) -> (r: String)
        ensures
            r@ == service_error_text(*self),
    {
        let mut s = String::new();
        match self {
            ServiceError::Database(v) => {
                push_str(&mut s, "database error: ");
                push_str(&mut s, v.as_str());
            },
            ServiceError::Agent(v) => {
                push_str(&mut s, "service operation failed: ");
                push_str(&mut s, v.as_str());
            },
            ServiceError::UpdateAlreadyRunning => push_str(&mut s, "Update Record already running"),
            ServiceError::SchedulerAlreadyRunning => push_str(&mut s, "scheduler already running"),
            ServiceError::SchedulerNotRunning => push_str(&mut s, "scheduler is not running"),
            ServiceError::UnknownSource => push_str(&mut s, "unknown source"),
            ServiceError::UnknownConnection => push_str(&mut s, "unknown connection"),
            ServiceError::PlatformUnavailable => push_str(&mut s, "platform operation unavailable"),
        }
        s
    }
}

/// Maps an agent error to the service boundary: unknown sources and
/// connections are named as such, and anything else keeps its message.
pub fn map_agent(error: AgentError) -> (r: ServiceError)
    ensures
        match error {
            AgentError::Store(StoreError::MissingDiscoveredSource(_)) => r
                == ServiceError::UnknownSource,
            AgentError::Store(StoreError::MissingConnection(_)) => r
                == ServiceError::UnknownConnection,
            _ => r matches ServiceError::Agent(m) && m@ == agent_error_text(error),
        },
{
    match error {
        AgentError::Store(StoreError::MissingDiscoveredSource(_)) => ServiceError::UnknownSource,
        AgentError::Store(StoreError::MissingConnection(_)) => ServiceError::UnknownConnection,
        other => ServiceError::Agent(other.message()),
    }
}

/// The number of enabled connections.
pub open spec fn enabled_count(connections: Seq<ConnectionView>) -> nat
    decreases connections.len(),
{
    if connections.len() == 0 {
        0
    } else {
        enabled_count(connections.drop_last()) + if connections.last().status
            == ConnectionStatus::Enabled {
            1nat
        } else {
            0nat
        }
    }
}

/// The number of sources awaiting a consent decision.
pub open spec fn awaiting_count(sources: Seq<SourceRecordView>) -> nat
    decreases sources.len(),
{
    if sources.len() == 0 {
        0
    } else {
        awaiting_count(sources.drop_last()) + if sources.last().status
            == DiscoveryStatus::AwaitingDecision {
            1nat
        } else {
            0nat
        }
    }
}

/// The connected sources that status reports are exactly the connections
/// whose status is Enabled: their number is that of the enabled connections
/// among all, so paused and disconnected ones never count, and none counts
/// when none is enabled.
pub proof fn law_connected_sources_are_enabled_connections(connections: Seq<ConnectionView>)
    ensures
        enabled_count(connections) == connections.filter(
            |c: ConnectionView| c.status == ConnectionStatus::Enabled,
        ).len(),
        (forall|i: int|
            0 <= i < connections.len() ==> (#[trigger] connections[i]).status
                != ConnectionStatus::Enabled) ==> enabled_count(connections) == 0,
    decreases connections.len(),
{
    reveal(Seq::filter);
    if connections.len() > 0 {
        let rest = connections.drop_last();
        law_connected_sources_are_enabled_connections(rest);
        if forall|i: int|
            0 <= i < connections.len() ==> (#[trigger] connections[i]).status
                != ConnectionStatus::Enabled {
            assert forall|i: int| 0 <= i < rest.len() implies (#[trigger] rest[i]).status
                != ConnectionStatus::Enabled by {
                assert(rest[i] == connections[i]);
            }
        }
    }
}

/// The sources that status reports as awaiting consent are exactly those
/// whose status is AwaitingDecision.
pub proof fn law_awaiting_sources_await_a_decision(sources: Seq<SourceRecordView>)
    ensures
        awaiting_count(sources) == sources.filter(
            |s: SourceRecordView| s.status == DiscoveryStatus::AwaitingDecision,
        ).len(),
    decreases sources.len(),
{
    reveal(Seq::filter);
    if sources.len() > 0 {
        law_awaiting_sources_await_a_decision(sources.drop_last());
    }
}

/// Reports the configuration, the run statuses, how many connections are
/// enabled, how many sources await consent, and whether an update runs.
pub fn status(store: &Store, update_running: bool) -> (r: Result<ServiceStatus, ServiceError>)
    ensures
        r matches Ok(s) && s.configuration@ == store@.configuration && s.manual_update@
            == store@.manual_update && s.scheduled_reconciliation@
            == store@.scheduled_reconciliation && s.connected_sources == enabled_count(
            store@.operations.connections,
        ) && s.awaiting_consent == awaiting_count(store@.operations.sources) && s.update_running
            == update_running,
{
    let sources = match store.list_discovered_sources() {
        Ok(v) => v,
        Err(e) => return Err(ServiceError::Database(e.message())),
    };
    let connections = match store.list_connections() {
        Ok(v) => v,
        Err(e) => return Err(ServiceError::Database(e.message())),
    };
    let configuration = match store.reconciliation_configuration() {
        Ok(v) => v,
        Err(e) => return Err(ServiceError::Database(e.message())),
    };
    let manual_update = match store.manual_update_status() {
        Ok(v) => v,
        Err(e) => return Err(ServiceError::Database(e.message())),
    };
    let scheduled_reconciliation = match store.scheduled_reconciliation_status() {
        Ok(v) => v,
        Err(e) => return Err(ServiceError::Database(e.message())),
    };
    let ghost cs = store@.operations.connections;
    let mut connected: usize = 0;
    let mut i: usize = 0;
    while i < connections.len()
        invariant
            i <= connections@.len(),
            connections@.map_values(|c: crate::operations::ConnectionRecord| c@) == cs,
            connected == enabled_count(cs.take(i as int)),
            connected <= i,
        decreases connections.len() - i,
    {
        proof {
            assert(cs.take(i + 1).drop_last() =~= cs.take(i as int));
            assert(cs.take(i + 1).last() == connections@[i as int]@);
        }
        match connections[i].status {
            ConnectionStatus::Enabled => {
                connected = connected + 1;
            },
            _ => {},
        }
        i = i + 1;
    }
    let ghost ss = store@.operations.sources;
    let mut awaiting: usize = 0;
    let mut j: usize = 0;
    while j < sources.len()
        invariant
            j <= sources@.len(),
            sources@.map_values(|s: crate::operations::DiscoveredSource| s@) == ss,
            awaiting == awaiting_count(ss.take(j as int)),
            awaiting <= j,
        decreases sources.len() - j,
    {
        proof {
            assert(ss.take(j + 1).drop_last() =~= ss.take(j as int));
            assert(ss.take(j + 1).last() == sources@[j as int]@);
        }
        match sources[j].status {
            DiscoveryStatus::AwaitingDecision => {
                awaiting = awaiting + 1;
            },
            _ => {},
        }
        j = j + 1;
    }
    proof {
        assert(cs.take(cs.len() as int) =~= cs);
        assert(ss.take(ss.len() as int) =~= ss);
    }
    Ok(
        ServiceStatus {
            configuration,
            manual_update,
            scheduled_reconciliation,
            connected_sources: connected,
            awaiting_consent: awaiting,
            update_running,
        },
    )
}

/// The scheduler's report: its own state, with the next run, last attempt,
/// last success and last error of scheduled reconciliation, the next run
/// falling back to the configuration's.
pub fn scheduler_status(status: ServiceStatus, running: bool, lifecycle: SchedulerLifecycle) -> (r:
    SchedulerStatus)
    ensures
        r.running == running,
        r.lifecycle == lifecycle,
        r.monitoring == status.configuration.monitoring,
        r.next_run == match status.scheduled_reconciliation.next_scheduled_run {
            Some(t) => Some(t),
            None => status.configuration.next_run,
        },
        r.last_attempt == status.scheduled_reconciliation.last_attempt,
        r.last_success == status.scheduled_reconciliation.last_success,
        r.last_error == status.scheduled_reconciliation.last_error,
        r.record_folder == status.configuration.record_folder,
        r.connected_sources == status.connected_sources,
        r.update_running == status.update_running,
{
    let ServiceStatus {
        configuration,
        manual_update: _,
        scheduled_reconciliation,
        connected_sources,
        awaiting_consent: _,
        update_running,
    } = status;
    let next_run = match scheduled_reconciliation.next_scheduled_run {
        Some(t) => Some(t),
        None => configuration.next_run,
    };
    SchedulerStatus {
        running,
        lifecycle,
        monitoring: configuration.monitoring,
        next_run,
        last_attempt: scheduled_reconciliation.last_attempt,
        last_success: scheduled_reconciliation.last_success,
        last_error: scheduled_reconciliation.last_error,
        record_folder: configuration.record_folder,
        connected_sources,
        update_running,
    }
}

/// Whether `next` is what scheduling gives for `c` at `now` at some local
/// offset.
pub open spec fn schedules(next: Option<int>, now: int, c: ConfigurationView) -> bool {
    exists|offset: int|
        -93_599 <= offset <= 93_599 && #[trigger] next_run_from(
            now,
            offset,
            c.schedule,
            c.time.hour,
            c.time.minute,
            0,
        ) == Ok::<Option<int>, Seq<char>>(next)
}

/// Whether `next` is the next run that a configuration schedules at `now`:
/// none while monitoring is paused.
pub open spec fn next_run_for(next: Option<int>, now: int, c: ConfigurationView) -> bool {
    if c.monitoring == GlobalMonitoringState::Paused {
        next is None
    } else {
        schedules(next, now, c)
    }
}

/// The message of a scheduling failure with `detail`.
pub open spec fn schedule_error_message(detail: Seq<char>) -> Seq<char> {
    "schedule error: "@ + detail
}

/// Whether `e` is the error that scheduling a configuration can give: an
/// invalid local time is named, and any other failure is a schedule error.
pub open spec fn scheduling_error(e: ServiceError, c: ConfigurationView) -> bool {
    &&& c.monitoring != GlobalMonitoringState::Paused
    &&& if c.time.hour > 23 || c.time.minute > 59 {
        e matches ServiceError::Agent(m) && m@ == agent_error_text(AgentError::InvalidLocalTime)
    } else {
        e matches ServiceError::Agent(m) && exists|detail: Seq<char>|
            m@ == #[trigger] schedule_error_message(detail)
    }
}

/// Computes the next run of a configuration at `now`, mapped to the
/// service boundary.
fn next_run_of(c: &ReconciliationConfiguration, now: UnixTime) -> (r: Result<
    Option<UnixTime>,
    ServiceError,
>)
    requires
        presentable_time(now@),
    ensures
        match r {
            Ok(n) => next_run_for(crate::operations::opt_time(n), now@, c@),
            Err(e) => scheduling_error(e, c@),
        },
        c.monitoring != GlobalMonitoringState::Paused && (c.time.hour > 23 || c.time.minute > 59)
            ==> r is Err,
{
    match next_eligible_run(c, now) {
        Ok(n) => {
            proof {
                if c.monitoring != GlobalMonitoringState::Paused {
                    let offset = choose|offset: int|
                        -93_599 <= offset <= 93_599 && #[trigger] next_run_from(
                            now@,
                            offset,
                            c@.schedule,
                            c@.time.hour,
                            c@.time.minute,
                            0,
                        ) == match Ok::<Option<UnixTime>, AgentError>(n) {
                            Ok(Some(t)) => Ok::<Option<int>, Seq<char>>(Some(t@)),
                            Ok(None) => Ok::<Option<int>, Seq<char>>(None),
                            Err(AgentError::Schedule(m)) => Err::<Option<int>, Seq<char>>(m@),
                            Err(_) => Err::<Option<int>, Seq<char>>(Seq::empty()),
                        };
                    assert(next_run_from(
                        now@,
                        offset,
                        c@.schedule,
                        c@.time.hour,
                        c@.time.minute,
                        0,
                    ) == Ok::<Option<int>, Seq<char>>(crate::operations::opt_time(n)));
                }
            }
            Ok(n)
        },
        Err(e) => {
            let ghost cause = e;
            let mapped = map_agent(e);
            proof {
                if !(c.time.hour > 23 || c.time.minute > 59) {
                    let detail = choose|detail: String| cause == AgentError::Schedule(detail);
                    assert(agent_error_text(cause) == schedule_error_message(detail@));
                }
            }
            Err(mapped)
        },
    }
}

/// Turns global monitoring on or off, and saves the next run that the
/// configuration then schedules at `now`. Nothing is saved when
/// scheduling fails.
pub fn set_monitoring_enabled(store: &mut Store, enabled: bool, now: UnixTime) -> (r: Result<
    (),
    ServiceError,
>)
    requires
        presentable_time(now@),
    ensures
        final(store)@.history == old(store)@.history,
        final(store)@.operations == old(store)@.operations,
        final(store)@.manual_update == old(store)@.manual_update,
        final(store)@.scheduled_reconciliation == old(store)@.scheduled_reconciliation,
        ({
            let c = ConfigurationView {
                monitoring: if enabled {
                    GlobalMonitoringState::Enabled
                } else {
                    GlobalMonitoringState::Paused
                },
                ..old(store)@.configuration
            };
            match r {
                Ok(()) => final(store)@.configuration == (ConfigurationView {
                    next_run: final(store)@.configuration.next_run,
                    ..c
                }) && next_run_for(final(store)@.configuration.next_run, now@, c),
                Err(e) => scheduling_error(e, c) && final(store)@ == old(store)@,
            }
        }),
{
    let mut c = match store.reconciliation_configuration() {
        Ok(v) => v,
        Err(e) => return Err(ServiceError::Database(e.message())),
    };
    c.monitoring = if enabled {
        GlobalMonitoringState::Enabled
    } else {
        GlobalMonitoringState::Paused
    };
    c.next_run = match next_run_of(&c, now) {
        Ok(n) => n,
        Err(e) => return Err(e),
    };
    match store.save_reconciliation_configuration(&c) {
        Ok(()) => Ok(()),
        Err(e) => Err(ServiceError::Database(e.message())),
    }
}

/// Sets the Record Folder.
pub fn set_record_folder(store: &mut Store, path: String) -> (r: Result<(), ServiceError>)
    ensures
        r is Ok,
        final(store)@.configuration == (ConfigurationView {
            record_folder: Some(path@),
            ..old(store)@.configuration
        }),
        final(store)@.history == old(store)@.history,
        final(store)@.operations == old(store)@.operations,
        final(store)@.manual_update == old(store)@.manual_update,
        final(store)@.scheduled_reconciliation == old(store)@.scheduled_reconciliation,
{
    let mut c = match store.reconciliation_configuration() {
        Ok(v) => v,
        Err(e) => return Err(ServiceError::Database(e.message())),
    };
    c.record_folder = Some(path);
    match store.save_reconciliation_configuration(&c) {
        Ok(()) => Ok(()),
        Err(e) => Err(ServiceError::Database(e.message())),
    }
}

/// Saves a configuration with the next run that it schedules at `now`.
/// Nothing is saved when scheduling fails.
pub fn set_schedule(store: &mut Store, schedule: ReconciliationConfiguration, now: UnixTime) -> (r:
    Result<(), ServiceError>)
    requires
        presentable_time(now@),
    ensures
        final(store)@.history == old(store)@.history,
        final(store)@.operations == old(store)@.operations,
        final(store)@.manual_update == old(store)@.manual_update,
        final(store)@.scheduled_reconciliation == old(store)@.scheduled_reconciliation,
        match r {
            Ok(()) => final(store)@.configuration == (ConfigurationView {
                next_run: final(store)@.configuration.next_run,
                ..schedule@
            }) && next_run_for(final(store)@.configuration.next_run, now@, schedule@),
            Err(e) => scheduling_error(e, schedule@) && final(store)@ == old(store)@,
        },
{
    let mut schedule = schedule;
    schedule.next_run = match next_run_of(&schedule, now) {
        Ok(n) => n,
        Err(e) => return Err(e),
    };
    match store.save_reconciliation_configuration(&schedule) {
        Ok(()) => Ok(()),
        Err(e) => Err(ServiceError::Database(e.message())),
    }
}

/// Returns the reconciliation configuration.
pub fn get_schedule(store: &Store) -> (r: Result<ReconciliationConfiguration, ServiceError>)
    ensures
        r matches Ok(c) && c@ == store@.configuration,
{
    match store.reconciliation_configuration() {
        Ok(c) => Ok(c),
        Err(e) => Err(ServiceError::Database(e.message())),
    }
}

/// Saves, after a scheduled run, the next run that the configuration
/// schedules at `now`, in the configuration and in the scheduled status.
/// While monitoring is paused both become none. An invalid time of day
/// changes nothing, and neither does a failure of the local calendar; the
/// configuration is saved again with the next run it schedules, unless the
/// local calendar then fails.
pub fn persist_next_run(store: &mut Store, now: UnixTime)
    requires
        presentable_time(now@),
    ensures
        final(store)@.history == old(store)@.history,
        final(store)@.operations == old(store)@.operations,
        final(store)@.manual_update == old(store)@.manual_update,
        ({
            let c = old(store)@.configuration;
            let s = old(store)@.scheduled_reconciliation;
            if c.monitoring == GlobalMonitoringState::Paused {
                &&& final(store)@.configuration == (ConfigurationView { next_run: None, ..c })
                &&& final(store)@.scheduled_reconciliation == (crate::operations::ScheduledStatusView {
                    next_scheduled_run: None,
                    ..s
                })
            } else if c.time.hour > 23 || c.time.minute > 59 {
                final(store)@ == old(store)@
            } else {
                final(store)@ == old(store)@ || (exists|next: Option<int>|
                    #![trigger next_run_for(next, now@, c)]
                    next_run_for(next, now@, c) && final(store)@.scheduled_reconciliation == (
                    crate::operations::ScheduledStatusView { next_scheduled_run: next, ..s })
                        && (final(store)@.configuration == c || (final(store)@.configuration == (
                    ConfigurationView { next_run: final(store)@.configuration.next_run, ..c })
                        && next_run_for(final(store)@.configuration.next_run, now@, c))))
            }
        }),
{
    let configuration = match get_schedule(store) {
        Ok(c) => c,
        Err(_) => return
    };
    let next = match next_run_of(&configuration, now) {
        Ok(n) => n,
        Err(_) => return
    };
    let mut updated = configuration;
    updated.next_run = next;
    let _ = set_schedule(store, updated, now);
    let mut scheduled = match store.scheduled_reconciliation_status() {
        Ok(s) => s,
        Err(_) => return
    };
    scheduled.next_scheduled_run = next;
    let _ = store.save_scheduled_reconciliation_status(&scheduled);
}

/// The longest the scheduler waits before looking again, in nanoseconds.
pub open spec fn maximum_wait() -> int {
    60_000_000_000
}

/// How long the scheduler waits at `now` for a run at `next`: until then,
/// at once if it has passed, and never longer than a minute.
pub open spec fn wait_span(next: int, now: int) -> int {
    if next <= now {
        0
    } else if next - now > maximum_wait() {
        maximum_wait()
    } else {
        next - now
    }
}

/// Returns, in nanoseconds, how long the scheduler waits at `now` for a run
/// at `next`.
pub fn wait_nanos(next: UnixTime, now: UnixTime) -> (r: u64)
    ensures
        r == wait_span(next@, now@),
{
    let a: i128 = next.as_nanos();
    let b: i128 = now.as_nanos();
    if a <= b {
        0
    } else if a - b > 60_000_000_000 {
        60_000_000_000
    } else {
        (a - b) as u64
    }
}

/// What the scheduler does next.
#[derive(Debug)]
pub enum SchedulerDecision {
    /// Report paused and wait up to a minute for a change.
    Pause,
    /// Report failed and wait up to a minute for a change.
    Fail,
    /// Report updating and run the missed scheduled reconciliation of this
    /// time, then save the next run.
    CatchUp(UnixTime),
    /// Save `updated`, if any, report waiting, wait `wait_nanos`, and run
    /// the reconciliation of `next` if it is due by then.
    Wait { next: UnixTime, updated: Option<ReconciliationConfiguration>, wait_nanos: u64 },
}

/// The run the scheduler is due to make: the scheduled status's next run,
/// or else the configuration's.
pub open spec fn due_run(c: ConfigurationView, s: crate::operations::ScheduledStatusView) -> Option<
    int,
> {
    match s.next_scheduled_run {
        Some(t) => Some(t),
        None => c.next_run,
    }
}

/// Whether a due run was missed at `now`: its time has come and no
/// scheduled run succeeded since.
pub open spec fn missed(due: Option<int>, last_success: Option<int>, now: int) -> bool {
    &&& due is Some
    &&& due.unwrap() <= now
    &&& last_success matches Some(t) ==> t < due.unwrap()
}

/// Decides the scheduler's next step at `now`, given what looking up the
/// local UTC offset gave. While monitoring is paused it pauses. A missed run
/// is caught up first. An invalid time of day, a failed offset lookup or a
/// failed local calendar reports failure. Otherwise it waits for the next
/// run scheduled at that offset, saving it when it changed, and with no next
/// run it pauses.
pub fn scheduler_decision_at(store: &Store, now: UnixTime, offset: Result<i32, String>) -> (r:
    SchedulerDecision)
    requires
        presentable_time(now@),
        offset matches Ok(o) ==> -93_599 <= o <= 93_599,
    ensures
        ({
            let c = store@.configuration;
            let s = store@.scheduled_reconciliation;
            if c.monitoring == GlobalMonitoringState::Paused {
                r is Pause
            } else if missed(due_run(c, s), s.last_success, now@) {
                r matches SchedulerDecision::CatchUp(t) && t@ == due_run(c, s).unwrap()
            } else if c.time.hour > 23 || c.time.minute > 59 {
                r is Fail
            } else {
                match offset {
                    Err(_) => r is Fail,
                    Ok(o) => match next_run_from(now@, o as int, c.schedule, c.time.hour, c.time.minute, 0) {
                        Err(_) => r is Fail,
                        Ok(None) => r is Pause,
                        Ok(Some(t)) => r matches SchedulerDecision::Wait { next, updated, wait_nanos }
                            && next@ == t && wait_nanos == wait_span(t, now@) && if c.next_run == Some(t) {
                            updated is None
                        } else {
                            updated matches Some(u) && u@ == (ConfigurationView { next_run: Some(t), ..c })
                        },
                    },
                }
            }
        }),
{
    let configuration = match store.reconciliation_configuration() {
        Ok(c) => c,
        Err(_) => return SchedulerDecision::Fail,
    };
    let paused = match configuration.monitoring {
        GlobalMonitoringState::Paused => true,
        GlobalMonitoringState::Enabled => false,
    };
    if paused {
        return SchedulerDecision::Pause;
    }
    let scheduled = match store.scheduled_reconciliation_status() {
        Ok(s) => s,
        Err(_) => return SchedulerDecision::Fail,
    };
    let due = match scheduled.next_scheduled_run {
        Some(t) => Some(t),
        None => configuration.next_run,
    };
    match due {
        Some(d) => {
            let come = !now.is_earlier_than(&d);
            let unsucceeded = match scheduled.last_success {
                Some(t) => t.is_earlier_than(&d),
                None => true,
            };
            if come && unsucceeded {
                return SchedulerDecision::CatchUp(d);
            }
        },
        None => {},
    }
    if configuration.time.hour > 23 || configuration.time.minute > 59 {
        return SchedulerDecision::Fail;
    }
    let o = match offset {
        Ok(o) => o,
        Err(_) => return SchedulerDecision::Fail,
    };
    match next_run_at(&configuration, now, o) {
        Ok(Some(next)) => {
            let unchanged = match configuration.next_run {
                Some(t) => t.same_instant(&next),
                None => false,
            };
            let wait = wait_nanos(next, now);
            let updated = if unchanged {
                None
            } else {
                let mut u = configuration;
                u.next_run = Some(next);
                Some(u)
            };
            SchedulerDecision::Wait { next, updated, wait_nanos: wait }
        },
        Ok(None) => SchedulerDecision::Pause,
        Err(_) => SchedulerDecision::Fail,
    }
}

/// Decides the scheduler's next step at `now` at the system's local UTC
/// offset, as [`scheduler_decision_at`] does. While monitoring is paused it
/// pauses. A missed run is caught up first. Otherwise it waits for the next
/// run the configuration schedules, saving it when it changed; with no next
/// run it pauses; an invalid time of day, or a local calendar that cannot be
/// read, reports failure.
pub fn scheduler_decision(store: &Store, now: UnixTime) -> (r: SchedulerDecision)
    requires
        presentable_time(now@),
    ensures
        ({
            let c = store@.configuration;
            let s = store@.scheduled_reconciliation;
            if c.monitoring == GlobalMonitoringState::Paused {
                r is Pause
            } else if missed(due_run(c, s), s.last_success, now@) {
                r matches SchedulerDecision::CatchUp(t) && t@ == due_run(c, s).unwrap()
            } else {
                &&& (c.time.hour > 23 || c.time.minute > 59 ==> r is Fail)
                &&& match r {
                    SchedulerDecision::Pause => next_run_for(None, now@, c),
                    SchedulerDecision::Fail => true,
                    SchedulerDecision::Wait { next, updated, wait_nanos } => {
                        &&& next_run_for(Some(next@), now@, c)
                        &&& wait_nanos == wait_span(next@, now@)
                        &&& if c.next_run == Some(next@) {
                            updated is None
                        } else {
                            updated matches Some(u) && u@ == (ConfigurationView {
                                next_run: Some(next@),
                                ..c
                            })
                        }
                    },
                    SchedulerDecision::CatchUp(_) => false,
                }
            }
        }),
{
    let offset = crate::clock::local_offset_seconds(now);
    let ghost looked_up = offset;
    let r = scheduler_decision_at(store, now, offset);
    proof {
        let c = store@.configuration;
        if let Ok(o) = looked_up {
            if c.monitoring != GlobalMonitoringState::Paused && c.time.hour <= 23 && c.time.minute <= 59 {
                if let Ok(n) = next_run_from(now@, o as int, c.schedule, c.time.hour, c.time.minute, 0) {
                    assert(schedules(n, now@, c));
                }
            }
        }
    }
    r
}

} // verus!
