//! The decisions of the line protocol for portable shells: which command a
//! request names, how failures are coded, and the values a response shows.

use crate::operations::{GlobalMonitoringState, LocalReconciliationTime, ReconciliationSchedule};
use crate::service::{SchedulerLifecycle, ServiceError, ServiceStatus};
use crate::text::{decimal_text, first_occurrence_from, push_str};
use crate::model::UnixTime;
use vstd::prelude::*;

verus! {

/// The version of the line protocol.
pub const PROTOCOL_VERSION: u8 = 1;

/// A failed request as the protocol reports it: a stable code, a message,
/// and what caused it, if known.
#[derive(Clone, Debug, Eq, PartialEq)]
pub struct ProtocolFailure {
    pub code: String,
    pub message: String,
    pub cause: Option<String>,
}

/// A failure with a code, a message and no cause.
pub open spec fn plain_failure(f: ProtocolFailure, code: Seq<char>, message: Seq<char>) -> bool {
    f.code@ == code && f.message@ == message && f.cause is None
}

/// Returns a failure with a code, a message and no cause.
pub fn failure(code: &str, message: &str) -> (r: ProtocolFailure)
    ensures
        plain_failure(r, code@, message@),
{
    ProtocolFailure { code: code.to_owned(), message: message.to_owned(), cause: None }
}

/// The failure for a line that is not a JSON request, with the parser's
/// message as its cause.
pub fn invalid_json(cause: String) -> (r: ProtocolFailure)
    ensures
        r.code@ == "invalid_json"@,
        r.message@ == "invalid JSON request"@,
        r.cause == Some(cause),
{
    ProtocolFailure {
        code: "invalid_json".to_owned(),
        message: "invalid JSON request".to_owned(),
        cause: Some(cause),
    }
}

/// Checks a request's protocol version.
pub fn check_version(version: u8) -> (r: Result<(), ProtocolFailure>)
    ensures
        version == PROTOCOL_VERSION ==> r is Ok,
        version != PROTOCOL_VERSION ==> (r matches Err(f) && plain_failure(
            f,
            "invalid_request"@,
            "unsupported protocol version"@,
        )),
{
    if version == PROTOCOL_VERSION {
        Ok(())
    } else {
        Err(failure("invalid_request", "unsupported protocol version"))
    }
}

/// The failure for a required parameter that is missing or not a string.
pub fn missing_parameter(key: &str) -> (r: ProtocolFailure)
    ensures
        plain_failure(r, "invalid_request"@, key@ + " is required"@),
{
    let mut message = String::new();
    push_str(&mut message, key);
    push_str(&mut message, " is required");
    ProtocolFailure { code: "invalid_request".to_owned(), message, cause: None }
}

/// The commands of the protocol.
#[derive(Clone, Copy, Debug, Eq, PartialEq, Structural)]
pub enum HostCommand {
    Status,
    UpdateRecord,
    StartScheduler,
    StopScheduler,
    SchedulerStatus,
    Discover,
    ListSources,
    ConnectSource,
    DeclineSource,
    ListConnections,
    PauseConnection,
    ResumeConnection,
    DisconnectConnection,
    SetMonitoring,
    SetRecordFolder,
    SetSchedule,
    GetSchedule,
    Shutdown,
}

/// The command a request names, if the protocol has it.
pub open spec fn command_named(name: Seq<char>) -> Option<HostCommand> {
    if name == "status"@ {
        Some(HostCommand::Status)
    } else if name == "update_record"@ {
        Some(HostCommand::UpdateRecord)
    } else if name == "start_scheduler"@ {
        Some(HostCommand::StartScheduler)
    } else if name == "stop_scheduler"@ {
        Some(HostCommand::StopScheduler)
    } else if name == "scheduler_status"@ {
        Some(HostCommand::SchedulerStatus)
    } else if name == "discover"@ {
        Some(HostCommand::Discover)
    } else if name == "list_sources"@ {
        Some(HostCommand::ListSources)
    } else if name == "connect_source"@ {
        Some(HostCommand::ConnectSource)
    } else if name == "decline_source"@ {
        Some(HostCommand::DeclineSource)
    } else if name == "list_connections"@ {
        Some(HostCommand::ListConnections)
    } else if name == "pause_connection"@ {
        Some(HostCommand::PauseConnection)
    } else if name == "resume_connection"@ {
        Some(HostCommand::ResumeConnection)
    } else if name == "disconnect_connection"@ {
        Some(HostCommand::DisconnectConnection)
    } else if name == "set_monitoring"@ {
        Some(HostCommand::SetMonitoring)
    } else if name == "set_record_folder"@ {
        Some(HostCommand::SetRecordFolder)
    } else if name == "set_schedule"@ {
        Some(HostCommand::SetSchedule)
    } else if name == "get_schedule"@ {
        Some(HostCommand::GetSchedule)
    } else if name == "shutdown"@ {
        Some(HostCommand::Shutdown)
    } else {
        None
    }
}

/// Reads the command a request names; an unknown name is an unsupported
/// command.
pub fn host_command(name: &str) -> (r: Result<HostCommand, ProtocolFailure>)
    ensures
        match command_named(name@) {
            Some(c) => r == Ok::<HostCommand, ProtocolFailure>(c),
            None => r matches Err(f) && plain_failure(
                f,
                "unsupported_command"@,
                "unsupported command"@,
            ),
        },
{
    let is = |word: &str| -> (b: bool)
        ensures
            b == (name@ == word@),
        { crate::text::str_eq(name, word) };
    if is("status") {
        Ok(HostCommand::Status)
    } else if is("update_record") {
        Ok(HostCommand::UpdateRecord)
    } else if is("start_scheduler") {
        Ok(HostCommand::StartScheduler)
    } else if is("stop_scheduler") {
        Ok(HostCommand::StopScheduler)
    } else if is("scheduler_status") {
        Ok(HostCommand::SchedulerStatus)
    } else if is("discover") {
        Ok(HostCommand::Discover)
    } else if is("list_sources") {
        Ok(HostCommand::ListSources)
    } else if is("connect_source") {
        Ok(HostCommand::ConnectSource)
    } else if is("decline_source") {
        Ok(HostCommand::DeclineSource)
    } else if is("list_connections") {
        Ok(HostCommand::ListConnections)
    } else if is("pause_connection") {
        Ok(HostCommand::PauseConnection)
    } else if is("resume_connection") {
        Ok(HostCommand::ResumeConnection)
    } else if is("disconnect_connection") {
        Ok(HostCommand::DisconnectConnection)
    } else if is("set_monitoring") {
        Ok(HostCommand::SetMonitoring)
    } else if is("set_record_folder") {
        Ok(HostCommand::SetRecordFolder)
    } else if is("set_schedule") {
        Ok(HostCommand::SetSchedule)
    } else if is("get_schedule") {
        Ok(HostCommand::GetSchedule)
    } else if is("shutdown") {
        Ok(HostCommand::Shutdown)
    } else {
        Err(failure("unsupported_command", "unsupported command"))
    }
}

/// Whether `pattern` occurs in `s`.
pub open spec fn contains_text(s: Seq<char>, pattern: Seq<char>) -> bool {
    first_occurrence_from(s, pattern, 0) is Some
}

/// Whether a text holds a pattern.
fn holds(s: &str, pattern: &str) -> (r: bool)
    ensures
        r == contains_text(s@, pattern@),
{
    let v = crate::text::chars_of(s);
    let p = crate::text::chars_of(pattern);
    crate::text::find_from(&v, &p, 0).is_some()
}

/// The code and message that a service error becomes.
pub open spec fn error_code(error: ServiceError) -> (Seq<char>, Seq<char>) {
    match error {
        ServiceError::UpdateAlreadyRunning => (
            "update_already_running"@,
            "Update Record already running"@,
        ),
        ServiceError::SchedulerAlreadyRunning => (
            "scheduler_already_running"@,
            "scheduler already running"@,
        ),
        ServiceError::SchedulerNotRunning => ("scheduler_not_running"@, "scheduler is not running"@),
        ServiceError::UnknownSource => ("unknown_source"@, "unknown source"@),
        ServiceError::UnknownConnection => ("unknown_connection"@, "unknown connection"@),
        ServiceError::Database(_) => ("service_unavailable"@, "service unavailable"@),
        ServiceError::Agent(m) => if contains_text(m@, "no Record Folder"@) {
            ("missing_record_folder"@, "no Record Folder configured"@)
        } else if contains_text(m@, "invalid connection transition"@) {
            ("invalid_transition"@, "invalid connection transition"@)
        } else {
            ("operation_failed"@, "service operation failed"@)
        },
        _ => ("operation_failed"@, "service operation failed"@),
    }
}

/// Codes a service error for the protocol; no cause is reported.
pub fn map_error(error: ServiceError) -> (r: ProtocolFailure)
    ensures
        plain_failure(r, error_code(error).0, error_code(error).1),
{
    match error {
        ServiceError::UpdateAlreadyRunning => failure(
            "update_already_running",
            "Update Record already running",
        ),
        ServiceError::SchedulerAlreadyRunning => failure(
            "scheduler_already_running",
            "scheduler already running",
        ),
        ServiceError::SchedulerNotRunning => failure(
            "scheduler_not_running",
            "scheduler is not running",
        ),
        ServiceError::UnknownSource => failure("unknown_source", "unknown source"),
        ServiceError::UnknownConnection => failure("unknown_connection", "unknown connection"),
        ServiceError::Database(_) => failure("service_unavailable", "service unavailable"),
        ServiceError::Agent(message) => {
            if holds(message.as_str(), "no Record Folder") {
                failure("missing_record_folder", "no Record Folder configured")
            } else if holds(message.as_str(), "invalid connection transition") {
                failure("invalid_transition", "invalid connection transition")
            } else {
                failure("operation_failed", "service operation failed")
            }
        },
        _ => failure("operation_failed", "service operation failed"),
    }
}

/// The whole seconds since the epoch that the protocol shows for a time;
/// nothing for a time before the epoch.
pub open spec fn time_seconds(value: Option<int>) -> Option<int> {
    match value {
        Some(t) => if t >= 0 {
            Some(t / 1_000_000_000)
        } else {
            None
        },
        None => None,
    }
}

/// Returns the whole seconds since the epoch of a time, or nothing for no
/// time or a time before the epoch.
pub fn time_json(value: Option<UnixTime>) -> (r: Option<u64>)
    ensures
        match time_seconds(crate::operations::opt_time(value)) {
            Some(s) => r == Some(s as u64) && s == r.unwrap(),
            None => r is None,
        },
{
    match value {
        Some(t) => if t.is_before_epoch() {
            None
        } else {
            Some(t.whole_seconds())
        },
        None => None,
    }
}

/// Whether the status needs a person's attention: no Record Folder, a
/// source awaiting consent, or an error from the last manual or scheduled
/// run.
pub fn attention_required(status: &ServiceStatus) -> (r: bool)
    ensures
        r == (status.configuration.record_folder is None || status.awaiting_consent > 0
            || status.manual_update.last_error is Some
            || status.scheduled_reconciliation.last_error is Some),
{
    status.configuration.record_folder.is_none() || status.awaiting_consent > 0
        || status.manual_update.last_error.is_some()
        || status.scheduled_reconciliation.last_error.is_some()
}

/// The name of a monitoring state as debugging output writes it.
pub open spec fn monitoring_name(m: GlobalMonitoringState) -> Seq<char> {
    match m {
        GlobalMonitoringState::Enabled => "Enabled"@,
        GlobalMonitoringState::Paused => "Paused"@,
    }
}

/// Returns the name of a monitoring state as debugging output writes it.
pub fn monitoring_debug(m: GlobalMonitoringState) -> (r: &'static str)
    ensures
        r@ == monitoring_name(m),
{
    match m {
        GlobalMonitoringState::Enabled => "Enabled",
        GlobalMonitoringState::Paused => "Paused",
    }
}

/// The name of a scheduler lifecycle as debugging output writes it.
pub open spec fn lifecycle_name(l: SchedulerLifecycle) -> Seq<char> {
    match l {
        SchedulerLifecycle::Stopped => "Stopped"@,
        SchedulerLifecycle::Paused => "Paused"@,
        SchedulerLifecycle::Waiting => "Waiting"@,
        SchedulerLifecycle::Updating => "Updating"@,
        SchedulerLifecycle::Failed => "Failed"@,
    }
}

/// Returns the name of a scheduler lifecycle as debugging output writes it.
pub fn lifecycle_debug(l: SchedulerLifecycle) -> (r: &'static str)
    ensures
        r@ == lifecycle_name(l),
{
    match l {
        SchedulerLifecycle::Stopped => "Stopped",
        SchedulerLifecycle::Paused => "Paused",
        SchedulerLifecycle::Waiting => "Waiting",
        SchedulerLifecycle::Updating => "Updating",
        SchedulerLifecycle::Failed => "Failed",
    }
}

/// A schedule as debugging output writes it.
pub open spec fn schedule_name(s: ReconciliationSchedule) -> Seq<char> {
    match s {
        ReconciliationSchedule::Daily => "Daily"@,
        ReconciliationSchedule::Weekdays => "Weekdays"@,
        ReconciliationSchedule::Selected(mask) => "Selected("@ + decimal_text(mask as nat) + ")"@,
    }
}

/// Writes a schedule as debugging output writes it.
pub fn schedule_debug(s: ReconciliationSchedule) -> (r: String)
    ensures
        r@ == schedule_name(s),
{
    match s {
        ReconciliationSchedule::Daily => "Daily".to_owned(),
        ReconciliationSchedule::Weekdays => "Weekdays".to_owned(),
        ReconciliationSchedule::Selected(mask) => {
            let mut t = String::new();
            push_str(&mut t, "Selected(");
            crate::text::push_decimal(&mut t, mask as u64);
            push_str(&mut t, ")");
            t
        },
    }
}

/// A time of day as two-digit hours and minutes.
pub open spec fn time_of_day_text(t: LocalReconciliationTime) -> Seq<char> {
    crate::cli::zero_padded(t.hour as nat, 2) + ":"@ + crate::cli::zero_padded(t.minute as nat, 2)
}

/// Writes a time of day as two-digit hours and minutes.
pub fn time_of_day(t: LocalReconciliationTime) -> (r: String)
    ensures
        r@ == time_of_day_text(t),
{
    let mut s = String::new();
    crate::cli::push_zero_padded(&mut s, t.hour as u64, 2);
    push_str(&mut s, ":");
    crate::cli::push_zero_padded(&mut s, t.minute as u64, 2);
    s
}

} // verus!
