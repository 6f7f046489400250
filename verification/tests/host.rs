use schomburg::host::{
    check_version, host_command, map_error, missing_parameter, schedule_debug, time_json,
    time_of_day, HostCommand, PROTOCOL_VERSION,
};
use schomburg::model::UnixTime;
use schomburg::operations::{LocalReconciliationTime, ReconciliationSchedule};
use schomburg::service::ServiceError;

#[test]
fn commands_are_named_and_unknown_ones_are_unsupported() {
    assert_eq!(host_command("status").expect("status"), HostCommand::Status);
    assert_eq!(
        host_command("disconnect_connection").expect("disconnect"),
        HostCommand::DisconnectConnection
    );
    let unsupported = host_command("nope").expect_err("unsupported");
    assert_eq!(unsupported.code, "unsupported_command");
    assert_eq!(unsupported.message, "unsupported command");
    assert_eq!(unsupported.cause, None);
}

#[test]
fn only_the_current_protocol_version_is_served() {
    assert!(check_version(PROTOCOL_VERSION).is_ok());
    let refused = check_version(2).expect_err("refused");
    assert_eq!(refused.code, "invalid_request");
    assert_eq!(refused.message, "unsupported protocol version");
}

#[test]
fn service_errors_map_to_stable_codes() {
    assert_eq!(map_error(ServiceError::UnknownSource).code, "unknown_source");
    assert_eq!(map_error(ServiceError::UnknownConnection).code, "unknown_connection");
    assert_eq!(
        map_error(ServiceError::Database("disk".to_owned())).message,
        "service unavailable"
    );
    assert_eq!(
        map_error(ServiceError::Agent("agent error: no Record Folder configured".to_owned())).code,
        "missing_record_folder"
    );
    assert_eq!(
        map_error(ServiceError::Agent(
            "agent storage error: invalid connection transition for c".to_owned()
        ))
        .code,
        "invalid_transition"
    );
    assert_eq!(
        map_error(ServiceError::Agent("other".to_owned())).code,
        "operation_failed"
    );
    assert_eq!(
        map_error(ServiceError::PlatformUnavailable).code,
        "operation_failed"
    );
    assert_eq!(missing_parameter("folder").message, "folder is required");
}

#[test]
fn times_show_whole_seconds_after_the_epoch_only() {
    assert_eq!(time_json(Some(UnixTime::from_unix_seconds(1_700_000_000))), Some(1_700_000_000));
    assert_eq!(time_json(Some(UnixTime::from_unix_seconds(-1))), None);
    assert_eq!(time_json(None), None);
    assert_eq!(
        time_of_day(LocalReconciliationTime { hour: 8, minute: 5 }),
        "08:05"
    );
    assert_eq!(schedule_debug(ReconciliationSchedule::Selected(5)), "Selected(5)");
    assert_eq!(schedule_debug(ReconciliationSchedule::Weekdays), "Weekdays");
}
