use schomburg::agent::AgentError;
use schomburg::model::UnixTime;
use schomburg::operations::{
    ConnectionId, DiscoveredSourceId, GlobalMonitoringState, LocalReconciliationTime,
    ReconciliationSchedule,
};
use schomburg::records::{decode_configuration, stored_configuration};
use schomburg::service::{
    get_schedule, map_agent, persist_next_run, scheduler_decision, scheduler_decision_at,
    scheduler_status,
    set_monitoring_enabled, set_record_folder, set_schedule, status, wait_nanos,
    SchedulerDecision, SchedulerLifecycle, ServiceError,
};
use schomburg::store::{Store, StoreError};

fn now() -> UnixTime {
    UnixTime::from_unix_seconds(1_700_000_000)
}

#[test]
fn opens_persists_configuration_and_reports_status() {
    let mut store = Store::open_in_memory().expect("store");
    set_record_folder(&mut store, "/tmp/records".to_owned()).expect("folder");
    set_monitoring_enabled(&mut store, true, now()).expect("monitoring");
    let mut configuration = get_schedule(&store).expect("schedule");
    configuration.schedule = ReconciliationSchedule::Weekdays;
    configuration.time = LocalReconciliationTime {
        hour: 18,
        minute: 30,
    };
    set_schedule(&mut store, configuration, now()).expect("save schedule");
    let report = status(&store, false).expect("status");
    assert_eq!(
        report.configuration.record_folder.as_deref(),
        Some("/tmp/records")
    );
    assert_eq!(report.configuration.monitoring, GlobalMonitoringState::Enabled);
    assert_eq!(report.configuration.schedule, ReconciliationSchedule::Weekdays);
    assert!(report.configuration.next_run.is_some());
    assert_eq!(report.connected_sources, 0);
    assert_eq!(report.awaiting_consent, 0);
    assert!(!report.update_running);

    let row = stored_configuration(&get_schedule(&store).expect("saved"));
    let reopened = decode_configuration(row).expect("reopen");
    assert_eq!(reopened.record_folder.as_deref(), Some("/tmp/records"));
    assert_eq!(reopened.time, LocalReconciliationTime { hour: 18, minute: 30 });
}

#[test]
fn pausing_monitoring_clears_the_next_run() {
    let mut store = Store::open_in_memory().expect("store");
    set_monitoring_enabled(&mut store, true, now()).expect("enable");
    set_monitoring_enabled(&mut store, false, now()).expect("pause");
    let configuration = get_schedule(&store).expect("schedule");
    assert_eq!(configuration.monitoring, GlobalMonitoringState::Paused);
    assert_eq!(configuration.next_run, None);
}

#[test]
fn an_invalid_time_of_day_is_refused_without_saving() {
    let mut store = Store::open_in_memory().expect("store");
    let mut configuration = get_schedule(&store).expect("schedule");
    configuration.monitoring = GlobalMonitoringState::Enabled;
    configuration.time = LocalReconciliationTime { hour: 25, minute: 0 };
    assert!(matches!(
        set_schedule(&mut store, configuration, now()),
        Err(ServiceError::Agent(m)) if m == "invalid local reconciliation time"
    ));
    assert_eq!(
        get_schedule(&store).expect("schedule").time,
        LocalReconciliationTime { hour: 9, minute: 0 }
    );
}

#[test]
fn the_scheduler_pauses_while_monitoring_is_paused() {
    let store = Store::open_in_memory().expect("store");
    assert!(matches!(scheduler_decision(&store, now()), SchedulerDecision::Pause));
}

#[test]
fn the_scheduler_catches_up_one_due_run() {
    let mut store = Store::open_in_memory().expect("store");
    set_record_folder(&mut store, "records".to_owned()).expect("folder");
    set_monitoring_enabled(&mut store, true, now()).expect("enable");
    let mut configuration = store.reconciliation_configuration().expect("configuration");
    let due = UnixTime::from_unix_seconds(1_699_999_999);
    configuration.next_run = Some(due);
    store
        .save_reconciliation_configuration(&configuration)
        .expect("due run");
    assert!(matches!(
        scheduler_decision(&store, now()),
        SchedulerDecision::CatchUp(t) if t == due
    ));
    persist_next_run(&mut store, now());
    let scheduled = store.scheduled_reconciliation_status().expect("status");
    let next = scheduled.next_scheduled_run.expect("next run");
    assert!(!next.is_earlier_than(&now()));
    assert!(matches!(
        scheduler_decision(&store, now()),
        SchedulerDecision::Wait { next: n, .. } if n == next
    ));
}

#[test]
fn waits_never_exceed_a_minute() {
    assert_eq!(wait_nanos(UnixTime::from_unix_seconds(5), UnixTime::from_unix_seconds(10)), 0);
    assert_eq!(
        wait_nanos(UnixTime::from_unix_seconds(12), UnixTime::from_unix_seconds(10)),
        2_000_000_000
    );
    assert_eq!(
        wait_nanos(UnixTime::from_unix_seconds(1_000), UnixTime::from_unix_seconds(10)),
        60_000_000_000
    );
}

#[test]
fn unknown_ids_use_the_service_boundary() {
    assert!(matches!(
        map_agent(AgentError::Store(StoreError::MissingDiscoveredSource(
            DiscoveredSourceId::new("missing")
        ))),
        ServiceError::UnknownSource
    ));
    assert!(matches!(
        map_agent(AgentError::Store(StoreError::MissingConnection(ConnectionId::new(
            "missing"
        )))),
        ServiceError::UnknownConnection
    ));
    let other = map_agent(AgentError::NoRecordFolder);
    assert!(matches!(other, ServiceError::Agent(ref m) if m == "no Record Folder configured"));
    assert_eq!(
        other.message(),
        "service operation failed: no Record Folder configured"
    );
}

#[test]
fn scheduler_status_prefers_the_scheduled_next_run() {
    let mut store = Store::open_in_memory().expect("store");
    let mut scheduled = store.scheduled_reconciliation_status().expect("scheduled");
    scheduled.next_scheduled_run = Some(UnixTime::from_unix_seconds(7));
    store
        .save_scheduled_reconciliation_status(&scheduled)
        .expect("save");
    let mut configuration = store.reconciliation_configuration().expect("configuration");
    configuration.next_run = Some(UnixTime::from_unix_seconds(9));
    store
        .save_reconciliation_configuration(&configuration)
        .expect("save");
    let report = scheduler_status(
        status(&store, true).expect("status"),
        true,
        SchedulerLifecycle::Waiting,
    );
    assert_eq!(report.next_run, Some(UnixTime::from_unix_seconds(7)));
    assert!(report.running);
    assert!(report.update_running);
    assert_eq!(report.lifecycle, SchedulerLifecycle::Waiting);
}

#[test]
fn persisting_while_paused_clears_both_next_runs() {
    let mut store = Store::open_in_memory().expect("store");
    let mut configuration = get_schedule(&store).expect("schedule");
    configuration.next_run = Some(now());
    store.save_reconciliation_configuration(&configuration).expect("save");
    let mut scheduled = store.scheduled_reconciliation_status().expect("scheduled");
    scheduled.next_scheduled_run = Some(now());
    store.save_scheduled_reconciliation_status(&scheduled).expect("save scheduled");
    persist_next_run(&mut store, now());
    assert_eq!(get_schedule(&store).expect("schedule").next_run, None);
    assert_eq!(
        store.scheduled_reconciliation_status().expect("scheduled").next_scheduled_run,
        None
    );
}

#[test]
fn the_scheduler_fails_only_on_a_bad_time_or_calendar() {
    let mut store = Store::open_in_memory().expect("store");
    let mut configuration = get_schedule(&store).expect("schedule");
    configuration.monitoring = GlobalMonitoringState::Enabled;
    store.save_reconciliation_configuration(&configuration).expect("save");
    let monday_midnight = UnixTime::from_unix_seconds(1_704_067_200);
    assert!(matches!(
        scheduler_decision_at(&store, monday_midnight, Err("no offset".to_owned())),
        SchedulerDecision::Fail
    ));
    match scheduler_decision_at(&store, monday_midnight, Ok(0)) {
        SchedulerDecision::Wait { next, updated, .. } => {
            assert_eq!(next, UnixTime::from_unix_seconds(1_704_067_200 + 9 * 3_600));
            assert_eq!(updated.expect("new next run").next_run, Some(next));
        }
        other => panic!("unexpected decision {other:?}"),
    }
    configuration.time = LocalReconciliationTime { hour: 24, minute: 0 };
    store.save_reconciliation_configuration(&configuration).expect("save");
    assert!(matches!(
        scheduler_decision_at(&store, monday_midnight, Ok(0)),
        SchedulerDecision::Fail
    ));
}
