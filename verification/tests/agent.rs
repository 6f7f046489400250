use schomburg::agent::{
    record_candidates, next_eligible_run, next_run_at, parse_local_time, parse_schedule, Agent, AgentError,
    UpdateRecordRunKind,
};
use schomburg::connector::{
    Connector, ConnectorCapabilities, ConnectorCapability, ConnectorDescriptor, ConnectorError,
    ConnectorExtension, DiscoveredSourceCandidate, EventSink, ExtensionError,
};
use schomburg::model::{
    CaptureTimestamp, ConnectorId, Event, EventId, EventKind, EventPayload, EventTimestamp,
    Metadata, SchemaVersion, Source, SourceReference, UnixTime,
};
use schomburg::operations::{
    ConnectionStatus, DiscoveredSourceId, DiscoveryStatus, GlobalMonitoringState,
    LocalReconciliationTime, ReconciliationConfiguration, ReconciliationCounts,
    ReconciliationSchedule, ReconciliationState,
};
use schomburg::records::{decode_configuration, stored_configuration};
use schomburg::service::{map_agent, status, ServiceError};
use schomburg::sorted_map::TextMap;
use schomburg::store::{Store, StoreError};

fn descriptor() -> ConnectorDescriptor {
    ConnectorDescriptor::new(
        ConnectorId::new("fixture"),
        ConnectorCapabilities::new(vec![ConnectorCapability::new("capture.events")]),
    )
}

fn event(id: &str, seconds: i64) -> Event {
    Event::new(
        EventId::new(id),
        EventTimestamp::new(UnixTime::from_unix_seconds(seconds)),
        Source::new(ConnectorId::new("fixture"), SourceReference::new(id)),
        EventKind::new("fixture.event"),
        EventPayload::new(Vec::new(), None, Metadata::new()),
        CaptureTimestamp::new(UnixTime::from_unix_seconds(seconds)),
        SchemaVersion::new("1"),
    )
}

struct FixtureConnection {
    descriptor: ConnectorDescriptor,
    events: Vec<Event>,
}

impl Connector for FixtureConnection {
    fn descriptor(&self) -> &ConnectorDescriptor {
        &self.descriptor
    }

    fn collect<S: EventSink>(&mut self, sink: &mut S) -> Result<(), ConnectorError> {
        for event in std::mem::take(&mut self.events) {
            match sink.accept(event) {
                Ok(()) | Err(schomburg::connector::EventAcceptanceError::DuplicateEventId(_)) => {}
                Err(error) => return Err(ConnectorError::EventRejected(error)),
            }
        }
        Ok(())
    }
}

struct FixtureExtension {
    id: ConnectorId,
}

impl ConnectorExtension for FixtureExtension {
    type Connection = FixtureConnection;

    fn connector_id(&self) -> &ConnectorId {
        &self.id
    }

    fn descriptor(&self) -> ConnectorDescriptor {
        descriptor()
    }

    fn discover(&self, roots: &[String]) -> Result<Vec<DiscoveredSourceCandidate>, ExtensionError> {
        Ok(roots
            .iter()
            .map(|root| {
                DiscoveredSourceCandidate::new(
                    ConnectorId::new("fixture"),
                    root,
                    root,
                    Some(root.clone()),
                    TextMap::new(),
                    root,
                )
            })
            .collect())
    }

    fn open_connection(&self, configuration: &str) -> Result<FixtureConnection, ExtensionError> {
        if configuration == "broken" {
            return Err(ExtensionError::ConnectionFailed {
                message: "cannot open".to_owned(),
            });
        }
        Ok(FixtureConnection {
            descriptor: descriptor(),
            events: vec![event(&format!("{configuration}-1"), 10)],
        })
    }
}

fn agent(store: Store) -> Agent<FixtureExtension> {
    Agent::new(
        store,
        vec![FixtureExtension {
            id: ConnectorId::new("fixture"),
        }],
    )
}

fn configuration(schedule: ReconciliationSchedule, hour: u8, minute: u8) -> ReconciliationConfiguration {
    ReconciliationConfiguration {
        monitoring: GlobalMonitoringState::Enabled,
        record_folder: None,
        schedule,
        time: LocalReconciliationTime { hour, minute },
        last_attempt: None,
        last_success: None,
        next_run: None,
        last_error: None,
        counts: ReconciliationCounts::default(),
        state: ReconciliationState::Idle,
    }
}

#[test]
fn schedule_parsing_and_paused_behavior_are_explicit() {
    assert!(parse_local_time("24:00").is_err());
    assert!(parse_schedule("mon,bad").is_err());
    assert!(parse_schedule("").is_err());
    let mut paused = configuration(ReconciliationSchedule::Daily, 9, 0);
    paused.monitoring = GlobalMonitoringState::Paused;
    assert_eq!(
        next_eligible_run(&paused, UnixTime::epoch()).expect("paused"),
        None
    );
}

#[test]
fn local_times_and_weekday_lists_parse_exactly() {
    assert_eq!(
        parse_local_time("09:30").expect("time"),
        LocalReconciliationTime { hour: 9, minute: 30 }
    );
    assert!(matches!(parse_local_time("9:3x"), Err(AgentError::InvalidLocalTime)));
    assert!(matches!(parse_local_time("12:60"), Err(AgentError::InvalidLocalTime)));
    assert_eq!(parse_schedule("daily").expect("daily"), ReconciliationSchedule::Daily);
    assert_eq!(
        parse_schedule("weekdays").expect("weekdays"),
        ReconciliationSchedule::Weekdays
    );
    assert_eq!(
        parse_schedule("mon,wed").expect("days"),
        ReconciliationSchedule::Selected(0b101)
    );
    assert!(matches!(parse_schedule("mon,bad"), Err(AgentError::InvalidWeekdays)));
}

#[test]
fn invalid_schedule_times_are_refused_while_monitoring() {
    let config = configuration(ReconciliationSchedule::Daily, 24, 0);
    assert!(matches!(
        next_eligible_run(&config, UnixTime::epoch()),
        Err(AgentError::InvalidLocalTime)
    ));
}

#[test]
fn next_eligible_run_lies_ahead_of_now() {
    let now = UnixTime::from_unix_seconds(1_700_000_000);
    let config = configuration(ReconciliationSchedule::Daily, 9, 0);
    let next = next_eligible_run(&config, now).expect("schedule").expect("a run");
    assert!(!next.is_earlier_than(&now));
    assert!(next.is_earlier_than(&UnixTime::from_unix_seconds(1_700_000_000 + 2 * 86_400)));
}

#[test]
fn discovery_consent_and_collection_over_fixture_sources() {
    let store = Store::open_in_memory().expect("store");
    let mut agent = agent(store);
    let roots = vec!["one".to_owned(), "two".to_owned()];
    assert_eq!(agent.discover(&roots).expect("discover"), 2);
    assert!(agent.store().list_events().expect("events").is_empty());
    assert_eq!(agent.discover(&roots).expect("again"), 2);
    let sources = agent.store().list_discovered_sources().expect("sources");
    assert_eq!(sources.len(), 2);
    assert!(sources
        .iter()
        .all(|s| s.status == DiscoveryStatus::AwaitingDecision));
    agent.decline(&sources[0].id).expect("decline");
    let connection = agent.approve(&sources[1].id).expect("approve");
    assert!(connection.as_str().starts_with("connection:source:fixture:two:"));
    assert!(matches!(
        agent.approve(&sources[1].id),
        Err(AgentError::Store(StoreError::ConnectionAlreadyApproved(_)))
    ));
    let report = agent.collect_once().expect("collect");
    assert_eq!(report.imported, 1);
    assert_eq!(agent.store().list_events().expect("events").len(), 1);
    assert_eq!(agent.collect_once().expect("repeat").imported, 0);
    agent
        .set_status(&connection, ConnectionStatus::Paused)
        .expect("pause");
    assert_eq!(agent.collect_once().expect("paused").skipped, 1);
    agent
        .set_status(&connection, ConnectionStatus::Disconnected)
        .expect("disconnect");
    assert!(matches!(
        agent.set_status(&connection, ConnectionStatus::Enabled),
        Err(AgentError::Store(StoreError::InvalidConnectionTransition { .. }))
    ));
    assert!(matches!(
        agent.approve(&DiscoveredSourceId::new("missing")),
        Err(AgentError::Store(StoreError::MissingDiscoveredSource(_)))
    ));
}

#[test]
fn a_connection_that_cannot_open_counts_as_failed() {
    let store = Store::open_in_memory().expect("store");
    let mut agent = agent(store);
    agent.discover(&["broken".to_owned()]).expect("discover");
    let source = agent.store().list_discovered_sources().expect("sources").remove(0);
    let connection = agent.approve(&source.id).expect("approve");
    let report = agent.collect_once().expect("collect");
    assert_eq!(report.failed, 1);
    assert_eq!(report.imported, 0);
    let record = agent
        .store()
        .get_connection(&connection)
        .expect("get")
        .expect("connection");
    assert_eq!(
        record.last_error.as_deref(),
        Some("connection failed: cannot open")
    );
    assert!(record.last_attempt.is_some());
    assert!(record.last_success.is_none());
}

#[test]
fn update_record_requires_folder_and_respects_pause() {
    let store = Store::open_in_memory().expect("store");
    let mut agent = agent(store);
    assert!(matches!(
        agent.begin_update_record(false, UpdateRecordRunKind::ManualUpdate),
        Err(AgentError::NoRecordFolder)
    ));
    let mut config = agent.store().reconciliation_configuration().expect("config");
    config.record_folder = Some("schomburg-agent-update-test".to_owned());
    let mut store = agent.into_store();
    store.save_reconciliation_configuration(&config).expect("save");
    let mut agent = self::agent(store);
    assert!(matches!(
        agent.begin_update_record(false, UpdateRecordRunKind::ManualUpdate),
        Err(AgentError::MonitoringPaused)
    ));
    let mut run = agent
        .begin_update_record(true, UpdateRecordRunKind::ManualUpdate)
        .expect("forced");
    agent.collect_for_update(&mut run).expect("collect");
    assert!(agent.new_events(&run).expect("new events").is_empty());
    let result = agent.finish_update_record(run).expect("finish");
    assert_eq!(result.imported, 0);
    let saved = agent.store().reconciliation_configuration().expect("config");
    assert_eq!(saved.monitoring, GlobalMonitoringState::Paused);
    assert_eq!(saved.state, ReconciliationState::Succeeded);
    let manual = agent.store().manual_update_status().expect("manual");
    assert!(manual.last_success.is_some());
    assert!(agent
        .store()
        .scheduled_reconciliation_status()
        .expect("scheduled")
        .last_success
        .is_none());
}

#[test]
fn a_failed_scheduled_run_records_its_error() {
    let mut store = Store::open_in_memory().expect("store");
    let mut config = store.reconciliation_configuration().expect("config");
    config.record_folder = Some("records".to_owned());
    config.monitoring = GlobalMonitoringState::Enabled;
    store.save_reconciliation_configuration(&config).expect("save");
    let mut agent = agent(store);
    let run = agent
        .begin_update_record(
            false,
            UpdateRecordRunKind::ScheduledDailyReconciliation {
                eligible_local_date: "2024-01-02".to_owned(),
            },
        )
        .expect("begin");
    let error = agent.fail_update_record(&run, AgentError::Presenter("disk full".to_owned()));
    assert!(matches!(error, AgentError::Presenter(_)));
    let scheduled = agent.store().scheduled_reconciliation_status().expect("scheduled");
    assert_eq!(scheduled.state, ReconciliationState::Failed);
    assert_eq!(
        scheduled.last_error.as_deref(),
        Some("record generation failed: disk full")
    );
    assert!(agent.store().manual_update_status().expect("manual").last_attempt.is_none());
}

#[test]
fn new_events_since_a_run_began_are_listed() {
    let mut store = Store::open_in_memory().expect("store");
    let mut config = store.reconciliation_configuration().expect("config");
    config.record_folder = Some("records".to_owned());
    store.save_reconciliation_configuration(&config).expect("save");
    let mut agent = agent(store);
    agent.discover(&["repo".to_owned()]).expect("discover");
    let source = agent.store().list_discovered_sources().expect("sources").remove(0);
    agent.approve(&source.id).expect("approve");
    let mut run = agent
        .begin_update_record(true, UpdateRecordRunKind::ManualUpdate)
        .expect("begin");
    agent.collect_for_update(&mut run).expect("collect");
    let events = agent.new_events(&run).expect("new");
    assert_eq!(events.len(), 1);
    assert_eq!(events[0].id().as_str(), "repo-1");
    assert_eq!(run.result().imported, 1);
    let result = agent.finish_update_record(run).expect("finish");
    assert_eq!(result.imported, 1);
    assert_eq!(
        agent.store().reconciliation_configuration().expect("config").counts.imported,
        1
    );
}

#[test]
fn configuration_persists_without_affecting_evidence() {
    let mut store = Store::open_in_memory().expect("store");
    let mut config = store.reconciliation_configuration().expect("default");
    assert_eq!(config.monitoring, GlobalMonitoringState::Paused);
    config.monitoring = GlobalMonitoringState::Enabled;
    config.record_folder = Some("/tmp/records".to_owned());
    config.schedule = parse_schedule("mon,wed").expect("days");
    config.time = parse_local_time("09:30").expect("time");
    config.last_error = Some("failure".to_owned());
    config.counts.imported = 2;
    store.save_reconciliation_configuration(&config).expect("save");
    let row = stored_configuration(&store.reconciliation_configuration().expect("saved"));
    let loaded = decode_configuration(row).expect("load");
    assert_eq!(loaded, config);
    assert!(store.list_events().expect("events").is_empty());
}

#[test]
fn update_requires_record_folder_without_leaking_store_error() {
    let mut agent = agent(Store::open_in_memory().expect("store"));
    let error = agent
        .begin_update_record(true, UpdateRecordRunKind::ManualUpdate)
        .err()
        .expect("no Record Folder");
    assert!(
        matches!(map_agent(error), ServiceError::Agent(message) if message.contains("no Record Folder"))
    );
}

#[test]
fn manual_update_writes_only_manual_operational_status() {
    let mut store = Store::open_in_memory().expect("store");
    let mut config = store.reconciliation_configuration().expect("config");
    config.record_folder = Some("records".to_owned());
    store.save_reconciliation_configuration(&config).expect("folder");
    let mut agent = agent(store);
    let mut run = agent
        .begin_update_record(true, UpdateRecordRunKind::ManualUpdate)
        .expect("manual update");
    agent.collect_for_update(&mut run).expect("collect");
    agent.finish_update_record(run).expect("finish");
    let report = status(agent.store(), false).expect("status");
    assert!(report.manual_update.last_success.is_some());
    assert!(report.scheduled_reconciliation.last_success.is_none());
    assert!(report
        .scheduled_reconciliation
        .last_reconciled_local_date
        .is_none());
}

#[test]
fn a_connection_without_an_extension_fails_as_unsupported() {
    let mut agent = agent(Store::open_in_memory().expect("store"));
    agent.discover(&["repo".to_owned()]).expect("discover");
    let source = agent.store().list_discovered_sources().expect("sources").remove(0);
    let connection = agent.approve(&source.id).expect("approve");
    let mut other = Agent::new(
        agent.into_store(),
        vec![FixtureExtension {
            id: ConnectorId::new("other"),
        }],
    );
    let report = other.collect_once().expect("collect");
    assert_eq!((report.imported, report.failed, report.skipped), (0, 1, 0));
    let record = other
        .store()
        .get_connection(&connection)
        .expect("get")
        .expect("connection");
    assert_eq!(record.last_error.as_deref(), Some("unsupported connector"));
    assert!(record.last_attempt.is_some());
    assert!(other.store().list_events().expect("events").is_empty());
}

#[test]
fn next_runs_at_a_fixed_offset_are_exact() {
    let monday_midnight = UnixTime::from_unix_seconds(1_704_067_200);
    let daily = configuration(ReconciliationSchedule::Daily, 9, 0);
    assert_eq!(
        next_run_at(&daily, monday_midnight, 0).expect("daily"),
        Some(UnixTime::from_unix_seconds(1_704_067_200 + 9 * 3_600))
    );
    let saturday_ten = UnixTime::from_unix_seconds(1_704_535_200);
    let weekdays = configuration(ReconciliationSchedule::Weekdays, 9, 0);
    assert_eq!(
        next_run_at(&weekdays, saturday_ten, 0).expect("weekdays"),
        Some(UnixTime::from_unix_seconds(1_704_704_400))
    );
    assert_eq!(
        next_run_at(&daily, monday_midnight, 3_600).expect("offset"),
        Some(UnixTime::from_unix_seconds(1_704_067_200 + 8 * 3_600))
    );
}

fn candidate(connector: &str, identity: &str) -> DiscoveredSourceCandidate {
    DiscoveredSourceCandidate::new(
        ConnectorId::new(connector),
        identity,
        identity,
        None,
        TextMap::new(),
        identity,
    )
}

#[test]
fn recorded_candidates_await_a_decision_in_order() {
    let mut store = Store::open_in_memory().expect("store");
    let now = UnixTime::from_unix_seconds(1_700_000_000);
    let candidates = vec![candidate("fixture", "one"), candidate("fixture", "two")];
    assert!(matches!(record_candidates(&mut store, &candidates, now), Ok(2)));
    let sources = store.list_discovered_sources().expect("sources");
    assert_eq!(sources.len(), 2);
    assert_eq!(sources[0].id.as_str(), "source:fixture:one");
    assert_eq!(sources[1].id.as_str(), "source:fixture:two");
    assert!(sources.iter().all(|s| s.status == DiscoveryStatus::AwaitingDecision));
    assert!(sources.iter().all(|s| s.first_discovered == now && s.last_seen == now));
    assert!(store.list_events().expect("events").is_empty());
}

#[test]
fn a_refused_candidate_stops_recording_with_the_store_error() {
    let mut store = Store::open_in_memory().expect("store");
    let now = UnixTime::from_unix_seconds(1_700_000_000);
    let candidates = vec![
        candidate("a:b", "c"),
        candidate("a", "b:c"),
        candidate("fixture", "later"),
    ];
    assert!(matches!(
        record_candidates(&mut store, &candidates, now),
        Err(StoreError::Database { .. })
    ));
    let sources = store.list_discovered_sources().expect("sources");
    assert_eq!(sources.len(), 1);
    assert_eq!(sources[0].id.as_str(), "source:a:b:c");
}

#[test]
fn discovery_without_extensions_records_nothing() {
    let mut agent: Agent<FixtureExtension> = Agent::new(Store::open_in_memory().expect("store"), Vec::new());
    assert_eq!(agent.discover(&["one".to_owned()]).expect("discover"), 0);
    assert!(agent.store().list_discovered_sources().expect("sources").is_empty());
}
