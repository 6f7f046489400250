use schomburg::connector::{
    Connector, ConnectorCapabilities, ConnectorCapability, ConnectorDescriptor, ConnectorError,
    EventAcceptanceError, EventSink,
};
use schomburg::engine::{Engine, EngineError};
use schomburg::model::{
    CaptureTimestamp, ConnectorId, Event, EventId, EventKind, EventPayload, EventTimestamp,
    Metadata, SchemaVersion, Source, SourceReference, UnixTime,
};
use schomburg::store::Store;

struct TestConnector {
    descriptor: ConnectorDescriptor,
    events: Vec<Event>,
}

impl TestConnector {
    fn new(id: &str, events: Vec<Event>) -> Self {
        Self {
            descriptor: ConnectorDescriptor::new(
                ConnectorId::new(id),
                ConnectorCapabilities::new(vec![ConnectorCapability::new("capture.events")]),
            ),
            events,
        }
    }
}

impl Connector for TestConnector {
    fn descriptor(&self) -> &ConnectorDescriptor {
        &self.descriptor
    }

    fn collect<S: EventSink>(&mut self, sink: &mut S) -> Result<(), ConnectorError> {
        for event in std::mem::take(&mut self.events) {
            sink.accept(event).map_err(ConnectorError::EventRejected)?;
        }
        Ok(())
    }
}

fn event(id: &str, connector_id: &str) -> Event {
    Event::new(
        EventId::new(id),
        EventTimestamp::new(UnixTime::epoch()),
        Source::new(
            ConnectorId::new(connector_id),
            SourceReference::new("source-record"),
        ),
        EventKind::new("fixture.event"),
        EventPayload::new(Vec::new(), None, Metadata::new()),
        CaptureTimestamp::new(UnixTime::epoch()),
        SchemaVersion::new("1"),
    )
}

#[test]
fn registered_connector_events_are_validated_and_appended() {
    let store = Store::open_in_memory().expect("store");
    let event = event("event-1", "fixture");
    let mut connector = TestConnector::new("fixture", vec![event.clone()]);
    let mut engine = Engine::new(store);
    engine
        .register(connector.descriptor().clone())
        .expect("register connector");

    let report = engine.collect(&mut connector).expect("collect events");

    assert_eq!(report.accepted_events(), 1);
    assert_eq!(
        engine.store().get_event(event.id()).expect("get event"),
        Some(event)
    );
}

#[test]
fn unregistered_connector_cannot_collect_or_append() {
    let store = Store::open_in_memory().expect("store");
    let event = event("event-1", "fixture");
    let mut connector = TestConnector::new("fixture", vec![event]);
    let mut engine = Engine::new(store);

    assert!(matches!(
        engine.collect(&mut connector),
        Err(EngineError::UnregisteredConnector(id)) if id.as_str() == "fixture"
    ));
    assert!(engine.store().list_events().expect("list events").is_empty());
}

#[test]
fn provenance_mismatch_is_rejected_without_appending() {
    let store = Store::open_in_memory().expect("store");
    let event = event("event-1", "other-connector");
    let mut connector = TestConnector::new("fixture", vec![event]);
    let mut engine = Engine::new(store);
    engine
        .register(connector.descriptor().clone())
        .expect("register connector");

    assert!(matches!(
        engine.collect(&mut connector),
        Err(EngineError::Connector(ConnectorError::EventRejected(
            EventAcceptanceError::ConnectorIdentityMismatch { expected, actual }
        ))) if expected.as_str() == "fixture" && actual.as_str() == "other-connector"
    ));
    assert!(engine.store().list_events().expect("list events").is_empty());
}

#[test]
fn duplicate_events_of_a_run_are_appended_once() {
    let store = Store::open_in_memory().expect("store");
    let first = event("event-1", "fixture");
    let mut connector = TestConnector::new("fixture", vec![first.clone(), first.clone()]);
    let mut engine = Engine::new(store);
    engine
        .register(connector.descriptor().clone())
        .expect("register connector");
    assert!(matches!(
        engine.collect(&mut connector),
        Err(EngineError::Connector(ConnectorError::EventRejected(
            EventAcceptanceError::DuplicateEventId(id)
        ))) if id.as_str() == "event-1"
    ));
    assert_eq!(engine.store().list_events().expect("list events"), vec![first]);
}

#[test]
fn engine_registration_rejects_a_second_descriptor_for_a_connector() {
    let store = Store::open_in_memory().expect("store");
    let connector = TestConnector::new("fixture", Vec::new());
    let mut engine = Engine::new(store);
    engine
        .register(connector.descriptor().clone())
        .expect("register connector");
    let second = engine.register(connector.descriptor().clone());
    assert!(matches!(second, Err(EngineError::Registration(_))));
    assert_eq!(
        second.unwrap_err().message(),
        "registration failed: duplicate connector ID: fixture"
    );
}
