use schomburg::connector::{
    CompactPresentation, ConnectorCapabilities, ConnectorCapability, ConnectorDescriptor,
    ConnectorRegistry, DetailedPresentation, EventPresenter, PresentationError,
    PresentationRegistry, RegistrationError,
};
use schomburg::commit::GitPresenter;
use schomburg::model::{
    CaptureTimestamp, ConnectorId, Event, EventId, EventKind, EventPayload, EventTimestamp,
    Metadata, SchemaVersion, Source, SourceReference, UnixTime,
};

struct FixturePresenter {
    connector_id: ConnectorId,
}

impl EventPresenter for FixturePresenter {
    fn connector_id(&self) -> &ConnectorId {
        &self.connector_id
    }

    fn present_compact(&self, event: &Event) -> Result<CompactPresentation, PresentationError> {
        if event.source().connector_id() != &self.connector_id {
            return Err(PresentationError::ConnectorProvenanceMismatch {
                expected: self.connector_id.clone(),
                actual: event.source().connector_id().clone(),
            });
        }
        Ok(CompactPresentation::new(
            "Fixture",
            "event".to_owned(),
            None,
            UnixTime::epoch(),
            Vec::new(),
            Vec::new(),
        ))
    }

    fn present_detailed(&self, event: &Event) -> Result<DetailedPresentation, PresentationError> {
        self.present_compact(event)?;
        Ok(DetailedPresentation::new(
            "Fixture",
            "event".to_owned(),
            UnixTime::epoch(),
            Vec::new(),
            Vec::new(),
            None,
        ))
    }
}

fn event(connector_id: &str) -> Event {
    Event::new(
        EventId::new("event"),
        EventTimestamp::new(UnixTime::epoch()),
        Source::new(ConnectorId::new(connector_id), SourceReference::new("source")),
        EventKind::new("fixture.event"),
        EventPayload::new(Vec::new(), None, Metadata::new()),
        CaptureTimestamp::new(UnixTime::epoch()),
        SchemaVersion::new("1"),
    )
}

#[test]
fn registration_preserves_capabilities_and_rejects_duplicates() {
    let id = ConnectorId::new("fixture");
    let capability = ConnectorCapability::new("capture.events");
    let descriptor =
        ConnectorDescriptor::new(id.clone(), ConnectorCapabilities::new(vec![capability.clone()]));
    let mut registry = ConnectorRegistry::default();
    registry
        .register(descriptor.clone())
        .expect("register descriptor");

    assert!(registry
        .get(&id)
        .expect("registered descriptor")
        .capabilities()
        .contains(&capability));
    assert!(matches!(
        registry.register(descriptor),
        Err(RegistrationError::DuplicateConnectorId(duplicate)) if duplicate == id
    ));
}

#[test]
fn presentation_registry_routes_by_provenance_without_source_semantics() {
    let mut registry: PresentationRegistry<Box<dyn EventPresenter>> =
        PresentationRegistry::default();
    registry
        .register(Box::new(FixturePresenter {
            connector_id: ConnectorId::new("fixture"),
        }))
        .expect("register presenter");

    assert_eq!(
        registry
            .present_compact(&event("fixture"))
            .expect("route presentation")
            .source_label(),
        "Fixture"
    );
    assert!(matches!(
        registry.present_detailed(&event("other")),
        Err(PresentationError::PresenterNotFound(id)) if id.as_str() == "other"
    ));
}

#[test]
fn the_git_presenter_is_registered_under_its_own_connector() {
    let mut registry = PresentationRegistry::<GitPresenter>::new();
    registry.register(GitPresenter::new()).expect("register");
    assert!(matches!(
        registry.register(GitPresenter::new()),
        Err(PresentationError::DuplicatePresenter(id)) if id.as_str() == "schomburg.git"
    ));
    assert!(matches!(
        registry.present_detailed(&event("other")),
        Err(PresentationError::PresenterNotFound(id)) if id.as_str() == "other"
    ));
    assert!(!matches!(
        registry.present_compact(&event("schomburg.git")),
        Err(PresentationError::PresenterNotFound(_))
    ));
}

#[test]
fn registering_one_connector_leaves_other_lookups_alone() {
    let mut registry = ConnectorRegistry::new();
    let first = ConnectorDescriptor::new(
        ConnectorId::new("first"),
        ConnectorCapabilities::new(vec![ConnectorCapability::new("a")]),
    );
    let second = ConnectorDescriptor::new(
        ConnectorId::new("second"),
        ConnectorCapabilities::new(vec![ConnectorCapability::new("b")]),
    );
    registry.register(first).expect("first");
    registry.register(second).expect("second");
    assert_eq!(registry.get(&ConnectorId::new("first")).expect("first").id().as_str(), "first");
    assert_eq!(registry.get(&ConnectorId::new("second")).expect("second").id().as_str(), "second");
    assert!(registry.get(&ConnectorId::new("third")).is_none());
}
