use schomburg::model::{
    Annotation, AnnotationField, AnnotationId, AnnotationTimestamp, AnnotationValue,
    AssignmentSource, CaptureTimestamp, ConnectorId, ContextId, Event, EventId, EventKind,
    EventPayload, EventTimestamp, Metadata, SchemaVersion, Source, SourceReference, UnixTime,
};

fn event() -> Event {
    Event::new(
        EventId::new("event-1"),
        EventTimestamp::new(UnixTime::epoch()),
        Source::new(ConnectorId::new("test"), SourceReference::new("record-1")),
        EventKind::new("test.record"),
        EventPayload::new(Vec::new(), None, Metadata::new()),
        CaptureTimestamp::new(UnixTime::epoch()),
        SchemaVersion::new("1"),
    )
}

fn annotation(
    id: &str,
    event_id: EventId,
    field: &str,
    value: AnnotationValue,
    source: AssignmentSource,
    supersedes: Option<AnnotationId>,
) -> Annotation {
    Annotation::new(
        AnnotationId::new(id),
        event_id,
        AnnotationField::new(field),
        value,
        source,
        AnnotationTimestamp::new(UnixTime::epoch()),
        supersedes,
        SchemaVersion::new("1"),
    )
}

#[test]
fn event_contains_only_capture_facts() {
    let event = event();

    assert_eq!(event.id().as_str(), "event-1");
    assert_eq!(event.kind().as_str(), "test.record");
    assert_eq!(event.source().connector_id().as_str(), "test");
}

#[test]
fn annotation_targets_an_event() {
    let assignment = annotation(
        "annotation-1",
        EventId::new("event-1"),
        "context",
        AnnotationValue::Context(ContextId::new("context-1")),
        AssignmentSource::User,
        None,
    );

    assert_eq!(assignment.event_id().as_str(), "event-1");
}

#[test]
fn later_annotation_supersedes_earlier_without_rewriting_it() {
    let earlier = annotation(
        "annotation-1",
        EventId::new("event-1"),
        "context",
        AnnotationValue::Context(ContextId::new("context-1")),
        AssignmentSource::User,
        None,
    );
    let later = annotation(
        "annotation-2",
        EventId::new("event-1"),
        "context",
        AnnotationValue::Context(ContextId::new("context-2")),
        AssignmentSource::User,
        Some(earlier.id().clone()),
    );

    assert_eq!(later.supersedes(), Some(earlier.id()));
    assert_eq!(
        earlier.value(),
        &AnnotationValue::Context(ContextId::new("context-1"))
    );
    assert_eq!(earlier.supersedes(), None);
}

#[test]
fn annotation_preserves_assignment_source() {
    let assignment = annotation(
        "annotation-1",
        EventId::new("event-1"),
        "category",
        AnnotationValue::opaque("research"),
        AssignmentSource::Automatic,
        None,
    );

    assert_eq!(assignment.source(), AssignmentSource::Automatic);
}

#[test]
fn assignment_types_can_coexist_for_an_event() {
    let event_id = EventId::new("event-1");
    let context = annotation(
        "annotation-1",
        event_id.clone(),
        "context",
        AnnotationValue::Context(ContextId::new("context-1")),
        AssignmentSource::User,
        None,
    );
    let tag = annotation(
        "annotation-2",
        event_id,
        "tag",
        AnnotationValue::opaque("important"),
        AssignmentSource::Imported,
        None,
    );

    assert_ne!(context.field(), tag.field());
    assert_eq!(context.event_id(), tag.event_id());
}
