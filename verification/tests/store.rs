use schomburg::model::{
    Annotation, AnnotationField, AnnotationId, AnnotationTimestamp, AnnotationValue,
    AssignmentSource, CaptureTimestamp, ConnectorId, ContextId, Event, EventId, EventKind,
    EventPayload, EventTimestamp, MediaType, Metadata, MetadataKey, MetadataValue, SchemaVersion,
    Source, SourceReference, UnixTime,
};
use schomburg::store::{Store, StoreError};

fn timestamp(seconds: i64) -> UnixTime {
    UnixTime::from_unix_seconds(seconds)
}

fn event(id: &str, occurred_at: UnixTime) -> Event {
    let mut metadata = Metadata::new();
    metadata.insert(MetadataKey::new("origin"), MetadataValue::new("test"));
    metadata.insert(
        MetadataKey::new("note"),
        MetadataValue::new("line one\nline two"),
    );
    Event::new(
        EventId::new(id),
        EventTimestamp::new(occurred_at),
        Source::new(
            ConnectorId::new("fixture.connector"),
            SourceReference::new("source-record-1"),
        ),
        EventKind::new("fixture.event"),
        EventPayload::new(
            vec![0, 1, 2, 255],
            Some(MediaType::new("application/octet-stream")),
            metadata,
        ),
        CaptureTimestamp::new(timestamp(99)),
        SchemaVersion::new("event-v1"),
    )
}

fn annotation(
    id: &str,
    event_id: EventId,
    value: AnnotationValue,
    assigned_at: UnixTime,
    supersedes: Option<AnnotationId>,
) -> Annotation {
    annotation_with_field(id, event_id, "context", value, assigned_at, supersedes)
}

fn annotation_with_field(
    id: &str,
    event_id: EventId,
    field: &str,
    value: AnnotationValue,
    assigned_at: UnixTime,
    supersedes: Option<AnnotationId>,
) -> Annotation {
    Annotation::new(
        AnnotationId::new(id),
        event_id,
        AnnotationField::new(field),
        value,
        AssignmentSource::User,
        AnnotationTimestamp::new(assigned_at),
        supersedes,
        SchemaVersion::new("annotation-v1"),
    )
}

#[test]
fn new_database_migration_succeeds() {
    Store::open_in_memory().expect("new database should migrate");
}

#[test]
fn event_round_trip_preserves_every_field() {
    let mut store = Store::open_in_memory().expect("store");
    let event = event("event-1", timestamp(4));
    store.append_event(&event).expect("append event");

    assert_eq!(store.get_event(event.id()).expect("get event"), Some(event));
}

#[test]
fn annotation_round_trip_preserves_every_field() {
    let mut store = Store::open_in_memory().expect("store");
    let event = event("event-1", timestamp(4));
    store.append_event(&event).expect("append event");
    let annotation = annotation(
        "annotation-1",
        event.id().clone(),
        AnnotationValue::Context(ContextId::new("context-1")),
        timestamp(5),
        None,
    );
    store
        .append_annotation(&annotation)
        .expect("append annotation");

    assert_eq!(
        store
            .get_annotation(annotation.id())
            .expect("get annotation"),
        Some(annotation)
    );
}

#[test]
fn same_event_same_field_supersession_succeeds_without_rewriting_history() {
    let mut store = Store::open_in_memory().expect("store");
    let event = event("event-1", timestamp(4));
    store.append_event(&event).expect("append event");
    let earlier = annotation(
        "annotation-1",
        event.id().clone(),
        AnnotationValue::Context(ContextId::new("context-1")),
        timestamp(5),
        None,
    );
    store.append_annotation(&earlier).expect("append earlier");
    let later = annotation(
        "annotation-2",
        event.id().clone(),
        AnnotationValue::Context(ContextId::new("context-2")),
        timestamp(6),
        Some(earlier.id().clone()),
    );
    store.append_annotation(&later).expect("append later");

    assert_eq!(
        store.get_annotation(earlier.id()).expect("get earlier"),
        Some(earlier)
    );
    assert_eq!(
        store.get_annotation(later.id()).expect("get later"),
        Some(later)
    );
}

#[test]
fn cross_event_supersession_fails_without_writing() {
    let mut store = Store::open_in_memory().expect("store");
    let first_event = event("event-1", timestamp(4));
    let second_event = event("event-2", timestamp(4));
    store
        .append_event(&first_event)
        .expect("append first event");
    store
        .append_event(&second_event)
        .expect("append second event");
    let earlier = annotation(
        "annotation-1",
        first_event.id().clone(),
        AnnotationValue::opaque("first"),
        timestamp(5),
        None,
    );
    store.append_annotation(&earlier).expect("append earlier");
    let invalid = annotation(
        "annotation-2",
        second_event.id().clone(),
        AnnotationValue::opaque("second"),
        timestamp(6),
        Some(earlier.id().clone()),
    );

    assert!(matches!(
        store.append_annotation(&invalid),
        Err(StoreError::SupersedesDifferentEvent {
            event_id,
            superseded_event_id,
        }) if event_id == *second_event.id() && superseded_event_id == *first_event.id()
    ));
    assert_eq!(
        store
            .list_annotations_for_event(first_event.id())
            .expect("list first event"),
        vec![earlier]
    );
    assert!(store
        .list_annotations_for_event(second_event.id())
        .expect("list second event")
        .is_empty());
}

#[test]
fn cross_field_supersession_fails_without_writing() {
    let mut store = Store::open_in_memory().expect("store");
    let event = event("event-1", timestamp(4));
    store.append_event(&event).expect("append event");
    let earlier = annotation(
        "annotation-1",
        event.id().clone(),
        AnnotationValue::opaque("first"),
        timestamp(5),
        None,
    );
    store.append_annotation(&earlier).expect("append earlier");
    let invalid = annotation_with_field(
        "annotation-2",
        event.id().clone(),
        "tag",
        AnnotationValue::opaque("second"),
        timestamp(6),
        Some(earlier.id().clone()),
    );

    assert!(matches!(
        store.append_annotation(&invalid),
        Err(StoreError::SupersedesDifferentField {
            field,
            superseded_field,
        }) if field.as_str() == "tag" && superseded_field.as_str() == "context"
    ));
    assert_eq!(
        store
            .list_annotations_for_event(event.id())
            .expect("list annotations"),
        vec![earlier]
    );
}

#[test]
fn self_supersession_fails_without_writing() {
    let mut store = Store::open_in_memory().expect("store");
    let event = event("event-1", timestamp(4));
    store.append_event(&event).expect("append event");
    let invalid = annotation(
        "annotation-1",
        event.id().clone(),
        AnnotationValue::opaque("value"),
        timestamp(5),
        Some(AnnotationId::new("annotation-1")),
    );

    assert!(matches!(
        store.append_annotation(&invalid),
        Err(StoreError::SelfSupersession(id)) if id == *invalid.id()
    ));
    assert!(store
        .list_annotations_for_event(event.id())
        .expect("list annotations")
        .is_empty());
}

#[test]
fn multiple_annotations_for_one_event_remain_queryable() {
    let mut store = Store::open_in_memory().expect("store");
    let event = event("event-1", timestamp(4));
    store.append_event(&event).expect("append event");
    let first = annotation(
        "annotation-1",
        event.id().clone(),
        AnnotationValue::opaque("research"),
        timestamp(5),
        None,
    );
    let second = annotation(
        "annotation-2",
        event.id().clone(),
        AnnotationValue::opaque("important"),
        timestamp(6),
        None,
    );
    store.append_annotation(&first).expect("append first");
    store.append_annotation(&second).expect("append second");

    assert_eq!(
        store
            .list_annotations_for_event(event.id())
            .expect("list annotations"),
        vec![first, second]
    );
}

#[test]
fn duplicate_event_id_is_rejected_without_overwriting() {
    let mut store = Store::open_in_memory().expect("store");
    let first = event("event-1", timestamp(4));
    let duplicate = event("event-1", timestamp(8));
    store.append_event(&first).expect("append first");

    assert!(matches!(
        store.append_event(&duplicate),
        Err(StoreError::DuplicateEventId(id)) if id == *first.id()
    ));
    assert_eq!(store.get_event(first.id()).expect("get event"), Some(first));
}

#[test]
fn duplicate_annotation_id_is_rejected_without_overwriting() {
    let mut store = Store::open_in_memory().expect("store");
    let event = event("event-1", timestamp(4));
    store.append_event(&event).expect("append event");
    let first = annotation(
        "annotation-1",
        event.id().clone(),
        AnnotationValue::opaque("first"),
        timestamp(5),
        None,
    );
    let duplicate = annotation(
        "annotation-1",
        event.id().clone(),
        AnnotationValue::opaque("second"),
        timestamp(6),
        None,
    );
    store.append_annotation(&first).expect("append first");

    assert!(matches!(
        store.append_annotation(&duplicate),
        Err(StoreError::DuplicateAnnotationId(id)) if id == *first.id()
    ));
    assert_eq!(
        store.get_annotation(first.id()).expect("get annotation"),
        Some(first)
    );
}

#[test]
fn events_list_chronologically_with_identifier_tie_breaker() {
    let mut store = Store::open_in_memory().expect("store");
    let later = event("event-z", timestamp(5));
    let first_at_same_time = event("event-a", timestamp(4));
    let second_at_same_time = event("event-b", timestamp(4));
    store.append_event(&later).expect("append later");
    store
        .append_event(&second_at_same_time)
        .expect("append second");
    store
        .append_event(&first_at_same_time)
        .expect("append first");

    assert_eq!(
        store.list_events().expect("list events"),
        vec![first_at_same_time, second_at_same_time, later]
    );
}

#[test]
fn annotations_list_chronologically_with_identifier_tie_breaker() {
    let mut store = Store::open_in_memory().expect("store");
    let event = event("event-1", timestamp(4));
    store.append_event(&event).expect("append event");
    let later = annotation(
        "annotation-z",
        event.id().clone(),
        AnnotationValue::opaque("later"),
        timestamp(6),
        None,
    );
    let first_at_same_time = annotation(
        "annotation-a",
        event.id().clone(),
        AnnotationValue::opaque("first"),
        timestamp(5),
        None,
    );
    let second_at_same_time = annotation(
        "annotation-b",
        event.id().clone(),
        AnnotationValue::opaque("second"),
        timestamp(5),
        None,
    );
    store.append_annotation(&later).expect("append later");
    store
        .append_annotation(&second_at_same_time)
        .expect("append second");
    store
        .append_annotation(&first_at_same_time)
        .expect("append first");

    assert_eq!(
        store
            .list_annotations_for_event(event.id())
            .expect("list annotations"),
        vec![first_at_same_time, second_at_same_time, later]
    );
}

#[test]
fn context_values_round_trip_distinctly_from_opaque_values() {
    let mut store = Store::open_in_memory().expect("store");
    let event = event("event-1", timestamp(4));
    store.append_event(&event).expect("append event");
    let context = annotation(
        "annotation-context",
        event.id().clone(),
        AnnotationValue::Context(ContextId::new("same-value")),
        timestamp(5),
        None,
    );
    let opaque = annotation(
        "annotation-opaque",
        event.id().clone(),
        AnnotationValue::opaque("same-value"),
        timestamp(6),
        None,
    );
    store.append_annotation(&context).expect("append context");
    store.append_annotation(&opaque).expect("append opaque");

    assert_eq!(
        store.get_annotation(context.id()).expect("get context"),
        Some(context)
    );
    assert_eq!(
        store.get_annotation(opaque.id()).expect("get opaque"),
        Some(opaque)
    );
}

#[test]
fn missing_target_and_supersedes_references_are_rejected() {
    let mut store = Store::open_in_memory().expect("store");
    let missing_target = annotation(
        "annotation-1",
        EventId::new("missing-event"),
        AnnotationValue::opaque("value"),
        timestamp(5),
        None,
    );
    assert!(matches!(
        store.append_annotation(&missing_target),
        Err(StoreError::MissingTargetEvent(id)) if id.as_str() == "missing-event"
    ));

    let event = event("event-1", timestamp(4));
    store.append_event(&event).expect("append event");
    let missing_supersedes = annotation(
        "annotation-2",
        event.id().clone(),
        AnnotationValue::opaque("value"),
        timestamp(5),
        Some(AnnotationId::new("missing-annotation")),
    );
    assert!(matches!(
        store.append_annotation(&missing_supersedes),
        Err(StoreError::MissingSupersedesAnnotation(id)) if id.as_str() == "missing-annotation"
    ));
}
