//! The stored form of events and annotations: the columns of one row each,
//! and their exact conversion to and from domain records.

use crate::model::{
    in_clock_range, AnnotationValueView, media_type_view, Annotation, AnnotationField,
    AnnotationId, AnnotationTimestamp, AnnotationValue, AnnotationView, CaptureTimestamp,
    ConnectorId, ContextId, Event, EventId, EventKind, EventPayload, EventTimestamp, EventView,
    MediaType, Metadata, PayloadView, SchemaVersion, Source, SourceReference, SourceView,
    annotation_id_view,
};
use crate::connector::opt_view;
use crate::serialization::{
    assignment_source_from_str, assignment_source_from_word, assignment_source_to_str,
    assignment_source_word, decode_metadata, decode_timestamp, encode_metadata, encode_timestamp,
    json_string_map, json_string_map_text, law_assignment_source_round_trip,
    law_timestamp_round_trip, timestamp_bytes, timestamp_error, timestamp_from_bytes,
};
use crate::operations::{
    opt_time, ConfigurationView, ConnectionId, ConnectionRecord, ConnectionStatus, ConnectionView,
    DiscoveredSource, DiscoveredSourceId, DiscoveryStatus, GlobalMonitoringState,
    LocalReconciliationTime, ManualStatusView, ManualUpdateStatus, MonitoringPolicy,
    ReconciliationConfiguration, ReconciliationCounts, ReconciliationSchedule,
    ReconciliationState, ScheduledReconciliationStatus, ScheduledStatusView, SourceRecordView,
};
use crate::model::UnixTime;
use crate::serialization::{
    connection_status, connection_status_from_word, connection_status_word, decode_connection_status,
    decode_discovery_status, decode_monitoring, decode_policy, decode_state, decode_text_map,
    discovery_status, discovery_status_from_word, discovery_status_word, encode_monitoring,
    encode_policy, encode_state, encode_text_map, law_state_word_round_trip,
    law_status_words_round_trip, monitoring_word, policy_from_word, policy_word, state_from_word,
    state_word,
};
use crate::store::{is_malformed, is_unsupported, StoreError};
use crate::text::str_eq;
use vstd::prelude::*;

verus! {

/// The columns of one stored event.
pub struct StoredEvent {
    pub id: String,
    pub occurred_at: Vec<u8>,
    pub captured_at: Vec<u8>,
    pub connector_id: String,
    pub source_reference: String,
    pub event_kind: String,
    pub payload_bytes: Vec<u8>,
    pub payload_media_type: Option<String>,
    pub payload_metadata_json: String,
    pub schema_version: String,
}

/// The mathematical content of a [`StoredEvent`].
pub struct StoredEventView {
    pub id: Seq<char>,
    pub occurred_at: Seq<u8>,
    pub captured_at: Seq<u8>,
    pub connector_id: Seq<char>,
    pub source_reference: Seq<char>,
    pub event_kind: Seq<char>,
    pub payload_bytes: Seq<u8>,
    pub payload_media_type: Option<Seq<char>>,
    pub payload_metadata_json: Seq<char>,
    pub schema_version: Seq<char>,
}

impl View for StoredEvent {
    type V = StoredEventView;

    open spec fn view(&self) -> StoredEventView {
        StoredEventView {
            id: self.id@,
            occurred_at: self.occurred_at@,
            captured_at: self.captured_at@,
            connector_id: self.connector_id@,
            source_reference: self.source_reference@,
            event_kind: self.event_kind@,
            payload_bytes: self.payload_bytes@,
            payload_media_type: opt_view(self.payload_media_type),
            payload_metadata_json: self.payload_metadata_json@,
            schema_version: self.schema_version@,
        }
    }
}

/// The row that stores an event whose metadata is written as `metadata_json`.
pub open spec fn event_row(e: EventView, metadata_json: Seq<char>) -> StoredEventView {
    StoredEventView {
        id: e.id,
        occurred_at: timestamp_bytes(e.occurred_at),
        captured_at: timestamp_bytes(e.captured_at),
        connector_id: e.source.connector_id,
        source_reference: e.source.reference,
        event_kind: e.kind,
        payload_bytes: e.payload.bytes,
        payload_media_type: e.payload.media_type,
        payload_metadata_json: metadata_json,
        schema_version: e.schema_version,
    }
}

/// The event a stored row holds, if its timestamps and metadata decode.
pub open spec fn event_from_row(row: StoredEventView) -> Option<EventView> {
    match (
        timestamp_from_bytes(row.occurred_at),
        json_string_map(row.payload_metadata_json),
        timestamp_from_bytes(row.captured_at),
    ) {
        (Some(occurred_at), Ok(metadata), Some(captured_at)) => Some(
            EventView {
                id: row.id,
                occurred_at,
                source: SourceView { connector_id: row.connector_id, reference: row.source_reference },
                kind: row.event_kind,
                payload: PayloadView {
                    bytes: row.payload_bytes,
                    media_type: row.payload_media_type,
                    metadata,
                },
                captured_at,
                schema_version: row.schema_version,
            },
        ),
        _ => None,
    }
}

/// Whether `e` is the error that decoding a stored event row reports: the
/// occurrence time is read first, then the metadata, then the capture time.
pub open spec fn event_row_error(row: StoredEventView, e: StoreError) -> bool {
    if timestamp_from_bytes(row.occurred_at) is None {
        timestamp_error(e, row.occurred_at, "occurred_at"@)
    } else if json_string_map(row.payload_metadata_json) is Err {
        is_malformed(e, "payload_metadata_json"@, json_string_map(row.payload_metadata_json)->Err_0)
    } else {
        timestamp_error(e, row.captured_at, "captured_at"@)
    }
}

/// Returns the row that stores an event. The row reads back as the same
/// event.
pub fn stored_event(event: &Event) -> (r: Result<StoredEvent, StoreError>)
    ensures
        match json_string_map_text(event@.payload.metadata) {
            Ok(text) => r matches Ok(row) && row@ == event_row(event@, text) && event_from_row(
                row@,
            ) == Some(event@),
            Err(message) => r matches Err(StoreError::Serialization { detail }) && detail@
                == message,
        },
{
    let metadata_json = match encode_metadata(event.payload().metadata()) {
        Ok(text) => text,
        Err(e) => return Err(e),
    };
    let occurred_at = encode_timestamp(event.occurred_at().as_system_time());
    let captured_at = encode_timestamp(event.captured_at().as_system_time());
    proof {
        law_timestamp_round_trip(event@.occurred_at);
        law_timestamp_round_trip(event@.captured_at);
    }
    let media = match event.payload().media_type() {
        Some(m) => Some(m.as_str().to_owned()),
        None => None,
    };
    Ok(
        StoredEvent {
            id: event.id().as_str().to_owned(),
            occurred_at,
            captured_at,
            connector_id: event.source().connector_id().as_str().to_owned(),
            source_reference: event.source().reference().as_str().to_owned(),
            event_kind: event.kind().as_str().to_owned(),
            payload_bytes: event.payload().bytes().clone(),
            payload_media_type: media,
            payload_metadata_json: metadata_json,
            schema_version: event.schema_version().as_str().to_owned(),
        },
    )
}

impl StoredEvent {
    /// Decodes the event this row stores.
    pub fn into_event(self) -> (r: Result<Event, StoreError>)
        ensures
            match r {
                Ok(e) => event_from_row(self@) == Some(e@),
                Err(e) => event_from_row(self@) is None && event_row_error(self@, e),
            },
    {
        let ghost row = self@;
        let occurred_at = match decode_timestamp(self.occurred_at.as_slice(), "occurred_at") {
            Ok(t) => t,
            Err(e) => return Err(e),
        };
        let metadata = match decode_metadata(self.payload_metadata_json.as_str()) {
            Ok(m) => m,
            Err(e) => return Err(e),
        };
        let captured_at = match decode_timestamp(self.captured_at.as_slice(), "captured_at") {
            Ok(t) => t,
            Err(e) => return Err(e),
        };
        let media = match self.payload_media_type {
            Some(m) => Some(MediaType::from_string(m)),
            None => None,
        };
        assert(media_type_view(media) == row.payload_media_type);
        Ok(
            Event::new(
                EventId::from_string(self.id),
                EventTimestamp::new(occurred_at),
                Source::new(
                    ConnectorId::from_string(self.connector_id),
                    SourceReference::from_string(self.source_reference),
                ),
                EventKind::from_string(self.event_kind),
                EventPayload::new(self.payload_bytes, media, metadata),
                CaptureTimestamp::new(captured_at),
                SchemaVersion::from_string(self.schema_version),
            ),
        )
    }
}

/// The columns of one stored annotation.
pub struct StoredAnnotation {
    pub id: String,
    pub event_id: String,
    pub field: String,
    pub value_kind: String,
    pub value_text: String,
    pub assignment_source: String,
    pub assigned_at: Vec<u8>,
    pub supersedes_annotation_id: Option<String>,
    pub schema_version: String,
}

/// The mathematical content of a [`StoredAnnotation`].
pub struct StoredAnnotationView {
    pub id: Seq<char>,
    pub event_id: Seq<char>,
    pub field: Seq<char>,
    pub value_kind: Seq<char>,
    pub value_text: Seq<char>,
    pub assignment_source: Seq<char>,
    pub assigned_at: Seq<u8>,
    pub supersedes_annotation_id: Option<Seq<char>>,
    pub schema_version: Seq<char>,
}

impl View for StoredAnnotation {
    type V = StoredAnnotationView;

    open spec fn view(&self) -> StoredAnnotationView {
        StoredAnnotationView {
            id: self.id@,
            event_id: self.event_id@,
            field: self.field@,
            value_kind: self.value_kind@,
            value_text: self.value_text@,
            assignment_source: self.assignment_source@,
            assigned_at: self.assigned_at@,
            supersedes_annotation_id: opt_view(self.supersedes_annotation_id),
            schema_version: self.schema_version@,
        }
    }
}

/// The stored kind word and text of an annotation value.
pub open spec fn value_columns(value: AnnotationValueView) -> (Seq<char>, Seq<char>) {
    match value {
        AnnotationValueView::Context(id) => ("context"@, id),
        AnnotationValueView::Opaque(text) => ("opaque"@, text),
    }
}

/// The annotation value stored as a kind word and a text, if the word is
/// known.
pub open spec fn value_from_columns(kind: Seq<char>, text: Seq<char>) -> Option<AnnotationValueView> {
    if kind == "context"@ {
        Some(AnnotationValueView::Context(text))
    } else if kind == "opaque"@ {
        Some(AnnotationValueView::Opaque(text))
    } else {
        None
    }
}

/// The row that stores an annotation.
pub open spec fn annotation_row(a: AnnotationView) -> StoredAnnotationView {
    StoredAnnotationView {
        id: a.id,
        event_id: a.event_id,
        field: a.field,
        value_kind: value_columns(a.value).0,
        value_text: value_columns(a.value).1,
        assignment_source: assignment_source_word(a.source),
        assigned_at: timestamp_bytes(a.assigned_at),
        supersedes_annotation_id: a.supersedes,
        schema_version: a.schema_version,
    }
}

/// The annotation a stored row holds, if its words and timestamp decode.
pub open spec fn annotation_from_row(row: StoredAnnotationView) -> Option<AnnotationView> {
    match (
        value_from_columns(row.value_kind, row.value_text),
        assignment_source_from_word(row.assignment_source),
        timestamp_from_bytes(row.assigned_at),
    ) {
        (Some(value), Some(source), Some(assigned_at)) => Some(
            AnnotationView {
                id: row.id,
                event_id: row.event_id,
                field: row.field,
                value,
                source,
                assigned_at,
                supersedes: row.supersedes_annotation_id,
                schema_version: row.schema_version,
            },
        ),
        _ => None,
    }
}

/// Whether `e` is the error that decoding a stored annotation row reports:
/// the value kind is read first, then the assignment source, then the time.
pub open spec fn annotation_row_error(row: StoredAnnotationView, e: StoreError) -> bool {
    if value_from_columns(row.value_kind, row.value_text) is None {
        is_unsupported(e, "annotation.value_kind"@, row.value_kind)
    } else if assignment_source_from_word(row.assignment_source) is None {
        is_unsupported(e, "annotation.assignment_source"@, row.assignment_source)
    } else {
        timestamp_error(e, row.assigned_at, "assigned_at"@)
    }
}

/// Returns the row that stores an annotation. The row reads back as the same
/// annotation.
pub fn stored_annotation(annotation: &Annotation) -> (r: StoredAnnotation)
    ensures
        r@ == annotation_row(annotation@),
        annotation_from_row(r@) == Some(annotation@),
{
    let (kind, text) = match annotation.value() {
        AnnotationValue::Context(id) => ("context".to_owned(), id.as_str().to_owned()),
        AnnotationValue::Opaque(value) => ("opaque".to_owned(), value.clone()),
    };
    let assigned_at = encode_timestamp(annotation.assigned_at().as_system_time());
    let supersedes = match annotation.supersedes() {
        Some(id) => Some(id.as_str().to_owned()),
        None => None,
    };
    proof {
        law_timestamp_round_trip(annotation@.assigned_at);
        law_assignment_source_round_trip(annotation@.source);
        reveal_strlit("context");
        reveal_strlit("opaque");
        assert("context"@.len() == 7);
        assert("opaque"@.len() == 6);
    }
    StoredAnnotation {
        id: annotation.id().as_str().to_owned(),
        event_id: annotation.event_id().as_str().to_owned(),
        field: annotation.field().as_str().to_owned(),
        value_kind: kind,
        value_text: text,
        assignment_source: assignment_source_to_str(annotation.source()).to_owned(),
        assigned_at,
        supersedes_annotation_id: supersedes,
        schema_version: annotation.schema_version().as_str().to_owned(),
    }
}

impl StoredAnnotation {
    /// Decodes the annotation this row stores.
    pub fn into_annotation(self) -> (r: Result<Annotation, StoreError>)
        ensures
            match r {
                Ok(a) => annotation_from_row(self@) == Some(a@),
                Err(e) => annotation_from_row(self@) is None && annotation_row_error(self@, e),
            },
    {
        let ghost row = self@;
        let value = if str_eq(self.value_kind.as_str(), "context") {
            AnnotationValue::Context(ContextId::from_string(self.value_text))
        } else if str_eq(self.value_kind.as_str(), "opaque") {
            AnnotationValue::Opaque(self.value_text)
        } else {
            return Err(
                StoreError::UnsupportedStoredData {
                    field: "annotation.value_kind".to_owned(),
                    value: self.value_kind,
                },
            );
        };
        let source = match assignment_source_from_str(self.assignment_source.as_str()) {
            Ok(s) => s,
            Err(e) => return Err(e),
        };
        let assigned_at = match decode_timestamp(self.assigned_at.as_slice(), "assigned_at") {
            Ok(t) => t,
            Err(e) => return Err(e),
        };
        let supersedes = match self.supersedes_annotation_id {
            Some(id) => Some(AnnotationId::from_string(id)),
            None => None,
        };
        assert(annotation_id_view(supersedes) == row.supersedes_annotation_id);
        Ok(
            Annotation::new(
                AnnotationId::from_string(self.id),
                EventId::from_string(self.event_id),
                AnnotationField::from_string(self.field),
                value,
                source,
                AnnotationTimestamp::new(assigned_at),
                supersedes,
                SchemaVersion::from_string(self.schema_version),
            ),
        )
    }
}

/// The bytes of an optional stored timestamp.
pub open spec fn opt_bytes(b: Option<Vec<u8>>) -> Option<Seq<u8>> {
    match b {
        Some(v) => Some(v@),
        None => None,
    }
}

/// The stored bytes of an optional time.
pub open spec fn opt_timestamp_bytes(t: Option<int>) -> Option<Seq<u8>> {
    match t {
        Some(v) => Some(timestamp_bytes(v)),
        None => None,
    }
}

/// The optional time that optional stored bytes hold: `Some(None)` for no
/// bytes, `None` when present bytes do not decode.
pub open spec fn opt_timestamp_from_bytes(b: Option<Seq<u8>>) -> Option<Option<int>> {
    match b {
        None => Some(None),
        Some(x) => match timestamp_from_bytes(x) {
            Some(v) => Some(Some(v)),
            None => None,
        },
    }
}

/// Whether `e` is the error that decoding optional stored bytes reports.
pub open spec fn opt_timestamp_error(e: StoreError, b: Option<Seq<u8>>, field: Seq<char>) -> bool {
    match b {
        Some(x) => timestamp_error(e, x, field),
        None => false,
    }
}

/// Encodes an optional time.
pub fn encode_optional_timestamp(t: Option<UnixTime>) -> (r: Option<Vec<u8>>)
    ensures
        opt_bytes(r) == opt_timestamp_bytes(opt_time(t)),
        opt_timestamp_from_bytes(opt_bytes(r)) == Some(opt_time(t)),
{
    match t {
        Some(v) => {
            let b = encode_timestamp(v);
            proof {
                law_timestamp_round_trip(v@);
            }
            Some(b)
        },
        None => None,
    }
}

/// Decodes optional stored timestamp bytes; `field` names them in errors.
pub fn decode_optional_timestamp(b: Option<Vec<u8>>, field: &str) -> (r: Result<
    Option<UnixTime>,
    StoreError,
>)
    ensures
        match r {
            Ok(t) => opt_timestamp_from_bytes(opt_bytes(b)) == Some(opt_time(t)),
            Err(e) => opt_timestamp_from_bytes(opt_bytes(b)) is None && opt_timestamp_error(
                e,
                opt_bytes(b),
                field@,
            ),
        },
{
    match b {
        Some(bytes) => match decode_timestamp(bytes.as_slice(), field) {
            Ok(t) => Ok(Some(t)),
            Err(e) => Err(e),
        },
        None => Ok(None),
    }
}

/// The columns of one stored discovered source.
pub struct StoredSource {
    pub id: String,
    pub connector_id: String,
    pub source_identity: String,
    pub display_name: String,
    pub local_reference: Option<String>,
    pub first_discovered: Vec<u8>,
    pub last_seen: Vec<u8>,
    pub status: String,
    pub metadata_json: String,
    pub configuration: String,
}

/// The mathematical content of a [`StoredSource`].
pub struct StoredSourceView {
    pub id: Seq<char>,
    pub connector_id: Seq<char>,
    pub source_identity: Seq<char>,
    pub display_name: Seq<char>,
    pub local_reference: Option<Seq<char>>,
    pub first_discovered: Seq<u8>,
    pub last_seen: Seq<u8>,
    pub status: Seq<char>,
    pub metadata_json: Seq<char>,
    pub configuration: Seq<char>,
}

impl View for StoredSource {
    type V = StoredSourceView;

    open spec fn view(&self) -> StoredSourceView {
        StoredSourceView {
            id: self.id@,
            connector_id: self.connector_id@,
            source_identity: self.source_identity@,
            display_name: self.display_name@,
            local_reference: opt_view(self.local_reference),
            first_discovered: self.first_discovered@,
            last_seen: self.last_seen@,
            status: self.status@,
            metadata_json: self.metadata_json@,
            configuration: self.configuration@,
        }
    }
}

/// The row that stores a discovered source whose metadata is written as
/// `metadata_json`.
pub open spec fn source_row(s: SourceRecordView, metadata_json: Seq<char>) -> StoredSourceView {
    StoredSourceView {
        id: s.id,
        connector_id: s.connector_id,
        source_identity: s.source_identity,
        display_name: s.display_name,
        local_reference: s.local_reference,
        first_discovered: timestamp_bytes(s.first_discovered),
        last_seen: timestamp_bytes(s.last_seen),
        status: discovery_status_word(s.status),
        metadata_json,
        configuration: s.configuration,
    }
}

/// The discovered source a stored row holds, if its columns decode.
pub open spec fn source_from_row(row: StoredSourceView) -> Option<SourceRecordView> {
    match (
        json_string_map(row.metadata_json),
        timestamp_from_bytes(row.first_discovered),
        timestamp_from_bytes(row.last_seen),
        discovery_status_from_word(row.status),
    ) {
        (Ok(metadata), Some(first_discovered), Some(last_seen), Some(status)) => Some(
            SourceRecordView {
                id: row.id,
                connector_id: row.connector_id,
                source_identity: row.source_identity,
                display_name: row.display_name,
                local_reference: row.local_reference,
                first_discovered,
                last_seen,
                status,
                metadata,
                configuration: row.configuration,
            },
        ),
        _ => None,
    }
}

/// Whether `e` is the error that decoding a stored source row reports: the
/// metadata is read first, then the two times, then the status.
pub open spec fn source_row_error(row: StoredSourceView, e: StoreError) -> bool {
    if json_string_map(row.metadata_json) is Err {
        is_malformed(e, "discovered source metadata"@, json_string_map(row.metadata_json)->Err_0)
    } else if timestamp_from_bytes(row.first_discovered) is None {
        timestamp_error(e, row.first_discovered, "source first discovered"@)
    } else if timestamp_from_bytes(row.last_seen) is None {
        timestamp_error(e, row.last_seen, "source last seen"@)
    } else {
        is_unsupported(e, "discovery status"@, row.status)
    }
}

/// Returns the row that stores a discovered source. The row reads back as
/// the same source.
pub fn stored_source(source: &DiscoveredSource) -> (r: Result<StoredSource, StoreError>)
    ensures
        match json_string_map_text(source@.metadata) {
            Ok(text) => r matches Ok(row) && row@ == source_row(source@, text) && source_from_row(
                row@,
            ) == Some(source@),
            Err(message) => r matches Err(StoreError::Serialization { detail }) && detail@
                == message,
        },
{
    let metadata_json = match encode_text_map(&source.metadata) {
        Ok(text) => text,
        Err(e) => return Err(e),
    };
    let first_discovered = encode_timestamp(source.first_discovered);
    let last_seen = encode_timestamp(source.last_seen);
    proof {
        law_timestamp_round_trip(source@.first_discovered);
        law_timestamp_round_trip(source@.last_seen);
        law_status_words_round_trip(ConnectionStatus::Enabled, MonitoringPolicy::Always, source.status);
    }
    let local_reference = match &source.local_reference {
        Some(v) => Some(v.clone()),
        None => None,
    };
    Ok(
        StoredSource {
            id: source.id.as_str().to_owned(),
            connector_id: source.connector_id.as_str().to_owned(),
            source_identity: source.source_identity.clone(),
            display_name: source.display_name.clone(),
            local_reference,
            first_discovered,
            last_seen,
            status: discovery_status(source.status).to_owned(),
            metadata_json,
            configuration: source.configuration.clone(),
        },
    )
}

/// Decodes the discovered source a stored row holds.
pub fn decode_source(row: StoredSource) -> (r: Result<DiscoveredSource, StoreError>)
    ensures
        match r {
            Ok(s) => source_from_row(row@) == Some(s@),
            Err(e) => source_from_row(row@) is None && source_row_error(row@, e),
        },
{
    let ghost view = row@;
    let metadata = match decode_text_map(row.metadata_json.as_str(), "discovered source metadata") {
        Ok(m) => m,
        Err(e) => return Err(e),
    };
    let first_discovered = match decode_timestamp(
        row.first_discovered.as_slice(),
        "source first discovered",
    ) {
        Ok(t) => t,
        Err(e) => return Err(e),
    };
    let last_seen = match decode_timestamp(row.last_seen.as_slice(), "source last seen") {
        Ok(t) => t,
        Err(e) => return Err(e),
    };
    let status = match decode_discovery_status(row.status.as_str()) {
        Some(s) => s,
        None => {
            return Err(
                StoreError::UnsupportedStoredData {
                    field: "discovery status".to_owned(),
                    value: row.status,
                },
            )
        },
    };
    Ok(
        DiscoveredSource {
            id: DiscoveredSourceId::from_string(row.id),
            connector_id: ConnectorId::from_string(row.connector_id),
            source_identity: row.source_identity,
            display_name: row.display_name,
            local_reference: row.local_reference,
            first_discovered,
            last_seen,
            status,
            metadata,
            configuration: row.configuration,
        },
    )
}

/// The columns of one stored connection.
pub struct StoredConnection {
    pub id: String,
    pub source_id: String,
    pub connector_id: String,
    pub status: String,
    pub policy: String,
    pub approved_at: Vec<u8>,
    pub revoked_at: Option<Vec<u8>>,
    pub configuration: String,
    pub last_attempt: Option<Vec<u8>>,
    pub last_success: Option<Vec<u8>>,
    pub last_error: Option<String>,
}

/// The mathematical content of a [`StoredConnection`].
pub struct StoredConnectionView {
    pub id: Seq<char>,
    pub source_id: Seq<char>,
    pub connector_id: Seq<char>,
    pub status: Seq<char>,
    pub policy: Seq<char>,
    pub approved_at: Seq<u8>,
    pub revoked_at: Option<Seq<u8>>,
    pub configuration: Seq<char>,
    pub last_attempt: Option<Seq<u8>>,
    pub last_success: Option<Seq<u8>>,
    pub last_error: Option<Seq<char>>,
}

impl View for StoredConnection {
    type V = StoredConnectionView;

    open spec fn view(&self) -> StoredConnectionView {
        StoredConnectionView {
            id: self.id@,
            source_id: self.source_id@,
            connector_id: self.connector_id@,
            status: self.status@,
            policy: self.policy@,
            approved_at: self.approved_at@,
            revoked_at: opt_bytes(self.revoked_at),
            configuration: self.configuration@,
            last_attempt: opt_bytes(self.last_attempt),
            last_success: opt_bytes(self.last_success),
            last_error: opt_view(self.last_error),
        }
    }
}

/// The row that stores a connection.
pub open spec fn connection_row(c: ConnectionView) -> StoredConnectionView {
    StoredConnectionView {
        id: c.id,
        source_id: c.source_id,
        connector_id: c.connector_id,
        status: connection_status_word(c.status),
        policy: policy_word(c.policy),
        approved_at: timestamp_bytes(c.approved_at),
        revoked_at: opt_timestamp_bytes(c.revoked_at),
        configuration: c.configuration,
        last_attempt: opt_timestamp_bytes(c.last_attempt),
        last_success: opt_timestamp_bytes(c.last_success),
        last_error: c.last_error,
    }
}

/// The connection a stored row holds, if its columns decode.
pub open spec fn connection_from_row(row: StoredConnectionView) -> Option<ConnectionView> {
    match (
        connection_status_from_word(row.status),
        policy_from_word(row.policy),
        timestamp_from_bytes(row.approved_at),
        opt_timestamp_from_bytes(row.revoked_at),
        opt_timestamp_from_bytes(row.last_attempt),
        opt_timestamp_from_bytes(row.last_success),
    ) {
        (
            Some(status),
            Some(policy),
            Some(approved_at),
            Some(revoked_at),
            Some(last_attempt),
            Some(last_success),
        ) => Some(
            ConnectionView {
                id: row.id,
                source_id: row.source_id,
                connector_id: row.connector_id,
                status,
                policy,
                approved_at,
                revoked_at,
                configuration: row.configuration,
                last_attempt,
                last_success,
                last_error: row.last_error,
            },
        ),
        _ => None,
    }
}

/// Whether `e` is the error that decoding a stored connection row reports:
/// the status and policy words are read first, then the times in column
/// order.
pub open spec fn connection_row_error(row: StoredConnectionView, e: StoreError) -> bool {
    if connection_status_from_word(row.status) is None {
        is_unsupported(e, "connection status"@, row.status)
    } else if policy_from_word(row.policy) is None {
        is_unsupported(e, "monitoring policy"@, row.policy)
    } else if timestamp_from_bytes(row.approved_at) is None {
        timestamp_error(e, row.approved_at, "connection approved"@)
    } else if opt_timestamp_from_bytes(row.revoked_at) is None {
        opt_timestamp_error(e, row.revoked_at, "connection revoked"@)
    } else if opt_timestamp_from_bytes(row.last_attempt) is None {
        opt_timestamp_error(e, row.last_attempt, "connection last attempt"@)
    } else {
        opt_timestamp_error(e, row.last_success, "connection last success"@)
    }
}

/// Returns the row that stores a connection. The row reads back as the same
/// connection.
pub fn stored_connection(connection: &ConnectionRecord) -> (r: StoredConnection)
    ensures
        r@ == connection_row(connection@),
        connection_from_row(r@) == Some(connection@),
{
    let approved_at = encode_timestamp(connection.approved_at);
    proof {
        law_timestamp_round_trip(connection@.approved_at);
        law_status_words_round_trip(
            connection.status,
            connection.policy,
            DiscoveryStatus::AwaitingDecision,
        );
    }
    let last_error = match &connection.last_error {
        Some(v) => Some(v.clone()),
        None => None,
    };
    StoredConnection {
        id: connection.id.as_str().to_owned(),
        source_id: connection.source_id.as_str().to_owned(),
        connector_id: connection.connector_id.as_str().to_owned(),
        status: connection_status(connection.status).to_owned(),
        policy: encode_policy(connection.policy).to_owned(),
        approved_at,
        revoked_at: encode_optional_timestamp(connection.revoked_at),
        configuration: connection.configuration.clone(),
        last_attempt: encode_optional_timestamp(connection.last_attempt),
        last_success: encode_optional_timestamp(connection.last_success),
        last_error,
    }
}

/// Decodes the connection a stored row holds.
pub fn decode_connection(row: StoredConnection) -> (r: Result<ConnectionRecord, StoreError>)
    ensures
        match r {
            Ok(c) => connection_from_row(row@) == Some(c@),
            Err(e) => connection_from_row(row@) is None && connection_row_error(row@, e),
        },
{
    let status = match decode_connection_status(row.status.as_str()) {
        Some(s) => s,
        None => {
            return Err(
                StoreError::UnsupportedStoredData {
                    field: "connection status".to_owned(),
                    value: row.status,
                },
            )
        },
    };
    let policy = match decode_policy(row.policy.as_str()) {
        Some(p) => p,
        None => {
            return Err(
                StoreError::UnsupportedStoredData {
                    field: "monitoring policy".to_owned(),
                    value: row.policy,
                },
            )
        },
    };
    let approved_at = match decode_timestamp(row.approved_at.as_slice(), "connection approved") {
        Ok(t) => t,
        Err(e) => return Err(e),
    };
    let revoked_at = match decode_optional_timestamp(row.revoked_at, "connection revoked") {
        Ok(t) => t,
        Err(e) => return Err(e),
    };
    let last_attempt = match decode_optional_timestamp(row.last_attempt, "connection last attempt") {
        Ok(t) => t,
        Err(e) => return Err(e),
    };
    let last_success = match decode_optional_timestamp(row.last_success, "connection last success") {
        Ok(t) => t,
        Err(e) => return Err(e),
    };
    Ok(
        ConnectionRecord {
            id: ConnectionId::from_string(row.id),
            source_id: DiscoveredSourceId::from_string(row.source_id),
            connector_id: ConnectorId::from_string(row.connector_id),
            status,
            policy,
            approved_at,
            revoked_at,
            configuration: row.configuration,
            last_attempt,
            last_success,
            last_error: row.last_error,
        },
    )
}

/// The columns of the stored reconciliation configuration.
pub struct StoredConfiguration {
    pub monitoring: String,
    pub record_folder: Option<String>,
    pub schedule_kind: String,
    pub schedule_days: u8,
    pub local_hour: u8,
    pub local_minute: u8,
    pub last_attempt: Option<Vec<u8>>,
    pub last_success: Option<Vec<u8>>,
    pub next_run: Option<Vec<u8>>,
    pub last_error: Option<String>,
    pub counts: ReconciliationCounts,
    pub state: String,
}

/// The mathematical content of a [`StoredConfiguration`].
pub struct StoredConfigurationView {
    pub monitoring: Seq<char>,
    pub record_folder: Option<Seq<char>>,
    pub schedule_kind: Seq<char>,
    pub schedule_days: u8,
    pub local_hour: u8,
    pub local_minute: u8,
    pub last_attempt: Option<Seq<u8>>,
    pub last_success: Option<Seq<u8>>,
    pub next_run: Option<Seq<u8>>,
    pub last_error: Option<Seq<char>>,
    pub counts: ReconciliationCounts,
    pub state: Seq<char>,
}

impl View for StoredConfiguration {
    type V = StoredConfigurationView;

    open spec fn view(&self) -> StoredConfigurationView {
        StoredConfigurationView {
            monitoring: self.monitoring@,
            record_folder: opt_view(self.record_folder),
            schedule_kind: self.schedule_kind@,
            schedule_days: self.schedule_days,
            local_hour: self.local_hour,
            local_minute: self.local_minute,
            last_attempt: opt_bytes(self.last_attempt),
            last_success: opt_bytes(self.last_success),
            next_run: opt_bytes(self.next_run),
            last_error: opt_view(self.last_error),
            counts: self.counts,
            state: self.state@,
        }
    }
}

/// The stored kind word and day mask of a schedule; only a selection of days
/// stores a mask.
pub open spec fn schedule_columns(schedule: ReconciliationSchedule) -> (Seq<char>, u8) {
    match schedule {
        ReconciliationSchedule::Daily => ("daily"@, 0),
        ReconciliationSchedule::Weekdays => ("weekdays"@, 0),
        ReconciliationSchedule::Selected(days) => ("selected"@, days),
    }
}

/// The schedule a stored kind word and day mask name, if the word is known.
pub open spec fn schedule_from_columns(kind: Seq<char>, days: u8) -> Option<ReconciliationSchedule> {
    if kind == "daily"@ {
        Some(ReconciliationSchedule::Daily)
    } else if kind == "weekdays"@ {
        Some(ReconciliationSchedule::Weekdays)
    } else if kind == "selected"@ {
        Some(ReconciliationSchedule::Selected(days))
    } else {
        None
    }
}

/// The row that stores a reconciliation configuration.
pub open spec fn configuration_row(c: ConfigurationView) -> StoredConfigurationView {
    StoredConfigurationView {
        monitoring: monitoring_word(c.monitoring),
        record_folder: c.record_folder,
        schedule_kind: schedule_columns(c.schedule).0,
        schedule_days: schedule_columns(c.schedule).1,
        local_hour: c.time.hour,
        local_minute: c.time.minute,
        last_attempt: opt_timestamp_bytes(c.last_attempt),
        last_success: opt_timestamp_bytes(c.last_success),
        next_run: opt_timestamp_bytes(c.next_run),
        last_error: c.last_error,
        counts: c.counts,
        state: state_word(c.state),
    }
}

/// The configuration a stored row holds, if its schedule and times decode.
/// Global monitoring is enabled only by the word `enabled`, and an unknown
/// state word reads as paused.
pub open spec fn configuration_from_row(row: StoredConfigurationView) -> Option<ConfigurationView> {
    match (
        schedule_from_columns(row.schedule_kind, row.schedule_days),
        opt_timestamp_from_bytes(row.last_attempt),
        opt_timestamp_from_bytes(row.last_success),
        opt_timestamp_from_bytes(row.next_run),
    ) {
        (Some(schedule), Some(last_attempt), Some(last_success), Some(next_run)) => Some(
            ConfigurationView {
                monitoring: if row.monitoring == "enabled"@ {
                    GlobalMonitoringState::Enabled
                } else {
                    GlobalMonitoringState::Paused
                },
                record_folder: row.record_folder,
                schedule,
                time: LocalReconciliationTime { hour: row.local_hour, minute: row.local_minute },
                last_attempt,
                last_success,
                next_run,
                last_error: row.last_error,
                counts: row.counts,
                state: state_from_word(row.state),
            },
        ),
        _ => None,
    }
}

/// Whether `e` is the error that decoding a stored configuration reports:
/// the schedule kind is read first, then the times in column order.
pub open spec fn configuration_row_error(row: StoredConfigurationView, e: StoreError) -> bool {
    if schedule_from_columns(row.schedule_kind, row.schedule_days) is None {
        is_unsupported(e, "schedule"@, row.schedule_kind)
    } else if opt_timestamp_from_bytes(row.last_attempt) is None {
        opt_timestamp_error(e, row.last_attempt, "last attempt"@)
    } else if opt_timestamp_from_bytes(row.last_success) is None {
        opt_timestamp_error(e, row.last_success, "last success"@)
    } else {
        opt_timestamp_error(e, row.next_run, "next run"@)
    }
}

/// Returns the row that stores a reconciliation configuration. The row reads
/// back as the same configuration.
pub fn stored_configuration(value: &ReconciliationConfiguration) -> (r: StoredConfiguration)
    ensures
        r@ == configuration_row(value@),
        configuration_from_row(r@) == Some(value@),
{
    let (kind, days) = match value.schedule {
        ReconciliationSchedule::Daily => ("daily", 0u8),
        ReconciliationSchedule::Weekdays => ("weekdays", 0u8),
        ReconciliationSchedule::Selected(d) => ("selected", d),
    };
    proof {
        law_state_word_round_trip(value.state);
        reveal_strlit("daily");
        reveal_strlit("weekdays");
        reveal_strlit("selected");
        reveal_strlit("enabled");
        reveal_strlit("paused");
        assert("daily"@.len() == 5);
        assert("weekdays"@.len() == 8);
        assert("selected"@.len() == 8);
        assert("weekdays"@[0] != "selected"@[0]);
        assert("enabled"@.len() == 7);
        assert("paused"@.len() == 6);
    }
    StoredConfiguration {
        monitoring: encode_monitoring(value.monitoring).to_owned(),
        record_folder: match &value.record_folder {
            Some(v) => Some(v.clone()),
            None => None,
        },
        schedule_kind: kind.to_owned(),
        schedule_days: days,
        local_hour: value.time.hour,
        local_minute: value.time.minute,
        last_attempt: encode_optional_timestamp(value.last_attempt),
        last_success: encode_optional_timestamp(value.last_success),
        next_run: encode_optional_timestamp(value.next_run),
        last_error: match &value.last_error {
            Some(v) => Some(v.clone()),
            None => None,
        },
        counts: value.counts,
        state: encode_state(value.state).to_owned(),
    }
}

/// Decodes the reconciliation configuration a stored row holds.
pub fn decode_configuration(row: StoredConfiguration) -> (r: Result<
    ReconciliationConfiguration,
    StoreError,
>)
    ensures
        match r {
            Ok(c) => configuration_from_row(row@) == Some(c@),
            Err(e) => configuration_from_row(row@) is None && configuration_row_error(row@, e),
        },
{
    let schedule = if str_eq(row.schedule_kind.as_str(), "daily") {
        ReconciliationSchedule::Daily
    } else if str_eq(row.schedule_kind.as_str(), "weekdays") {
        ReconciliationSchedule::Weekdays
    } else if str_eq(row.schedule_kind.as_str(), "selected") {
        ReconciliationSchedule::Selected(row.schedule_days)
    } else {
        return Err(
            StoreError::UnsupportedStoredData {
                field: "schedule".to_owned(),
                value: row.schedule_kind,
            },
        );
    };
    let last_attempt = match decode_optional_timestamp(row.last_attempt, "last attempt") {
        Ok(t) => t,
        Err(e) => return Err(e),
    };
    let last_success = match decode_optional_timestamp(row.last_success, "last success") {
        Ok(t) => t,
        Err(e) => return Err(e),
    };
    let next_run = match decode_optional_timestamp(row.next_run, "next run") {
        Ok(t) => t,
        Err(e) => return Err(e),
    };
    Ok(
        ReconciliationConfiguration {
            monitoring: decode_monitoring(row.monitoring.as_str()),
            record_folder: row.record_folder,
            schedule,
            time: LocalReconciliationTime { hour: row.local_hour, minute: row.local_minute },
            last_attempt,
            last_success,
            next_run,
            last_error: row.last_error,
            counts: row.counts,
            state: decode_state(row.state.as_str()),
        },
    )
}

/// The columns of a stored run status, manual or scheduled.
pub struct StoredRunStatus {
    pub last_attempt: Option<Vec<u8>>,
    pub last_success: Option<Vec<u8>>,
    pub last_error: Option<String>,
    pub counts: ReconciliationCounts,
    pub state: String,
    pub last_reconciled_local_date: Option<String>,
    pub next_scheduled_run: Option<Vec<u8>>,
}

/// The mathematical content of a [`StoredRunStatus`].
pub struct StoredRunStatusView {
    pub last_attempt: Option<Seq<u8>>,
    pub last_success: Option<Seq<u8>>,
    pub last_error: Option<Seq<char>>,
    pub counts: ReconciliationCounts,
    pub state: Seq<char>,
    pub last_reconciled_local_date: Option<Seq<char>>,
    pub next_scheduled_run: Option<Seq<u8>>,
}

impl View for StoredRunStatus {
    type V = StoredRunStatusView;

    open spec fn view(&self) -> StoredRunStatusView {
        StoredRunStatusView {
            last_attempt: opt_bytes(self.last_attempt),
            last_success: opt_bytes(self.last_success),
            last_error: opt_view(self.last_error),
            counts: self.counts,
            state: self.state@,
            last_reconciled_local_date: opt_view(self.last_reconciled_local_date),
            next_scheduled_run: opt_bytes(self.next_scheduled_run),
        }
    }
}

/// The row that stores a manual run status; it has no scheduled columns.
pub open spec fn manual_status_row(s: ManualStatusView) -> StoredRunStatusView {
    StoredRunStatusView {
        last_attempt: opt_timestamp_bytes(s.last_attempt),
        last_success: opt_timestamp_bytes(s.last_success),
        last_error: s.last_error,
        counts: s.counts,
        state: state_word(s.state),
        last_reconciled_local_date: None,
        next_scheduled_run: None,
    }
}

/// The manual run status a stored row holds, if its times decode.
pub open spec fn manual_status_from_row(row: StoredRunStatusView) -> Option<ManualStatusView> {
    match (
        opt_timestamp_from_bytes(row.last_attempt),
        opt_timestamp_from_bytes(row.last_success),
    ) {
        (Some(last_attempt), Some(last_success)) => Some(
            ManualStatusView {
                last_attempt,
                last_success,
                last_error: row.last_error,
                counts: row.counts,
                state: state_from_word(row.state),
            },
        ),
        _ => None,
    }
}

/// Whether `e` is the error that decoding a stored manual status reports.
pub open spec fn manual_status_row_error(row: StoredRunStatusView, e: StoreError) -> bool {
    if opt_timestamp_from_bytes(row.last_attempt) is None {
        opt_timestamp_error(e, row.last_attempt, "manual attempt"@)
    } else {
        opt_timestamp_error(e, row.last_success, "manual success"@)
    }
}

/// Returns the row that stores a manual run status. The row reads back as
/// the same status.
pub fn stored_manual_status(value: &ManualUpdateStatus) -> (r: StoredRunStatus)
    ensures
        r@ == manual_status_row(value@),
        manual_status_from_row(r@) == Some(value@),
{
    proof {
        law_state_word_round_trip(value.state);
    }
    StoredRunStatus {
        last_attempt: encode_optional_timestamp(value.last_attempt),
        last_success: encode_optional_timestamp(value.last_success),
        last_error: match &value.last_error {
            Some(v) => Some(v.clone()),
            None => None,
        },
        counts: value.counts,
        state: encode_state(value.state).to_owned(),
        last_reconciled_local_date: None,
        next_scheduled_run: None,
    }
}

/// Decodes the manual run status a stored row holds.
pub fn decode_manual_status(row: StoredRunStatus) -> (r: Result<ManualUpdateStatus, StoreError>)
    ensures
        match r {
            Ok(s) => manual_status_from_row(row@) == Some(s@),
            Err(e) => manual_status_from_row(row@) is None && manual_status_row_error(row@, e),
        },
{
    let last_attempt = match decode_optional_timestamp(row.last_attempt, "manual attempt") {
        Ok(t) => t,
        Err(e) => return Err(e),
    };
    let last_success = match decode_optional_timestamp(row.last_success, "manual success") {
        Ok(t) => t,
        Err(e) => return Err(e),
    };
    Ok(
        ManualUpdateStatus {
            last_attempt,
            last_success,
            last_error: row.last_error,
            counts: row.counts,
            state: decode_state(row.state.as_str()),
        },
    )
}

/// The row that stores a scheduled reconciliation status.
pub open spec fn scheduled_status_row(s: ScheduledStatusView) -> StoredRunStatusView {
    StoredRunStatusView {
        last_attempt: opt_timestamp_bytes(s.last_attempt),
        last_success: opt_timestamp_bytes(s.last_success),
        last_error: s.last_error,
        counts: s.counts,
        state: state_word(s.state),
        last_reconciled_local_date: s.last_reconciled_local_date,
        next_scheduled_run: opt_timestamp_bytes(s.next_scheduled_run),
    }
}

/// The scheduled reconciliation status a stored row holds, if its times
/// decode.
pub open spec fn scheduled_status_from_row(row: StoredRunStatusView) -> Option<ScheduledStatusView> {
    match (
        opt_timestamp_from_bytes(row.last_attempt),
        opt_timestamp_from_bytes(row.last_success),
        opt_timestamp_from_bytes(row.next_scheduled_run),
    ) {
        (Some(last_attempt), Some(last_success), Some(next_scheduled_run)) => Some(
            ScheduledStatusView {
                last_attempt,
                last_success,
                last_error: row.last_error,
                counts: row.counts,
                state: state_from_word(row.state),
                last_reconciled_local_date: row.last_reconciled_local_date,
                next_scheduled_run,
            },
        ),
        _ => None,
    }
}

/// Whether `e` is the error that decoding a stored scheduled status reports.
pub open spec fn scheduled_status_row_error(row: StoredRunStatusView, e: StoreError) -> bool {
    if opt_timestamp_from_bytes(row.last_attempt) is None {
        opt_timestamp_error(e, row.last_attempt, "scheduled attempt"@)
    } else if opt_timestamp_from_bytes(row.last_success) is None {
        opt_timestamp_error(e, row.last_success, "scheduled success"@)
    } else {
        opt_timestamp_error(e, row.next_scheduled_run, "next scheduled run"@)
    }
}

/// Returns the row that stores a scheduled reconciliation status. The row
/// reads back as the same status.
pub fn stored_scheduled_status(value: &ScheduledReconciliationStatus) -> (r: StoredRunStatus)
    ensures
        r@ == scheduled_status_row(value@),
        scheduled_status_from_row(r@) == Some(value@),
{
    proof {
        law_state_word_round_trip(value.state);
    }
    StoredRunStatus {
        last_attempt: encode_optional_timestamp(value.last_attempt),
        last_success: encode_optional_timestamp(value.last_success),
        last_error: match &value.last_error {
            Some(v) => Some(v.clone()),
            None => None,
        },
        counts: value.counts,
        state: encode_state(value.state).to_owned(),
        last_reconciled_local_date: match &value.last_reconciled_local_date {
            Some(v) => Some(v.clone()),
            None => None,
        },
        next_scheduled_run: encode_optional_timestamp(value.next_scheduled_run),
    }
}

/// Decodes the scheduled reconciliation status a stored row holds.
pub fn decode_scheduled_status(row: StoredRunStatus) -> (r: Result<
    ScheduledReconciliationStatus,
    StoreError,
>)
    ensures
        match r {
            Ok(s) => scheduled_status_from_row(row@) == Some(s@),
            Err(e) => scheduled_status_from_row(row@) is None && scheduled_status_row_error(row@, e),
        },
{
    let last_attempt = match decode_optional_timestamp(row.last_attempt, "scheduled attempt") {
        Ok(t) => t,
        Err(e) => return Err(e),
    };
    let last_success = match decode_optional_timestamp(row.last_success, "scheduled success") {
        Ok(t) => t,
        Err(e) => return Err(e),
    };
    let next_scheduled_run = match decode_optional_timestamp(
        row.next_scheduled_run,
        "next scheduled run",
    ) {
        Ok(t) => t,
        Err(e) => return Err(e),
    };
    Ok(
        ScheduledReconciliationStatus {
            last_attempt,
            last_success,
            last_error: row.last_error,
            counts: row.counts,
            state: decode_state(row.state.as_str()),
            last_reconciled_local_date: row.last_reconciled_local_date,
            next_scheduled_run,
        },
    )
}

} // verus!
