//! Append-only storage of events and annotations, and the mutable
//! operational records for discovery, connections and reconciliation.
//!
//! Events and annotations can be appended, read by identifier and listed in
//! chronological order; nothing that was appended is ever replaced or removed.

use crate::model::{
    Annotation, AnnotationField, AnnotationId, AnnotationValueView, AnnotationView, Event, EventId,
    EventView,
};
use crate::order::{
    ascending, key_less, key_lt, lemma_ascending_unique, lemma_insert_ascending, OrderKey,
};
use crate::model::UnixTime;
use crate::operations::{
    ConfigurationView, ConnectionId, ConnectionRecord, ConnectionStatus, DiscoveredSource,
    DiscoveredSourceId, ManualStatusView, ManualUpdateStatus, Operations, OperationsView,
    ReconciliationConfiguration, ScheduledReconciliationStatus, ScheduledStatusView,
};
use crate::text::push_str;
use vstd::prelude::*;

verus! {

/// The chronological position of an event: occurrence time, then identifier.
pub open spec fn event_key(e: EventView) -> OrderKey {
    (e.occurred_at, e.id)
}

/// The chronological positions of a sequence of events.
pub open spec fn event_keys(s: Seq<EventView>) -> Seq<OrderKey> {
    s.map_values(|e: EventView| event_key(e))
}

/// Whether an event with identifier `id` is in `s`.
pub open spec fn has_event_id(s: Seq<EventView>, id: Seq<char>) -> bool {
    exists|i: int| 0 <= i < s.len() && (#[trigger] s[i]).id == id
}

/// The event with identifier `id` in `s`, if any.
pub open spec fn find_event(s: Seq<EventView>, id: Seq<char>) -> Option<EventView> {
    if has_event_id(s, id) {
        Some(s[choose|i: int| 0 <= i < s.len() && (#[trigger] s[i]).id == id])
    } else {
        None
    }
}

/// Whether no two events share an identifier.
pub open spec fn event_ids_distinct(s: Seq<EventView>) -> bool {
    forall|i: int, j: int|
        0 <= i < s.len() && 0 <= j < s.len() && i != j ==> (#[trigger] s[i]).id != (
        #[trigger] s[j]).id
}

/// The chronological position of an annotation: assignment time, then identifier.
pub open spec fn annotation_key(a: AnnotationView) -> OrderKey {
    (a.assigned_at, a.id)
}

/// The chronological positions of a sequence of annotations.
pub open spec fn annotation_keys(s: Seq<AnnotationView>) -> Seq<OrderKey> {
    s.map_values(|a: AnnotationView| annotation_key(a))
}

/// Whether an annotation with identifier `id` is in `s`.
pub open spec fn has_annotation_id(s: Seq<AnnotationView>, id: Seq<char>) -> bool {
    exists|i: int| 0 <= i < s.len() && (#[trigger] s[i]).id == id
}

/// The annotation with identifier `id` in `s`, if any.
pub open spec fn find_annotation(s: Seq<AnnotationView>, id: Seq<char>) -> Option<AnnotationView> {
    if has_annotation_id(s, id) {
        Some(s[choose|i: int| 0 <= i < s.len() && (#[trigger] s[i]).id == id])
    } else {
        None
    }
}

/// Whether no two annotations share an identifier.
pub open spec fn annotation_ids_distinct(s: Seq<AnnotationView>) -> bool {
    forall|i: int, j: int|
        0 <= i < s.len() && 0 <= j < s.len() && i != j ==> (#[trigger] s[i]).id != (
        #[trigger] s[j]).id
}

/// Whether annotation `a` may stand in a store holding `events` and `annotations`:
/// it targets an existing event, and any annotation it supersedes exists, is a
/// different annotation, and targets the same event and field.
pub open spec fn annotation_grounded(
    events: Seq<EventView>,
    annotations: Seq<AnnotationView>,
    a: AnnotationView,
) -> bool {
    &&& has_event_id(events, a.event_id)
    &&& a.supersedes matches Some(s) ==> {
        &&& s != a.id
        &&& exists|k: int|
            0 <= k < annotations.len() && (#[trigger] annotations[k]).id == s
                && annotations[k].event_id == a.event_id && annotations[k].field == a.field
    }
}

/// The history of events and annotations held by a store.
pub struct HistoryView {
    pub events: Seq<EventView>,
    pub annotations: Seq<AnnotationView>,
}

/// Whether a history is well formed: events and annotations are each in
/// strict chronological order with distinct identifiers, and every annotation
/// is grounded.
pub open spec fn history_valid(h: HistoryView) -> bool {
    &&& ascending(event_keys(h.events))
    &&& event_ids_distinct(h.events)
    &&& ascending(annotation_keys(h.annotations))
    &&& annotation_ids_distinct(h.annotations)
    &&& forall|i: int|
        0 <= i < h.annotations.len() ==> annotation_grounded(
            h.events,
            h.annotations,
            #[trigger] h.annotations[i],
        )
}

/// Why an annotation is refused, or that it is accepted.
pub enum AnnotationOutcome {
    Accepted,
    MissingTargetEvent,
    SelfSupersession,
    MissingSupersedesAnnotation,
    SupersedesDifferentEvent(Seq<char>),
    SupersedesDifferentField(Seq<char>),
    DuplicateAnnotationId,
}

/// What appending annotation `a` to history `h` yields: the first failing
/// check in the order target event, self-supersession, predecessor existence,
/// predecessor event, predecessor field, identifier uniqueness.
pub open spec fn annotation_outcome(h: HistoryView, a: AnnotationView) -> AnnotationOutcome {
    if !has_event_id(h.events, a.event_id) {
        AnnotationOutcome::MissingTargetEvent
    } else if a.supersedes is Some && a.supersedes->0 == a.id {
        AnnotationOutcome::SelfSupersession
    } else if a.supersedes is Some && find_annotation(h.annotations, a.supersedes->0) is None {
        AnnotationOutcome::MissingSupersedesAnnotation
    } else if a.supersedes is Some && find_annotation(h.annotations, a.supersedes->0)->0.event_id
        != a.event_id {
        AnnotationOutcome::SupersedesDifferentEvent(
            find_annotation(h.annotations, a.supersedes->0)->0.event_id,
        )
    } else if a.supersedes is Some && find_annotation(h.annotations, a.supersedes->0)->0.field
        != a.field {
        AnnotationOutcome::SupersedesDifferentField(
            find_annotation(h.annotations, a.supersedes->0)->0.field,
        )
    } else if has_annotation_id(h.annotations, a.id) {
        AnnotationOutcome::DuplicateAnnotationId
    } else {
        AnnotationOutcome::Accepted
    }
}

/// Errors returned by append-only storage operations.
#[derive(Debug)]
pub enum StoreError {
    /// The storage medium could not complete an operation.
    Database { message: String },
    /// An event with this stable identifier already exists.
    DuplicateEventId(EventId),
    /// An annotation with this stable identifier already exists.
    DuplicateAnnotationId(AnnotationId),
    /// An annotation's target event does not exist.
    MissingTargetEvent(EventId),
    /// An annotation's superseded predecessor does not exist.
    MissingSupersedesAnnotation(AnnotationId),
    /// A superseded predecessor targets a different event.
    SupersedesDifferentEvent {
        /// The event targeted by the new annotation.
        event_id: EventId,
        /// The event targeted by the predecessor.
        superseded_event_id: EventId,
    },
    /// A superseded predecessor assigns a different organizational field.
    SupersedesDifferentField {
        /// The field assigned by the new annotation.
        field: AnnotationField,
        /// The field assigned by the predecessor.
        superseded_field: AnnotationField,
    },
    /// An annotation cannot name itself as its predecessor.
    SelfSupersession(AnnotationId),
    /// Stored data could not be decoded as a supported representation.
    MalformedStoredData { field: String, detail: String },
    /// Stored data uses a representation this version does not support.
    UnsupportedStoredData { field: String, value: String },
    /// A value could not be serialized for storage.
    Serialization { detail: String },
    /// No discovered source has this identifier.
    MissingDiscoveredSource(DiscoveredSourceId),
    /// No connection has this identifier.
    MissingConnection(ConnectionId),
    /// The source is already connected.
    ConnectionAlreadyApproved(DiscoveredSourceId),
    /// The source is not awaiting a consent decision.
    ConnectionNotApproved(DiscoveredSourceId),
    /// The connection cannot move between these statuses.
    InvalidConnectionTransition { id: ConnectionId, from: ConnectionStatus, to: ConnectionStatus },
}

/// The name of a connection status as debugging output writes it.
pub open spec fn status_debug_name(status: ConnectionStatus) -> Seq<char> {
    match status {
        ConnectionStatus::Enabled => "Enabled"@,
        ConnectionStatus::Paused => "Paused"@,
        ConnectionStatus::Disconnected => "Disconnected"@,
    }
}

/// Returns the name of a connection status as debugging output writes it.
pub fn status_debug(status: ConnectionStatus) -> (r: &'static str)
    ensures
        r@ == status_debug_name(status),
{
    match status {
        ConnectionStatus::Enabled => "Enabled",
        ConnectionStatus::Paused => "Paused",
        ConnectionStatus::Disconnected => "Disconnected",
    }
}

/// The message that describes a storage error.
pub open spec fn store_error_text(e: StoreError) -> Seq<char> {
    match e {
        StoreError::Database { message } => "database failure: "@ + message@,
        StoreError::DuplicateEventId(id) => "duplicate event ID: "@ + id@,
        StoreError::DuplicateAnnotationId(id) => "duplicate annotation ID: "@ + id@,
        StoreError::MissingTargetEvent(id) => "missing target event: "@ + id@,
        StoreError::MissingSupersedesAnnotation(id) => "missing superseded annotation: "@ + id@,
        StoreError::SupersedesDifferentEvent { event_id, superseded_event_id } =>
            "supersession event mismatch: "@ + event_id@ + " cannot supersede an annotation for "@
                + superseded_event_id@,
        StoreError::SupersedesDifferentField { field, superseded_field } =>
            "supersession field mismatch: "@ + field@ + " cannot supersede "@ + superseded_field@,
        StoreError::SelfSupersession(id) => "annotation cannot supersede itself: "@ + id@,
        StoreError::MalformedStoredData { field, detail } => "malformed stored "@ + field@ + ": "@
            + detail@,
        StoreError::UnsupportedStoredData { field, value } => "unsupported stored "@ + field@
            + ": "@ + value@,
        StoreError::Serialization { detail } => "serialization failure: "@ + detail@,
        StoreError::MissingDiscoveredSource(id) => "missing discovered source: "@ + id@,
        StoreError::MissingConnection(id) => "missing connection: "@ + id@,
        StoreError::ConnectionAlreadyApproved(id) => "source already approved: "@ + id@,
        StoreError::ConnectionNotApproved(id) => "source is not awaiting approval: "@ + id@,
        StoreError::InvalidConnectionTransition { id, from, to } =>
            "invalid connection transition for "@ + id@ + ": "@ + status_debug_name(from)
                + " to "@ + status_debug_name(to),
    }
}

impl StoreError {
    /// Describes the error for a person.
    pub fn message(&self) -> (r: String)
        ensures
            r@ == store_error_text(*self),
    {
        let mut s = String::new();
        match self {
            StoreError::Database { message } => {
                push_str(&mut s, "database failure: ");
                push_str(&mut s, message.as_str());
            },
            StoreError::DuplicateEventId(id) => {
                push_str(&mut s, "duplicate event ID: ");
                push_str(&mut s, id.as_str());
            },
            StoreError::DuplicateAnnotationId(id) => {
                push_str(&mut s, "duplicate annotation ID: ");
                push_str(&mut s, id.as_str());
            },
            StoreError::MissingTargetEvent(id) => {
                push_str(&mut s, "missing target event: ");
                push_str(&mut s, id.as_str());
            },
            StoreError::MissingSupersedesAnnotation(id) => {
                push_str(&mut s, "missing superseded annotation: ");
                push_str(&mut s, id.as_str());
            },
            StoreError::SupersedesDifferentEvent { event_id, superseded_event_id } => {
                push_str(&mut s, "supersession event mismatch: ");
                push_str(&mut s, event_id.as_str());
                push_str(&mut s, " cannot supersede an annotation for ");
                push_str(&mut s, superseded_event_id.as_str());
            },
            StoreError::SupersedesDifferentField { field, superseded_field } => {
                push_str(&mut s, "supersession field mismatch: ");
                push_str(&mut s, field.as_str());
                push_str(&mut s, " cannot supersede ");
                push_str(&mut s, superseded_field.as_str());
            },
            StoreError::SelfSupersession(id) => {
                push_str(&mut s, "annotation cannot supersede itself: ");
                push_str(&mut s, id.as_str());
            },
            StoreError::MalformedStoredData { field, detail } => {
                push_str(&mut s, "malformed stored ");
                push_str(&mut s, field.as_str());
                push_str(&mut s, ": ");
                push_str(&mut s, detail.as_str());
            },
            StoreError::UnsupportedStoredData { field, value } => {
                push_str(&mut s, "unsupported stored ");
                push_str(&mut s, field.as_str());
                push_str(&mut s, ": ");
                push_str(&mut s, value.as_str());
            },
            StoreError::Serialization { detail } => {
                push_str(&mut s, "serialization failure: ");
                push_str(&mut s, detail.as_str());
            },
            StoreError::MissingDiscoveredSource(id) => {
                push_str(&mut s, "missing discovered source: ");
                push_str(&mut s, id.as_str());
            },
            StoreError::MissingConnection(id) => {
                push_str(&mut s, "missing connection: ");
                push_str(&mut s, id.as_str());
            },
            StoreError::ConnectionAlreadyApproved(id) => {
                push_str(&mut s, "source already approved: ");
                push_str(&mut s, id.as_str());
            },
            StoreError::ConnectionNotApproved(id) => {
                push_str(&mut s, "source is not awaiting approval: ");
                push_str(&mut s, id.as_str());
            },
            StoreError::InvalidConnectionTransition { id, from, to } => {
                push_str(&mut s, "invalid connection transition for ");
                push_str(&mut s, id.as_str());
                push_str(&mut s, ": ");
                push_str(&mut s, status_debug(*from));
                push_str(&mut s, " to ");
                push_str(&mut s, status_debug(*to));
            },
        }
        s
    }
}

/// Whether `e` reports malformed stored data in `field` with `detail`.
pub open spec fn is_malformed(e: StoreError, field: Seq<char>, detail: Seq<char>) -> bool {
    e matches StoreError::MalformedStoredData { field: f, detail: d } && f@ == field && d@ == detail
}

/// Whether `e` reports an unsupported stored `value` in `field`.
pub open spec fn is_unsupported(e: StoreError, field: Seq<char>, value: Seq<char>) -> bool {
    e matches StoreError::UnsupportedStoredData { field: f, value: v } && f@ == field && v@ == value
}

/// Append-only history of events and annotations.
pub struct History {
    events: Vec<Event>,
    annotations: Vec<Annotation>,
}

impl View for History {
    type V = HistoryView;

    closed spec fn view(&self) -> HistoryView {
        HistoryView {
            events: self.events@.map_values(|e: Event| e@),
            annotations: self.annotations@.map_values(|a: Annotation| a@),
        }
    }
}

/// An event appended at some position of a history with no event of its identifier.
pub open spec fn event_appended(before: Seq<EventView>, after: Seq<EventView>, e: EventView) -> bool {
    &&& !has_event_id(before, e.id)
    &&& exists|p: int| 0 <= p <= before.len() && after == before.insert(p, e)
}

/// An annotation appended at some position of a history.
pub open spec fn annotation_appended(
    before: Seq<AnnotationView>,
    after: Seq<AnnotationView>,
    a: AnnotationView,
) -> bool {
    exists|p: int| 0 <= p <= before.len() && after == before.insert(p, a)
}

impl History {
    #[verifier::type_invariant]
    closed spec fn valid(&self) -> bool {
        history_valid(self@)
    }

    /// Creates an empty history.
    pub fn new() -> (r: Self)
        ensures
            r@.events == Seq::<EventView>::empty(),
            r@.annotations == Seq::<AnnotationView>::empty(),
    {
        let r = History { events: Vec::new(), annotations: Vec::new() };
        assert(r@.events =~= Seq::<EventView>::empty());
        assert(r@.annotations =~= Seq::<AnnotationView>::empty());
        r
    }

    /// Every history is well formed.
    pub fn check_valid(&self)
        ensures
            history_valid(self@),
    {
        proof {
            use_type_invariant(self);
        }
    }

    /// The number of events.
    pub fn event_count(&self) -> (r: usize)
        ensures
            r == self@.events.len(),
    {
        self.events.len()
    }

    fn event_index(&self, id: &str) -> (r: Option<usize>)
        ensures
            match r {
                Some(i) => i < self@.events.len() && self@.events[i as int].id == id@,
                None => !has_event_id(self@.events, id@),
            },
    {
        let mut i: usize = 0;
        while i < self.events.len()
            invariant
                i <= self@.events.len(),
                self@.events.len() == self.events@.len(),
                forall|j: int| 0 <= j < i ==> (#[trigger] self@.events[j]).id != id@,
            decreases self.events.len() - i,
        {
            if crate::text::str_eq(self.events[i].id().as_str(), id) {
                return Some(i);
            }
            i = i + 1;
        }
        None
    }

    fn annotation_index(&self, id: &str) -> (r: Option<usize>)
        ensures
            match r {
                Some(i) => i < self@.annotations.len() && self@.annotations[i as int].id == id@,
                None => !has_annotation_id(self@.annotations, id@),
            },
    {
        let mut i: usize = 0;
        while i < self.annotations.len()
            invariant
                i <= self@.annotations.len(),
                self@.annotations.len() == self.annotations@.len(),
                forall|j: int| 0 <= j < i ==> (#[trigger] self@.annotations[j]).id != id@,
            decreases self.annotations.len() - i,
        {
            if crate::text::str_eq(self.annotations[i].id().as_str(), id) {
                return Some(i);
            }
            i = i + 1;
        }
        None
    }

    /// Appends an event. Existing events are never overwritten.
    pub fn append_event(&mut self, event: &Event) -> (r: Result<(), StoreError>)
        ensures
            history_valid(final(self)@),
            final(self)@.annotations == old(self)@.annotations,
            match r {
                Ok(()) => event_appended(old(self)@.events, final(self)@.events, event@)
                    && final(self)@.events.len() <= usize::MAX,
                Err(StoreError::DuplicateEventId(id)) => {
                    &&& id@ == event@.id
                    &&& has_event_id(old(self)@.events, event@.id)
                    &&& final(self)@ == old(self)@
                },
                Err(_) => false,
            },
    {
        proof {
            use_type_invariant(&*self);
        }
        if let Some(_) = self.event_index(event.id().as_str()) {
            return Err(StoreError::DuplicateEventId(event.id().duplicate()));
        }
        let ghost before = self@;
        let ghost k = event_key(event@);
        let mut p: usize = 0;
        loop
            invariant
                p <= self@.events.len(),
                self@ == before,
                k == event_key(event@),
                self@.events.len() == self.events@.len(),
                forall|j: int| 0 <= j < p ==> key_lt(#[trigger] event_keys(before.events)[j], k),
            ensures
                p <= self@.events.len(),
                forall|j: int| 0 <= j < p ==> key_lt(#[trigger] event_keys(before.events)[j], k),
                p < self@.events.len() ==> !key_lt(event_keys(before.events)[p as int], k),
            decreases self.events.len() - p,
        {
            if p >= self.events.len() {
                break;
            }
            let current = &self.events[p];
            assert(event_keys(before.events)[p as int] == event_key(current@));
            let t1 = current.occurred_at().as_system_time();
            let t2 = event.occurred_at().as_system_time();
            if !key_less(&t1, current.id().as_str(), &t2, event.id().as_str()) {
                break;
            }
            p = p + 1;
        }
        proof {
            let ks = event_keys(before.events);
            assert forall|i: int| 0 <= i < ks.len() implies #[trigger] ks[i] != k by {
                assert(before.events[i].id != event@.id);
            }
            lemma_insert_ascending(ks, p as int, k);
            assert(event_keys(before.events.insert(p as int, event@)) =~= ks.insert(p as int, k));
        }
        let mut taken = History::new();
        std::mem::swap(self, &mut taken);
        let History { mut events, annotations } = taken;
        events.insert(p, event.duplicate());
        let _count = events.len();
        proof {
            let after = events@.map_values(|e: Event| e@);
            assert(after =~= before.events.insert(p as int, event@));
            assert forall|i: int, j: int|
                0 <= i < after.len() && 0 <= j < after.len() && i != j implies (
                #[trigger] after[i]).id != (#[trigger] after[j]).id by {
                if i != p && j != p {
                    let bi = if i < p { i } else { i - 1 };
                    let bj = if j < p { j } else { j - 1 };
                    assert(after[i] == before.events[bi]);
                    assert(after[j] == before.events[bj]);
                } else if i == p {
                    let bj = if j < p { j } else { j - 1 };
                    assert(after[j] == before.events[bj]);
                } else {
                    let bi = if i < p { i } else { i - 1 };
                    assert(after[i] == before.events[bi]);
                }
            }
            assert forall|i: int| 0 <= i < before.annotations.len() implies annotation_grounded(
                after,
                before.annotations,
                #[trigger] before.annotations[i],
            ) by {
                assert(annotation_grounded(before.events, before.annotations, before.annotations[i]));
                let a = before.annotations[i];
                let m = choose|m: int| 0 <= m < before.events.len() && (#[trigger] before.events[m]).id == a.event_id;
                if m < p {
                    assert(after[m].id == a.event_id);
                } else {
                    assert(after[m + 1].id == a.event_id);
                }
            }
        }
        *self = History { events, annotations };
        Ok(())
    }

    /// Retrieves an event by its stable identifier.
    pub fn get_event(&self, id: &EventId) -> (r: Option<Event>)
        ensures
            match r {
                Some(e) => find_event(self@.events, id@) == Some(e@),
                None => find_event(self@.events, id@) is None,
            },
    {
        proof {
            use_type_invariant(self);
        }
        match self.event_index(id.as_str()) {
            Some(i) => {
                proof {
                    let c = choose|c: int| 0 <= c < self@.events.len() && (#[trigger] self@.events[c]).id == id@;
                    if c != i {
                        assert(self@.events[c].id != self@.events[i as int].id);
                    }
                }
                Some(self.events[i].duplicate())
            },
            None => None,
        }
    }

    /// Lists events by occurrence time, then stable identifier.
    pub fn list_events(&self) -> (r: Vec<Event>)
        ensures
            r@.map_values(|e: Event| e@) == self@.events,
            ascending(event_keys(self@.events)),
    {
        proof {
            use_type_invariant(self);
        }
        let mut out: Vec<Event> = Vec::new();
        let mut i: usize = 0;
        while i < self.events.len()
            invariant
                i <= self.events@.len(),
                out@.len() == i,
                out@.map_values(|e: Event| e@) =~= self@.events.subrange(0, i as int),
            decreases self.events.len() - i,
        {
            out.push(self.events[i].duplicate());
            assert(out@.map_values(|e: Event| e@) =~= self@.events.subrange(0, i + 1));
            i = i + 1;
        }
        assert(self@.events.subrange(0, self.events@.len() as int) =~= self@.events);
        out
    }

    /// Appends an annotation after checking that it is grounded and new.
    /// Existing annotations are never overwritten.
    pub fn append_annotation(&mut self, annotation: &Annotation) -> (r: Result<(), StoreError>)
        ensures
            history_valid(final(self)@),
            final(self)@.events == old(self)@.events,
            match annotation_outcome(old(self)@, annotation@) {
                AnnotationOutcome::Accepted => r is Ok && annotation_appended(
                    old(self)@.annotations,
                    final(self)@.annotations,
                    annotation@,
                ),
                AnnotationOutcome::MissingTargetEvent => r matches Err(
                    StoreError::MissingTargetEvent(id),
                ) && id@ == annotation@.event_id && final(self)@ == old(self)@,
                AnnotationOutcome::SelfSupersession => r matches Err(StoreError::SelfSupersession(id))
                    && id@ == annotation@.id && final(self)@ == old(self)@,
                AnnotationOutcome::MissingSupersedesAnnotation => r matches Err(
                    StoreError::MissingSupersedesAnnotation(id),
                ) && Some(id@) == annotation@.supersedes && final(self)@ == old(self)@,
                AnnotationOutcome::SupersedesDifferentEvent(other) => r matches Err(
                    StoreError::SupersedesDifferentEvent { event_id, superseded_event_id },
                ) && event_id@ == annotation@.event_id && superseded_event_id@ == other
                    && final(self)@ == old(self)@,
                AnnotationOutcome::SupersedesDifferentField(other) => r matches Err(
                    StoreError::SupersedesDifferentField { field, superseded_field },
                ) && field@ == annotation@.field && superseded_field@ == other
                    && final(self)@ == old(self)@,
                AnnotationOutcome::DuplicateAnnotationId => r matches Err(
                    StoreError::DuplicateAnnotationId(id),
                ) && id@ == annotation@.id && final(self)@ == old(self)@,
            },
    {
        proof {
            use_type_invariant(&*self);
        }
        let ghost before = self@;
        let ghost a = annotation@;
        if self.event_index(annotation.event_id().as_str()).is_none() {
            return Err(StoreError::MissingTargetEvent(annotation.event_id().duplicate()));
        }
        if let Some(supersedes) = annotation.supersedes() {
            if supersedes.same_as(annotation.id()) {
                return Err(StoreError::SelfSupersession(annotation.id().duplicate()));
            }
            match self.annotation_index(supersedes.as_str()) {
                None => {
                    return Err(StoreError::MissingSupersedesAnnotation(supersedes.duplicate()));
                },
                Some(q) => {
                    proof {
                        let c = choose|c: int| 0 <= c < before.annotations.len() && (#[trigger] before.annotations[c]).id == supersedes@;
                        if c != q {
                            assert(before.annotations[c].id != before.annotations[q as int].id);
                        }
                    }
                    let predecessor = &self.annotations[q];
                    if !predecessor.event_id().same_as(annotation.event_id()) {
                        return Err(
                            StoreError::SupersedesDifferentEvent {
                                event_id: annotation.event_id().duplicate(),
                                superseded_event_id: predecessor.event_id().duplicate(),
                            },
                        );
                    }
                    if !predecessor.field().same_as(annotation.field()) {
                        return Err(
                            StoreError::SupersedesDifferentField {
                                field: annotation.field().duplicate(),
                                superseded_field: predecessor.field().duplicate(),
                            },
                        );
                    }
                },
            }
        }
        if let Some(_) = self.annotation_index(annotation.id().as_str()) {
            return Err(StoreError::DuplicateAnnotationId(annotation.id().duplicate()));
        }
        assert(annotation_outcome(before, a) == AnnotationOutcome::Accepted);
        assert(annotation_grounded(before.events, before.annotations, a));
        let ghost k = annotation_key(a);
        let mut p: usize = 0;
        loop
            invariant
                p <= self@.annotations.len(),
                self@ == before,
                k == annotation_key(a),
                a == annotation@,
                self@.annotations.len() == self.annotations@.len(),
                forall|j: int| 0 <= j < p ==> key_lt(#[trigger] annotation_keys(before.annotations)[j], k),
            ensures
                p <= self@.annotations.len(),
                forall|j: int| 0 <= j < p ==> key_lt(#[trigger] annotation_keys(before.annotations)[j], k),
                p < self@.annotations.len() ==> !key_lt(annotation_keys(before.annotations)[p as int], k),
            decreases self.annotations.len() - p,
        {
            if p >= self.annotations.len() {
                break;
            }
            let current = &self.annotations[p];
            assert(annotation_keys(before.annotations)[p as int] == annotation_key(current@));
            if !key_less(
                &current.assigned_at().as_system_time(),
                current.id().as_str(),
                &annotation.assigned_at().as_system_time(),
                annotation.id().as_str(),
            ) {
                break;
            }
            p = p + 1;
        }
        proof {
            let ks = annotation_keys(before.annotations);
            assert forall|i: int| 0 <= i < ks.len() implies #[trigger] ks[i] != k by {
                assert(before.annotations[i].id != a.id);
            }
            lemma_insert_ascending(ks, p as int, k);
            assert(annotation_keys(before.annotations.insert(p as int, a)) =~= ks.insert(p as int, k));
        }
        let mut taken = History::new();
        std::mem::swap(self, &mut taken);
        let History { events, mut annotations } = taken;
        annotations.insert(p, annotation.duplicate());
        proof {
            let after = annotations@.map_values(|x: Annotation| x@);
            assert(after =~= before.annotations.insert(p as int, a));
            assert forall|i: int, j: int|
                0 <= i < after.len() && 0 <= j < after.len() && i != j implies (
                #[trigger] after[i]).id != (#[trigger] after[j]).id by {
                if i != p && j != p {
                    let bi = if i < p { i } else { i - 1 };
                    let bj = if j < p { j } else { j - 1 };
                    assert(after[i] == before.annotations[bi]);
                    assert(after[j] == before.annotations[bj]);
                } else if i == p {
                    let bj = if j < p { j } else { j - 1 };
                    assert(after[j] == before.annotations[bj]);
                } else {
                    let bi = if i < p { i } else { i - 1 };
                    assert(after[i] == before.annotations[bi]);
                }
            }
            assert forall|i: int| 0 <= i < after.len() implies annotation_grounded(
                before.events,
                after,
                #[trigger] after[i],
            ) by {
                let x = after[i];
                let bx = if i < p { before.annotations[i] } else if i == p { a } else { before.annotations[i - 1] };
                assert(x == bx);
                if i != p {
                    let bi = if i < p { i } else { i - 1 };
                    assert(annotation_grounded(before.events, before.annotations, before.annotations[bi]));
                }
                if x.supersedes is Some {
                    let s = x.supersedes->0;
                    let k2 = choose|k2: int|
                        0 <= k2 < before.annotations.len() && (#[trigger] before.annotations[k2]).id == s
                            && before.annotations[k2].event_id == x.event_id && before.annotations[k2].field == x.field;
                    if k2 < p {
                        assert(after[k2] == before.annotations[k2]);
                    } else {
                        assert(after[k2 + 1] == before.annotations[k2]);
                    }
                }
            }
        }
        *self = History { events, annotations };
        Ok(())
    }

    /// Retrieves an annotation by its stable identifier.
    pub fn get_annotation(&self, id: &AnnotationId) -> (r: Option<Annotation>)
        ensures
            match r {
                Some(a) => find_annotation(self@.annotations, id@) == Some(a@),
                None => find_annotation(self@.annotations, id@) is None,
            },
    {
        proof {
            use_type_invariant(self);
        }
        match self.annotation_index(id.as_str()) {
            Some(i) => {
                proof {
                    let c = choose|c: int| 0 <= c < self@.annotations.len() && (#[trigger] self@.annotations[c]).id == id@;
                    if c != i {
                        assert(self@.annotations[c].id != self@.annotations[i as int].id);
                    }
                }
                Some(self.annotations[i].duplicate())
            },
            None => None,
        }
    }

    /// Lists an event's annotations by assignment time, then stable identifier.
    pub fn list_annotations_for_event(&self, event_id: &EventId) -> (r: Vec<Annotation>)
        ensures
            r@.map_values(|a: Annotation| a@) == self@.annotations.filter(
                |a: AnnotationView| a.event_id == event_id@,
            ),
            ascending(annotation_keys(self@.annotations)),
    {
        proof {
            use_type_invariant(self);
        }
        let ghost all = self@.annotations;
        let ghost pred = |a: AnnotationView| a.event_id == event_id@;
        let mut out: Vec<Annotation> = Vec::new();
        let mut i: usize = 0;
        while i < self.annotations.len()
            invariant
                i <= self.annotations@.len(),
                all == self@.annotations,
                all.len() == self.annotations@.len(),
                pred == (|a: AnnotationView| a.event_id == event_id@),
                out@.map_values(|a: Annotation| a@) =~= all.subrange(0, i as int).filter(pred),
            decreases self.annotations.len() - i,
        {
            reveal_with_fuel(Seq::<_>::filter, 1);
            assert(all.subrange(0, i + 1).drop_last() =~= all.subrange(0, i as int));
            if self.annotations[i].event_id().same_as(event_id) {
                out.push(self.annotations[i].duplicate());
            }
            assert(out@.map_values(|a: Annotation| a@) =~= all.subrange(0, i + 1).filter(pred));
            i = i + 1;
        }
        assert(all.subrange(0, all.len() as int) =~= all);
        out
    }
}

/// Appending an event and then reading its identifier gives back that event,
/// and reading any other identifier gives what it gave before.
pub proof fn law_event_read_back(before: Seq<EventView>, after: Seq<EventView>, e: EventView, other: Seq<char>)
    requires
        event_ids_distinct(before),
        event_appended(before, after, e),
    ensures
        find_event(after, e.id) == Some(e),
        other != e.id ==> find_event(after, other) == find_event(before, other),
{
    let p = choose|p: int| 0 <= p <= before.len() && after == before.insert(p, e);
    assert(after[p].id == e.id);
    let c = choose|c: int| 0 <= c < after.len() && (#[trigger] after[c]).id == e.id;
    if c != p {
        let bc = if c < p { c } else { c - 1 };
        assert(after[c] == before[bc]);
    }
    if other != e.id {
        if has_event_id(after, other) {
            let i = choose|i: int| 0 <= i < after.len() && (#[trigger] after[i]).id == other;
            let bi = if i < p { i } else { i - 1 };
            assert(after[i] == before[bi]);
            assert(has_event_id(before, other));
            let c1 = choose|c: int| 0 <= c < before.len() && (#[trigger] before[c]).id == other;
            if c1 != bi {
                assert(before[c1].id != before[bi].id);
            }
        } else {
            if has_event_id(before, other) {
                let i = choose|i: int| 0 <= i < before.len() && (#[trigger] before[i]).id == other;
                let ai = if i < p { i } else { i + 1 };
                assert(after[ai] == before[i]);
            }
        }
    }
}

proof fn lemma_filter_keeps_order(s: Seq<AnnotationView>, pred: spec_fn(AnnotationView) -> bool)
    requires
        ascending(annotation_keys(s)),
    ensures
        ascending(annotation_keys(s.filter(pred))),
        forall|x: AnnotationView| #[trigger] s.filter(pred).contains(x) ==> s.contains(x),
    decreases s.len(),
{
    reveal(Seq::filter);
    if s.len() > 0 {
        let d = s.drop_last();
        assert forall|i: int, j: int| 0 <= i < j < annotation_keys(d).len() implies key_lt(
            #[trigger] annotation_keys(d)[i],
            #[trigger] annotation_keys(d)[j],
        ) by {
            assert(annotation_keys(d)[i] == annotation_keys(s)[i]);
            assert(annotation_keys(d)[j] == annotation_keys(s)[j]);
        }
        lemma_filter_keeps_order(d, pred);
        let fd = d.filter(pred);
        let f = s.filter(pred);
        if pred(s.last()) {
            assert(f == fd.push(s.last()));
            assert forall|i: int, j: int| 0 <= i < j < annotation_keys(f).len() implies key_lt(
                #[trigger] annotation_keys(f)[i],
                #[trigger] annotation_keys(f)[j],
            ) by {
                if j < fd.len() {
                    assert(annotation_keys(f)[i] == annotation_keys(fd)[i]);
                    assert(annotation_keys(f)[j] == annotation_keys(fd)[j]);
                } else {
                    assert(fd.contains(fd[i]));
                    let m = choose|m: int| 0 <= m < d.len() && d[m] == fd[i];
                    assert(annotation_keys(s)[m] == annotation_key(fd[i]));
                    assert(annotation_keys(s)[s.len() - 1] == annotation_key(s.last()));
                }
            }
            assert forall|x: AnnotationView| #[trigger] f.contains(x) implies s.contains(x) by {
                let i = choose|i: int| 0 <= i < f.len() && f[i] == x;
                if i < fd.len() {
                    assert(fd[i] == x);
                    assert(fd.contains(x));
                    let m = choose|m: int| 0 <= m < d.len() && d[m] == x;
                    assert(s[m] == x);
                } else {
                    assert(s[s.len() - 1] == x);
                }
            }
        } else {
            assert(f == fd);
            assert forall|x: AnnotationView| #[trigger] f.contains(x) implies s.contains(x) by {
                let m = choose|m: int| 0 <= m < d.len() && d[m] == x;
                assert(s[m] == x);
            }
        }
    }
}

/// The annotations of one event, in the order of `s`.
pub open spec fn event_annotations(s: Seq<AnnotationView>, event_id: Seq<char>) -> Seq<AnnotationView> {
    s.filter(|a: AnnotationView| a.event_id == event_id)
}

/// Listing the annotations of one event keeps the store's order: when the
/// annotations ascend by time and identifier, so do those of any one event,
/// and each of them is one of the store's, targeting that event.
pub proof fn law_event_annotations_ascend(annotations: Seq<AnnotationView>, event_id: Seq<char>)
    requires
        ascending(annotation_keys(annotations)),
    ensures
        ascending(annotation_keys(event_annotations(annotations, event_id))),
        forall|x: AnnotationView|
            #[trigger] event_annotations(annotations, event_id).contains(x) ==> annotations.contains(x)
                && x.event_id == event_id,
{
    let pred = |a: AnnotationView| a.event_id == event_id;
    lemma_filter_keeps_order(annotations, pred);
    annotations.filter_lemma(pred);
    assert forall|x: AnnotationView| #[trigger] annotations.filter(pred).contains(x) implies x.event_id
        == event_id by {
        let i = choose|i: int| 0 <= i < annotations.filter(pred).len() && annotations.filter(pred)[i] == x;
        assert(pred(annotations.filter(pred)[i]));
    }
}

/// Appending an annotation keeps every earlier annotation, unchanged and
/// still readable by its identifier.
pub proof fn law_annotation_history_preserved(
    before: Seq<AnnotationView>,
    after: Seq<AnnotationView>,
    a: AnnotationView,
    earlier: Seq<char>,
)
    requires
        annotation_ids_distinct(after),
        annotation_appended(before, after, a),
        earlier != a.id,
    ensures
        find_annotation(after, earlier) == find_annotation(before, earlier),
{
    let p = choose|p: int| 0 <= p <= before.len() && after == before.insert(p, a);
    if has_annotation_id(before, earlier) {
        let i = choose|i: int| 0 <= i < before.len() && (#[trigger] before[i]).id == earlier;
        let ai = if i < p { i } else { i + 1 };
        assert(after[ai] == before[i]);
        let c = choose|c: int| 0 <= c < after.len() && (#[trigger] after[c]).id == earlier;
        if c != ai {
            assert(after[c].id != after[ai].id);
        }
    }
    if has_annotation_id(after, earlier) {
        let i = choose|i: int| 0 <= i < after.len() && (#[trigger] after[i]).id == earlier;
        assert(i != p);
        let bi = if i < p { i } else { i - 1 };
        assert(after[i] == before[bi]);
    }
}

/// The mathematical content of a [`Store`].
pub struct StoreView {
    pub history: HistoryView,
    pub operations: OperationsView,
    pub configuration: ConfigurationView,
    pub manual_update: ManualStatusView,
    pub scheduled_reconciliation: ScheduledStatusView,
}

/// An append-only store for events and annotations, together with the
/// operational records of discovery, consent and reconciliation.
///
/// Its public operations append, read and list evidence; none of them
/// updates or deletes an event or an annotation.
pub struct Store {
    history: History,
    operations: Operations,
    configuration: ReconciliationConfiguration,
    manual_update: ManualUpdateStatus,
    scheduled_reconciliation: ScheduledReconciliationStatus,
}

impl View for Store {
    type V = StoreView;

    closed spec fn view(&self) -> StoreView {
        StoreView {
            history: self.history@,
            operations: self.operations@,
            configuration: self.configuration@,
            manual_update: self.manual_update@,
            scheduled_reconciliation: self.scheduled_reconciliation@,
        }
    }
}

impl Store {
    /// Creates an empty store with the initial reconciliation configuration.
    pub fn empty() -> (r: Self)
        ensures
            r@.history.events == Seq::<EventView>::empty(),
            r@.history.annotations == Seq::<AnnotationView>::empty(),
            history_valid(r@.history),
            r@.operations.sources.len() == 0,
            r@.operations.connections.len() == 0,
            r@.configuration == crate::operations::initial_configuration(),
            r@.manual_update == crate::operations::initial_manual_status(),
            r@.scheduled_reconciliation == crate::operations::initial_scheduled_status(),
    {
        let r = Store {
            history: History::new(),
            operations: Operations::new(),
            configuration: ReconciliationConfiguration::initial(),
            manual_update: ManualUpdateStatus::initial(),
            scheduled_reconciliation: ScheduledReconciliationStatus::initial(),
        };
        r.check_valid();
        r
    }

    /// Opens an empty store with the initial reconciliation configuration.
    pub fn open_in_memory() -> (r: Result<Self, StoreError>)
        ensures
            r matches Ok(store) && store@.history.events == Seq::<EventView>::empty()
                && store@.history.annotations == Seq::<AnnotationView>::empty()
                && store@.operations.sources.len() == 0 && store@.operations.connections.len() == 0
                && store@.configuration == crate::operations::initial_configuration()
                && store@.manual_update == crate::operations::initial_manual_status()
                && store@.scheduled_reconciliation == crate::operations::initial_scheduled_status(),
    {
        Ok(
            Store {
                history: History::new(),
                operations: Operations::new(),
                configuration: ReconciliationConfiguration::initial(),
                manual_update: ManualUpdateStatus::initial(),
                scheduled_reconciliation: ScheduledReconciliationStatus::initial(),
            },
        )
    }

    /// The store's history and its operational records are well formed.
    pub fn check_valid(&self)
        ensures
            history_valid(self@.history),
            crate::operations::operations_valid(self@.operations),
    {
        self.history.check_valid();
        self.operations.check_valid();
    }

    /// The number of stored events.
    pub fn event_count(&self) -> (r: usize)
        ensures
            r == self@.history.events.len(),
    {
        self.history.event_count()
    }

    /// Appends an event. Existing events are never overwritten.
    pub fn append_event(&mut self, event: &Event) -> (r: Result<(), StoreError>)
        ensures
            history_valid(final(self)@.history),
            final(self)@.history.annotations == old(self)@.history.annotations,
            final(self)@.operations == old(self)@.operations,
            final(self)@.configuration == old(self)@.configuration,
            final(self)@.manual_update == old(self)@.manual_update,
            final(self)@.scheduled_reconciliation == old(self)@.scheduled_reconciliation,
            match r {
                Ok(()) => event_appended(old(self)@.history.events, final(self)@.history.events, event@)
                    && final(self)@.history.events.len() <= usize::MAX,
                Err(StoreError::DuplicateEventId(id)) => {
                    &&& id@ == event@.id
                    &&& has_event_id(old(self)@.history.events, event@.id)
                    &&& final(self)@ == old(self)@
                },
                Err(_) => false,
            },
    {
        self.history.append_event(event)
    }

    /// Whether an event with this identifier is stored.
    pub fn contains_event(&self, id: &EventId) -> (r: bool)
        ensures
            r == has_event_id(self@.history.events, id@),
    {
        match self.history.event_index(id.as_str()) {
            Some(_) => true,
            None => false,
        }
    }

    /// Retrieves an event by its stable identifier.
    pub fn get_event(&self, id: &EventId) -> (r: Result<Option<Event>, StoreError>)
        ensures
            match r {
                Ok(Some(e)) => find_event(self@.history.events, id@) == Some(e@),
                Ok(None) => find_event(self@.history.events, id@) is None,
                Err(_) => false,
            },
    {
        Ok(self.history.get_event(id))
    }

    /// Lists events by occurrence time, then stable identifier.
    pub fn list_events(&self) -> (r: Result<Vec<Event>, StoreError>)
        ensures
            r matches Ok(events) && events@.map_values(|e: Event| e@) == self@.history.events,
            ascending(event_keys(self@.history.events)),
    {
        Ok(self.history.list_events())
    }

    /// Appends an annotation after checking that it is grounded and new.
    /// Existing annotations are never overwritten.
    pub fn append_annotation(&mut self, annotation: &Annotation) -> (r: Result<(), StoreError>)
        ensures
            history_valid(final(self)@.history),
            final(self)@.history.events == old(self)@.history.events,
            final(self)@.operations == old(self)@.operations,
            final(self)@.configuration == old(self)@.configuration,
            (annotation_outcome(old(self)@.history, annotation@) == AnnotationOutcome::Accepted)
                == (r is Ok),
            r is Ok ==> annotation_appended(
                old(self)@.history.annotations,
                final(self)@.history.annotations,
                annotation@,
            ),
            r is Err ==> final(self)@ == old(self)@,
            r matches Err(e) ==> match annotation_outcome(old(self)@.history, annotation@) {
                AnnotationOutcome::MissingTargetEvent => e matches StoreError::MissingTargetEvent(id)
                    && id@ == annotation@.event_id,
                AnnotationOutcome::SelfSupersession => e matches StoreError::SelfSupersession(id)
                    && id@ == annotation@.id,
                AnnotationOutcome::MissingSupersedesAnnotation => e matches StoreError::MissingSupersedesAnnotation(
                    id,
                ) && Some(id@) == annotation@.supersedes,
                AnnotationOutcome::SupersedesDifferentEvent(other) => e matches StoreError::SupersedesDifferentEvent {
                    event_id,
                    superseded_event_id,
                } && event_id@ == annotation@.event_id && superseded_event_id@ == other,
                AnnotationOutcome::SupersedesDifferentField(other) => e matches StoreError::SupersedesDifferentField {
                    field,
                    superseded_field,
                } && field@ == annotation@.field && superseded_field@ == other,
                AnnotationOutcome::DuplicateAnnotationId => e matches StoreError::DuplicateAnnotationId(id)
                    && id@ == annotation@.id,
                AnnotationOutcome::Accepted => false,
            },
    {
        self.history.append_annotation(annotation)
    }

    /// Retrieves an annotation by its stable identifier.
    pub fn get_annotation(&self, id: &AnnotationId) -> (r: Result<Option<Annotation>, StoreError>)
        ensures
            match r {
                Ok(Some(a)) => find_annotation(self@.history.annotations, id@) == Some(a@),
                Ok(None) => find_annotation(self@.history.annotations, id@) is None,
                Err(_) => false,
            },
    {
        Ok(self.history.get_annotation(id))
    }

    /// Lists an event's annotations by assignment time, then stable identifier.
    pub fn list_annotations_for_event(&self, event_id: &EventId) -> (r: Result<Vec<Annotation>, StoreError>)
        ensures
            r matches Ok(list) && list@.map_values(|a: Annotation| a@)
                == self@.history.annotations.filter(|a: AnnotationView| a.event_id == event_id@),
            ascending(annotation_keys(self@.history.annotations)),
            r matches Ok(list) && ascending(annotation_keys(list@.map_values(|a: Annotation| a@))),
    {
        let list = self.history.list_annotations_for_event(event_id);
        proof {
            law_event_annotations_ascend(self@.history.annotations, event_id@);
            assert(list@.map_values(|a: Annotation| a@) == event_annotations(
                self@.history.annotations,
                event_id@,
            ));
        }
        Ok(list)
    }

    /// Creates or refreshes a connector-owned discovery candidate without
    /// collecting evidence.
    pub fn upsert_discovered_source(&mut self, source: &DiscoveredSource) -> (r: Result<
        DiscoveredSource,
        StoreError,
    >)
        ensures
            final(self)@.history == old(self)@.history,
            final(self)@.operations.connections == old(self)@.operations.connections,
            final(self)@.configuration == old(self)@.configuration,
            final(self)@.manual_update == old(self)@.manual_update,
            final(self)@.scheduled_reconciliation == old(self)@.scheduled_reconciliation,
            match r {
                Ok(stored) => crate::operations::upsert_effect(
                    old(self)@.operations.sources,
                    final(self)@.operations.sources,
                    source@,
                    Some(stored@),
                ),
                Err(StoreError::Database { .. }) => crate::operations::upsert_effect(
                    old(self)@.operations.sources,
                    final(self)@.operations.sources,
                    source@,
                    None,
                ) && final(self)@ == old(self)@,
                Err(_) => false,
            },
    {
        self.operations.upsert_discovered_source(source)
    }

    /// Restores a discovered source read back from storage, status and all.
    /// A record whose identifier or identity is already held is refused.
    pub fn restore_source(&mut self, source: &DiscoveredSource) -> (r: Result<(), StoreError>)
        ensures
            final(self)@.history == old(self)@.history,
            final(self)@.operations.connections == old(self)@.operations.connections,
            final(self)@.configuration == old(self)@.configuration,
            final(self)@.manual_update == old(self)@.manual_update,
            final(self)@.scheduled_reconciliation == old(self)@.scheduled_reconciliation,
            match r {
                Ok(()) => exists|p: int|
                    0 <= p <= old(self)@.operations.sources.len() && final(self)@.operations.sources
                        == old(self)@.operations.sources.insert(p, source@),
                Err(e) => e is Database && final(self)@ == old(self)@,
            },
    {
        self.operations.restore_source(source)
    }

    /// Restores a connection read back from storage. A record whose
    /// identifier is already held is refused.
    pub fn restore_connection(&mut self, record: &ConnectionRecord) -> (r: Result<(), StoreError>)
        ensures
            final(self)@.history == old(self)@.history,
            final(self)@.operations.sources == old(self)@.operations.sources,
            final(self)@.configuration == old(self)@.configuration,
            final(self)@.manual_update == old(self)@.manual_update,
            final(self)@.scheduled_reconciliation == old(self)@.scheduled_reconciliation,
            match r {
                Ok(()) => exists|p: int|
                    0 <= p <= old(self)@.operations.connections.len()
                        && final(self)@.operations.connections
                        == old(self)@.operations.connections.insert(p, record@),
                Err(e) => e is Database && final(self)@ == old(self)@,
            },
    {
        self.operations.restore_connection(record)
    }

    /// Lists discovered sources by first discovery, then identifier.
    pub fn list_discovered_sources(&self) -> (r: Result<Vec<DiscoveredSource>, StoreError>)
        ensures
            r matches Ok(list) && list@.map_values(|s: DiscoveredSource| s@)
                == self@.operations.sources,
    {
        Ok(self.operations.list_discovered_sources())
    }

    /// Returns the discovered source with identifier `id`, if any.
    pub fn get_discovered_source(&self, id: &DiscoveredSourceId) -> (r: Result<
        Option<DiscoveredSource>,
        StoreError,
    >)
        ensures
            r is Ok,
            match crate::operations::source_index(self@.operations.sources, id@) {
                Some(i) => r matches Ok(Some(s)) && s@ == self@.operations.sources[i],
                None => r matches Ok(None),
            },
    {
        Ok(self.operations.get_discovered_source(id))
    }

    /// Approves a source that awaits a decision and creates its connection.
    pub fn approve_source(
        &mut self,
        source_id: &DiscoveredSourceId,
        connection_id: &ConnectionId,
        now: UnixTime,
    ) -> (r: Result<ConnectionRecord, StoreError>)
        ensures
            final(self)@.history == old(self)@.history,
            final(self)@.configuration == old(self)@.configuration,
            final(self)@.manual_update == old(self)@.manual_update,
            final(self)@.scheduled_reconciliation == old(self)@.scheduled_reconciliation,
            match crate::operations::source_index(old(self)@.operations.sources, source_id@) {
                None => r matches Err(StoreError::MissingDiscoveredSource(id)) && id@ == source_id@
                    && final(self)@ == old(self)@,
                Some(i) => {
                    let source = old(self)@.operations.sources[i];
                    if source.status == crate::operations::DiscoveryStatus::Connected {
                        r matches Err(StoreError::ConnectionAlreadyApproved(id)) && id@ == source_id@
                            && final(self)@ == old(self)@
                    } else if source.status == crate::operations::DiscoveryStatus::Declined {
                        r matches Err(StoreError::ConnectionNotApproved(id)) && id@ == source_id@
                            && final(self)@ == old(self)@
                    } else {
                        &&& final(self)@.operations.sources == old(self)@.operations.sources.update(
                            i,
                            crate::operations::SourceRecordView {
                                status: crate::operations::DiscoveryStatus::Connected,
                                ..source
                            },
                        )
                        &&& match crate::operations::connection_index(
                            old(self)@.operations.connections,
                            connection_id@,
                        ) {
                            Some(_) => r matches Err(StoreError::Database { .. })
                                && final(self)@.operations.connections
                                == old(self)@.operations.connections,
                            None => r matches Ok(c) && c@ == crate::operations::approved_connection(
                                source,
                                connection_id@,
                                now@,
                            ) && exists|p: int|
                                0 <= p <= old(self)@.operations.connections.len()
                                    && final(self)@.operations.connections
                                    == old(self)@.operations.connections.insert(p, c@),
                        }
                    }
                },
            },
    {
        self.operations.approve_source(source_id, connection_id, now)
    }

    /// Records that consent for a discovered source was declined.
    pub fn decline_source(&mut self, id: &DiscoveredSourceId) -> (r: Result<(), StoreError>)
        ensures
            final(self)@.history == old(self)@.history,
            final(self)@.operations.connections == old(self)@.operations.connections,
            final(self)@.configuration == old(self)@.configuration,
            final(self)@.manual_update == old(self)@.manual_update,
            final(self)@.scheduled_reconciliation == old(self)@.scheduled_reconciliation,
            match crate::operations::source_index(old(self)@.operations.sources, id@) {
                None => r matches Err(StoreError::MissingDiscoveredSource(e)) && e@ == id@
                    && final(self)@ == old(self)@,
                Some(i) => r is Ok && final(self)@.operations.sources
                    == old(self)@.operations.sources.update(
                    i,
                    crate::operations::SourceRecordView {
                        status: crate::operations::DiscoveryStatus::Declined,
                        ..old(self)@.operations.sources[i]
                    },
                ),
            },
    {
        self.operations.decline_source(id)
    }

    /// Lists connections by approval time, then identifier.
    pub fn list_connections(&self) -> (r: Result<Vec<ConnectionRecord>, StoreError>)
        ensures
            r matches Ok(list) && list@.map_values(|c: ConnectionRecord| c@)
                == self@.operations.connections,
    {
        Ok(self.operations.list_connections())
    }

    /// Returns the connection with identifier `id`, if any.
    pub fn get_connection(&self, id: &ConnectionId) -> (r: Result<Option<ConnectionRecord>, StoreError>)
        ensures
            r is Ok,
            match crate::operations::connection_index(self@.operations.connections, id@) {
                Some(i) => r matches Ok(Some(c)) && c@ == self@.operations.connections[i],
                None => r matches Ok(None),
            },
    {
        Ok(self.operations.get_connection(id))
    }

    /// Moves a connection to a new status when the transition is allowed.
    pub fn set_connection_status(
        &mut self,
        id: &ConnectionId,
        status: ConnectionStatus,
        now: UnixTime,
    ) -> (r: Result<(), StoreError>)
        ensures
            final(self)@.history == old(self)@.history,
            final(self)@.operations.sources == old(self)@.operations.sources,
            final(self)@.configuration == old(self)@.configuration,
            final(self)@.manual_update == old(self)@.manual_update,
            final(self)@.scheduled_reconciliation == old(self)@.scheduled_reconciliation,
            match crate::operations::connection_index(old(self)@.operations.connections, id@) {
                None => r matches Err(StoreError::MissingConnection(e)) && e@ == id@ && final(self)@
                    == old(self)@,
                Some(i) => {
                    let current = old(self)@.operations.connections[i];
                    if crate::operations::transition_allowed(current.status, status) {
                        r is Ok && final(self)@.operations.connections
                            == old(self)@.operations.connections.update(
                            i,
                            crate::operations::with_status(current, status, now@),
                        )
                    } else {
                        r matches Err(StoreError::InvalidConnectionTransition { id: e, from, to })
                            && e@ == id@ && from == current.status && to == status && final(self)@
                            == old(self)@
                    }
                },
            },
    {
        self.operations.set_connection_status(id, status, now)
    }

    /// Records the outcome of one collection attempt for a connection.
    pub fn update_connection_result(
        &mut self,
        id: &ConnectionId,
        now: UnixTime,
        success: bool,
        error: Option<&str>,
    ) -> (r: Result<(), StoreError>)
        ensures
            final(self)@.history == old(self)@.history,
            final(self)@.operations.sources == old(self)@.operations.sources,
            final(self)@.configuration == old(self)@.configuration,
            final(self)@.manual_update == old(self)@.manual_update,
            final(self)@.scheduled_reconciliation == old(self)@.scheduled_reconciliation,
            match crate::operations::connection_index(old(self)@.operations.connections, id@) {
                None => r matches Err(StoreError::MissingConnection(e)) && e@ == id@ && final(self)@
                    == old(self)@,
                Some(i) => {
                    let current = old(self)@.operations.connections[i];
                    r is Ok && final(self)@.operations.connections
                        == old(self)@.operations.connections.update(
                        i,
                        crate::operations::ConnectionView {
                            last_attempt: Some(now@),
                            last_success: if success {
                                Some(now@)
                            } else {
                                current.last_success
                            },
                            last_error: match error {
                                Some(e) => Some(e@),
                                None => None,
                            },
                            ..current
                        },
                    )
                },
            },
    {
        self.operations.update_connection_result(id, now, success, error)
    }

    /// Reads the singleton reconciliation configuration.
    pub fn reconciliation_configuration(&self) -> (r: Result<ReconciliationConfiguration, StoreError>)
        ensures
            r matches Ok(c) && c@ == self@.configuration,
    {
        Ok(self.configuration.duplicate())
    }

    /// Replaces the singleton reconciliation configuration.
    pub fn save_reconciliation_configuration(&mut self, value: &ReconciliationConfiguration) -> (r: Result<
        (),
        StoreError,
    >)
        ensures
            r is Ok,
            final(self)@.configuration == value@,
            final(self)@.history == old(self)@.history,
            final(self)@.operations == old(self)@.operations,
            final(self)@.manual_update == old(self)@.manual_update,
            final(self)@.scheduled_reconciliation == old(self)@.scheduled_reconciliation,
    {
        self.configuration = value.duplicate();
        Ok(())
    }

    /// Reads the status of the most recent manual Update Record run.
    pub fn manual_update_status(&self) -> (r: Result<ManualUpdateStatus, StoreError>)
        ensures
            r matches Ok(s) && s@ == self@.manual_update,
    {
        Ok(self.manual_update.duplicate())
    }

    /// Replaces the status of the most recent manual Update Record run.
    pub fn save_manual_update_status(&mut self, value: &ManualUpdateStatus) -> (r: Result<(), StoreError>)
        ensures
            r is Ok,
            final(self)@.manual_update == value@,
            final(self)@.history == old(self)@.history,
            final(self)@.operations == old(self)@.operations,
            final(self)@.configuration == old(self)@.configuration,
            final(self)@.scheduled_reconciliation == old(self)@.scheduled_reconciliation,
    {
        self.manual_update = value.duplicate();
        Ok(())
    }

    /// Reads the status of scheduled daily reconciliation.
    pub fn scheduled_reconciliation_status(&self) -> (r: Result<ScheduledReconciliationStatus, StoreError>)
        ensures
            r matches Ok(s) && s@ == self@.scheduled_reconciliation,
    {
        Ok(self.scheduled_reconciliation.duplicate())
    }

    /// Replaces the status of scheduled daily reconciliation.
    pub fn save_scheduled_reconciliation_status(&mut self, value: &ScheduledReconciliationStatus) -> (r:
        Result<(), StoreError>)
        ensures
            r is Ok,
            final(self)@.scheduled_reconciliation == value@,
            final(self)@.history == old(self)@.history,
            final(self)@.operations == old(self)@.operations,
            final(self)@.configuration == old(self)@.configuration,
            final(self)@.manual_update == old(self)@.manual_update,
    {
        self.scheduled_reconciliation = value.duplicate();
        Ok(())
    }
}

} // verus!
