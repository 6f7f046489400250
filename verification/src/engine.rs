//! Engine orchestration for connector-produced events: registration,
//! provenance validation and append-only persistence.

use crate::connector::{
    registered_under, Connector, ConnectorDescriptor, ConnectorError, ConnectorRegistry,
    DescriptorView, EventAcceptanceError, EventSink, RegistrationError, connector_error_text,
    registration_error_text,
};
use crate::model::{ConnectorId, Event, EventView};
use crate::store::{has_event_id, history_valid, Store, StoreView};
use crate::text::push_str;
use vstd::prelude::*;

verus! {

/// Whether `after` holds every event of `before` and `added` more, each of
/// which carries provenance `connector`.
pub open spec fn extends_with(
    before: Seq<EventView>,
    after: Seq<EventView>,
    connector: Seq<char>,
    added: nat,
) -> bool {
    &&& after.len() == before.len() + added
    &&& forall|e: EventView| #[trigger] before.contains(e) ==> after.contains(e)
    &&& forall|e: EventView| #[trigger] after.contains(e) && !before.contains(e)
        ==> e.source.connector_id == connector
}

/// Whether `after` differs from `before` at most by events added to its
/// history, `added` of them, all with provenance `connector`.
pub open spec fn store_extended(
    before: StoreView,
    after: StoreView,
    connector: Seq<char>,
    added: nat,
) -> bool {
    &&& extends_with(before.history.events, after.history.events, connector, added)
    &&& after.history.annotations == before.history.annotations
    &&& after.operations == before.operations
    &&& after.configuration == before.configuration
    &&& after.manual_update == before.manual_update
    &&& after.scheduled_reconciliation == before.scheduled_reconciliation
}

/// Whether an event identifier occurs among pending events.
pub open spec fn pending_has_id(pending: Seq<Event>, id: Seq<char>) -> bool {
    exists|i: int| 0 <= i < pending.len() && (#[trigger] pending[i])@.id == id
}

/// The engine's destination for the events of one connector run. It checks
/// each event's provenance and that its identifier is new, and holds the
/// accepted events until the engine appends them when the run ends.
pub struct EngineEventSink<'a> {
    store: &'a Store,
    connector_id: ConnectorId,
    pending: Vec<Event>,
    offered: Ghost<Seq<EventView>>,
    answers: Ghost<Seq<Result<(), EventAcceptanceError>>>,
}

impl<'a> EngineEventSink<'a> {
    /// The store the events are checked against.
    pub closed spec fn store_view(&self) -> StoreView {
        self.store@
    }

    /// The provenance that accepted events must carry.
    pub closed spec fn expected_connector(&self) -> Seq<char> {
        self.connector_id@
    }

    /// The events accepted so far, in order.
    pub closed spec fn accepted(&self) -> Seq<Event> {
        self.pending@
    }

    /// The events handed to the sink so far, in order.
    pub closed spec fn offered_events(&self) -> Seq<EventView> {
        self.offered@
    }

    /// The answers given through `accept` so far, in order.
    pub closed spec fn answers(&self) -> Seq<Result<(), EventAcceptanceError>> {
        self.answers@
    }

    /// Checks provenance and novelty of one event and accepts it.
    pub fn accept_event(&mut self, event: Event) -> (r: Result<(), EventAcceptanceError>)
        ensures
            final(self).offered_events() == old(self).offered_events().push(event@),
            final(self).answers() == old(self).answers(),
            final(self).store_view() == old(self).store_view(),
            final(self).expected_connector() == old(self).expected_connector(),
            match r {
                Ok(()) => {
                    &&& event@.source.connector_id == old(self).expected_connector()
                    &&& !has_event_id(old(self).store_view().history.events, event@.id)
                    &&& !pending_has_id(old(self).accepted(), event@.id)
                    &&& final(self).accepted() == old(self).accepted().push(event)
                },
                Err(EventAcceptanceError::ConnectorIdentityMismatch { expected, actual }) => {
                    &&& event@.source.connector_id != old(self).expected_connector()
                    &&& expected@ == old(self).expected_connector()
                    &&& actual@ == event@.source.connector_id
                    &&& final(self).accepted() == old(self).accepted()
                },
                Err(EventAcceptanceError::DuplicateEventId(id)) => {
                    &&& event@.source.connector_id == old(self).expected_connector()
                    &&& id@ == event@.id
                    &&& (has_event_id(old(self).store_view().history.events, event@.id)
                        || pending_has_id(old(self).accepted(), event@.id))
                    &&& final(self).accepted() == old(self).accepted()
                },
                Err(EventAcceptanceError::Persistence { .. }) => false,
            },
    {
        let ghost handed = event@;
        proof {
            self.offered@ = self.offered@.push(handed);
        }
        let ghost start = *self;
        if !event.source().connector_id().same_as(&self.connector_id) {
            return Err(
                EventAcceptanceError::ConnectorIdentityMismatch {
                    expected: self.connector_id.duplicate(),
                    actual: event.source().connector_id().duplicate(),
                },
            );
        }
        if self.store.contains_event(event.id()) {
            return Err(EventAcceptanceError::DuplicateEventId(event.id().duplicate()));
        }
        let mut i: usize = 0;
        while i < self.pending.len()
            invariant
                i <= self.pending@.len(),
                *self == start,
                handed == event@,
                self.offered_events() == old(self).offered_events().push(handed),
                self.answers() == old(self).answers(),
                self.store_view() == old(self).store_view(),
                self.accepted() == old(self).accepted(),
                self.expected_connector() == old(self).expected_connector(),
                event@.source.connector_id == old(self).expected_connector(),
                !has_event_id(old(self).store_view().history.events, event@.id),
                forall|j: int| 0 <= j < i ==> (#[trigger] self.pending@[j])@.id != event@.id,
            decreases self.pending.len() - i,
        {
            if self.pending[i].id().same_as(event.id()) {
                return Err(EventAcceptanceError::DuplicateEventId(event.id().duplicate()));
            }
            i = i + 1;
        }
        self.pending.push(event);
        Ok(())
    }
}

impl<'a> EventSink for EngineEventSink<'a> {
    open spec fn obeys_sink_laws(&self) -> bool {
        true
    }

    open spec fn offered(&self) -> Seq<EventView> {
        self.offered_events()
    }

    open spec fn answered(&self) -> Seq<Result<(), EventAcceptanceError>> {
        self.answers()
    }

    fn accept(&mut self, event: Event) -> (r: Result<(), EventAcceptanceError>) {
        let r = self.accept_event(event);
        proof {
            self.answers@ = self.answers@.push(r);
        }
        r
    }
}

/// Outcome of one successful connector lifecycle.
#[derive(Clone, Copy, Debug, Eq, PartialEq)]
pub struct CollectionReport {
    accepted_events: usize,
}

impl CollectionReport {
    /// Returns the number of events accepted and appended during this lifecycle.
    pub fn accepted_events(&self) -> (r: usize)
        ensures
            r == self.accepted(),
    {
        self.accepted_events
    }

    /// The number of events accepted and appended.
    pub closed spec fn accepted(&self) -> nat {
        self.accepted_events as nat
    }
}

/// Engine-level lifecycle failures.
#[derive(Debug)]
pub enum EngineError {
    /// Connector metadata could not be registered.
    Registration(RegistrationError),
    /// The connector was not registered before collection.
    UnregisteredConnector(ConnectorId),
    /// The running connector no longer matches its registered descriptor.
    DescriptorMismatch(ConnectorId),
    /// The connector lifecycle failed or an emitted event was rejected.
    Connector(ConnectorError),
}

/// The message that describes an engine error.
pub open spec fn engine_error_text(e: EngineError) -> Seq<char> {
    match e {
        EngineError::Registration(error) => "registration failed: "@ + registration_error_text(
            error,
        ),
        EngineError::UnregisteredConnector(id) => "unregistered connector: "@ + id@,
        EngineError::DescriptorMismatch(id) => "registered descriptor mismatch: "@ + id@,
        EngineError::Connector(error) => "connector lifecycle failed: "@ + connector_error_text(
            error,
        ),
    }
}

impl EngineError {
    /// Describes the error for a person.
    pub fn message(&self) -> (r: String)
        ensures
            r@ == engine_error_text(*self),
    {
        let mut s = String::new();
        match self {
            EngineError::Registration(error) => {
                push_str(&mut s, "registration failed: ");
                error.write_message(&mut s);
            },
            EngineError::UnregisteredConnector(id) => {
                push_str(&mut s, "unregistered connector: ");
                push_str(&mut s, id.as_str());
            },
            EngineError::DescriptorMismatch(id) => {
                push_str(&mut s, "registered descriptor mismatch: ");
                push_str(&mut s, id.as_str());
            },
            EngineError::Connector(error) => {
                push_str(&mut s, "connector lifecycle failed: ");
                error.write_message(&mut s);
            },
        }
        s
    }
}

/// Coordinates registered connectors with append-only event persistence.
pub struct Engine {
    registry: ConnectorRegistry,
    store: Store,
}

impl Engine {
    /// The registered descriptors.
    pub closed spec fn registered(&self) -> Seq<DescriptorView> {
        self.registry@
    }

    /// The content of the store.
    pub closed spec fn stored(&self) -> StoreView {
        self.store@
    }

    /// Creates an engine backed by the supplied append-only store.
    pub fn new(store: Store) -> (r: Self)
        ensures
            r.registered() == Seq::<DescriptorView>::empty(),
            r.stored() == store@,
    {
        Engine { registry: ConnectorRegistry::new(), store }
    }

    /// Returns the store.
    pub fn store(&self) -> (r: &Store)
        ensures
            r@ == self.stored(),
    {
        &self.store
    }

    /// Gives up the engine, returning its store.
    pub fn into_store(self) -> (r: Store)
        ensures
            r@ == self.stored(),
    {
        self.store
    }

    /// Registers immutable connector metadata without taking connector ownership.
    pub fn register(&mut self, descriptor: ConnectorDescriptor) -> (r: Result<(), EngineError>)
        ensures
            final(self).stored() == old(self).stored(),
            match r {
                Ok(()) => {
                    &&& registered_under(old(self).registered(), descriptor@.id) is None
                    &&& final(self).registered() == old(self).registered().push(descriptor@)
                    &&& registered_under(final(self).registered(), descriptor@.id) == Some(descriptor@)
                },
                Err(EngineError::Registration(RegistrationError::DuplicateConnectorId(id))) => {
                    &&& id@ == descriptor@.id
                    &&& registered_under(old(self).registered(), descriptor@.id) is Some
                    &&& final(self).registered() == old(self).registered()
                },
                Err(_) => false,
            },
    {
        match self.registry.register(descriptor) {
            Ok(()) => Ok(()),
            Err(e) => Err(EngineError::Registration(e)),
        }
    }

    /// Runs one registered connector lifecycle and appends accepted events.
    ///
    /// A connector that is not registered, or whose descriptor differs from
    /// the registered one, is refused before it runs. Otherwise every event
    /// it emits is checked for provenance and appended if it is new; events
    /// appended before a failure stay appended.
    pub fn collect<C: Connector>(&mut self, connector: &mut C) -> (r: Result<
        CollectionReport,
        EngineError,
    >)
        ensures
            final(self).registered() == old(self).registered(),
            match r {
                Ok(report) => exists|id: Seq<char>|
                    #![trigger registered_under(old(self).registered(), id)]
                    registered_under(old(self).registered(), id) is Some && store_extended(
                        old(self).stored(),
                        final(self).stored(),
                        id,
                        report.accepted(),
                    ),
                Err(EngineError::UnregisteredConnector(id)) => {
                    &&& registered_under(old(self).registered(), id@) is None
                    &&& final(self).stored() == old(self).stored()
                },
                Err(EngineError::DescriptorMismatch(id)) => {
                    &&& registered_under(old(self).registered(), id@) is Some
                    &&& final(self).stored() == old(self).stored()
                },
                Err(EngineError::Connector(_)) => exists|id: Seq<char>, added: nat|
                    #![trigger store_extended(old(self).stored(), final(self).stored(), id, added)]
                    registered_under(old(self).registered(), id) is Some && store_extended(
                        old(self).stored(),
                        final(self).stored(),
                        id,
                        added,
                    ),
                Err(EngineError::Registration(_)) => false,
            },
            old(connector).obeys_connector_laws() ==> ({
                let d = old(connector).described_by();
                match registered_under(old(self).registered(), d.id) {
                    None => r matches Err(EngineError::UnregisteredConnector(id)) && id@ == d.id
                        && final(self).stored() == old(self).stored(),
                    Some(held) => if held != d {
                        r matches Err(EngineError::DescriptorMismatch(id)) && id@ == d.id
                            && final(self).stored() == old(self).stored()
                    } else {
                        &&& r matches Ok(report) ==> store_extended(
                            old(self).stored(),
                            final(self).stored(),
                            d.id,
                            report.accepted(),
                        )
                        &&& r matches Err(e) ==> e is Connector && exists|added: nat|
                            #[trigger] store_extended(old(self).stored(), final(self).stored(), d.id, added)
                    },
                }
            }),
    {
        let descriptor = connector.descriptor().duplicate();
        let registered = match self.registry.get(descriptor.id()) {
            Some(d) => d,
            None => return Err(EngineError::UnregisteredConnector(descriptor.id().duplicate())),
        };
        if !registered.same_as(&descriptor) {
            return Err(EngineError::DescriptorMismatch(descriptor.id().duplicate()));
        }
        let ghost id = descriptor@.id;
        let ghost before = self.store@;
        let mut sink = EngineEventSink {
            store: &self.store,
            connector_id: descriptor.id().duplicate(),
            pending: Vec::new(),
            offered: Ghost(Seq::empty()),
            answers: Ghost(Seq::empty()),
        };
        let outcome = connector.collect(&mut sink);
        let pending = sink.pending;
        let accepted_events = self.append_accepted(pending, &descriptor);
        proof {
            assert(registered_under(self.registry@, id) is Some);
        }
        match outcome {
            Ok(()) => Ok(CollectionReport { accepted_events }),
            Err(e) => Err(EngineError::Connector(e)),
        }
    }

    /// Appends the accepted events of a run, checking each again, and
    /// returns how many were appended. Every event of the run with the
    /// connector's provenance ends up stored, unless its identifier was
    /// already stored or taken by an earlier event of the run; nothing else
    /// is added.
    fn append_accepted(&mut self, events: Vec<Event>, descriptor: &ConnectorDescriptor) -> (r: usize)
        ensures
            final(self).registry@ == old(self).registry@,
            store_extended(old(self).store@, final(self).store@, descriptor@.id, r as nat),
            run_events_stored(
                old(self).store@.history.events,
                final(self).store@.history.events,
                events@,
                descriptor@.id,
                events@.len() as int,
            ),
            only_run_events(
                old(self).store@.history.events,
                final(self).store@.history.events,
                events@,
                events@.len() as int,
            ),
    {
        let ghost before = self.store@;
        let mut appended: usize = 0;
        let mut i: usize = 0;
        self.store.check_valid();
        while i < events.len()
            invariant
                i <= events@.len(),
                appended <= i,
                self.registry@ == old(self).registry@,
                before == old(self).store@,
                store_extended(before, self.store@, descriptor@.id, appended as nat),
                history_valid(self.store@.history),
                run_events_stored(before.history.events, self.store@.history.events, events@, descriptor@.id, i as int),
                only_run_events(before.history.events, self.store@.history.events, events@, i as int),
            decreases events.len() - i,
        {
            let event = &events[i];
            let ghost prior = self.store@;
            if event.source().connector_id().same_as(descriptor.id()) {
                match self.store.append_event(event) {
                    Ok(()) => {
                        proof {
                            lemma_extended_by_one(before, prior, self.store@, descriptor@.id, appended as nat, event@);
                            lemma_run_appended(before.history.events, prior.history.events, self.store@.history.events, events@, descriptor@.id, i as int);
                        }
                        appended = appended + 1;
                    },
                    Err(_) => {
                        proof {
                            lemma_run_duplicate(before.history.events, prior.history.events, events@, descriptor@.id, i as int);
                        }
                    },
                }
            } else {
                proof {
                    lemma_run_skipped(before.history.events, prior.history.events, events@, descriptor@.id, i as int);
                }
            }
            i = i + 1;
        }
        appended
    }
}

/// Whether each of the first `n` events of a run with provenance
/// `connector` is in `after`, or its identifier was in `before` or taken by
/// an earlier such event of the run.
pub open spec fn run_events_stored(
    before: Seq<EventView>,
    after: Seq<EventView>,
    events: Seq<Event>,
    connector: Seq<char>,
    n: int,
) -> bool {
    forall|k: int|
        0 <= k < n && (#[trigger] events[k])@.source.connector_id == connector ==> after.contains(
            events[k]@,
        ) || has_event_id(before, events[k]@.id) || exists|j: int|
            0 <= j < k && events[j]@.id == events[k]@.id && events[j]@.source.connector_id == connector
}

/// Whether every event of `after` that is not in `before` is one of the
/// first `n` events of a run.
pub open spec fn only_run_events(before: Seq<EventView>, after: Seq<EventView>, events: Seq<Event>, n: int) -> bool {
    forall|x: EventView|
        #[trigger] after.contains(x) && !before.contains(x) ==> exists|j: int| 0 <= j < n && events[j]@ == x
}

proof fn lemma_run_appended(
    before: Seq<EventView>,
    prior: Seq<EventView>,
    after: Seq<EventView>,
    events: Seq<Event>,
    connector: Seq<char>,
    i: int,
)
    requires
        0 <= i < events.len(),
        run_events_stored(before, prior, events, connector, i),
        only_run_events(before, prior, events, i),
        events[i]@.source.connector_id == connector,
        crate::store::event_appended(prior, after, events[i]@),
    ensures
        run_events_stored(before, after, events, connector, i + 1),
        only_run_events(before, after, events, i + 1),
{
    let e = events[i]@;
    let p = choose|p: int| 0 <= p <= prior.len() && after == prior.insert(p, e);
    assert(after[p] == e);
    assert forall|x: EventView| #[trigger] prior.contains(x) implies after.contains(x) by {
        let m = choose|m: int| 0 <= m < prior.len() && prior[m] == x;
        if m < p {
            assert(after[m] == x);
        } else {
            assert(after[m + 1] == x);
        }
    }
    assert forall|k: int|
        0 <= k < i + 1 && (#[trigger] events[k])@.source.connector_id == connector implies after.contains(
            events[k]@,
        ) || has_event_id(before, events[k]@.id) || exists|j: int|
            0 <= j < k && events[j]@.id == events[k]@.id && events[j]@.source.connector_id == connector by {
        if k == i {
            assert(after.contains(e));
        } else if prior.contains(events[k]@) {
            assert(after.contains(events[k]@));
        }
    }
    assert forall|x: EventView| #[trigger] after.contains(x) && !before.contains(x) implies exists|j: int|
        0 <= j < i + 1 && events[j]@ == x by {
        let m = choose|m: int| 0 <= m < after.len() && after[m] == x;
        if m == p {
            assert(events[i]@ == x);
        } else if m < p {
            assert(prior[m] == x);
            assert(prior.contains(x));
        } else {
            assert(prior[m - 1] == x);
            assert(prior.contains(x));
        }
    }
}

proof fn lemma_run_duplicate(
    before: Seq<EventView>,
    prior: Seq<EventView>,
    events: Seq<Event>,
    connector: Seq<char>,
    i: int,
)
    requires
        0 <= i < events.len(),
        run_events_stored(before, prior, events, connector, i),
        only_run_events(before, prior, events, i),
        extends_with(before, prior, connector, (prior.len() - before.len()) as nat),
        has_event_id(prior, events[i]@.id),
    ensures
        run_events_stored(before, prior, events, connector, i + 1),
        only_run_events(before, prior, events, i + 1),
{
    let m = choose|m: int| 0 <= m < prior.len() && (#[trigger] prior[m]).id == events[i]@.id;
    let x = prior[m];
    assert(prior.contains(x));
    if before.contains(x) {
        let b = choose|b: int| 0 <= b < before.len() && before[b] == x;
        assert(before[b].id == events[i]@.id);
        assert(has_event_id(before, events[i]@.id));
    } else {
        let j = choose|j: int| 0 <= j < i && events[j]@ == x;
        assert(events[j]@.id == events[i]@.id && events[j]@.source.connector_id == connector);
    }
    assert forall|k: int|
        0 <= k < i + 1 && (#[trigger] events[k])@.source.connector_id == connector implies prior.contains(
            events[k]@,
        ) || has_event_id(before, events[k]@.id) || exists|j: int|
            0 <= j < k && events[j]@.id == events[k]@.id && events[j]@.source.connector_id == connector by {
        if k == i {
            if before.contains(x) {
                assert(has_event_id(before, events[i]@.id));
            } else {
                let j = choose|j: int| 0 <= j < i && events[j]@ == x;
                assert(events[j]@.id == events[k]@.id);
            }
        }
    }
    assert forall|y: EventView| #[trigger] prior.contains(y) && !before.contains(y) implies exists|j: int|
        0 <= j < i + 1 && events[j]@ == y by {
        let j = choose|j: int| 0 <= j < i && events[j]@ == y;
        assert(0 <= j < i + 1 && events[j]@ == y);
    }
}

proof fn lemma_run_skipped(
    before: Seq<EventView>,
    prior: Seq<EventView>,
    events: Seq<Event>,
    connector: Seq<char>,
    i: int,
)
    requires
        0 <= i < events.len(),
        run_events_stored(before, prior, events, connector, i),
        only_run_events(before, prior, events, i),
        events[i]@.source.connector_id != connector,
    ensures
        run_events_stored(before, prior, events, connector, i + 1),
        only_run_events(before, prior, events, i + 1),
{
    assert forall|y: EventView| #[trigger] prior.contains(y) && !before.contains(y) implies exists|j: int|
        0 <= j < i + 1 && events[j]@ == y by {
        let j = choose|j: int| 0 <= j < i && events[j]@ == y;
        assert(0 <= j < i + 1 && events[j]@ == y);
    }
}

/// Appending one event with provenance `connector` to a store that extends
/// `before` gives a store that extends it by one more.
proof fn lemma_extended_by_one(
    before: StoreView,
    prior: StoreView,
    after: StoreView,
    connector: Seq<char>,
    added: nat,
    e: EventView,
)
    requires
        store_extended(before, prior, connector, added),
        e.source.connector_id == connector,
        crate::store::event_appended(prior.history.events, after.history.events, e),
        after.history.annotations == prior.history.annotations,
        after.operations == prior.operations,
        after.configuration == prior.configuration,
        after.manual_update == prior.manual_update,
        after.scheduled_reconciliation == prior.scheduled_reconciliation,
    ensures
        store_extended(before, after, connector, added + 1),
{
    let old_events = prior.history.events;
    let new_events = after.history.events;
    let p = choose|p: int| 0 <= p <= old_events.len() && new_events == old_events.insert(p, e);
    assert(new_events[p] == e);
    assert forall|x: EventView| #[trigger] before.history.events.contains(x) implies new_events.contains(x) by {
        assert(old_events.contains(x));
        let i = choose|i: int| 0 <= i < old_events.len() && old_events[i] == x;
        if i < p {
            assert(new_events[i] == x);
        } else {
            assert(new_events[i + 1] == x);
        }
    }
    assert forall|x: EventView| #[trigger] new_events.contains(x) && !before.history.events.contains(
        x,
    ) implies x.source.connector_id == connector by {
        let i = choose|i: int| 0 <= i < new_events.len() && new_events[i] == x;
        if i < p {
            assert(old_events[i] == x);
            assert(old_events.contains(x));
        } else if i > p {
            assert(old_events[i - 1] == x);
            assert(old_events.contains(x));
        }
    }
}

} // verus!
