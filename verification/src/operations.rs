//! Mutable operational records for discovery and approved connections, and
//! the singleton reconciliation configuration and statuses.

use crate::connector::opt_view;
use crate::model::{ConnectorId, UnixTime};
use crate::order::{ascending, key_less, key_lt, lemma_insert_ascending, OrderKey};
use crate::sorted_map::TextMap;
use crate::store::StoreError;
use vstd::prelude::*;

verus! {

/// The identifier of a discovered source.
#[derive(Clone, Debug, Eq, Ord, PartialEq, PartialOrd)]
pub struct DiscoveredSourceId(String);

impl View for DiscoveredSourceId {
    type V = Seq<char>;

    closed spec fn view(&self) -> Seq<char> {
        self.0@
    }
}

impl DiscoveredSourceId {
    /// Creates an identifier from its text.
    pub fn new(value: &str) -> (r: Self)
        ensures
            r@ == value@,
    {
        DiscoveredSourceId(value.to_owned())
    }

    /// Creates an identifier that takes ownership of `value`.
    pub fn from_string(value: String) -> (r: Self)
        ensures
            r@ == value@,
    {
        DiscoveredSourceId(value)
    }

    /// Returns the identifier text.
    pub fn as_str(&self) -> (r: &str)
        ensures
            r@ == self@,
    {
        self.0.as_str()
    }

    /// Returns a copy holding the same identifier.
    pub fn duplicate(&self) -> (r: Self)
        ensures
            r@ == self@,
    {
        DiscoveredSourceId(self.0.clone())
    }

    /// Whether two identifiers hold the same text.
    pub fn same_as(&self, other: &Self) -> (r: bool)
        ensures
            r == (self@ == other@),
    {
        self.0 == other.0
    }
}

/// The identifier of an approved connection.
#[derive(Clone, Debug, Eq, Ord, PartialEq, PartialOrd)]
pub struct ConnectionId(String);

impl View for ConnectionId {
    type V = Seq<char>;

    closed spec fn view(&self) -> Seq<char> {
        self.0@
    }
}

impl ConnectionId {
    /// Creates an identifier from its text.
    pub fn new(value: &str) -> (r: Self)
        ensures
            r@ == value@,
    {
        ConnectionId(value.to_owned())
    }

    /// Creates an identifier that takes ownership of `value`.
    pub fn from_string(value: String) -> (r: Self)
        ensures
            r@ == value@,
    {
        ConnectionId(value)
    }

    /// Returns the identifier text.
    pub fn as_str(&self) -> (r: &str)
        ensures
            r@ == self@,
    {
        self.0.as_str()
    }

    /// Returns a copy holding the same identifier.
    pub fn duplicate(&self) -> (r: Self)
        ensures
            r@ == self@,
    {
        ConnectionId(self.0.clone())
    }

    /// Whether two identifiers hold the same text.
    pub fn same_as(&self, other: &Self) -> (r: bool)
        ensures
            r == (self@ == other@),
    {
        self.0 == other.0
    }
}

/// Whether a discovered source awaits a consent decision, was declined, or is connected.
#[derive(Clone, Copy, Debug, Eq, PartialEq, Structural)]
pub enum DiscoveryStatus {
    AwaitingDecision,
    Declined,
    Connected,
}

/// Whether an approved connection collects, is paused, or is disconnected for good.
#[derive(Clone, Copy, Debug, Eq, PartialEq, Structural)]
pub enum ConnectionStatus {
    Enabled,
    Paused,
    Disconnected,
}

/// Whether an approved connection is collected by scheduled runs.
#[derive(Clone, Copy, Debug, Eq, PartialEq, Structural)]
pub enum MonitoringPolicy {
    Always,
    Paused,
}

/// The view of an optional time.
pub open spec fn opt_time(t: Option<UnixTime>) -> Option<int> {
    match t {
        Some(v) => Some(v@),
        None => None,
    }
}

/// The mathematical content of a [`DiscoveredSource`].
pub struct SourceRecordView {
    pub id: Seq<char>,
    pub connector_id: Seq<char>,
    pub source_identity: Seq<char>,
    pub display_name: Seq<char>,
    pub local_reference: Option<Seq<char>>,
    pub first_discovered: int,
    pub last_seen: int,
    pub status: DiscoveryStatus,
    pub metadata: Seq<(Seq<char>, Seq<char>)>,
    pub configuration: Seq<char>,
}

/// A connector-owned source found by discovery, with its consent status.
#[derive(Clone, Debug, Eq, PartialEq)]
pub struct DiscoveredSource {
    pub id: DiscoveredSourceId,
    pub connector_id: ConnectorId,
    pub source_identity: String,
    pub display_name: String,
    pub local_reference: Option<String>,
    pub first_discovered: UnixTime,
    pub last_seen: UnixTime,
    pub status: DiscoveryStatus,
    pub metadata: TextMap,
    pub configuration: String,
}

impl View for DiscoveredSource {
    type V = SourceRecordView;

    open spec fn view(&self) -> SourceRecordView {
        SourceRecordView {
            id: self.id@,
            connector_id: self.connector_id@,
            source_identity: self.source_identity@,
            display_name: self.display_name@,
            local_reference: opt_view(self.local_reference),
            first_discovered: self.first_discovered@,
            last_seen: self.last_seen@,
            status: self.status,
            metadata: self.metadata@,
            configuration: self.configuration@,
        }
    }
}

/// Copies an optional string.
pub fn duplicate_opt(s: &Option<String>) -> (r: Option<String>)
    ensures
        opt_view(r) == opt_view(*s),
{
    match s {
        Some(v) => Some(v.clone()),
        None => None,
    }
}

impl DiscoveredSource {
    /// Returns a copy with the same content.
    pub fn duplicate(&self) -> (r: Self)
        ensures
            r@ == self@,
    {
        DiscoveredSource {
            id: self.id.duplicate(),
            connector_id: self.connector_id.duplicate(),
            source_identity: self.source_identity.clone(),
            display_name: self.display_name.clone(),
            local_reference: duplicate_opt(&self.local_reference),
            first_discovered: self.first_discovered,
            last_seen: self.last_seen,
            status: self.status,
            metadata: self.metadata.duplicate(),
            configuration: self.configuration.clone(),
        }
    }
}

/// The mathematical content of a [`ConnectionRecord`].
pub struct ConnectionView {
    pub id: Seq<char>,
    pub source_id: Seq<char>,
    pub connector_id: Seq<char>,
    pub status: ConnectionStatus,
    pub policy: MonitoringPolicy,
    pub approved_at: int,
    pub revoked_at: Option<int>,
    pub configuration: Seq<char>,
    pub last_attempt: Option<int>,
    pub last_success: Option<int>,
    pub last_error: Option<Seq<char>>,
}

/// A consented connection to a discovered source.
#[derive(Clone, Debug, Eq, PartialEq)]
pub struct ConnectionRecord {
    pub id: ConnectionId,
    pub source_id: DiscoveredSourceId,
    pub connector_id: ConnectorId,
    pub status: ConnectionStatus,
    pub policy: MonitoringPolicy,
    pub approved_at: UnixTime,
    pub revoked_at: Option<UnixTime>,
    pub configuration: String,
    pub last_attempt: Option<UnixTime>,
    pub last_success: Option<UnixTime>,
    pub last_error: Option<String>,
}

impl View for ConnectionRecord {
    type V = ConnectionView;

    open spec fn view(&self) -> ConnectionView {
        ConnectionView {
            id: self.id@,
            source_id: self.source_id@,
            connector_id: self.connector_id@,
            status: self.status,
            policy: self.policy,
            approved_at: self.approved_at@,
            revoked_at: opt_time(self.revoked_at),
            configuration: self.configuration@,
            last_attempt: opt_time(self.last_attempt),
            last_success: opt_time(self.last_success),
            last_error: opt_view(self.last_error),
        }
    }
}

impl ConnectionRecord {
    /// Returns a copy with the same content.
    pub fn duplicate(&self) -> (r: Self)
        ensures
            r@ == self@,
    {
        ConnectionRecord {
            id: self.id.duplicate(),
            source_id: self.source_id.duplicate(),
            connector_id: self.connector_id.duplicate(),
            status: self.status,
            policy: self.policy,
            approved_at: self.approved_at,
            revoked_at: self.revoked_at,
            configuration: self.configuration.clone(),
            last_attempt: self.last_attempt,
            last_success: self.last_success,
            last_error: duplicate_opt(&self.last_error),
        }
    }
}

/// The chronological position of a discovered source.
pub open spec fn source_key(s: SourceRecordView) -> OrderKey {
    (s.first_discovered, s.id)
}

/// The chronological positions of discovered sources.
pub open spec fn source_keys(s: Seq<SourceRecordView>) -> Seq<OrderKey> {
    s.map_values(|x: SourceRecordView| source_key(x))
}

/// Whether no two sources share an identifier, nor a connector and source identity.
pub open spec fn sources_distinct(s: Seq<SourceRecordView>) -> bool {
    forall|i: int, j: int|
        0 <= i < s.len() && 0 <= j < s.len() && i != j ==> {
            &&& (#[trigger] s[i]).id != (#[trigger] s[j]).id
            &&& (s[i].connector_id != s[j].connector_id || s[i].source_identity
                != s[j].source_identity)
        }
}

/// The chronological position of a connection.
pub open spec fn connection_key(c: ConnectionView) -> OrderKey {
    (c.approved_at, c.id)
}

/// The chronological positions of connections.
pub open spec fn connection_keys(s: Seq<ConnectionView>) -> Seq<OrderKey> {
    s.map_values(|x: ConnectionView| connection_key(x))
}

/// Whether no two connections share an identifier.
pub open spec fn connections_distinct(s: Seq<ConnectionView>) -> bool {
    forall|i: int, j: int|
        0 <= i < s.len() && 0 <= j < s.len() && i != j ==> (#[trigger] s[i]).id != (
        #[trigger] s[j]).id
}

/// The discovery and connection records.
pub struct OperationsView {
    pub sources: Seq<SourceRecordView>,
    pub connections: Seq<ConnectionView>,
}

/// Whether the records are well formed: each kind in strict chronological
/// order with distinct identifiers, and sources distinct by identity.
pub open spec fn operations_valid(v: OperationsView) -> bool {
    &&& ascending(source_keys(v.sources))
    &&& sources_distinct(v.sources)
    &&& ascending(connection_keys(v.connections))
    &&& connections_distinct(v.connections)
}

/// Whether a connection may move from one status to another: enabled and
/// paused connections may pause, resume or disconnect; disconnection is final.
pub open spec fn transition_allowed(from: ConnectionStatus, to: ConnectionStatus) -> bool {
    ||| (from == ConnectionStatus::Enabled && (to == ConnectionStatus::Paused || to
        == ConnectionStatus::Disconnected))
    ||| (from == ConnectionStatus::Paused && (to == ConnectionStatus::Enabled || to
        == ConnectionStatus::Disconnected))
}

/// The monitoring policy that goes with a connection status.
pub open spec fn policy_of(status: ConnectionStatus) -> MonitoringPolicy {
    if status == ConnectionStatus::Enabled {
        MonitoringPolicy::Always
    } else {
        MonitoringPolicy::Paused
    }
}

/// The position of the source with identifier `id`, if any.
pub open spec fn source_index(s: Seq<SourceRecordView>, id: Seq<char>) -> Option<int> {
    if exists|i: int| 0 <= i < s.len() && (#[trigger] s[i]).id == id {
        Some(choose|i: int| 0 <= i < s.len() && (#[trigger] s[i]).id == id)
    } else {
        None
    }
}

/// The position of the connection with identifier `id`, if any.
pub open spec fn connection_index(s: Seq<ConnectionView>, id: Seq<char>) -> Option<int> {
    if exists|i: int| 0 <= i < s.len() && (#[trigger] s[i]).id == id {
        Some(choose|i: int| 0 <= i < s.len() && (#[trigger] s[i]).id == id)
    } else {
        None
    }
}

/// A known source refreshed by a repeated discovery: name, reference, last
/// sighting, metadata and configuration change; identity, first sighting and
/// consent status stay.
pub open spec fn refreshed(known: SourceRecordView, seen: SourceRecordView) -> SourceRecordView {
    SourceRecordView {
        display_name: seen.display_name,
        local_reference: seen.local_reference,
        last_seen: seen.last_seen,
        metadata: seen.metadata,
        configuration: seen.configuration,
        ..known
    }
}

/// A newly discovered source, awaiting a consent decision.
pub open spec fn awaiting(seen: SourceRecordView) -> SourceRecordView {
    SourceRecordView { status: DiscoveryStatus::AwaitingDecision, ..seen }
}

/// The connection created when a source is approved.
pub open spec fn approved_connection(
    source: SourceRecordView,
    id: Seq<char>,
    now: int,
) -> ConnectionView {
    ConnectionView {
        id: id,
        source_id: source.id,
        connector_id: source.connector_id,
        status: ConnectionStatus::Enabled,
        policy: MonitoringPolicy::Always,
        approved_at: now,
        revoked_at: None,
        configuration: source.configuration,
        last_attempt: None,
        last_success: None,
        last_error: None,
    }
}

/// Whether no known source has the connector and identity of `seen`.
pub open spec fn identity_unknown(before: Seq<SourceRecordView>, seen: SourceRecordView) -> bool {
    forall|j: int|
        0 <= j < before.len() ==> !((#[trigger] before[j]).connector_id == seen.connector_id
            && before[j].source_identity == seen.source_identity)
}

/// The effect of recording a discovered source `seen`: a known source with
/// the same connector and identity is refreshed; otherwise a new source is
/// added awaiting a decision, unless its identifier is taken, in which case
/// nothing is stored (`stored` is `None`).
pub open spec fn upsert_effect(
    before: Seq<SourceRecordView>,
    after: Seq<SourceRecordView>,
    seen: SourceRecordView,
    stored: Option<SourceRecordView>,
) -> bool {
    if !identity_unknown(before, seen) {
        exists|i: int|
            0 <= i < before.len() && before[i].connector_id == seen.connector_id
                && before[i].source_identity == seen.source_identity && stored == Some(
                refreshed(before[i], seen),
            ) && after == before.update(i, refreshed(before[i], seen))
    } else if source_index(before, seen.id) is Some {
        stored is None && after == before
    } else {
        stored == Some(awaiting(seen)) && exists|p: int|
            0 <= p <= before.len() && after == before.insert(p, awaiting(seen))
    }
}

/// Discovering a source again never resets its consent decision: a known
/// source (same connector and identity) keeps its identifier, its status
/// and when it was first discovered, takes what was seen now for everything
/// else, and no other source changes; a new one is added awaiting a
/// decision, with everything else as seen.
pub proof fn law_rediscovery_keeps_decision(
    before: Seq<SourceRecordView>,
    after: Seq<SourceRecordView>,
    seen: SourceRecordView,
    stored: SourceRecordView,
)
    requires
        upsert_effect(before, after, seen, Some(stored)),
    ensures
        !identity_unknown(before, seen) ==> exists|i: int|
            0 <= i < before.len() && before[i].connector_id == seen.connector_id
                && before[i].source_identity == seen.source_identity && stored.id == before[i].id
                && stored.status == before[i].status && stored.first_discovered
                == before[i].first_discovered && stored.last_seen == seen.last_seen
                && stored.display_name == seen.display_name && stored.local_reference
                == seen.local_reference && stored.metadata == seen.metadata && stored.configuration
                == seen.configuration && #[trigger] after.update(i, before[i]) == before
                && after[i] == stored,
        identity_unknown(before, seen) ==> stored == (SourceRecordView {
            status: DiscoveryStatus::AwaitingDecision,
            ..seen
        }) && exists|p: int| 0 <= p <= before.len() && after == before.insert(p, stored),
{
    if !identity_unknown(before, seen) {
        let i = choose|i: int|
            0 <= i < before.len() && before[i].connector_id == seen.connector_id
                && before[i].source_identity == seen.source_identity && Some(stored) == Some(
                refreshed(before[i], seen),
            ) && after == before.update(i, refreshed(before[i], seen));
        assert(after.update(i, before[i]) =~= before);
    }
}

/// A connection moved to `status` at `now`: its policy follows the status,
/// and disconnecting records when it was revoked.
pub open spec fn with_status(current: ConnectionView, status: ConnectionStatus, now: int) -> ConnectionView {
    ConnectionView {
        status: status,
        policy: policy_of(status),
        revoked_at: if status == ConnectionStatus::Disconnected {
            Some(now)
        } else {
            current.revoked_at
        },
        ..current
    }
}

/// Whether `sources` holds a source with the identifier and consent status
/// of `record`.
#[verifier::opaque]
pub open spec fn holds_decision(sources: Seq<SourceRecordView>, record: SourceRecordView) -> bool {
    exists|j: int|
        0 <= j < sources.len() && (#[trigger] sources[j]).id == record.id && sources[j].status
            == record.status
}

/// Whether going from `before` to `after` kept every consent decision: each
/// source known before is still there under its identifier with its status,
/// and any other source awaits a decision.
pub open spec fn decisions_kept(before: Seq<SourceRecordView>, after: Seq<SourceRecordView>) -> bool {
    &&& forall|i: int| 0 <= i < before.len() ==> holds_decision(after, #[trigger] before[i])
    &&& forall|j: int|
        0 <= j < after.len() ==> (#[trigger] after[j]).status == DiscoveryStatus::AwaitingDecision
            || holds_decision(before, after[j])
}

/// Recording a discovered source keeps every consent decision.
pub proof fn lemma_upsert_keeps_decisions(
    before: Seq<SourceRecordView>,
    after: Seq<SourceRecordView>,
    seen: SourceRecordView,
    stored: Option<SourceRecordView>,
)
    requires
        upsert_effect(before, after, seen, stored),
    ensures
        decisions_kept(before, after),
{
    reveal(holds_decision);
    if !identity_unknown(before, seen) {
        let i = choose|i: int|
            0 <= i < before.len() && before[i].connector_id == seen.connector_id
                && before[i].source_identity == seen.source_identity && stored == Some(
                refreshed(before[i], seen),
            ) && after == before.update(i, refreshed(before[i], seen));
        assert forall|m: int| 0 <= m < before.len() implies holds_decision(
            after,
            #[trigger] before[m],
        ) by {
            assert(after[m].id == before[m].id && after[m].status == before[m].status);
        }
        assert forall|m: int| 0 <= m < after.len() implies (#[trigger] after[m]).status
            == DiscoveryStatus::AwaitingDecision || holds_decision(before, after[m]) by {
            assert(after[m].id == before[m].id && after[m].status == before[m].status);
        }
    } else if source_index(before, seen.id) is Some {
        assert forall|m: int| 0 <= m < before.len() implies holds_decision(
            after,
            #[trigger] before[m],
        ) by {
            assert(after[m] == before[m]);
        }
        assert forall|m: int| 0 <= m < after.len() implies (#[trigger] after[m]).status
            == DiscoveryStatus::AwaitingDecision || holds_decision(before, after[m]) by {
            assert(after[m] == before[m]);
        }
    } else {
        let p = choose|p: int| 0 <= p <= before.len() && after == before.insert(p, awaiting(seen));
        assert forall|m: int| 0 <= m < before.len() implies holds_decision(
            after,
            #[trigger] before[m],
        ) by {
            if m < p {
                assert(after[m] == before[m]);
            } else {
                assert(after[m + 1] == before[m]);
            }
        }
        assert forall|m: int| 0 <= m < after.len() implies (#[trigger] after[m]).status
            == DiscoveryStatus::AwaitingDecision || holds_decision(before, after[m]) by {
            if m < p {
                assert(after[m] == before[m]);
            } else if m > p {
                assert(after[m] == before[m - 1]);
            }
        }
    }
}

proof fn lemma_decision_carried(x: SourceRecordView, b: Seq<SourceRecordView>, c: Seq<SourceRecordView>)
    requires
        holds_decision(b, x),
        forall|j: int| 0 <= j < b.len() ==> holds_decision(c, #[trigger] b[j]),
    ensures
        holds_decision(c, x),
{
    reveal(holds_decision);
    let j = choose|j: int| 0 <= j < b.len() && (#[trigger] b[j]).id == x.id && b[j].status == x.status;
    assert(holds_decision(c, b[j]));
    let k = choose|k: int| 0 <= k < c.len() && (#[trigger] c[k]).id == b[j].id && c[k].status == b[j].status;
    assert(c[k].id == x.id && c[k].status == x.status);
}

proof fn lemma_decision_traced(x: SourceRecordView, a: Seq<SourceRecordView>, b: Seq<SourceRecordView>)
    requires
        x.status != DiscoveryStatus::AwaitingDecision,
        holds_decision(b, x),
        forall|j: int|
            0 <= j < b.len() ==> (#[trigger] b[j]).status == DiscoveryStatus::AwaitingDecision
                || holds_decision(a, b[j]),
    ensures
        holds_decision(a, x),
{
    reveal(holds_decision);
    let j = choose|j: int| 0 <= j < b.len() && (#[trigger] b[j]).id == x.id && b[j].status == x.status;
    assert(holds_decision(a, b[j]));
    let i = choose|i: int| 0 <= i < a.len() && (#[trigger] a[i]).id == b[j].id && a[i].status == b[j].status;
    assert(a[i].id == x.id && a[i].status == x.status);
}

/// Keeping consent decisions over two steps keeps them over both.
pub proof fn lemma_decisions_kept_transitive(
    a: Seq<SourceRecordView>,
    b: Seq<SourceRecordView>,
    c: Seq<SourceRecordView>,
)
    requires
        decisions_kept(a, b),
        decisions_kept(b, c),
    ensures
        decisions_kept(a, c),
{
    assert forall|i: int| 0 <= i < a.len() implies holds_decision(c, #[trigger] a[i]) by {
        lemma_decision_carried(a[i], b, c);
    }
    assert forall|k: int| 0 <= k < c.len() implies (#[trigger] c[k]).status
        == DiscoveryStatus::AwaitingDecision || holds_decision(a, c[k]) by {
        if c[k].status != DiscoveryStatus::AwaitingDecision {
            lemma_decision_traced(c[k], a, b);
        }
    }
}

/// Every sequence of sources keeps its own consent decisions.
pub proof fn lemma_decisions_kept_reflexive(a: Seq<SourceRecordView>)
    ensures
        decisions_kept(a, a),
{
    reveal(holds_decision);
    assert forall|i: int| 0 <= i < a.len() implies holds_decision(a, #[trigger] a[i]) by {
        assert(a[i].id == a[i].id);
    }
    assert forall|k: int| 0 <= k < a.len() implies (#[trigger] a[k]).status
        == DiscoveryStatus::AwaitingDecision || holds_decision(a, a[k]) by {
        assert(holds_decision(a, a[k]));
    }
}

/// Discovery and connection records, kept in chronological order.
pub struct Operations {
    sources: Vec<DiscoveredSource>,
    connections: Vec<ConnectionRecord>,
}

impl View for Operations {
    type V = OperationsView;

    closed spec fn view(&self) -> OperationsView {
        OperationsView {
            sources: self.sources@.map_values(|s: DiscoveredSource| s@),
            connections: self.connections@.map_values(|c: ConnectionRecord| c@),
        }
    }
}

impl Operations {
    #[verifier::type_invariant]
    closed spec fn valid(&self) -> bool {
        operations_valid(self@)
    }

    /// Creates empty records.
    pub fn new() -> (r: Self)
        ensures
            r@.sources == Seq::<SourceRecordView>::empty(),
            r@.connections == Seq::<ConnectionView>::empty(),
    {
        let r = Operations { sources: Vec::new(), connections: Vec::new() };
        assert(r@.sources =~= Seq::<SourceRecordView>::empty());
        assert(r@.connections =~= Seq::<ConnectionView>::empty());
        r
    }

    /// Every set of records is well formed.
    pub fn check_valid(&self)
        ensures
            operations_valid(self@),
    {
        proof {
            use_type_invariant(self);
        }
    }

    fn source_position(&self, id: &DiscoveredSourceId) -> (r: Option<usize>)
        ensures
            match r {
                Some(i) => source_index(self@.sources, id@) == Some(i as int),
                None => source_index(self@.sources, id@) is None,
            },
    {
        proof {
            use_type_invariant(self);
        }
        let mut i: usize = 0;
        while i < self.sources.len()
            invariant
                i <= self@.sources.len(),
                self@.sources.len() == self.sources@.len(),
                sources_distinct(self@.sources),
                forall|j: int| 0 <= j < i ==> (#[trigger] self@.sources[j]).id != id@,
            decreases self.sources.len() - i,
        {
            if self.sources[i].id.same_as(id) {
                proof {
                    let c = choose|c: int| 0 <= c < self@.sources.len() && (#[trigger] self@.sources[c]).id == id@;
                    if c != i {
                        assert(self@.sources[c].id != self@.sources[i as int].id);
                    }
                }
                return Some(i);
            }
            i = i + 1;
        }
        None
    }

    fn identity_position(&self, connector_id: &ConnectorId, identity: &str) -> (r: Option<usize>)
        ensures
            match r {
                Some(i) => i < self@.sources.len() && self@.sources[i as int].connector_id
                    == connector_id@ && self@.sources[i as int].source_identity == identity@,
                None => forall|j: int|
                    0 <= j < self@.sources.len() ==> !((#[trigger] self@.sources[j]).connector_id
                        == connector_id@ && self@.sources[j].source_identity == identity@),
            },
    {
        let mut i: usize = 0;
        while i < self.sources.len()
            invariant
                i <= self@.sources.len(),
                self@.sources.len() == self.sources@.len(),
                forall|j: int|
                    0 <= j < i ==> !((#[trigger] self@.sources[j]).connector_id == connector_id@
                        && self@.sources[j].source_identity == identity@),
            decreases self.sources.len() - i,
        {
            if self.sources[i].connector_id.same_as(connector_id) && crate::text::str_eq(
                self.sources[i].source_identity.as_str(),
                identity,
            ) {
                return Some(i);
            }
            i = i + 1;
        }
        None
    }

    fn connection_position(&self, id: &ConnectionId) -> (r: Option<usize>)
        ensures
            match r {
                Some(i) => connection_index(self@.connections, id@) == Some(i as int),
                None => connection_index(self@.connections, id@) is None,
            },
    {
        proof {
            use_type_invariant(self);
        }
        let mut i: usize = 0;
        while i < self.connections.len()
            invariant
                i <= self@.connections.len(),
                self@.connections.len() == self.connections@.len(),
                connections_distinct(self@.connections),
                forall|j: int| 0 <= j < i ==> (#[trigger] self@.connections[j]).id != id@,
            decreases self.connections.len() - i,
        {
            if self.connections[i].id.same_as(id) {
                proof {
                    let c = choose|c: int| 0 <= c < self@.connections.len() && (#[trigger] self@.connections[c]).id == id@;
                    if c != i {
                        assert(self@.connections[c].id != self@.connections[i as int].id);
                    }
                }
                return Some(i);
            }
            i = i + 1;
        }
        None
    }

    /// Creates or refreshes a connector-owned discovery candidate without
    /// collecting evidence, and returns the stored record.
    pub fn upsert_discovered_source(&mut self, source: &DiscoveredSource) -> (r: Result<
        DiscoveredSource,
        StoreError,
    >)
        ensures
            final(self)@.connections == old(self)@.connections,
            match r {
                Ok(stored) => upsert_effect(old(self)@.sources, final(self)@.sources, source@, Some(stored@)),
                Err(StoreError::Database { .. }) => upsert_effect(
                    old(self)@.sources,
                    final(self)@.sources,
                    source@,
                    None,
                ) && final(self)@ == old(self)@,
                Err(_) => false,
            },
    {
        proof {
            use_type_invariant(&*self);
        }
        let ghost before = self@;
        match self.identity_position(&source.connector_id, source.source_identity.as_str()) {
            Some(i) => {
                let mut taken = Operations::new();
                std::mem::swap(self, &mut taken);
                let Operations { mut sources, connections } = taken;
                let mut record = sources.remove(i);
                record.display_name = source.display_name.clone();
                record.local_reference = duplicate_opt(&source.local_reference);
                record.last_seen = source.last_seen;
                record.metadata = source.metadata.duplicate();
                record.configuration = source.configuration.clone();
                let stored = record.duplicate();
                sources.insert(i, record);
                proof {
                    let after = sources@.map_values(|s: DiscoveredSource| s@);
                    assert(after =~= before.sources.update(i as int, stored@));
                    assert(source_keys(after) =~= source_keys(before.sources));
                    assert forall|a: int, b: int|
                        0 <= a < after.len() && 0 <= b < after.len() && a != b implies {
                            &&& (#[trigger] after[a]).id != (#[trigger] after[b]).id
                            &&& (after[a].connector_id != after[b].connector_id
                                || after[a].source_identity != after[b].source_identity)
                        } by {
                        assert(after[a].id == before.sources[a].id);
                        assert(after[b].id == before.sources[b].id);
                        assert(after[a].connector_id == before.sources[a].connector_id);
                        assert(after[b].connector_id == before.sources[b].connector_id);
                        assert(after[a].source_identity == before.sources[a].source_identity);
                        assert(after[b].source_identity == before.sources[b].source_identity);
                    }
                }
                *self = Operations { sources, connections };
                Ok(stored)
            },
            None => {
                if let Some(_) = self.source_position(&source.id) {
                    return Err(
                        StoreError::Database {
                            message: "discovered source identifier already in use".to_owned(),
                        },
                    );
                }
                let mut record = source.duplicate();
                record.status = DiscoveryStatus::AwaitingDecision;
                let stored = record.duplicate();
                let ghost k = source_key(stored@);
                let mut p: usize = 0;
                loop
                    invariant
                        p <= self@.sources.len(),
                        self@ == before,
                        k == source_key(source@),
                        self@.sources.len() == self.sources@.len(),
                        forall|j: int| 0 <= j < p ==> key_lt(#[trigger] source_keys(before.sources)[j], k),
                    ensures
                        p <= self@.sources.len(),
                        forall|j: int| 0 <= j < p ==> key_lt(#[trigger] source_keys(before.sources)[j], k),
                        p < self@.sources.len() ==> !key_lt(source_keys(before.sources)[p as int], k),
                    decreases self.sources.len() - p,
                {
                    if p >= self.sources.len() {
                        break;
                    }
                    let current = &self.sources[p];
                    assert(source_keys(before.sources)[p as int] == source_key(current@));
                    if !key_less(
                        &current.first_discovered,
                        current.id.as_str(),
                        &source.first_discovered,
                        source.id.as_str(),
                    ) {
                        break;
                    }
                    p = p + 1;
                }
                proof {
                    let ks = source_keys(before.sources);
                    assert forall|i: int| 0 <= i < ks.len() implies #[trigger] ks[i] != k by {
                        assert(before.sources[i].id != source@.id);
                    }
                    lemma_insert_ascending(ks, p as int, k);
                    assert(source_keys(before.sources.insert(p as int, stored@)) =~= ks.insert(p as int, k));
                }
                let mut taken = Operations::new();
                std::mem::swap(self, &mut taken);
                let Operations { mut sources, connections } = taken;
                sources.insert(p, record);
                proof {
                    let after = sources@.map_values(|s: DiscoveredSource| s@);
                    assert(after =~= before.sources.insert(p as int, stored@));
                    assert forall|a: int, b: int|
                        0 <= a < after.len() && 0 <= b < after.len() && a != b implies {
                            &&& (#[trigger] after[a]).id != (#[trigger] after[b]).id
                            &&& (after[a].connector_id != after[b].connector_id
                                || after[a].source_identity != after[b].source_identity)
                        } by {
                        if a != p && b != p {
                            let ba = if a < p { a } else { a - 1 };
                            let bb = if b < p { b } else { b - 1 };
                            assert(after[a] == before.sources[ba]);
                            assert(after[b] == before.sources[bb]);
                        } else if a == p {
                            let bb = if b < p { b } else { b - 1 };
                            assert(after[b] == before.sources[bb]);
                        } else {
                            let ba = if a < p { a } else { a - 1 };
                            assert(after[a] == before.sources[ba]);
                        }
                    }
                }
                *self = Operations { sources, connections };
                Ok(stored)
            },
        }
    }

    /// Restores a source record read back from storage, status and all. A
    /// record whose identifier or identity is already held is refused.
    pub fn restore_source(&mut self, source: &DiscoveredSource) -> (r: Result<(), StoreError>)
        ensures
            final(self)@.connections == old(self)@.connections,
            match r {
                Ok(()) => exists|p: int|
                    0 <= p <= old(self)@.sources.len() && final(self)@.sources
                        == old(self)@.sources.insert(p, source@),
                Err(e) => e is Database && final(self)@ == old(self)@,
            },
            r is Ok <==> source_index(old(self)@.sources, source@.id) is None && !exists|i: int|
                0 <= i < old(self)@.sources.len() && (#[trigger] old(self)@.sources[i]).connector_id
                    == source@.connector_id && old(self)@.sources[i].source_identity
                    == source@.source_identity,
    {
        proof {
            use_type_invariant(&*self);
        }
        let ghost before = self@;
        if let Some(i) = self.identity_position(&source.connector_id, source.source_identity.as_str()) {
            return Err(
                StoreError::Database {
                    message: "discovered source identity already in use".to_owned(),
                },
            );
        }
        if let Some(_) = self.source_position(&source.id) {
            return Err(
                StoreError::Database {
                    message: "discovered source identifier already in use".to_owned(),
                },
            );
        }
        let record = source.duplicate();
        let ghost stored = record@;
        let ghost k = source_key(stored);
        let mut p: usize = 0;
        loop
            invariant
                p <= self@.sources.len(),
                self@ == before,
                k == source_key(source@),
                self@.sources.len() == self.sources@.len(),
                forall|j: int| 0 <= j < p ==> key_lt(#[trigger] source_keys(before.sources)[j], k),
            ensures
                p <= self@.sources.len(),
                forall|j: int| 0 <= j < p ==> key_lt(#[trigger] source_keys(before.sources)[j], k),
                p < self@.sources.len() ==> !key_lt(source_keys(before.sources)[p as int], k),
            decreases self.sources.len() - p,
        {
            if p >= self.sources.len() {
                break;
            }
            let current = &self.sources[p];
            assert(source_keys(before.sources)[p as int] == source_key(current@));
            if !key_less(
                &current.first_discovered,
                current.id.as_str(),
                &source.first_discovered,
                source.id.as_str(),
            ) {
                break;
            }
            p = p + 1;
        }
        proof {
            let ks = source_keys(before.sources);
            assert forall|i: int| 0 <= i < ks.len() implies #[trigger] ks[i] != k by {
                assert(before.sources[i].id != source@.id);
            }
            lemma_insert_ascending(ks, p as int, k);
            assert(source_keys(before.sources.insert(p as int, stored)) =~= ks.insert(p as int, k));
        }
        let mut taken = Operations::new();
        std::mem::swap(self, &mut taken);
        let Operations { mut sources, connections } = taken;
        sources.insert(p, record);
        proof {
            let after = sources@.map_values(|s: DiscoveredSource| s@);
            assert(after =~= before.sources.insert(p as int, stored));
            assert forall|a: int, b: int|
                0 <= a < after.len() && 0 <= b < after.len() && a != b implies {
                    &&& (#[trigger] after[a]).id != (#[trigger] after[b]).id
                    &&& (after[a].connector_id != after[b].connector_id
                        || after[a].source_identity != after[b].source_identity)
                } by {
                if a != p && b != p {
                    let ba = if a < p { a } else { a - 1 };
                    let bb = if b < p { b } else { b - 1 };
                    assert(after[a] == before.sources[ba]);
                    assert(after[b] == before.sources[bb]);
                } else if a == p {
                    let bb = if b < p { b } else { b - 1 };
                    assert(after[b] == before.sources[bb]);
                } else {
                    let ba = if a < p { a } else { a - 1 };
                    assert(after[a] == before.sources[ba]);
                }
            }
        }
        *self = Operations { sources, connections };
        Ok(())
    }

    /// Restores a connection record read back from storage. A record whose
    /// identifier is already held is refused.
    pub fn restore_connection(&mut self, record: &ConnectionRecord) -> (r: Result<(), StoreError>)
        ensures
            final(self)@.sources == old(self)@.sources,
            match r {
                Ok(()) => exists|p: int|
                    0 <= p <= old(self)@.connections.len() && final(self)@.connections
                        == old(self)@.connections.insert(p, record@),
                Err(e) => e is Database && final(self)@ == old(self)@,
            },
            r is Ok <==> connection_index(old(self)@.connections, record@.id) is None,
    {
        proof {
            use_type_invariant(&*self);
        }
        let ghost middle = self@;
        if let Some(_) = self.connection_position(&record.id) {
            return Err(
                StoreError::Database { message: "connection identifier already in use".to_owned() },
            );
        }
        let stored = record.duplicate();
        let ghost k = connection_key(stored@);
        let mut p: usize = 0;
        loop
            invariant
                p <= self@.connections.len(),
                self@ == middle,
                k == connection_key(record@),
                self@.connections.len() == self.connections@.len(),
                forall|j: int| 0 <= j < p ==> key_lt(#[trigger] connection_keys(middle.connections)[j], k),
            ensures
                p <= self@.connections.len(),
                forall|j: int| 0 <= j < p ==> key_lt(#[trigger] connection_keys(middle.connections)[j], k),
                p < self@.connections.len() ==> !key_lt(connection_keys(middle.connections)[p as int], k),
            decreases self.connections.len() - p,
        {
            if p >= self.connections.len() {
                break;
            }
            let current = &self.connections[p];
            assert(connection_keys(middle.connections)[p as int] == connection_key(current@));
            if !key_less(&current.approved_at, current.id.as_str(), &record.approved_at, record.id.as_str()) {
                break;
            }
            p = p + 1;
        }
        proof {
            let ks = connection_keys(middle.connections);
            assert forall|x: int| 0 <= x < ks.len() implies #[trigger] ks[x] != k by {
                assert(middle.connections[x].id != record@.id);
            }
            lemma_insert_ascending(ks, p as int, k);
            assert(connection_keys(middle.connections.insert(p as int, stored@)) =~= ks.insert(p as int, k));
        }
        let ghost inserted = stored@;
        let mut taken = Operations::new();
        std::mem::swap(self, &mut taken);
        let Operations { sources, mut connections } = taken;
        connections.insert(p, stored);
        proof {
            let after = connections@.map_values(|c: ConnectionRecord| c@);
            assert(after =~= middle.connections.insert(p as int, inserted));
            assert forall|a: int, b: int|
                0 <= a < after.len() && 0 <= b < after.len() && a != b implies (
                #[trigger] after[a]).id != (#[trigger] after[b]).id by {
                if a != p && b != p {
                    let ba = if a < p { a } else { a - 1 };
                    let bb = if b < p { b } else { b - 1 };
                    assert(after[a] == middle.connections[ba]);
                    assert(after[b] == middle.connections[bb]);
                } else if a == p {
                    let bb = if b < p { b } else { b - 1 };
                    assert(after[b] == middle.connections[bb]);
                } else {
                    let ba = if a < p { a } else { a - 1 };
                    assert(after[a] == middle.connections[ba]);
                }
            }
        }
        *self = Operations { sources, connections };
        Ok(())
    }

    /// Lists discovered sources by first discovery, then identifier.
    pub fn list_discovered_sources(&self) -> (r: Vec<DiscoveredSource>)
        ensures
            r@.map_values(|s: DiscoveredSource| s@) == self@.sources,
    {
        let mut out: Vec<DiscoveredSource> = Vec::new();
        let mut i: usize = 0;
        while i < self.sources.len()
            invariant
                i <= self.sources@.len(),
                out@.len() == i,
                out@.map_values(|s: DiscoveredSource| s@) =~= self@.sources.subrange(0, i as int),
            decreases self.sources.len() - i,
        {
            out.push(self.sources[i].duplicate());
            assert(out@.map_values(|s: DiscoveredSource| s@) =~= self@.sources.subrange(0, i + 1));
            i = i + 1;
        }
        assert(self@.sources.subrange(0, self.sources@.len() as int) =~= self@.sources);
        out
    }

    /// Returns the discovered source with identifier `id`, if any.
    pub fn get_discovered_source(&self, id: &DiscoveredSourceId) -> (r: Option<DiscoveredSource>)
        ensures
            match source_index(self@.sources, id@) {
                Some(i) => r matches Some(s) && s@ == self@.sources[i],
                None => r is None,
            },
    {
        match self.source_position(id) {
            Some(i) => Some(self.sources[i].duplicate()),
            None => None,
        }
    }

    /// Approves a source that awaits a decision: marks it connected and
    /// creates an enabled connection under `connection_id`.
    pub fn approve_source(
        &mut self,
        source_id: &DiscoveredSourceId,
        connection_id: &ConnectionId,
        now: UnixTime,
    ) -> (r: Result<ConnectionRecord, StoreError>)
        ensures
            match source_index(old(self)@.sources, source_id@) {
                None => r matches Err(StoreError::MissingDiscoveredSource(id)) && id@ == source_id@
                    && final(self)@ == old(self)@,
                Some(i) => {
                    let source = old(self)@.sources[i];
                    if source.status == DiscoveryStatus::Connected {
                        r matches Err(StoreError::ConnectionAlreadyApproved(id)) && id@ == source_id@
                            && final(self)@ == old(self)@
                    } else if source.status == DiscoveryStatus::Declined {
                        r matches Err(StoreError::ConnectionNotApproved(id)) && id@ == source_id@
                            && final(self)@ == old(self)@
                    } else {
                        &&& final(self)@.sources == old(self)@.sources.update(
                            i,
                            SourceRecordView { status: DiscoveryStatus::Connected, ..source },
                        )
                        &&& match connection_index(old(self)@.connections, connection_id@) {
                            Some(_) => r matches Err(StoreError::Database { .. })
                                && final(self)@.connections == old(self)@.connections,
                            None => r matches Ok(c) && c@ == approved_connection(
                                source,
                                connection_id@,
                                now@,
                            ) && exists|p: int|
                                0 <= p <= old(self)@.connections.len() && final(self)@.connections
                                    == old(self)@.connections.insert(p, c@),
                        }
                    }
                },
            },
    {
        proof {
            use_type_invariant(&*self);
        }
        let ghost before = self@;
        let i = match self.source_position(source_id) {
            Some(i) => i,
            None => {
                return Err(StoreError::MissingDiscoveredSource(source_id.duplicate()));
            },
        };
        if self.sources[i].status == DiscoveryStatus::Connected {
            return Err(StoreError::ConnectionAlreadyApproved(source_id.duplicate()));
        }
        if self.sources[i].status == DiscoveryStatus::Declined {
            return Err(StoreError::ConnectionNotApproved(source_id.duplicate()));
        }
        let mut taken = Operations::new();
        std::mem::swap(self, &mut taken);
        let Operations { mut sources, connections } = taken;
        let mut record = sources.remove(i);
        record.status = DiscoveryStatus::Connected;
        let connector_id = record.connector_id.duplicate();
        let configuration = record.configuration.clone();
        let ghost updated = record@;
        sources.insert(i, record);
        proof {
            let after = sources@.map_values(|s: DiscoveredSource| s@);
            assert(after =~= before.sources.update(i as int, updated));
            assert(source_keys(after) =~= source_keys(before.sources));
            assert forall|a: int, b: int|
                0 <= a < after.len() && 0 <= b < after.len() && a != b implies {
                    &&& (#[trigger] after[a]).id != (#[trigger] after[b]).id
                    &&& (after[a].connector_id != after[b].connector_id || after[a].source_identity
                        != after[b].source_identity)
                } by {
                assert(after[a].id == before.sources[a].id);
                assert(after[b].id == before.sources[b].id);
                assert(after[a].connector_id == before.sources[a].connector_id);
                assert(after[b].connector_id == before.sources[b].connector_id);
                assert(after[a].source_identity == before.sources[a].source_identity);
                assert(after[b].source_identity == before.sources[b].source_identity);
            }
        }
        *self = Operations { sources, connections };
        let ghost middle = self@;
        if let Some(_) = self.connection_position(connection_id) {
            return Err(
                StoreError::Database { message: "connection identifier already in use".to_owned() },
            );
        }
        let record = ConnectionRecord {
            id: connection_id.duplicate(),
            source_id: source_id.duplicate(),
            connector_id,
            status: ConnectionStatus::Enabled,
            policy: MonitoringPolicy::Always,
            approved_at: now,
            revoked_at: None,
            configuration,
            last_attempt: None,
            last_success: None,
            last_error: None,
        };
        let stored = record.duplicate();
        let ghost k = connection_key(stored@);
        let mut p: usize = 0;
        loop
            invariant
                p <= self@.connections.len(),
                self@ == middle,
                k == connection_key(record@),
                self@.connections.len() == self.connections@.len(),
                forall|j: int| 0 <= j < p ==> key_lt(#[trigger] connection_keys(middle.connections)[j], k),
            ensures
                p <= self@.connections.len(),
                forall|j: int| 0 <= j < p ==> key_lt(#[trigger] connection_keys(middle.connections)[j], k),
                p < self@.connections.len() ==> !key_lt(connection_keys(middle.connections)[p as int], k),
            decreases self.connections.len() - p,
        {
            if p >= self.connections.len() {
                break;
            }
            let current = &self.connections[p];
            assert(connection_keys(middle.connections)[p as int] == connection_key(current@));
            if !key_less(&current.approved_at, current.id.as_str(), &record.approved_at, record.id.as_str()) {
                break;
            }
            p = p + 1;
        }
        proof {
            let ks = connection_keys(middle.connections);
            assert forall|x: int| 0 <= x < ks.len() implies #[trigger] ks[x] != k by {
                assert(middle.connections[x].id != connection_id@);
            }
            lemma_insert_ascending(ks, p as int, k);
            assert(connection_keys(middle.connections.insert(p as int, stored@)) =~= ks.insert(p as int, k));
        }
        let mut taken = Operations::new();
        std::mem::swap(self, &mut taken);
        let Operations { sources, mut connections } = taken;
        connections.insert(p, record);
        proof {
            let after = connections@.map_values(|c: ConnectionRecord| c@);
            assert(after =~= middle.connections.insert(p as int, stored@));
            assert forall|a: int, b: int|
                0 <= a < after.len() && 0 <= b < after.len() && a != b implies (
                #[trigger] after[a]).id != (#[trigger] after[b]).id by {
                if a != p && b != p {
                    let ba = if a < p { a } else { a - 1 };
                    let bb = if b < p { b } else { b - 1 };
                    assert(after[a] == middle.connections[ba]);
                    assert(after[b] == middle.connections[bb]);
                } else if a == p {
                    let bb = if b < p { b } else { b - 1 };
                    assert(after[b] == middle.connections[bb]);
                } else {
                    let ba = if a < p { a } else { a - 1 };
                    assert(after[a] == middle.connections[ba]);
                }
            }
        }
        *self = Operations { sources, connections };
        Ok(stored)
    }

    /// Records that consent for a discovered source was declined.
    pub fn decline_source(&mut self, id: &DiscoveredSourceId) -> (r: Result<(), StoreError>)
        ensures
            final(self)@.connections == old(self)@.connections,
            match source_index(old(self)@.sources, id@) {
                None => r matches Err(StoreError::MissingDiscoveredSource(e)) && e@ == id@
                    && final(self)@ == old(self)@,
                Some(i) => r is Ok && final(self)@.sources == old(self)@.sources.update(
                    i,
                    SourceRecordView { status: DiscoveryStatus::Declined, ..old(self)@.sources[i] },
                ),
            },
    {
        proof {
            use_type_invariant(&*self);
        }
        let ghost before = self@;
        let i = match self.source_position(id) {
            Some(i) => i,
            None => {
                return Err(StoreError::MissingDiscoveredSource(id.duplicate()));
            },
        };
        let mut taken = Operations::new();
        std::mem::swap(self, &mut taken);
        let Operations { mut sources, connections } = taken;
        let mut record = sources.remove(i);
        record.status = DiscoveryStatus::Declined;
        let ghost updated = record@;
        sources.insert(i, record);
        proof {
            let after = sources@.map_values(|s: DiscoveredSource| s@);
            assert(after =~= before.sources.update(i as int, updated));
            assert(source_keys(after) =~= source_keys(before.sources));
            assert forall|a: int, b: int|
                0 <= a < after.len() && 0 <= b < after.len() && a != b implies {
                    &&& (#[trigger] after[a]).id != (#[trigger] after[b]).id
                    &&& (after[a].connector_id != after[b].connector_id || after[a].source_identity
                        != after[b].source_identity)
                } by {
                assert(after[a].id == before.sources[a].id);
                assert(after[b].id == before.sources[b].id);
                assert(after[a].connector_id == before.sources[a].connector_id);
                assert(after[b].connector_id == before.sources[b].connector_id);
                assert(after[a].source_identity == before.sources[a].source_identity);
                assert(after[b].source_identity == before.sources[b].source_identity);
            }
        }
        *self = Operations { sources, connections };
        Ok(())
    }

    /// Lists connections by approval time, then identifier.
    pub fn list_connections(&self) -> (r: Vec<ConnectionRecord>)
        ensures
            r@.map_values(|c: ConnectionRecord| c@) == self@.connections,
    {
        let mut out: Vec<ConnectionRecord> = Vec::new();
        let mut i: usize = 0;
        while i < self.connections.len()
            invariant
                i <= self.connections@.len(),
                out@.len() == i,
                out@.map_values(|c: ConnectionRecord| c@) =~= self@.connections.subrange(0, i as int),
            decreases self.connections.len() - i,
        {
            out.push(self.connections[i].duplicate());
            assert(out@.map_values(|c: ConnectionRecord| c@) =~= self@.connections.subrange(0, i + 1));
            i = i + 1;
        }
        assert(self@.connections.subrange(0, self.connections@.len() as int) =~= self@.connections);
        out
    }

    /// Returns the connection with identifier `id`, if any.
    pub fn get_connection(&self, id: &ConnectionId) -> (r: Option<ConnectionRecord>)
        ensures
            match connection_index(self@.connections, id@) {
                Some(i) => r matches Some(c) && c@ == self@.connections[i],
                None => r is None,
            },
    {
        match self.connection_position(id) {
            Some(i) => Some(self.connections[i].duplicate()),
            None => None,
        }
    }

    fn replace_connection(&mut self, i: usize, record: ConnectionRecord)
        requires
            i < old(self)@.connections.len(),
            record@.id == old(self)@.connections[i as int].id,
            record@.approved_at == old(self)@.connections[i as int].approved_at,
        ensures
            final(self)@.sources == old(self)@.sources,
            final(self)@.connections == old(self)@.connections.update(i as int, record@),
    {
        proof {
            use_type_invariant(&*self);
        }
        let ghost before = self@;
        let ghost updated = record@;
        let mut taken = Operations::new();
        std::mem::swap(self, &mut taken);
        let Operations { sources, mut connections } = taken;
        let _ = connections.remove(i);
        connections.insert(i, record);
        proof {
            let after = connections@.map_values(|c: ConnectionRecord| c@);
            assert(after =~= before.connections.update(i as int, updated));
            assert(connection_keys(after) =~= connection_keys(before.connections));
            assert forall|a: int, b: int|
                0 <= a < after.len() && 0 <= b < after.len() && a != b implies (
                #[trigger] after[a]).id != (#[trigger] after[b]).id by {
                assert(after[a].id == before.connections[a].id);
                assert(after[b].id == before.connections[b].id);
            }
        }
        *self = Operations { sources, connections };
    }

    /// Moves a connection to a new status when the transition is allowed.
    /// Disconnecting records the time of revocation.
    pub fn set_connection_status(
        &mut self,
        id: &ConnectionId,
        status: ConnectionStatus,
        now: UnixTime,
    ) -> (r: Result<(), StoreError>)
        ensures
            final(self)@.sources == old(self)@.sources,
            match connection_index(old(self)@.connections, id@) {
                None => r matches Err(StoreError::MissingConnection(e)) && e@ == id@ && final(self)@
                    == old(self)@,
                Some(i) => {
                    let current = old(self)@.connections[i];
                    if transition_allowed(current.status, status) {
                        r is Ok && final(self)@.connections == old(self)@.connections.update(
                            i,
                            with_status(current, status, now@),
                        )
                    } else {
                        r matches Err(StoreError::InvalidConnectionTransition { id: e, from, to })
                            && e@ == id@ && from == current.status && to == status && final(self)@
                            == old(self)@
                    }
                },
            },
    {
        let i = match self.connection_position(id) {
            Some(i) => i,
            None => {
                return Err(StoreError::MissingConnection(id.duplicate()));
            },
        };
        let from = self.connections[i].status;
        let valid = match (from, status) {
            (ConnectionStatus::Enabled, ConnectionStatus::Paused) => true,
            (ConnectionStatus::Enabled, ConnectionStatus::Disconnected) => true,
            (ConnectionStatus::Paused, ConnectionStatus::Enabled) => true,
            (ConnectionStatus::Paused, ConnectionStatus::Disconnected) => true,
            _ => false,
        };
        if !valid {
            return Err(StoreError::InvalidConnectionTransition { id: id.duplicate(), from, to: status });
        }
        let mut record = self.connections[i].duplicate();
        record.status = status;
        record.policy = match status {
            ConnectionStatus::Enabled => MonitoringPolicy::Always,
            _ => MonitoringPolicy::Paused,
        };
        if status == ConnectionStatus::Disconnected {
            record.revoked_at = Some(now);
        }
        self.replace_connection(i, record);
        Ok(())
    }

    /// Records the outcome of one collection attempt for a connection.
    pub fn update_connection_result(
        &mut self,
        id: &ConnectionId,
        now: UnixTime,
        success: bool,
        error: Option<&str>,
    ) -> (r: Result<(), StoreError>)
        ensures
            final(self)@.sources == old(self)@.sources,
            match connection_index(old(self)@.connections, id@) {
                None => r matches Err(StoreError::MissingConnection(e)) && e@ == id@ && final(self)@
                    == old(self)@,
                Some(i) => {
                    let current = old(self)@.connections[i];
                    r is Ok && final(self)@.connections == old(self)@.connections.update(
                        i,
                        ConnectionView {
                            last_attempt: Some(now@),
                            last_success: if success {
                                Some(now@)
                            } else {
                                current.last_success
                            },
                            last_error: match error {
                                Some(e) => Some(e@),
                                None => None,
                            },
                            ..current
                        },
                    )
                },
            },
    {
        let i = match self.connection_position(id) {
            Some(i) => i,
            None => {
                return Err(StoreError::MissingConnection(id.duplicate()));
            },
        };
        let mut record = self.connections[i].duplicate();
        record.last_attempt = Some(now);
        if success {
            record.last_success = Some(now);
        }
        record.last_error = match error {
            Some(e) => Some(e.to_owned()),
            None => None,
        };
        self.replace_connection(i, record);
        Ok(())
    }
}

/// Among connections with distinct identifiers, the identifier of the one
/// at position `i` finds position `i`.
pub proof fn lemma_connection_index_unique(s: Seq<ConnectionView>, i: int)
    requires
        connections_distinct(s),
        0 <= i < s.len(),
    ensures
        connection_index(s, s[i].id) == Some(i),
{
    let c = choose|c: int| 0 <= c < s.len() && (#[trigger] s[c]).id == s[i].id;
    if c != i {
        assert(s[c].id != s[i].id);
    }
}

/// A disconnected connection can never change status again.
pub proof fn law_disconnection_is_final(to: ConnectionStatus)
    ensures
        !transition_allowed(ConnectionStatus::Disconnected, to),
{
}

/// Every status a connection can be moved to is reached from an enabled or
/// paused connection, and no status moves to itself.
pub proof fn law_transitions_change_status(from: ConnectionStatus, to: ConnectionStatus)
    requires
        transition_allowed(from, to),
    ensures
        from != to,
        from != ConnectionStatus::Disconnected,
{
}

/// The configuration of a new database.
pub open spec fn initial_configuration() -> ConfigurationView {
    ConfigurationView {
                monitoring: GlobalMonitoringState::Paused,
                record_folder: None,
                schedule: ReconciliationSchedule::Daily,
                time: LocalReconciliationTime { hour: 9, minute: 0 },
                last_attempt: None,
                last_success: None,
                next_run: None,
                last_error: None,
                counts: ReconciliationCounts { imported: 0, duplicates: 0, rejected: 0, failed: 0 },
                state: ReconciliationState::Paused,
    }
}

/// The manual update status before any run.
pub open spec fn initial_manual_status() -> ManualStatusView {
    ManualStatusView {
                last_attempt: None,
                last_success: None,
                last_error: None,
                counts: ReconciliationCounts { imported: 0, duplicates: 0, rejected: 0, failed: 0 },
                state: ReconciliationState::Idle,
    }
}

/// The scheduled reconciliation status before any run.
pub open spec fn initial_scheduled_status() -> ScheduledStatusView {
    ScheduledStatusView {
                last_attempt: None,
                last_success: None,
                last_error: None,
                counts: ReconciliationCounts { imported: 0, duplicates: 0, rejected: 0, failed: 0 },
                state: ReconciliationState::Idle,
                last_reconciled_local_date: None,
                next_scheduled_run: None,
    }
}

/// Whether scheduled reconciliation runs at all.
#[derive(Clone, Copy, Debug, Eq, PartialEq, Structural)]
pub enum GlobalMonitoringState {
    Enabled,
    Paused,
}

/// The days on which scheduled reconciliation is eligible to run.
#[derive(Clone, Copy, Debug, Eq, PartialEq, Structural)]
pub enum ReconciliationSchedule {
    /// Every day.
    Daily,
    /// Monday to Friday.
    Weekdays,
    /// The days whose bits are set, bit 0 for Monday to bit 6 for Sunday.
    Selected(u8),
}

/// A local wall-clock time of day.
#[derive(Clone, Copy, Debug, Eq, PartialEq, Structural)]
pub struct LocalReconciliationTime {
    pub hour: u8,
    pub minute: u8,
}

/// Counts of one reconciliation run.
#[derive(Clone, Copy, Debug, Default, Eq, PartialEq, Structural)]
pub struct ReconciliationCounts {
    pub imported: u64,
    pub duplicates: u64,
    pub rejected: u64,
    pub failed: u64,
}

/// The state of the most recent reconciliation run.
#[derive(Clone, Copy, Debug, Eq, PartialEq, Structural)]
pub enum ReconciliationState {
    Idle,
    Running,
    Succeeded,
    Failed,
    Paused,
}

/// The mathematical content of a [`ReconciliationConfiguration`].
pub struct ConfigurationView {
    pub monitoring: GlobalMonitoringState,
    pub record_folder: Option<Seq<char>>,
    pub schedule: ReconciliationSchedule,
    pub time: LocalReconciliationTime,
    pub last_attempt: Option<int>,
    pub last_success: Option<int>,
    pub next_run: Option<int>,
    pub last_error: Option<Seq<char>>,
    pub counts: ReconciliationCounts,
    pub state: ReconciliationState,
}

/// Operational reconciliation settings and last-run status. This is not evidence.
#[derive(Clone, Debug, Eq, PartialEq)]
pub struct ReconciliationConfiguration {
    pub monitoring: GlobalMonitoringState,
    pub record_folder: Option<String>,
    pub schedule: ReconciliationSchedule,
    pub time: LocalReconciliationTime,
    pub last_attempt: Option<UnixTime>,
    pub last_success: Option<UnixTime>,
    pub next_run: Option<UnixTime>,
    pub last_error: Option<String>,
    pub counts: ReconciliationCounts,
    pub state: ReconciliationState,
}

impl View for ReconciliationConfiguration {
    type V = ConfigurationView;

    open spec fn view(&self) -> ConfigurationView {
        ConfigurationView {
            monitoring: self.monitoring,
            record_folder: opt_view(self.record_folder),
            schedule: self.schedule,
            time: self.time,
            last_attempt: opt_time(self.last_attempt),
            last_success: opt_time(self.last_success),
            next_run: opt_time(self.next_run),
            last_error: opt_view(self.last_error),
            counts: self.counts,
            state: self.state,
        }
    }
}

impl ReconciliationConfiguration {
    /// The configuration of a new database: monitoring paused, no Record
    /// Folder, daily at 09:00, nothing run yet.
    pub fn initial() -> (r: Self)
        ensures
            r@ == initial_configuration(),
    {
        ReconciliationConfiguration {
            monitoring: GlobalMonitoringState::Paused,
            record_folder: None,
            schedule: ReconciliationSchedule::Daily,
            time: LocalReconciliationTime { hour: 9, minute: 0 },
            last_attempt: None,
            last_success: None,
            next_run: None,
            last_error: None,
            counts: ReconciliationCounts { imported: 0, duplicates: 0, rejected: 0, failed: 0 },
            state: ReconciliationState::Paused,
        }
    }

    /// Returns a copy with the same content.
    pub fn duplicate(&self) -> (r: Self)
        ensures
            r@ == self@,
    {
        ReconciliationConfiguration {
            monitoring: self.monitoring,
            record_folder: duplicate_opt(&self.record_folder),
            schedule: self.schedule,
            time: self.time,
            last_attempt: self.last_attempt,
            last_success: self.last_success,
            next_run: self.next_run,
            last_error: duplicate_opt(&self.last_error),
            counts: self.counts,
            state: self.state,
        }
    }
}

/// The mathematical content of a [`ManualUpdateStatus`].
pub struct ManualStatusView {
    pub last_attempt: Option<int>,
    pub last_success: Option<int>,
    pub last_error: Option<Seq<char>>,
    pub counts: ReconciliationCounts,
    pub state: ReconciliationState,
}

/// The status of the most recent manual Update Record run.
#[derive(Clone, Debug, Eq, PartialEq)]
pub struct ManualUpdateStatus {
    pub last_attempt: Option<UnixTime>,
    pub last_success: Option<UnixTime>,
    pub last_error: Option<String>,
    pub counts: ReconciliationCounts,
    pub state: ReconciliationState,
}

impl View for ManualUpdateStatus {
    type V = ManualStatusView;

    open spec fn view(&self) -> ManualStatusView {
        ManualStatusView {
            last_attempt: opt_time(self.last_attempt),
            last_success: opt_time(self.last_success),
            last_error: opt_view(self.last_error),
            counts: self.counts,
            state: self.state,
        }
    }
}

impl ManualUpdateStatus {
    /// The status before any manual run.
    pub fn initial() -> (r: Self)
        ensures
            r@ == initial_manual_status(),
    {
        ManualUpdateStatus {
            last_attempt: None,
            last_success: None,
            last_error: None,
            counts: ReconciliationCounts { imported: 0, duplicates: 0, rejected: 0, failed: 0 },
            state: ReconciliationState::Idle,
        }
    }

    /// Returns a copy with the same content.
    pub fn duplicate(&self) -> (r: Self)
        ensures
            r@ == self@,
    {
        ManualUpdateStatus {
            last_attempt: self.last_attempt,
            last_success: self.last_success,
            last_error: duplicate_opt(&self.last_error),
            counts: self.counts,
            state: self.state,
        }
    }
}

/// The mathematical content of a [`ScheduledReconciliationStatus`].
pub struct ScheduledStatusView {
    pub last_attempt: Option<int>,
    pub last_success: Option<int>,
    pub last_error: Option<Seq<char>>,
    pub counts: ReconciliationCounts,
    pub state: ReconciliationState,
    pub last_reconciled_local_date: Option<Seq<char>>,
    pub next_scheduled_run: Option<int>,
}

/// The status of scheduled daily reconciliation.
#[derive(Clone, Debug, Eq, PartialEq)]
pub struct ScheduledReconciliationStatus {
    pub last_attempt: Option<UnixTime>,
    pub last_success: Option<UnixTime>,
    pub last_error: Option<String>,
    pub counts: ReconciliationCounts,
    pub state: ReconciliationState,
    pub last_reconciled_local_date: Option<String>,
    pub next_scheduled_run: Option<UnixTime>,
}

impl View for ScheduledReconciliationStatus {
    type V = ScheduledStatusView;

    open spec fn view(&self) -> ScheduledStatusView {
        ScheduledStatusView {
            last_attempt: opt_time(self.last_attempt),
            last_success: opt_time(self.last_success),
            last_error: opt_view(self.last_error),
            counts: self.counts,
            state: self.state,
            last_reconciled_local_date: opt_view(self.last_reconciled_local_date),
            next_scheduled_run: opt_time(self.next_scheduled_run),
        }
    }
}

impl ScheduledReconciliationStatus {
    /// The status before any scheduled run.
    pub fn initial() -> (r: Self)
        ensures
            r@ == initial_scheduled_status(),
    {
        ScheduledReconciliationStatus {
            last_attempt: None,
            last_success: None,
            last_error: None,
            counts: ReconciliationCounts { imported: 0, duplicates: 0, rejected: 0, failed: 0 },
            state: ReconciliationState::Idle,
            last_reconciled_local_date: None,
            next_scheduled_run: None,
        }
    }

    /// Returns a copy with the same content.
    pub fn duplicate(&self) -> (r: Self)
        ensures
            r@ == self@,
    {
        ScheduledReconciliationStatus {
            last_attempt: self.last_attempt,
            last_success: self.last_success,
            last_error: duplicate_opt(&self.last_error),
            counts: self.counts,
            state: self.state,
            last_reconciled_local_date: duplicate_opt(&self.last_reconciled_local_date),
            next_scheduled_run: self.next_scheduled_run,
        }
    }
}

} // verus!
