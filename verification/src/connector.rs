//! Connector contracts for producing events, and factual presentation data.
//!
//! Connector implementations produce immutable events through an
//! [`EventSink`]; the engine owns validation and persistence.

use crate::model::{ConnectorId, Event, EventId, EventKind, UnixTime};
use crate::sorted_map::{has_key, keys_ascending, TextMap};
use crate::text::{push_str, text_lt};
use vstd::prelude::*;

verus! {

/// An opaque, extensible capability declared by a connector.
#[derive(Clone, Debug, Eq, Ord, PartialEq, PartialOrd)]
pub struct ConnectorCapability(String);

impl View for ConnectorCapability {
    type V = Seq<char>;

    closed spec fn view(&self) -> Seq<char> {
        self.0@
    }
}

impl ConnectorCapability {
    /// Creates a capability identifier without assigning it engine semantics.
    pub fn new(value: &str) -> (r: Self)
        ensures
            r@ == value@,
    {
        ConnectorCapability(value.to_owned())
    }

    /// Returns the declared capability identifier.
    pub fn as_str(&self) -> (r: &str)
        ensures
            r@ == self@,
    {
        self.0.as_str()
    }
}

/// Whether the names of `s` strictly ascend.
pub open spec fn names_ascending(s: Seq<Seq<char>>) -> bool {
    forall|i: int, j: int| 0 <= i < j < s.len() ==> text_lt(#[trigger] s[i], #[trigger] s[j])
}

/// The keys of a sequence of text entries.
pub open spec fn keys_of(s: Seq<(Seq<char>, Seq<char>)>) -> Seq<Seq<char>> {
    s.map_values(|e: (Seq<char>, Seq<char>)| e.0)
}

proof fn lemma_has_key_contains(s: Seq<(Seq<char>, Seq<char>)>, k: Seq<char>)
    ensures
        has_key(s, k) <==> keys_of(s).contains(k),
{
    if has_key(s, k) {
        let i = choose|i: int| 0 <= i < s.len() && (#[trigger] s[i]).0 == k;
        assert(keys_of(s)[i] == k);
    }
    if keys_of(s).contains(k) {
        let i = choose|i: int| 0 <= i < keys_of(s).len() && keys_of(s)[i] == k;
        assert(s[i].0 == k);
    }
}

/// The ordered capabilities declared by a connector.
#[derive(Clone, Debug, Default, Eq, PartialEq)]
pub struct ConnectorCapabilities {
    names: TextMap,
}

impl View for ConnectorCapabilities {
    type V = Seq<Seq<char>>;

    closed spec fn view(&self) -> Seq<Seq<char>> {
        keys_of(self.names@)
    }
}

impl ConnectorCapabilities {
    /// Creates a deterministic capability set: each declared capability once,
    /// in ascending order.
    pub fn new(capabilities: Vec<ConnectorCapability>) -> (r: Self)
        ensures
            names_ascending(r@),
            forall|c: Seq<char>|
                r@.contains(c) <==> exists|i: int|
                    0 <= i < capabilities@.len() && (#[trigger] capabilities@[i])@ == c,
    {
        let mut names = TextMap::new();
        let mut i: usize = 0;
        while i < capabilities.len()
            invariant
                i <= capabilities@.len(),
                keys_ascending(names@),
                forall|c: Seq<char>|
                    has_key(names@, c) <==> exists|j: int|
                        0 <= j < i && (#[trigger] capabilities@[j])@ == c,
            decreases capabilities.len() - i,
        {
            let name = capabilities[i].as_str().to_owned();
            let _ = names.insert(name, String::new());
            proof {
                assert forall|c: Seq<char>| has_key(names@, c) <==> exists|j: int|
                    0 <= j < i + 1 && (#[trigger] capabilities@[j])@ == c by {
                    if exists|j: int| 0 <= j < i + 1 && (#[trigger] capabilities@[j])@ == c {
                        let j = choose|j: int| 0 <= j < i + 1 && (#[trigger] capabilities@[j])@ == c;
                        if j < i {
                            assert(exists|j2: int| 0 <= j2 < i && (#[trigger] capabilities@[j2])@ == c);
                        }
                    }
                    if has_key(names@, c) && c != capabilities@[i as int]@ {
                        let j = choose|j: int| 0 <= j < i && (#[trigger] capabilities@[j])@ == c;
                        assert(0 <= j < i + 1 && capabilities@[j]@ == c);
                    }
                }
            }
            i = i + 1;
        }
        let r = ConnectorCapabilities { names };
        proof {
            assert forall|c: Seq<char>| r@.contains(c) <==> has_key(names@, c) by {
                lemma_has_key_contains(names@, c);
            }
            assert forall|a: int, b: int| 0 <= a < b < r@.len() implies text_lt(
                #[trigger] r@[a],
                #[trigger] r@[b],
            ) by {
                assert(r@[a] == names@[a].0);
                assert(r@[b] == names@[b].0);
            }
        }
        r
    }

    /// Returns whether this set includes a capability.
    pub fn contains(&self, capability: &ConnectorCapability) -> (r: bool)
        ensures
            r == self@.contains(capability@),
    {
        proof {
            lemma_has_key_contains(self.names@, capability@);
        }
        self.names.get(capability.as_str()).is_some()
    }

    /// Returns the number of capabilities.
    pub fn len(&self) -> (r: usize)
        ensures
            r == self@.len(),
    {
        self.names.len()
    }

    /// Returns the capability at a position in ascending order.
    pub fn get(&self, index: usize) -> (r: ConnectorCapability)
        requires
            index < self@.len(),
        ensures
            r@ == self@[index as int],
    {
        ConnectorCapability(self.names.key_at(index).clone())
    }

    /// Whether both sets declare the same capabilities.
    pub fn same_as(&self, other: &Self) -> (r: bool)
        ensures
            r == (self@ == other@),
    {
        if self.names.len() != other.names.len() {
            assert(self@.len() != other@.len());
            return false;
        }
        let mut i: usize = 0;
        while i < self.names.len()
            invariant
                i <= self@.len(),
                self@.len() == other@.len(),
                self@.len() == self.names@.len(),
                forall|j: int| 0 <= j < i ==> self@[j] == other@[j],
            decreases self.names@.len() - i,
        {
            assert(self@[i as int] == self.names@[i as int].0);
            assert(other@[i as int] == other.names@[i as int].0);
            if !crate::text::str_eq(self.names.key_at(i).as_str(), other.names.key_at(i).as_str()) {
                return false;
            }
            i = i + 1;
        }
        assert(self@ =~= other@);
        true
    }

    /// Returns a copy declaring the same capabilities.
    pub fn duplicate(&self) -> (r: Self)
        ensures
            r@ == self@,
    {
        ConnectorCapabilities { names: self.names.duplicate() }
    }
}

/// The mathematical content of a [`ConnectorDescriptor`].
pub struct DescriptorView {
    pub id: Seq<char>,
    pub capabilities: Seq<Seq<char>>,
}

/// Immutable metadata used to register and identify a connector.
#[derive(Clone, Debug, Eq, PartialEq)]
pub struct ConnectorDescriptor {
    id: ConnectorId,
    capabilities: ConnectorCapabilities,
}

impl View for ConnectorDescriptor {
    type V = DescriptorView;

    closed spec fn view(&self) -> DescriptorView {
        DescriptorView { id: self.id@, capabilities: self.capabilities@ }
    }
}

impl ConnectorDescriptor {
    /// Creates connector registration metadata.
    pub fn new(id: ConnectorId, capabilities: ConnectorCapabilities) -> (r: Self)
        ensures
            r@ == (DescriptorView { id: id@, capabilities: capabilities@ }),
    {
        ConnectorDescriptor { id, capabilities }
    }

    /// Returns the connector's stable identifier.
    pub fn id(&self) -> (r: &ConnectorId)
        ensures
            r@ == self@.id,
    {
        &self.id
    }

    /// Returns the capabilities declared at registration.
    pub fn capabilities(&self) -> (r: &ConnectorCapabilities)
        ensures
            r@ == self@.capabilities,
    {
        &self.capabilities
    }

    /// Whether both descriptors hold the same identifier and capabilities.
    pub fn same_as(&self, other: &Self) -> (r: bool)
        ensures
            r == (self@ == other@),
    {
        self.id.same_as(&other.id) && self.capabilities.same_as(&other.capabilities)
    }

    /// Returns a copy with the same content.
    pub fn duplicate(&self) -> (r: Self)
        ensures
            r@ == self@,
    {
        ConnectorDescriptor { id: self.id.duplicate(), capabilities: self.capabilities.duplicate() }
    }
}

/// The descriptor registered under `id` in `descriptors`, if any.
pub open spec fn registered_under(descriptors: Seq<DescriptorView>, id: Seq<char>) -> Option<
    DescriptorView,
> {
    if exists|i: int| 0 <= i < descriptors.len() && (#[trigger] descriptors[i]).id == id {
        Some(descriptors[choose|i: int| 0 <= i < descriptors.len() && (#[trigger] descriptors[i]).id == id])
    } else {
        None
    }
}

/// Whether no two descriptors share an identifier.
pub open spec fn ids_distinct(descriptors: Seq<DescriptorView>) -> bool {
    forall|i: int, j: int|
        0 <= i < descriptors.len() && 0 <= j < descriptors.len() && i != j ==> (
        #[trigger] descriptors[i]).id != (#[trigger] descriptors[j]).id
}

/// Registry of connector descriptors. It does not own connector instances.
#[derive(Debug, Default)]
pub struct ConnectorRegistry {
    descriptors: Vec<ConnectorDescriptor>,
}

impl View for ConnectorRegistry {
    type V = Seq<DescriptorView>;

    closed spec fn view(&self) -> Seq<DescriptorView> {
        self.descriptors@.map_values(|d: ConnectorDescriptor| d@)
    }
}

impl ConnectorRegistry {
    #[verifier::type_invariant]
    closed spec fn distinct(&self) -> bool {
        ids_distinct(self@)
    }

    /// Creates an empty registry.
    pub fn new() -> (r: Self)
        ensures
            r@ == Seq::<DescriptorView>::empty(),
    {
        let r = ConnectorRegistry { descriptors: Vec::new() };
        assert(r@ =~= Seq::<DescriptorView>::empty());
        r
    }

    fn find(&self, id: &ConnectorId) -> (r: Option<usize>)
        ensures
            match r {
                Some(i) => i < self@.len() && self@[i as int].id == id@,
                None => forall|i: int| 0 <= i < self@.len() ==> (#[trigger] self@[i]).id != id@,
            },
    {
        let mut i: usize = 0;
        while i < self.descriptors.len()
            invariant
                i <= self@.len(),
                self@.len() == self.descriptors@.len(),
                forall|j: int| 0 <= j < i ==> (#[trigger] self@[j]).id != id@,
            decreases self.descriptors.len() - i,
        {
            if self.descriptors[i].id().same_as(id) {
                return Some(i);
            }
            i = i + 1;
        }
        None
    }

    /// Registers a descriptor once. Existing registrations are not overwritten.
    pub fn register(&mut self, descriptor: ConnectorDescriptor) -> (r: Result<(), RegistrationError>)
        ensures
            final(self)@ == registration_step(old(self)@, descriptor@),
            forall|other: Seq<char>|
                other != descriptor@.id ==> #[trigger] registered_under(final(self)@, other)
                    == registered_under(old(self)@, other),
            match r {
                Ok(()) => {
                    &&& registered_under(old(self)@, descriptor@.id) is None
                    &&& final(self)@ == old(self)@.push(descriptor@)
                    &&& registered_under(final(self)@, descriptor@.id) == Some(descriptor@)
                },
                Err(RegistrationError::DuplicateConnectorId(id)) => {
                    &&& id@ == descriptor@.id
                    &&& registered_under(old(self)@, descriptor@.id) is Some
                    &&& final(self)@ == old(self)@
                },
            },
    {
        proof {
            use_type_invariant(&*self);
        }
        match self.find(descriptor.id()) {
            Some(i) => {
                assert(self@[i as int].id == descriptor@.id);
                Err(RegistrationError::DuplicateConnectorId(descriptor.id().duplicate()))
            },
            None => {
                let ghost before = self@;
                let mut taken = ConnectorRegistry::new();
                std::mem::swap(self, &mut taken);
                let ConnectorRegistry { mut descriptors } = taken;
                descriptors.push(descriptor);
                proof {
                    let after = descriptors@.map_values(|d: ConnectorDescriptor| d@);
                    assert(after =~= before.push(descriptor@));
                    assert forall|a: int, b: int|
                        0 <= a < after.len() && 0 <= b < after.len() && a != b implies (
                        #[trigger] after[a]).id != (#[trigger] after[b]).id by {
                        if a < before.len() && b < before.len() {
                            assert(after[a] == before[a]);
                            assert(after[b] == before[b]);
                        }
                    }
                }
                *self = ConnectorRegistry { descriptors };
                proof {
                    law_registration_read_back(before, descriptor@, descriptor@.id);
                    assert forall|other: Seq<char>| other != descriptor@.id implies #[trigger] registered_under(
                        self@,
                        other,
                    ) == registered_under(before, other) by {
                        law_registration_read_back(before, descriptor@, other);
                    }
                }
                Ok(())
            },
        }
    }

    /// Returns a descriptor by connector identifier.
    pub fn get(&self, id: &ConnectorId) -> (r: Option<&ConnectorDescriptor>)
        ensures
            match r {
                Some(d) => registered_under(self@, id@) == Some(d@),
                None => registered_under(self@, id@) is None,
            },
    {
        proof {
            use_type_invariant(self);
        }
        match self.find(id) {
            Some(i) => {
                proof {
                    let c = choose|c: int| 0 <= c < self@.len() && (#[trigger] self@[c]).id == id@;
                    assert(c == i as int);
                }
                Some(&self.descriptors[i])
            },
            None => None,
        }
    }
}

/// What registering `descriptor` does to the registered descriptors `held`:
/// it is added unless its identifier is already registered.
pub open spec fn registration_step(held: Seq<DescriptorView>, descriptor: DescriptorView) -> Seq<
    DescriptorView,
> {
    if registered_under(held, descriptor.id) is None {
        held.push(descriptor)
    } else {
        held
    }
}

/// What registering `descriptors` in order, from an empty registry, holds:
/// each registration is one `registration_step`, as `register` makes it.
pub open spec fn registrations(descriptors: Seq<DescriptorView>) -> Seq<DescriptorView>
    decreases descriptors.len(),
{
    if descriptors.len() == 0 {
        Seq::empty()
    } else {
        registration_step(registrations(descriptors.drop_last()), descriptors.last())
    }
}

/// Registering one more descriptor in a registry that holds what
/// registering `descriptors` in order holds gives what registering all of
/// them in order holds; so a registry built by `register` calls from an
/// empty one holds `registrations` of the descriptors registered.
pub proof fn law_registration_extends(descriptors: Seq<DescriptorView>, descriptor: DescriptorView)
    ensures
        registration_step(registrations(descriptors), descriptor) == registrations(
            descriptors.push(descriptor),
        ),
{
    assert(descriptors.push(descriptor).drop_last() =~= descriptors);
}

/// The first of `descriptors` with identifier `id`, if any.
pub open spec fn first_with(descriptors: Seq<DescriptorView>, id: Seq<char>) -> Option<DescriptorView>
    decreases descriptors.len(),
{
    if descriptors.len() == 0 {
        None
    } else {
        match first_with(descriptors.drop_last(), id) {
            Some(d) => Some(d),
            None => if descriptors.last().id == id {
                Some(descriptors.last())
            } else {
                None
            },
        }
    }
}

/// After any sequence of registrations, looking up an identifier gives the
/// first descriptor registered under it, or none when none was: a
/// registration never overwrites an earlier one.
pub proof fn law_first_registration_wins(descriptors: Seq<DescriptorView>, id: Seq<char>)
    ensures
        ids_distinct(registrations(descriptors)),
        registered_under(registrations(descriptors), id) == first_with(descriptors, id),
    decreases descriptors.len(),
{
    if descriptors.len() > 0 {
        let d = descriptors.drop_last();
        let last = descriptors.last();
        let held = registrations(d);
        law_first_registration_wins(d, id);
        law_first_registration_wins(d, last.id);
        if registered_under(held, last.id) is None {
            assert forall|i: int| 0 <= i < held.len() implies (#[trigger] held[i]).id != last.id by {
                if held[i].id == last.id {
                    assert(exists|j: int| 0 <= j < held.len() && (#[trigger] held[j]).id == last.id);
                }
            }
            let after = held.push(last);
            assert forall|a: int, b: int|
                0 <= a < after.len() && 0 <= b < after.len() && a != b implies (
                #[trigger] after[a]).id != (#[trigger] after[b]).id by {
                if a < held.len() && b < held.len() {
                    assert(after[a] == held[a] && after[b] == held[b]);
                } else if a < held.len() {
                    assert(after[a] == held[a]);
                } else {
                    assert(after[b] == held[b]);
                }
            }
            law_registration_read_back(held, last, id);
        }
    }
}

/// Registering a descriptor and then looking up its identifier gives back
/// that descriptor, and other registrations are unaffected.
pub proof fn law_registration_read_back(
    before: Seq<DescriptorView>,
    descriptor: DescriptorView,
    other: Seq<char>,
)
    requires
        ids_distinct(before),
        registered_under(before, descriptor.id) is None,
    ensures
        registered_under(before.push(descriptor), descriptor.id) == Some(descriptor),
        other != descriptor.id ==> registered_under(before.push(descriptor), other)
            == registered_under(before, other),
{
    let after = before.push(descriptor);
    assert(after[before.len() as int].id == descriptor.id);
    let c = choose|c: int| 0 <= c < after.len() && (#[trigger] after[c]).id == descriptor.id;
    if c < before.len() {
        assert(before[c].id == descriptor.id);
    }
    if other != descriptor.id {
        if exists|i: int| 0 <= i < after.len() && (#[trigger] after[i]).id == other {
            let i = choose|i: int| 0 <= i < after.len() && (#[trigger] after[i]).id == other;
            assert(i < before.len());
            assert(before[i].id == other);
            let c1 = choose|c: int| 0 <= c < before.len() && (#[trigger] before[c]).id == other;
            if c1 != i {
                assert(before[i].id != before[c1].id);
            }
            assert(after[i] == before[c1]);
        } else {
            if exists|i: int| 0 <= i < before.len() && (#[trigger] before[i]).id == other {
                let i = choose|i: int| 0 <= i < before.len() && (#[trigger] before[i]).id == other;
                assert(after[i].id == other);
            }
        }
    }
}

/// A producer of immutable source events. Connectors present their events
/// through a separate [`EventPresenter`].
///
/// A connector that declares `obeys_connector_laws` reports the descriptor
/// given by `described_by`; one that does not is promised nothing.
pub trait Connector {
    /// Whether this connector follows its declared specification.
    open spec fn obeys_connector_laws(&self) -> bool {
        false
    }

    /// The descriptor this connector reports.
    open spec fn described_by(&self) -> DescriptorView {
        DescriptorView { id: Seq::empty(), capabilities: Seq::empty() }
    }

    /// Returns immutable registration metadata for this connector.
    fn descriptor(&self) -> (r: &ConnectorDescriptor)
        ensures
            self.obeys_connector_laws() ==> r@ == self.described_by(),
    ;

    /// Produces events through the supplied engine-owned sink.
    fn collect<S: EventSink>(&mut self, sink: &mut S) -> Result<(), ConnectorError>;
}

/// An engine-owned destination for events emitted by one connector run.
///
/// A sink that declares `obeys_sink_laws` keeps in `offered` every event
/// handed to it, in order; one that does not is promised nothing.
pub trait EventSink {
    /// Whether this sink follows its declared specification.
    open spec fn obeys_sink_laws(&self) -> bool {
        false
    }

    /// The events handed to this sink so far, in order.
    open spec fn offered(&self) -> Seq<crate::model::EventView> {
        Seq::empty()
    }

    /// The answers this sink has given so far, in order.
    open spec fn answered(&self) -> Seq<Result<(), EventAcceptanceError>> {
        Seq::empty()
    }

    /// Accepts an immutable event for validation and append-only persistence.
    fn accept(&mut self, event: Event) -> (r: Result<(), EventAcceptanceError>)
        ensures
            old(self).obeys_sink_laws() ==> final(self).obeys_sink_laws() && final(self).offered()
                == old(self).offered().push(event@) && final(self).answered()
                == old(self).answered().push(r),
    ;
}

/// A connector plug-in for discovery and approved-connection creation.
///
/// Discovery returns operational candidates only; it must not emit evidence.
///
/// An extension that declares `obeys_extension_laws` reports the descriptor
/// given by `extension_descriptor` and its identifier, and opens connections
/// as `opens` says, each of them a connector that follows its own laws and
/// reports that descriptor; one that does not is promised nothing.
pub trait ConnectorExtension {
    /// Whether this extension follows its declared specification.
    open spec fn obeys_extension_laws(&self) -> bool {
        false
    }

    /// The descriptor of the connectors this extension opens.
    open spec fn extension_descriptor(&self) -> DescriptorView {
        DescriptorView { id: Seq::empty(), capabilities: Seq::empty() }
    }

    /// Whether `outcome` is what opening a connection with `configuration`
    /// can give.
    open spec fn opens(&self, configuration: Seq<char>, outcome: Result<Self::Connection, ExtensionError>) -> bool {
        true
    }

    /// The stable connector provenance handled by this extension.
    fn connector_id(&self) -> (r: &ConnectorId)
        ensures
            self.obeys_extension_laws() ==> r@ == self.extension_descriptor().id,
    ;

    /// Immutable descriptor used when an approved connector is run.
    fn descriptor(&self) -> (r: ConnectorDescriptor)
        ensures
            self.obeys_extension_laws() ==> r@ == self.extension_descriptor(),
    ;

    /// Discovers source candidates below explicit host-provided scan roots.
    fn discover(&self, roots: &[String]) -> Result<Vec<DiscoveredSourceCandidate>, ExtensionError>;

    /// The collector that an approved connection opens.
    type Connection: Connector;

    /// Creates a collector from connector-owned opaque approved configuration.
    fn open_connection(&self, configuration: &str) -> (r: Result<Self::Connection, ExtensionError>)
        ensures
            self.obeys_extension_laws() ==> self.opens(configuration@, r),
            self.obeys_extension_laws() ==> (r matches Ok(c) ==> c.obeys_connector_laws()
                && c.described_by() == self.extension_descriptor()),
    ;
}

/// The mathematical content of a [`DiscoveredSourceCandidate`].
pub struct CandidateView {
    pub connector_id: Seq<char>,
    pub source_identity: Seq<char>,
    pub display_name: Seq<char>,
    pub local_reference: Option<Seq<char>>,
    pub metadata: Seq<(Seq<char>, Seq<char>)>,
    pub configuration: Seq<char>,
}

/// The view of an optional string.
pub open spec fn opt_view(s: Option<String>) -> Option<Seq<char>> {
    match s {
        Some(v) => Some(v@),
        None => None,
    }
}

/// A connector-owned operational candidate awaiting user consent.
#[derive(Clone, Debug, Eq, PartialEq)]
pub struct DiscoveredSourceCandidate {
    connector_id: ConnectorId,
    source_identity: String,
    display_name: String,
    local_reference: Option<String>,
    metadata: TextMap,
    configuration: String,
}

impl View for DiscoveredSourceCandidate {
    type V = CandidateView;

    closed spec fn view(&self) -> CandidateView {
        CandidateView {
            connector_id: self.connector_id@,
            source_identity: self.source_identity@,
            display_name: self.display_name@,
            local_reference: opt_view(self.local_reference),
            metadata: self.metadata@,
            configuration: self.configuration@,
        }
    }
}

impl DiscoveredSourceCandidate {
    /// Creates an opaque source candidate without evidence collection.
    pub fn new(
        connector_id: ConnectorId,
        source_identity: &str,
        display_name: &str,
        local_reference: Option<String>,
        metadata: TextMap,
        configuration: &str,
    ) -> (r: Self)
        ensures
            r@ == (CandidateView {
                connector_id: connector_id@,
                source_identity: source_identity@,
                display_name: display_name@,
                local_reference: opt_view(local_reference),
                metadata: metadata@,
                configuration: configuration@,
            }),
    {
        DiscoveredSourceCandidate {
            connector_id,
            source_identity: source_identity.to_owned(),
            display_name: display_name.to_owned(),
            local_reference,
            metadata,
            configuration: configuration.to_owned(),
        }
    }

    /// Returns the connector that discovered this candidate.
    pub fn connector_id(&self) -> (r: &ConnectorId)
        ensures
            r@ == self@.connector_id,
    {
        &self.connector_id
    }

    /// Returns the connector-owned stable identity of the source.
    pub fn source_identity(&self) -> (r: &str)
        ensures
            r@ == self@.source_identity,
    {
        self.source_identity.as_str()
    }

    /// Returns the name shown to a person deciding on consent.
    pub fn display_name(&self) -> (r: &str)
        ensures
            r@ == self@.display_name,
    {
        self.display_name.as_str()
    }

    /// Returns the local reference to the source, if any.
    pub fn local_reference(&self) -> (r: Option<&str>)
        ensures
            match r {
                Some(s) => self@.local_reference == Some(s@),
                None => self@.local_reference is None,
            },
    {
        match &self.local_reference {
            Some(s) => Some(s.as_str()),
            None => None,
        }
    }

    /// Returns the connector-owned descriptive metadata.
    pub fn metadata(&self) -> (r: &TextMap)
        ensures
            r@ == self@.metadata,
    {
        &self.metadata
    }

    /// Returns the connector-owned opaque configuration for an approved connection.
    pub fn configuration(&self) -> (r: &str)
        ensures
            r@ == self@.configuration,
    {
        self.configuration.as_str()
    }
}

/// A failure from connector-owned discovery or approved-connection opening.
#[derive(Debug)]
pub enum ExtensionError {
    /// A scan root could not be inspected.
    InaccessibleScanRoot { path: String, message: String },
    /// Source-specific discovery failed.
    DiscoveryFailed { message: String },
    /// Approved configuration could not create a collector.
    ConnectionFailed { message: String },
}

/// The outcome of a compact presentation, by its view.
pub open spec fn compact_outcome(r: Result<CompactPresentation, PresentationError>) -> Result<
    CompactView,
    PresentationError,
> {
    match r {
        Ok(p) => Ok(p@),
        Err(e) => Err(e),
    }
}

/// The outcome of a detailed presentation, by its view.
pub open spec fn detailed_outcome(r: Result<DetailedPresentation, PresentationError>) -> Result<
    DetailedView,
    PresentationError,
> {
    match r {
        Ok(p) => Ok(p@),
        Err(e) => Err(e),
    }
}

/// Connector-owned factual presentation for one connector's events.
///
/// A presenter that declares `obeys_presenter_laws` reports the connector
/// given by `presented_connector` and presents as `presents_compact` and
/// `presents_detailed` say; one that does not is promised nothing.
pub trait EventPresenter {
    /// Whether this presenter follows its declared specification.
    open spec fn obeys_presenter_laws(&self) -> bool {
        false
    }

    /// The connector provenance this presenter owns.
    open spec fn presented_connector(&self) -> Seq<char> {
        Seq::empty()
    }

    /// Whether `outcome` is a compact presentation this presenter can give
    /// of an event.
    open spec fn presents_compact(
        &self,
        event: crate::model::EventView,
        outcome: Result<CompactView, PresentationError>,
    ) -> bool {
        true
    }

    /// Whether `outcome` is a detailed presentation this presenter can give
    /// of an event.
    open spec fn presents_detailed(
        &self,
        event: crate::model::EventView,
        outcome: Result<DetailedView, PresentationError>,
    ) -> bool {
        true
    }

    /// Returns the connector provenance this presenter owns.
    fn connector_id(&self) -> (r: &ConnectorId)
        ensures
            self.obeys_presenter_laws() ==> r@ == self.presented_connector(),
    ;

    /// Produces compact factual data for a timeline or list.
    fn present_compact(&self, event: &Event) -> (r: Result<CompactPresentation, PresentationError>)
        ensures
            self.obeys_presenter_laws() ==> self.presents_compact(event@, compact_outcome(r)),
    ;

    /// Produces detailed factual data for inspecting one event.
    fn present_detailed(&self, event: &Event) -> (r: Result<DetailedPresentation, PresentationError>)
        ensures
            self.obeys_presenter_laws() ==> self.presents_detailed(event@, detailed_outcome(r)),
    ;
}

/// The mathematical content of a [`PresentationField`].
pub struct FieldView {
    pub label: Seq<char>,
    pub value: Seq<char>,
}

/// A labeled factual value in a connector-defined order.
#[derive(Clone, Debug, Eq, PartialEq)]
pub struct PresentationField {
    label: String,
    value: String,
}

impl View for PresentationField {
    type V = FieldView;

    closed spec fn view(&self) -> FieldView {
        FieldView { label: self.label@, value: self.value@ }
    }
}

/// The views of a sequence of fields.
pub open spec fn fields_view(fields: Seq<PresentationField>) -> Seq<FieldView> {
    fields.map_values(|f: PresentationField| f@)
}

impl PresentationField {
    /// Creates one factual presentation field.
    pub fn new(label: &str, value: &str) -> (r: Self)
        ensures
            r@ == (FieldView { label: label@, value: value@ }),
    {
        PresentationField { label: label.to_owned(), value: value.to_owned() }
    }

    /// Creates one factual presentation field that owns its text.
    pub fn from_strings(label: String, value: String) -> (r: Self)
        ensures
            r@ == (FieldView { label: label@, value: value@ }),
    {
        PresentationField { label, value }
    }

    /// Returns the factual label.
    pub fn label(&self) -> (r: &str)
        ensures
            r@ == self@.label,
    {
        self.label.as_str()
    }

    /// Returns the factual value.
    pub fn value(&self) -> (r: &str)
        ensures
            r@ == self@.value,
    {
        self.value.as_str()
    }

    /// Returns a copy with the same label and value.
    pub fn duplicate(&self) -> (r: Self)
        ensures
            r@ == self@,
    {
        PresentationField { label: self.label.clone(), value: self.value.clone() }
    }
}

/// The mathematical content of a [`CompactPresentation`].
pub struct CompactView {
    pub source_label: Seq<char>,
    pub title: Seq<char>,
    pub subtitle: Option<Seq<char>>,
    pub timestamp: int,
    pub identifiers: Seq<FieldView>,
    pub key_fields: Seq<FieldView>,
}

/// Structured compact factual presentation data.
#[derive(Clone, Debug, Eq, PartialEq)]
pub struct CompactPresentation {
    source_label: String,
    title: String,
    subtitle: Option<String>,
    timestamp: UnixTime,
    identifiers: Vec<PresentationField>,
    key_fields: Vec<PresentationField>,
}

impl View for CompactPresentation {
    type V = CompactView;

    closed spec fn view(&self) -> CompactView {
        CompactView {
            source_label: self.source_label@,
            title: self.title@,
            subtitle: opt_view(self.subtitle),
            timestamp: self.timestamp@,
            identifiers: fields_view(self.identifiers@),
            key_fields: fields_view(self.key_fields@),
        }
    }
}

impl CompactPresentation {
    /// Creates compact factual presentation data with deterministic field order.
    pub fn new(
        source_label: &str,
        title: String,
        subtitle: Option<String>,
        timestamp: UnixTime,
        identifiers: Vec<PresentationField>,
        key_fields: Vec<PresentationField>,
    ) -> (r: Self)
        ensures
            r@ == (CompactView {
                source_label: source_label@,
                title: title@,
                subtitle: opt_view(subtitle),
                timestamp: timestamp@,
                identifiers: fields_view(identifiers@),
                key_fields: fields_view(key_fields@),
            }),
    {
        CompactPresentation {
            source_label: source_label.to_owned(),
            title,
            subtitle,
            timestamp,
            identifiers,
            key_fields,
        }
    }

    /// Returns the factual source label.
    pub fn source_label(&self) -> (r: &str)
        ensures
            r@ == self@.source_label,
    {
        self.source_label.as_str()
    }

    /// Returns the factual primary title.
    pub fn title(&self) -> (r: &str)
        ensures
            r@ == self@.title,
    {
        self.title.as_str()
    }

    /// Returns the optional factual secondary line.
    pub fn subtitle(&self) -> (r: Option<&str>)
        ensures
            match r {
                Some(s) => self@.subtitle == Some(s@),
                None => self@.subtitle is None,
            },
    {
        match &self.subtitle {
            Some(s) => Some(s.as_str()),
            None => None,
        }
    }

    /// Returns the event timestamp selected by the connector for display.
    pub fn timestamp(&self) -> (r: UnixTime)
        ensures
            r@ == self@.timestamp,
    {
        self.timestamp
    }

    /// Returns short factual identifiers in connector-defined order.
    pub fn identifiers(&self) -> (r: &Vec<PresentationField>)
        ensures
            fields_view(r@) == self@.identifiers,
    {
        &self.identifiers
    }

    /// Returns small factual key fields in connector-defined order.
    pub fn key_fields(&self) -> (r: &Vec<PresentationField>)
        ensures
            fields_view(r@) == self@.key_fields,
    {
        &self.key_fields
    }
}

/// The mathematical content of a [`RawEvidence`].
pub struct RawEvidenceView {
    pub label: Seq<char>,
    pub media_type: Option<Seq<char>>,
    pub bytes: Seq<u8>,
}

/// Exact evidence that may be rendered only on an explicit raw/debug path.
#[derive(Clone, Debug, Eq, PartialEq)]
pub struct RawEvidence {
    label: String,
    media_type: Option<String>,
    bytes: Vec<u8>,
}

impl View for RawEvidence {
    type V = RawEvidenceView;

    closed spec fn view(&self) -> RawEvidenceView {
        RawEvidenceView { label: self.label@, media_type: opt_view(self.media_type), bytes: self.bytes@ }
    }
}

impl RawEvidence {
    /// Creates a raw evidence section without interpreting its bytes.
    pub fn new(label: &str, media_type: Option<String>, bytes: Vec<u8>) -> (r: Self)
        ensures
            r@ == (RawEvidenceView {
                label: label@,
                media_type: opt_view(media_type),
                bytes: bytes@,
            }),
    {
        RawEvidence { label: label.to_owned(), media_type, bytes }
    }

    /// Returns the raw evidence label.
    pub fn label(&self) -> (r: &str)
        ensures
            r@ == self@.label,
    {
        self.label.as_str()
    }

    /// Returns the source-provided media type, if any.
    pub fn media_type(&self) -> (r: Option<&str>)
        ensures
            match r {
                Some(s) => self@.media_type == Some(s@),
                None => self@.media_type is None,
            },
    {
        match &self.media_type {
            Some(s) => Some(s.as_str()),
            None => None,
        }
    }

    /// Returns exact raw evidence bytes.
    pub fn bytes(&self) -> (r: &Vec<u8>)
        ensures
            r@ == self@.bytes,
    {
        &self.bytes
    }
}

/// The mathematical content of a [`DetailedPresentation`].
pub struct DetailedView {
    pub source_label: Seq<char>,
    pub title: Seq<char>,
    pub timestamp: int,
    pub fields: Seq<FieldView>,
    pub technical_identifiers: Seq<FieldView>,
    pub raw_evidence: Option<RawEvidenceView>,
}

/// The view of optional raw evidence.
pub open spec fn raw_view(r: Option<RawEvidence>) -> Option<RawEvidenceView> {
    match r {
        Some(e) => Some(e@),
        None => None,
    }
}

/// Structured detailed factual presentation data.
#[derive(Clone, Debug, Eq, PartialEq)]
pub struct DetailedPresentation {
    source_label: String,
    title: String,
    timestamp: UnixTime,
    fields: Vec<PresentationField>,
    technical_identifiers: Vec<PresentationField>,
    raw_evidence: Option<RawEvidence>,
}

impl View for DetailedPresentation {
    type V = DetailedView;

    closed spec fn view(&self) -> DetailedView {
        DetailedView {
            source_label: self.source_label@,
            title: self.title@,
            timestamp: self.timestamp@,
            fields: fields_view(self.fields@),
            technical_identifiers: fields_view(self.technical_identifiers@),
            raw_evidence: raw_view(self.raw_evidence),
        }
    }
}

impl DetailedPresentation {
    /// Creates detailed factual presentation data with deterministic field order.
    pub fn new(
        source_label: &str,
        title: String,
        timestamp: UnixTime,
        fields: Vec<PresentationField>,
        technical_identifiers: Vec<PresentationField>,
        raw_evidence: Option<RawEvidence>,
    ) -> (r: Self)
        ensures
            r@ == (DetailedView {
                source_label: source_label@,
                title: title@,
                timestamp: timestamp@,
                fields: fields_view(fields@),
                technical_identifiers: fields_view(technical_identifiers@),
                raw_evidence: raw_view(raw_evidence),
            }),
    {
        DetailedPresentation {
            source_label: source_label.to_owned(),
            title,
            timestamp,
            fields,
            technical_identifiers,
            raw_evidence,
        }
    }

    /// Returns the factual source label.
    pub fn source_label(&self) -> (r: &str)
        ensures
            r@ == self@.source_label,
    {
        self.source_label.as_str()
    }

    /// Returns the factual primary title.
    pub fn title(&self) -> (r: &str)
        ensures
            r@ == self@.title,
    {
        self.title.as_str()
    }

    /// Returns the event timestamp selected by the connector for display.
    pub fn timestamp(&self) -> (r: UnixTime)
        ensures
            r@ == self@.timestamp,
    {
        self.timestamp
    }

    /// Returns ordered factual fields.
    pub fn fields(&self) -> (r: &Vec<PresentationField>)
        ensures
            fields_view(r@) == self@.fields,
    {
        &self.fields
    }

    /// Returns ordered technical identifiers.
    pub fn technical_identifiers(&self) -> (r: &Vec<PresentationField>)
        ensures
            fields_view(r@) == self@.technical_identifiers,
    {
        &self.technical_identifiers
    }

    /// Returns exact raw evidence when the connector exposes it.
    pub fn raw_evidence(&self) -> (r: Option<&RawEvidence>)
        ensures
            match r {
                Some(e) => self@.raw_evidence == Some(e@),
                None => self@.raw_evidence is None,
            },
    {
        match &self.raw_evidence {
            Some(e) => Some(e),
            None => None,
        }
    }
}

impl EventPresenter for Box<dyn EventPresenter> {
    open spec fn obeys_presenter_laws(&self) -> bool {
        (**self).obeys_presenter_laws()
    }

    open spec fn presented_connector(&self) -> Seq<char> {
        (**self).presented_connector()
    }

    open spec fn presents_compact(
        &self,
        event: crate::model::EventView,
        outcome: Result<CompactView, PresentationError>,
    ) -> bool {
        (**self).presents_compact(event, outcome)
    }

    open spec fn presents_detailed(
        &self,
        event: crate::model::EventView,
        outcome: Result<DetailedView, PresentationError>,
    ) -> bool {
        (**self).presents_detailed(event, outcome)
    }

    fn connector_id(&self) -> (r: &ConnectorId) {
        (**self).connector_id()
    }

    fn present_compact(&self, event: &Event) -> (r: Result<CompactPresentation, PresentationError>) {
        (**self).present_compact(event)
    }

    fn present_detailed(&self, event: &Event) -> (r: Result<DetailedPresentation, PresentationError>) {
        (**self).present_detailed(event)
    }
}

/// A provenance router for connector-owned presentation, not a presentation engine.
///
/// Each presenter is routed to by the connector identifier it reported when
/// it was registered.
#[verifier::reject_recursive_types(P)]
pub struct PresentationRegistry<P: EventPresenter> {
    entries: Vec<(ConnectorId, P)>,
}

/// Whether no connector identifier occurs twice.
pub open spec fn connector_ids_distinct(ids: Seq<Seq<char>>) -> bool {
    forall|i: int, j: int|
        0 <= i < ids.len() && 0 <= j < ids.len() && i != j ==> #[trigger] ids[i] != #[trigger] ids[j]
}

impl<P: EventPresenter> View for PresentationRegistry<P> {
    type V = Seq<Seq<char>>;

    /// The connector identifiers that presenters are registered under.
    closed spec fn view(&self) -> Seq<Seq<char>> {
        self.entries@.map_values(|e: (ConnectorId, P)| e.0@)
    }
}

impl<P: EventPresenter> Default for PresentationRegistry<P> {
    /// A registry without presenters.
    fn default() -> (r: Self)
        ensures
            r@ == Seq::<Seq<char>>::empty(),
    {
        PresentationRegistry::new()
    }
}

impl<P: EventPresenter> PresentationRegistry<P> {
    /// The registered presenters, in the order of their identifiers.
    pub closed spec fn presenters(&self) -> Seq<P> {
        self.entries@.map_values(|e: (ConnectorId, P)| e.1)
    }

    #[verifier::type_invariant]
    closed spec fn distinct(&self) -> bool {
        connector_ids_distinct(self@)
    }

    /// Creates a registry without presenters.
    pub fn new() -> (r: Self)
        ensures
            r@ == Seq::<Seq<char>>::empty(),
    {
        let r = PresentationRegistry { entries: Vec::new() };
        assert(r@ =~= Seq::<Seq<char>>::empty());
        r
    }

    fn index_of(&self, id: &ConnectorId) -> (r: Option<usize>)
        ensures
            match r {
                Some(i) => i < self@.len() && self@[i as int] == id@,
                None => !self@.contains(id@),
            },
    {
        let mut i: usize = 0;
        while i < self.entries.len()
            invariant
                i <= self@.len(),
                self@.len() == self.entries@.len(),
                forall|j: int| 0 <= j < i ==> self@[j] != id@,
            decreases self.entries.len() - i,
        {
            if self.entries[i].0.same_as(id) {
                return Some(i);
            }
            i = i + 1;
        }
        None
    }

    /// Registers one connector-owned presenter without overwriting an existing one.
    pub fn register(&mut self, presenter: P) -> (r: Result<(), PresentationError>)
        ensures
            match r {
                Ok(()) => exists|id: Seq<char>|
                    !old(self)@.contains(id) && final(self)@ == old(self)@.push(id)
                        && final(self).presenters() == old(self).presenters().push(presenter),
                Err(PresentationError::DuplicatePresenter(id)) => {
                    &&& old(self)@.contains(id@)
                    &&& final(self)@ == old(self)@
                    &&& final(self).presenters() == old(self).presenters()
                },
                Err(_) => false,
            },
            presenter.obeys_presenter_laws() ==> match r {
                Ok(()) => final(self)@ == old(self)@.push(presenter.presented_connector()),
                Err(PresentationError::DuplicatePresenter(id)) => id@ == presenter.presented_connector(),
                Err(_) => false,
            },
    {
        proof {
            use_type_invariant(&*self);
        }
        let id = presenter.connector_id().duplicate();
        match self.index_of(&id) {
            Some(_) => Err(PresentationError::DuplicatePresenter(id)),
            None => {
                let ghost before = self@;
                let ghost k = id@;
                let mut taken = PresentationRegistry::new();
                std::mem::swap(self, &mut taken);
                proof {
                    use_type_invariant(&taken);
                }
                let PresentationRegistry { mut entries } = taken;
                entries.push((id, presenter));
                proof {
                    let after = entries@.map_values(|e: (ConnectorId, P)| e.0@);
                    assert(after =~= before.push(k));
                    assert forall|a: int, b: int|
                        0 <= a < after.len() && 0 <= b < after.len() && a != b implies #[trigger] after[a]
                        != #[trigger] after[b] by {
                        if a < before.len() && b < before.len() {
                            assert(after[a] == before[a]);
                            assert(after[b] == before[b]);
                        }
                    }
                }
                *self = PresentationRegistry { entries };
                Ok(())
            },
        }
    }

    /// Finds the presenter registered for an event's connector provenance.
    pub fn presenter_for(&self, event: &Event) -> (r: Result<&P, PresentationError>)
        ensures
            match r {
                Ok(p) => exists|i: int|
                    0 <= i < self@.len() && self@[i] == event@.source.connector_id && *p
                        == self.presenters()[i],
                Err(PresentationError::PresenterNotFound(id)) => {
                    &&& id@ == event@.source.connector_id
                    &&& !self@.contains(event@.source.connector_id)
                },
                Err(_) => false,
            },
    {
        proof {
            use_type_invariant(self);
        }
        match self.index_of(event.source().connector_id()) {
            Some(i) => {
                assert(self.presenters()[i as int] == self.entries@[i as int].1);
                Ok(&self.entries[i].1)
            },
            None => Err(PresentationError::PresenterNotFound(event.source().connector_id().duplicate())),
        }
    }

    /// Routes compact presentation to the presenter that owns the event provenance.
    pub fn present_compact(&self, event: &Event) -> (r: Result<CompactPresentation, PresentationError>)
        ensures
            !self@.contains(event@.source.connector_id) ==> (r matches Err(
                PresentationError::PresenterNotFound(id),
            ) && id@ == event@.source.connector_id),
            self@.contains(event@.source.connector_id) ==> exists|i: int|
                0 <= i < self@.len() && self@[i] == event@.source.connector_id && (
                #[trigger] self.presenters()[i].obeys_presenter_laws() ==> self.presenters()[i].presents_compact(
                    event@,
                    compact_outcome(r),
                )),
    {
        let presenter = self.presenter_for(event)?;
        presenter.present_compact(event)
    }

    /// Routes detailed presentation to the presenter that owns the event provenance.
    pub fn present_detailed(&self, event: &Event) -> (r: Result<DetailedPresentation, PresentationError>)
        ensures
            !self@.contains(event@.source.connector_id) ==> (r matches Err(
                PresentationError::PresenterNotFound(id),
            ) && id@ == event@.source.connector_id),
            self@.contains(event@.source.connector_id) ==> exists|i: int|
                0 <= i < self@.len() && self@[i] == event@.source.connector_id && (
                #[trigger] self.presenters()[i].obeys_presenter_laws() ==> self.presenters()[i].presents_detailed(
                    event@,
                    detailed_outcome(r),
                )),
    {
        let presenter = self.presenter_for(event)?;
        presenter.present_detailed(event)
    }
}

/// A connector-reported failure.
#[derive(Debug)]
pub enum ConnectorError {
    /// The connector could not collect source evidence.
    CollectionFailed { message: String },
    /// The engine rejected an event emitted by the connector.
    EventRejected(EventAcceptanceError),
}

impl ConnectorError {
    /// Creates a collection failure without exposing source-specific error types.
    pub fn collection_failed(message: &str) -> (r: Self)
        ensures
            r matches ConnectorError::CollectionFailed { message: m } && m@ == message@,
    {
        ConnectorError::CollectionFailed { message: message.to_owned() }
    }
}

/// An error returned when the engine cannot accept a connector-produced event.
#[derive(Debug)]
pub enum EventAcceptanceError {
    /// The event provenance does not match the connector run that emitted it.
    ConnectorIdentityMismatch {
        /// The registered and running connector identifier.
        expected: ConnectorId,
        /// The connector identifier recorded in the event provenance.
        actual: ConnectorId,
    },
    /// An event with this stable identifier was already preserved.
    DuplicateEventId(EventId),
    /// Append-only persistence rejected the event.
    Persistence { message: String },
}

/// Errors from connector-owned factual presentation.
#[derive(Debug)]
pub enum PresentationError {
    /// No presenter was registered for the event's connector provenance.
    PresenterNotFound(ConnectorId),
    /// A presenter with this provenance is already registered.
    DuplicatePresenter(ConnectorId),
    /// An event belongs to a different connector.
    ConnectorProvenanceMismatch {
        /// The connector provenance owned by the presenter.
        expected: ConnectorId,
        /// The provenance recorded on the event.
        actual: ConnectorId,
    },
    /// The connector does not present this event kind.
    UnsupportedEventKind(EventKind),
    /// The connector payload cannot be decoded as its factual source format.
    MalformedPayload { detail: String },
    /// A factual field needed for presentation is absent.
    MissingFactualField { field: String },
    /// A factual timestamp cannot be converted for presentation.
    InvalidTimestamp { detail: String },
}

/// A descriptor registration failure.
#[derive(Debug)]
pub enum RegistrationError {
    /// A descriptor with this identifier is already registered.
    DuplicateConnectorId(ConnectorId),
}

/// The message that describes an event acceptance error.
pub open spec fn acceptance_error_text(e: EventAcceptanceError) -> Seq<char> {
    match e {
        EventAcceptanceError::ConnectorIdentityMismatch { expected, actual } => "event connector ID "@
            + actual@ + " does not match running connector "@ + expected@,
        EventAcceptanceError::DuplicateEventId(id) => "duplicate event ID: "@ + id@,
        EventAcceptanceError::Persistence { message } => "persistence failed: "@ + message@,
    }
}

/// The message that describes a connector error.
pub open spec fn connector_error_text(e: ConnectorError) -> Seq<char> {
    match e {
        ConnectorError::CollectionFailed { message } => "collection failed: "@ + message@,
        ConnectorError::EventRejected(error) => "event rejected: "@ + acceptance_error_text(error),
    }
}

/// The message that describes an extension error.
pub open spec fn extension_error_text(e: ExtensionError) -> Seq<char> {
    match e {
        ExtensionError::InaccessibleScanRoot { path, message } => "cannot inspect scan root "@
            + path@ + ": "@ + message@,
        ExtensionError::DiscoveryFailed { message } => "source discovery failed: "@ + message@,
        ExtensionError::ConnectionFailed { message } => "connection failed: "@ + message@,
    }
}

/// The message that describes a presentation error.
pub open spec fn presentation_error_text(e: PresentationError) -> Seq<char> {
    match e {
        PresentationError::PresenterNotFound(id) => "no presenter for connector: "@ + id@,
        PresentationError::DuplicatePresenter(id) => "duplicate presenter: "@ + id@,
        PresentationError::ConnectorProvenanceMismatch { expected, actual } => "event connector "@
            + actual@ + " does not match presenter "@ + expected@,
        PresentationError::UnsupportedEventKind(kind) => "unsupported event kind: "@ + kind@,
        PresentationError::MalformedPayload { detail } => "malformed connector payload: "@ + detail@,
        PresentationError::MissingFactualField { field } => "missing factual field: "@ + field@,
        PresentationError::InvalidTimestamp { detail } => "invalid presentation timestamp: "@
            + detail@,
    }
}

/// The message that describes a registration error.
pub open spec fn registration_error_text(e: RegistrationError) -> Seq<char> {
    match e {
        RegistrationError::DuplicateConnectorId(id) => "duplicate connector ID: "@ + id@,
    }
}

impl EventAcceptanceError {
    /// Appends the description of the error.
    pub fn write_message(&self, s: &mut String)
        ensures
            final(s)@ == old(s)@ + acceptance_error_text(*self),
    {
        match self {
            EventAcceptanceError::ConnectorIdentityMismatch { expected, actual } => {
                push_str(s, "event connector ID ");
                push_str(s, actual.as_str());
                push_str(s, " does not match running connector ");
                push_str(s, expected.as_str());
            },
            EventAcceptanceError::DuplicateEventId(id) => {
                push_str(s, "duplicate event ID: ");
                push_str(s, id.as_str());
            },
            EventAcceptanceError::Persistence { message } => {
                push_str(s, "persistence failed: ");
                push_str(s, message.as_str());
            },
        }
    }

    /// Describes the error for a person.
    pub fn message(&self) -> (r: String)
        ensures
            r@ == acceptance_error_text(*self),
    {
        let mut s = String::new();
        self.write_message(&mut s);
        s
    }
}

impl ConnectorError {
    /// Appends the description of the error.
    pub fn write_message(&self, s: &mut String)
        ensures
            final(s)@ == old(s)@ + connector_error_text(*self),
    {
        match self {
            ConnectorError::CollectionFailed { message } => {
                push_str(s, "collection failed: ");
                push_str(s, message.as_str());
            },
            ConnectorError::EventRejected(error) => {
                push_str(s, "event rejected: ");
                error.write_message(s);
            },
        }
    }

    /// Describes the error for a person.
    pub fn message(&self) -> (r: String)
        ensures
            r@ == connector_error_text(*self),
    {
        let mut s = String::new();
        self.write_message(&mut s);
        s
    }
}

impl ExtensionError {
    /// Describes the error for a person.
    pub fn message(&self) -> (r: String)
        ensures
            r@ == extension_error_text(*self),
    {
        let mut s = String::new();
        match self {
            ExtensionError::InaccessibleScanRoot { path, message } => {
                push_str(&mut s, "cannot inspect scan root ");
                push_str(&mut s, path.as_str());
                push_str(&mut s, ": ");
                push_str(&mut s, message.as_str());
            },
            ExtensionError::DiscoveryFailed { message } => {
                push_str(&mut s, "source discovery failed: ");
                push_str(&mut s, message.as_str());
            },
            ExtensionError::ConnectionFailed { message } => {
                push_str(&mut s, "connection failed: ");
                push_str(&mut s, message.as_str());
            },
        }
        s
    }
}

impl PresentationError {
    /// Describes the error for a person.
    pub fn message(&self) -> (r: String)
        ensures
            r@ == presentation_error_text(*self),
    {
        let mut s = String::new();
        match self {
            PresentationError::PresenterNotFound(id) => {
                push_str(&mut s, "no presenter for connector: ");
                push_str(&mut s, id.as_str());
            },
            PresentationError::DuplicatePresenter(id) => {
                push_str(&mut s, "duplicate presenter: ");
                push_str(&mut s, id.as_str());
            },
            PresentationError::ConnectorProvenanceMismatch { expected, actual } => {
                push_str(&mut s, "event connector ");
                push_str(&mut s, actual.as_str());
                push_str(&mut s, " does not match presenter ");
                push_str(&mut s, expected.as_str());
            },
            PresentationError::UnsupportedEventKind(kind) => {
                push_str(&mut s, "unsupported event kind: ");
                push_str(&mut s, kind.as_str());
            },
            PresentationError::MalformedPayload { detail } => {
                push_str(&mut s, "malformed connector payload: ");
                push_str(&mut s, detail.as_str());
            },
            PresentationError::MissingFactualField { field } => {
                push_str(&mut s, "missing factual field: ");
                push_str(&mut s, field.as_str());
            },
            PresentationError::InvalidTimestamp { detail } => {
                push_str(&mut s, "invalid presentation timestamp: ");
                push_str(&mut s, detail.as_str());
            },
        }
        s
    }
}

impl RegistrationError {
    /// Appends the description of the error.
    pub fn write_message(&self, s: &mut String)
        ensures
            final(s)@ == old(s)@ + registration_error_text(*self),
    {
        match self {
            RegistrationError::DuplicateConnectorId(id) => {
                push_str(s, "duplicate connector ID: ");
                push_str(s, id.as_str());
            },
        }
    }

    /// Describes the error for a person.
    pub fn message(&self) -> (r: String)
        ensures
            r@ == registration_error_text(*self),
    {
        let mut s = String::new();
        self.write_message(&mut s);
        s
    }
}

} // verus!
