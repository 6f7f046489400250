//! Immutable domain types for one preserved observed fact.

use crate::sorted_map::{has_key, keys_ascending, maps_to, TextMap};
use vstd::prelude::*;

verus! {

/// A stable identifier for an event.
#[derive(Clone, Debug, Eq, Ord, PartialEq, PartialOrd)]
pub struct EventId(String);

impl View for EventId {
    type V = Seq<char>;

    closed spec fn view(&self) -> Seq<char> {
        self.0@
    }
}

impl EventId {
    /// Creates a value without imposing a format or validation policy.
    pub fn new(value: &str) -> (r: Self)
        ensures
            r@ == value@,
    {
        EventId(value.to_owned())
    }

    /// Creates a value that takes ownership of `value`.
    pub fn from_string(value: String) -> (r: Self)
        ensures
            r@ == value@,
    {
        EventId(value)
    }

    /// Returns the retained value.
    pub fn as_str(&self) -> (r: &str)
        ensures
            r@ == self@,
    {
        self.0.as_str()
    }

    /// Returns the retained value, giving up this wrapper.
    pub fn into_string(self) -> (r: String)
        ensures
            r@ == self@,
    {
        self.0
    }

    /// Returns a copy holding the same value.
    pub fn duplicate(&self) -> (r: Self)
        ensures
            r@ == self@,
    {
        EventId(self.0.clone())
    }

    /// Whether two values hold the same text.
    pub fn same_as(&self, other: &Self) -> (r: bool)
        ensures
            r == (self@ == other@),
    {
        self.0 == other.0
    }
}

/// A stable identifier for a future first-class context.
///
/// Context assignments use this type rather than a free-form string so a later
/// context model can enforce referential integrity.
#[derive(Clone, Debug, Eq, Ord, PartialEq, PartialOrd)]
pub struct ContextId(String);

impl View for ContextId {
    type V = Seq<char>;

    closed spec fn view(&self) -> Seq<char> {
        self.0@
    }
}

impl ContextId {
    /// Creates a value without imposing a format or validation policy.
    pub fn new(value: &str) -> (r: Self)
        ensures
            r@ == value@,
    {
        ContextId(value.to_owned())
    }

    /// Creates a value that takes ownership of `value`.
    pub fn from_string(value: String) -> (r: Self)
        ensures
            r@ == value@,
    {
        ContextId(value)
    }

    /// Returns the retained value.
    pub fn as_str(&self) -> (r: &str)
        ensures
            r@ == self@,
    {
        self.0.as_str()
    }

    /// Returns the retained value, giving up this wrapper.
    pub fn into_string(self) -> (r: String)
        ensures
            r@ == self@,
    {
        self.0
    }

    /// Returns a copy holding the same value.
    pub fn duplicate(&self) -> (r: Self)
        ensures
            r@ == self@,
    {
        ContextId(self.0.clone())
    }

    /// Whether two values hold the same text.
    pub fn same_as(&self, other: &Self) -> (r: bool)
        ensures
            r == (self@ == other@),
    {
        self.0 == other.0
    }
}

/// The stable identifier of the connector that captured a source record.
#[derive(Clone, Debug, Eq, Ord, PartialEq, PartialOrd)]
pub struct ConnectorId(String);

impl View for ConnectorId {
    type V = Seq<char>;

    closed spec fn view(&self) -> Seq<char> {
        self.0@
    }
}

impl ConnectorId {
    /// Creates a value without imposing a format or validation policy.
    pub fn new(value: &str) -> (r: Self)
        ensures
            r@ == value@,
    {
        ConnectorId(value.to_owned())
    }

    /// Creates a value that takes ownership of `value`.
    pub fn from_string(value: String) -> (r: Self)
        ensures
            r@ == value@,
    {
        ConnectorId(value)
    }

    /// Returns the retained value.
    pub fn as_str(&self) -> (r: &str)
        ensures
            r@ == self@,
    {
        self.0.as_str()
    }

    /// Returns the retained value, giving up this wrapper.
    pub fn into_string(self) -> (r: String)
        ensures
            r@ == self@,
    {
        self.0
    }

    /// Returns a copy holding the same value.
    pub fn duplicate(&self) -> (r: Self)
        ensures
            r@ == self@,
    {
        ConnectorId(self.0.clone())
    }

    /// Whether two values hold the same text.
    pub fn same_as(&self, other: &Self) -> (r: bool)
        ensures
            r == (self@ == other@),
    {
        self.0 == other.0
    }
}

/// An uninterpreted label for the kind of observed event.
#[derive(Clone, Debug, Eq, Ord, PartialEq, PartialOrd)]
pub struct EventKind(String);

impl View for EventKind {
    type V = Seq<char>;

    closed spec fn view(&self) -> Seq<char> {
        self.0@
    }
}

impl EventKind {
    /// Creates a value without imposing a format or validation policy.
    pub fn new(value: &str) -> (r: Self)
        ensures
            r@ == value@,
    {
        EventKind(value.to_owned())
    }

    /// Creates a value that takes ownership of `value`.
    pub fn from_string(value: String) -> (r: Self)
        ensures
            r@ == value@,
    {
        EventKind(value)
    }

    /// Returns the retained value.
    pub fn as_str(&self) -> (r: &str)
        ensures
            r@ == self@,
    {
        self.0.as_str()
    }

    /// Returns the retained value, giving up this wrapper.
    pub fn into_string(self) -> (r: String)
        ensures
            r@ == self@,
    {
        self.0
    }

    /// Returns a copy holding the same value.
    pub fn duplicate(&self) -> (r: Self)
        ensures
            r@ == self@,
    {
        EventKind(self.0.clone())
    }

    /// Whether two values hold the same text.
    pub fn same_as(&self, other: &Self) -> (r: bool)
        ensures
            r == (self@ == other@),
    {
        self.0 == other.0
    }
}

/// An opaque reference to a source record within a connector's domain.
#[derive(Clone, Debug, Eq, Ord, PartialEq, PartialOrd)]
pub struct SourceReference(String);

impl View for SourceReference {
    type V = Seq<char>;

    closed spec fn view(&self) -> Seq<char> {
        self.0@
    }
}

impl SourceReference {
    /// Creates a value without imposing a format or validation policy.
    pub fn new(value: &str) -> (r: Self)
        ensures
            r@ == value@,
    {
        SourceReference(value.to_owned())
    }

    /// Creates a value that takes ownership of `value`.
    pub fn from_string(value: String) -> (r: Self)
        ensures
            r@ == value@,
    {
        SourceReference(value)
    }

    /// Returns the retained value.
    pub fn as_str(&self) -> (r: &str)
        ensures
            r@ == self@,
    {
        self.0.as_str()
    }

    /// Returns the retained value, giving up this wrapper.
    pub fn into_string(self) -> (r: String)
        ensures
            r@ == self@,
    {
        self.0
    }

    /// Returns a copy holding the same value.
    pub fn duplicate(&self) -> (r: Self)
        ensures
            r@ == self@,
    {
        SourceReference(self.0.clone())
    }

    /// Whether two values hold the same text.
    pub fn same_as(&self, other: &Self) -> (r: bool)
        ensures
            r == (self@ == other@),
    {
        self.0 == other.0
    }
}

/// A media type describing an event payload, when the source provides one.
#[derive(Clone, Debug, Eq, Ord, PartialEq, PartialOrd)]
pub struct MediaType(String);

impl View for MediaType {
    type V = Seq<char>;

    closed spec fn view(&self) -> Seq<char> {
        self.0@
    }
}

impl MediaType {
    /// Creates a value without imposing a format or validation policy.
    pub fn new(value: &str) -> (r: Self)
        ensures
            r@ == value@,
    {
        MediaType(value.to_owned())
    }

    /// Creates a value that takes ownership of `value`.
    pub fn from_string(value: String) -> (r: Self)
        ensures
            r@ == value@,
    {
        MediaType(value)
    }

    /// Returns the retained value.
    pub fn as_str(&self) -> (r: &str)
        ensures
            r@ == self@,
    {
        self.0.as_str()
    }

    /// Returns the retained value, giving up this wrapper.
    pub fn into_string(self) -> (r: String)
        ensures
            r@ == self@,
    {
        self.0
    }

    /// Returns a copy holding the same value.
    pub fn duplicate(&self) -> (r: Self)
        ensures
            r@ == self@,
    {
        MediaType(self.0.clone())
    }

    /// Whether two values hold the same text.
    pub fn same_as(&self, other: &Self) -> (r: bool)
        ensures
            r == (self@ == other@),
    {
        self.0 == other.0
    }
}

/// A source-specific metadata key.
#[derive(Clone, Debug, Eq, Ord, PartialEq, PartialOrd)]
pub struct MetadataKey(String);

impl View for MetadataKey {
    type V = Seq<char>;

    closed spec fn view(&self) -> Seq<char> {
        self.0@
    }
}

impl MetadataKey {
    /// Creates a value without imposing a format or validation policy.
    pub fn new(value: &str) -> (r: Self)
        ensures
            r@ == value@,
    {
        MetadataKey(value.to_owned())
    }

    /// Creates a value that takes ownership of `value`.
    pub fn from_string(value: String) -> (r: Self)
        ensures
            r@ == value@,
    {
        MetadataKey(value)
    }

    /// Returns the retained value.
    pub fn as_str(&self) -> (r: &str)
        ensures
            r@ == self@,
    {
        self.0.as_str()
    }

    /// Returns the retained value, giving up this wrapper.
    pub fn into_string(self) -> (r: String)
        ensures
            r@ == self@,
    {
        self.0
    }

    /// Returns a copy holding the same value.
    pub fn duplicate(&self) -> (r: Self)
        ensures
            r@ == self@,
    {
        MetadataKey(self.0.clone())
    }

    /// Whether two values hold the same text.
    pub fn same_as(&self, other: &Self) -> (r: bool)
        ensures
            r == (self@ == other@),
    {
        self.0 == other.0
    }
}

/// A source-specific metadata value retained without interpretation.
#[derive(Clone, Debug, Eq, Ord, PartialEq, PartialOrd)]
pub struct MetadataValue(String);

impl View for MetadataValue {
    type V = Seq<char>;

    closed spec fn view(&self) -> Seq<char> {
        self.0@
    }
}

impl MetadataValue {
    /// Creates a value without imposing a format or validation policy.
    pub fn new(value: &str) -> (r: Self)
        ensures
            r@ == value@,
    {
        MetadataValue(value.to_owned())
    }

    /// Creates a value that takes ownership of `value`.
    pub fn from_string(value: String) -> (r: Self)
        ensures
            r@ == value@,
    {
        MetadataValue(value)
    }

    /// Returns the retained value.
    pub fn as_str(&self) -> (r: &str)
        ensures
            r@ == self@,
    {
        self.0.as_str()
    }

    /// Returns the retained value, giving up this wrapper.
    pub fn into_string(self) -> (r: String)
        ensures
            r@ == self@,
    {
        self.0
    }

    /// Returns a copy holding the same value.
    pub fn duplicate(&self) -> (r: Self)
        ensures
            r@ == self@,
    {
        MetadataValue(self.0.clone())
    }

    /// Whether two values hold the same text.
    pub fn same_as(&self, other: &Self) -> (r: bool)
        ensures
            r == (self@ == other@),
    {
        self.0 == other.0
    }
}

/// The version of the event schema used to create an event.
#[derive(Clone, Debug, Eq, Ord, PartialEq, PartialOrd)]
pub struct SchemaVersion(String);

impl View for SchemaVersion {
    type V = Seq<char>;

    closed spec fn view(&self) -> Seq<char> {
        self.0@
    }
}

impl SchemaVersion {
    /// Creates a value without imposing a format or validation policy.
    pub fn new(value: &str) -> (r: Self)
        ensures
            r@ == value@,
    {
        SchemaVersion(value.to_owned())
    }

    /// Creates a value that takes ownership of `value`.
    pub fn from_string(value: String) -> (r: Self)
        ensures
            r@ == value@,
    {
        SchemaVersion(value)
    }

    /// Returns the retained value.
    pub fn as_str(&self) -> (r: &str)
        ensures
            r@ == self@,
    {
        self.0.as_str()
    }

    /// Returns the retained value, giving up this wrapper.
    pub fn into_string(self) -> (r: String)
        ensures
            r@ == self@,
    {
        self.0
    }

    /// Returns a copy holding the same value.
    pub fn duplicate(&self) -> (r: Self)
        ensures
            r@ == self@,
    {
        SchemaVersion(self.0.clone())
    }

    /// Whether two values hold the same text.
    pub fn same_as(&self, other: &Self) -> (r: bool)
        ensures
            r == (self@ == other@),
    {
        self.0 == other.0
    }
}

/// A stable identifier for an append-only organizational annotation.
#[derive(Clone, Debug, Eq, Ord, PartialEq, PartialOrd)]
pub struct AnnotationId(String);

impl View for AnnotationId {
    type V = Seq<char>;

    closed spec fn view(&self) -> Seq<char> {
        self.0@
    }
}

impl AnnotationId {
    /// Creates a value without imposing a format or validation policy.
    pub fn new(value: &str) -> (r: Self)
        ensures
            r@ == value@,
    {
        AnnotationId(value.to_owned())
    }

    /// Creates a value that takes ownership of `value`.
    pub fn from_string(value: String) -> (r: Self)
        ensures
            r@ == value@,
    {
        AnnotationId(value)
    }

    /// Returns the retained value.
    pub fn as_str(&self) -> (r: &str)
        ensures
            r@ == self@,
    {
        self.0.as_str()
    }

    /// Returns the retained value, giving up this wrapper.
    pub fn into_string(self) -> (r: String)
        ensures
            r@ == self@,
    {
        self.0
    }

    /// Returns a copy holding the same value.
    pub fn duplicate(&self) -> (r: Self)
        ensures
            r@ == self@,
    {
        AnnotationId(self.0.clone())
    }

    /// Whether two values hold the same text.
    pub fn same_as(&self, other: &Self) -> (r: bool)
        ensures
            r == (self@ == other@),
    {
        self.0 == other.0
    }
}

/// An opaque organizational field name.
#[derive(Clone, Debug, Eq, Ord, PartialEq, PartialOrd)]
pub struct AnnotationField(String);

impl View for AnnotationField {
    type V = Seq<char>;

    closed spec fn view(&self) -> Seq<char> {
        self.0@
    }
}

impl AnnotationField {
    /// Creates a value without imposing a format or validation policy.
    pub fn new(value: &str) -> (r: Self)
        ensures
            r@ == value@,
    {
        AnnotationField(value.to_owned())
    }

    /// Creates a value that takes ownership of `value`.
    pub fn from_string(value: String) -> (r: Self)
        ensures
            r@ == value@,
    {
        AnnotationField(value)
    }

    /// Returns the retained value.
    pub fn as_str(&self) -> (r: &str)
        ensures
            r@ == self@,
    {
        self.0.as_str()
    }

    /// Returns the retained value, giving up this wrapper.
    pub fn into_string(self) -> (r: String)
        ensures
            r@ == self@,
    {
        self.0
    }

    /// Returns a copy holding the same value.
    pub fn duplicate(&self) -> (r: Self)
        ensures
            r@ == self@,
    {
        AnnotationField(self.0.clone())
    }

    /// Whether two values hold the same text.
    pub fn same_as(&self, other: &Self) -> (r: bool)
        ensures
            r == (self@ == other@),
    {
        self.0 == other.0
    }
}

/// An organizational value that can retain a typed context reference.
#[derive(Clone, Debug, Eq, Ord, PartialEq, PartialOrd)]
pub enum AnnotationValue {
    /// A reference to a future first-class context.
    Context(ContextId),
    /// A value whose domain is intentionally not defined by the core.
    Opaque(String),
}

/// The mathematical content of an [`AnnotationValue`].
pub enum AnnotationValueView {
    /// A context reference, by its identifier text.
    Context(Seq<char>),
    /// An opaque value, by its text.
    Opaque(Seq<char>),
}

impl View for AnnotationValue {
    type V = AnnotationValueView;

    open spec fn view(&self) -> AnnotationValueView {
        match self {
            AnnotationValue::Context(id) => AnnotationValueView::Context(id@),
            AnnotationValue::Opaque(value) => AnnotationValueView::Opaque(value@),
        }
    }
}

impl AnnotationValue {
    /// Creates a value whose domain is intentionally not defined by the core.
    pub fn opaque(value: &str) -> (r: Self)
        ensures
            r@ == AnnotationValueView::Opaque(value@),
    {
        AnnotationValue::Opaque(value.to_owned())
    }

    /// Returns a copy holding the same value.
    pub fn duplicate(&self) -> (r: Self)
        ensures
            r@ == self@,
    {
        match self {
            AnnotationValue::Context(id) => AnnotationValue::Context(id.duplicate()),
            AnnotationValue::Opaque(value) => AnnotationValue::Opaque(value.clone()),
        }
    }
}

/// Nanoseconds in one second.
pub open spec fn nanos_per_second() -> int {
    1_000_000_000
}

/// A point in time relative to the Unix epoch, with nanosecond resolution.
///
/// It holds the time's side of the epoch, the whole seconds of its distance
/// from the epoch and the remaining nanoseconds, as a platform clock reports
/// them. The epoch itself lies on the later side. Only times that a clock
/// counting whole seconds in a signed 64-bit integer can hold are values of
/// this type.
#[derive(Clone, Copy, Debug, Eq, PartialEq, Hash)]
pub struct UnixTime {
    before_epoch: bool,
    seconds: u64,
    nanoseconds: u32,
}

/// The signed distance in nanoseconds from the epoch described by a side,
/// whole seconds and remaining nanoseconds.
pub open spec fn signed_nanos(before_epoch: bool, seconds: u64, nanoseconds: u32) -> int {
    if before_epoch {
        -(seconds * nanos_per_second() + nanoseconds)
    } else {
        seconds * nanos_per_second() + nanoseconds
    }
}

/// Whether a signed nanosecond distance from the epoch lies within the range
/// of a clock that counts whole seconds in a signed 64-bit integer.
pub open spec fn in_clock_range(nanos: int) -> bool {
    -0x8000_0000_0000_0000 * nanos_per_second() <= nanos < 0x8000_0000_0000_0000
        * nanos_per_second()
}

impl View for UnixTime {
    type V = int;

    /// The signed distance in nanoseconds from the Unix epoch.
    closed spec fn view(&self) -> int {
        signed_nanos(self.before_epoch, self.seconds, self.nanoseconds)
    }
}

impl UnixTime {
    #[verifier::type_invariant]
    closed spec fn normalized(&self) -> bool {
        &&& self.nanoseconds < 1_000_000_000
        &&& self.before_epoch ==> (self.seconds > 0 || self.nanoseconds > 0)
        &&& in_clock_range(signed_nanos(self.before_epoch, self.seconds, self.nanoseconds))
    }

    /// The Unix epoch.
    pub fn epoch() -> (r: Self)
        ensures
            r@ == 0,
    {
        UnixTime { before_epoch: false, seconds: 0, nanoseconds: 0 }
    }

    /// The time a signed whole number of seconds from the epoch.
    pub fn from_unix_seconds(seconds: i64) -> (r: Self)
        ensures
            r@ == seconds * nanos_per_second(),
    {
        if seconds >= 0 {
            UnixTime { before_epoch: false, seconds: seconds as u64, nanoseconds: 0 }
        } else {
            let magnitude: u64 = if seconds == i64::MIN {
                0x8000_0000_0000_0000u64
            } else {
                (-seconds) as u64
            };
            UnixTime { before_epoch: true, seconds: magnitude, nanoseconds: 0 }
        }
    }

    /// The time `nanos` nanoseconds from the epoch, when the clock can hold it.
    pub fn from_nanos(nanos: i128) -> (r: Option<Self>)
        ensures
            r is Some <==> in_clock_range(nanos as int),
            r matches Some(t) ==> t@ == nanos,
    {
        if nanos < -0x8000_0000_0000_0000i128 * 1_000_000_000 || nanos >= 0x8000_0000_0000_0000i128
            * 1_000_000_000 {
            return None;
        }
        let magnitude: i128 = if nanos < 0 {
            -nanos
        } else {
            nanos
        };
        let seconds: i128 = magnitude / 1_000_000_000;
        let sub: i128 = magnitude % 1_000_000_000;
        proof {
            assert(seconds * 1_000_000_000 + sub == magnitude) by (nonlinear_arith)
                requires
                    magnitude >= 0,
                    seconds == magnitude / 1_000_000_000,
                    sub == magnitude % 1_000_000_000,
            ;
            assert(seconds <= 0x8000_0000_0000_0000) by (nonlinear_arith)
                requires
                    magnitude <= 0x8000_0000_0000_0000 * 1_000_000_000,
                    seconds == magnitude / 1_000_000_000,
            ;
        }
        if nanos < 0 {
            UnixTime::before_epoch(seconds as u64, sub as u32)
        } else {
            UnixTime::after_epoch(seconds as u64, sub as u32)
        }
    }

    /// The time `seconds` and `nanoseconds` after the epoch, when the
    /// nanoseconds are less than one second and the clock can hold it.
    pub fn after_epoch(seconds: u64, nanoseconds: u32) -> (r: Option<Self>)
        ensures
            r is Some <==> nanoseconds < 1_000_000_000 && in_clock_range(
                signed_nanos(false, seconds, nanoseconds),
            ),
            r matches Some(t) ==> t@ == signed_nanos(false, seconds, nanoseconds),
    {
        if nanoseconds < 1_000_000_000 && seconds < 0x8000_0000_0000_0000u64 {
            Some(UnixTime { before_epoch: false, seconds, nanoseconds })
        } else {
            None
        }
    }

    /// The time `seconds` and `nanoseconds` before the epoch, when the
    /// nanoseconds are less than one second and the clock can hold it.
    pub fn before_epoch(seconds: u64, nanoseconds: u32) -> (r: Option<Self>)
        ensures
            r is Some <==> nanoseconds < 1_000_000_000 && in_clock_range(
                signed_nanos(true, seconds, nanoseconds),
            ),
            r matches Some(t) ==> t@ == signed_nanos(true, seconds, nanoseconds),
    {
        if nanoseconds >= 1_000_000_000 {
            None
        } else if seconds > 0x8000_0000_0000_0000u64 || (seconds == 0x8000_0000_0000_0000u64
            && nanoseconds > 0) {
            None
        } else if seconds == 0 && nanoseconds == 0 {
            Some(UnixTime { before_epoch: false, seconds: 0, nanoseconds: 0 })
        } else {
            Some(UnixTime { before_epoch: true, seconds, nanoseconds })
        }
    }

    /// Whether this time lies strictly before the epoch.
    pub fn is_before_epoch(&self) -> (r: bool)
        ensures
            r == (self@ < 0),
    {
        proof {
            use_type_invariant(self);
        }
        self.before_epoch
    }

    /// The whole seconds of the distance from the epoch.
    pub fn whole_seconds(&self) -> (r: u64)
        ensures
            r == (if self@ < 0 { -self@ } else { self@ }) / nanos_per_second(),
            in_clock_range(self@),
    {
        proof {
            use_type_invariant(self);
        }
        self.seconds
    }

    /// The nanoseconds of the distance from the epoch beyond its whole seconds.
    pub fn subsecond_nanos(&self) -> (r: u32)
        ensures
            r == (if self@ < 0 { -self@ } else { self@ }) % nanos_per_second(),
            r < 1_000_000_000,
    {
        proof {
            use_type_invariant(self);
        }
        self.nanoseconds
    }

    /// Whether this time is strictly earlier than `other`.
    pub fn is_earlier_than(&self, other: &Self) -> (r: bool)
        ensures
            r == (self@ < other@),
    {
        proof {
            use_type_invariant(self);
            use_type_invariant(other);
        }
        if self.before_epoch != other.before_epoch {
            self.before_epoch
        } else if self.before_epoch {
            self.seconds > other.seconds || (self.seconds == other.seconds && self.nanoseconds
                > other.nanoseconds)
        } else {
            self.seconds < other.seconds || (self.seconds == other.seconds && self.nanoseconds
                < other.nanoseconds)
        }
    }

    /// The signed number of nanoseconds from the epoch.
    pub fn as_nanos(&self) -> (r: i128)
        ensures
            r == self@,
            in_clock_range(r as int),
    {
        proof {
            use_type_invariant(self);
        }
        let s: i128 = self.whole_seconds() as i128;
        let ns: i128 = self.subsecond_nanos() as i128;
        let ghost m: int = if self@ < 0 { -self@ } else { self@ };
        proof {
            assert(m == s * 1_000_000_000 + ns) by (nonlinear_arith)
                requires
                    m >= 0,
                    s == m / 1_000_000_000,
                    ns == m % 1_000_000_000,
            ;
            assert(s * 1_000_000_000 <= 0x1_0000_0000_0000_0000 * 1_000_000_000) by (nonlinear_arith)
                requires
                    0 <= s <= 0x1_0000_0000_0000_0000,
            ;
        }
        let magnitude: i128 = s * 1_000_000_000 + ns;
        if self.is_before_epoch() {
            -magnitude
        } else {
            magnitude
        }
    }

    /// Whether this time and `other` are the same instant.
    pub fn same_instant(&self, other: &Self) -> (r: bool)
        ensures
            r == (self@ == other@),
    {
        proof {
            use_type_invariant(self);
            use_type_invariant(other);
        }
        self.before_epoch == other.before_epoch && self.seconds == other.seconds
            && self.nanoseconds == other.nanoseconds
    }
}

/// The time at which the observed fact occurred according to its source.
#[derive(Clone, Copy, Debug, Eq, PartialEq)]
pub struct EventTimestamp(UnixTime);

/// The time at which Schomburg captured the observed fact.
#[derive(Clone, Copy, Debug, Eq, PartialEq)]
pub struct CaptureTimestamp(UnixTime);

/// The time at which an organizational annotation was assigned.
#[derive(Clone, Copy, Debug, Eq, PartialEq)]
pub struct AnnotationTimestamp(UnixTime);

impl View for EventTimestamp {
    type V = int;

    closed spec fn view(&self) -> int {
        self.0@
    }
}

impl View for CaptureTimestamp {
    type V = int;

    closed spec fn view(&self) -> int {
        self.0@
    }
}

impl View for AnnotationTimestamp {
    type V = int;

    closed spec fn view(&self) -> int {
        self.0@
    }
}

impl EventTimestamp {
    /// Creates an event timestamp from a source-provided time.
    pub fn new(value: UnixTime) -> (r: Self)
        ensures
            r@ == value@,
    {
        EventTimestamp(value)
    }

    /// Returns the retained source-provided time.
    pub fn as_system_time(&self) -> (r: UnixTime)
        ensures
            r@ == self@,
    {
        self.0
    }
}

impl CaptureTimestamp {
    /// Creates a capture timestamp.
    pub fn new(value: UnixTime) -> (r: Self)
        ensures
            r@ == value@,
    {
        CaptureTimestamp(value)
    }

    /// Returns the retained capture time.
    pub fn as_system_time(&self) -> (r: UnixTime)
        ensures
            r@ == self@,
    {
        self.0
    }
}

impl AnnotationTimestamp {
    /// Creates an annotation timestamp.
    pub fn new(value: UnixTime) -> (r: Self)
        ensures
            r@ == value@,
    {
        AnnotationTimestamp(value)
    }

    /// Returns the retained assignment time.
    pub fn as_system_time(&self) -> (r: UnixTime)
        ensures
            r@ == self@,
    {
        self.0
    }
}

/// The origin of an organizational annotation.
#[derive(Clone, Copy, Debug, Eq, PartialEq, Structural)]
pub enum AssignmentSource {
    /// Assigned by an automated process.
    Automatic,
    /// Assigned by a person.
    User,
    /// Imported from an external record.
    Imported,
    /// Assigned by Schomburg system behavior.
    System,
}

/// Source-specific metadata of a payload, ordered by key.
#[derive(Clone, Debug, Default, Eq, PartialEq)]
pub struct Metadata {
    entries: TextMap,
}

impl View for Metadata {
    type V = Seq<(Seq<char>, Seq<char>)>;

    closed spec fn view(&self) -> Seq<(Seq<char>, Seq<char>)> {
        self.entries@
    }
}

impl Metadata {
    /// Creates empty metadata.
    pub fn new() -> (r: Self)
        ensures
            r@ == Seq::<(Seq<char>, Seq<char>)>::empty(),
    {
        Metadata { entries: TextMap::new() }
    }

    /// Creates metadata holding the entries of a text map.
    pub fn from_text_map(entries: TextMap) -> (r: Self)
        ensures
            r@ == entries@,
    {
        Metadata { entries }
    }

    /// Returns the entries as a text map.
    pub fn as_text_map(&self) -> (r: &TextMap)
        ensures
            r@ == self@,
    {
        &self.entries
    }

    /// Stores `value` for `key`, returning the value it replaces, if any.
    pub fn insert(&mut self, key: MetadataKey, value: MetadataValue) -> (r: Option<MetadataValue>)
        ensures
            keys_ascending(old(self)@) ==> keys_ascending(final(self)@),
            match r {
                Some(previous) => exists|i: int|
                    0 <= i < old(self)@.len() && old(self)@[i] == (key@, previous@)
                        && final(self)@ == old(self)@.update(i, (key@, value@)),
                None => !has_key(old(self)@, key@) && exists|p: int|
                    0 <= p <= old(self)@.len() && final(self)@ == old(self)@.insert(
                        p,
                        (key@, value@),
                    ),
            },
    {
        let ghost before = self@;
        let ghost k = key@;
        let ghost val = value@;
        let replaced = self.entries.insert(key.into_string(), value.into_string());
        match replaced {
            Some(previous) => {
                let ghost i = choose|i: int|
                    0 <= i < before.len() && before[i] == (k, previous@) && self@ == before.update(
                        i,
                        (k, val),
                    );
                let v = MetadataValue::from_string(previous);
                assert(0 <= i < before.len() && before[i] == (k, v@) && self@ == before.update(
                    i,
                    (k, val),
                ));
                Some(v)
            },
            None => None,
        }
    }

    /// Returns the value stored for `key`, if any.
    pub fn get(&self, key: &str) -> (r: Option<&String>)
        ensures
            match r {
                Some(v) => maps_to(self@, key@, v@),
                None => !has_key(self@, key@),
            },
    {
        self.entries.get(key)
    }

    /// Returns the number of entries.
    pub fn len(&self) -> (r: usize)
        ensures
            r == self@.len(),
    {
        self.entries.len()
    }

    /// Returns the key of the entry at a position in key order.
    pub fn key_at(&self, index: usize) -> (r: &String)
        requires
            index < self@.len(),
        ensures
            r@ == self@[index as int].0,
    {
        self.entries.key_at(index)
    }

    /// Returns the value of the entry at a position in key order.
    pub fn value_at(&self, index: usize) -> (r: &String)
        requires
            index < self@.len(),
        ensures
            r@ == self@[index as int].1,
    {
        self.entries.value_at(index)
    }

    /// Returns a copy with the same entries.
    pub fn duplicate(&self) -> (r: Self)
        ensures
            r@ == self@,
    {
        Metadata { entries: self.entries.duplicate() }
    }
}

/// The mathematical content of a [`Source`].
pub struct SourceView {
    pub connector_id: Seq<char>,
    pub reference: Seq<char>,
}

/// Provenance for an observed event.
#[derive(Clone, Debug, Eq, PartialEq)]
pub struct Source {
    connector_id: ConnectorId,
    reference: SourceReference,
}

impl View for Source {
    type V = SourceView;

    closed spec fn view(&self) -> SourceView {
        SourceView { connector_id: self.connector_id@, reference: self.reference@ }
    }
}

impl Source {
    /// Creates provenance for a source record.
    pub fn new(connector_id: ConnectorId, reference: SourceReference) -> (r: Self)
        ensures
            r@ == (SourceView { connector_id: connector_id@, reference: reference@ }),
    {
        Source { connector_id, reference }
    }

    /// Returns the connector that captured the record.
    pub fn connector_id(&self) -> (r: &ConnectorId)
        ensures
            r@ == self@.connector_id,
    {
        &self.connector_id
    }

    /// Returns the connector-local reference to the source record.
    pub fn reference(&self) -> (r: &SourceReference)
        ensures
            r@ == self@.reference,
    {
        &self.reference
    }

    /// Returns a copy with the same provenance.
    pub fn duplicate(&self) -> (r: Self)
        ensures
            r@ == self@,
    {
        Source { connector_id: self.connector_id.duplicate(), reference: self.reference.duplicate() }
    }
}

/// The mathematical content of an [`EventPayload`].
pub struct PayloadView {
    pub bytes: Seq<u8>,
    pub media_type: Option<Seq<char>>,
    pub metadata: Seq<(Seq<char>, Seq<char>)>,
}

/// Source-provided material retained without assigning it meaning.
#[derive(Clone, Debug, Eq, PartialEq)]
pub struct EventPayload {
    bytes: Vec<u8>,
    media_type: Option<MediaType>,
    metadata: Metadata,
}

/// The view of an optional media type.
pub open spec fn media_type_view(m: Option<MediaType>) -> Option<Seq<char>> {
    match m {
        Some(t) => Some(t@),
        None => None,
    }
}

impl View for EventPayload {
    type V = PayloadView;

    closed spec fn view(&self) -> PayloadView {
        PayloadView {
            bytes: self.bytes@,
            media_type: media_type_view(self.media_type),
            metadata: self.metadata@,
        }
    }
}

impl EventPayload {
    /// Creates source-provided material without interpreting it.
    pub fn new(bytes: Vec<u8>, media_type: Option<MediaType>, metadata: Metadata) -> (r: Self)
        ensures
            r@ == (PayloadView {
                bytes: bytes@,
                media_type: media_type_view(media_type),
                metadata: metadata@,
            }),
    {
        EventPayload { bytes, media_type, metadata }
    }

    /// Returns the retained source bytes.
    pub fn bytes(&self) -> (r: &Vec<u8>)
        ensures
            r@ == self@.bytes,
    {
        &self.bytes
    }

    /// Returns the source-provided media type, if any.
    pub fn media_type(&self) -> (r: Option<&MediaType>)
        ensures
            match r {
                Some(t) => self@.media_type == Some(t@),
                None => self@.media_type is None,
            },
    {
        match &self.media_type {
            Some(t) => Some(t),
            None => None,
        }
    }

    /// Returns the retained source-specific metadata.
    pub fn metadata(&self) -> (r: &Metadata)
        ensures
            r@ == self@.metadata,
    {
        &self.metadata
    }

    /// Returns a copy with the same content.
    pub fn duplicate(&self) -> (r: Self)
        ensures
            r@ == self@,
    {
        let media_type = match &self.media_type {
            Some(t) => Some(t.duplicate()),
            None => None,
        };
        EventPayload { bytes: self.bytes.clone(), media_type, metadata: self.metadata.duplicate() }
    }
}

/// The mathematical content of an [`Event`].
pub struct EventView {
    pub id: Seq<char>,
    pub occurred_at: int,
    pub source: SourceView,
    pub kind: Seq<char>,
    pub payload: PayloadView,
    pub captured_at: int,
    pub schema_version: Seq<char>,
}

/// One immutable evidence record for one observed fact.
#[derive(Clone, Debug, Eq, PartialEq)]
pub struct Event {
    id: EventId,
    occurred_at: EventTimestamp,
    source: Source,
    kind: EventKind,
    payload: EventPayload,
    captured_at: CaptureTimestamp,
    schema_version: SchemaVersion,
}

impl View for Event {
    type V = EventView;

    closed spec fn view(&self) -> EventView {
        EventView {
            id: self.id@,
            occurred_at: self.occurred_at@,
            source: self.source@,
            kind: self.kind@,
            payload: self.payload@,
            captured_at: self.captured_at@,
            schema_version: self.schema_version@,
        }
    }
}

impl Event {
    /// Creates one immutable record of an observed fact.
    pub fn new(
        id: EventId,
        occurred_at: EventTimestamp,
        source: Source,
        kind: EventKind,
        payload: EventPayload,
        captured_at: CaptureTimestamp,
        schema_version: SchemaVersion,
    ) -> (r: Self)
        ensures
            r@ == (EventView {
                id: id@,
                occurred_at: occurred_at@,
                source: source@,
                kind: kind@,
                payload: payload@,
                captured_at: captured_at@,
                schema_version: schema_version@,
            }),
    {
        Event { id, occurred_at, source, kind, payload, captured_at, schema_version }
    }

    /// Returns the stable event identifier.
    pub fn id(&self) -> (r: &EventId)
        ensures
            r@ == self@.id,
    {
        &self.id
    }

    /// Returns the source-provided occurrence time.
    pub fn occurred_at(&self) -> (r: &EventTimestamp)
        ensures
            r@ == self@.occurred_at,
    {
        &self.occurred_at
    }

    /// Returns the provenance of this event.
    pub fn source(&self) -> (r: &Source)
        ensures
            r@ == self@.source,
    {
        &self.source
    }

    /// Returns the uninterpreted event kind.
    pub fn kind(&self) -> (r: &EventKind)
        ensures
            r@ == self@.kind,
    {
        &self.kind
    }

    /// Returns the source-provided payload.
    pub fn payload(&self) -> (r: &EventPayload)
        ensures
            r@ == self@.payload,
    {
        &self.payload
    }

    /// Returns the time at which Schomburg captured the event.
    pub fn captured_at(&self) -> (r: &CaptureTimestamp)
        ensures
            r@ == self@.captured_at,
    {
        &self.captured_at
    }

    /// Returns the schema version used to create the event.
    pub fn schema_version(&self) -> (r: &SchemaVersion)
        ensures
            r@ == self@.schema_version,
    {
        &self.schema_version
    }

    /// Returns a copy with the same content.
    pub fn duplicate(&self) -> (r: Self)
        ensures
            r@ == self@,
    {
        Event {
            id: self.id.duplicate(),
            occurred_at: self.occurred_at,
            source: self.source.duplicate(),
            kind: self.kind.duplicate(),
            payload: self.payload.duplicate(),
            captured_at: self.captured_at,
            schema_version: self.schema_version.duplicate(),
        }
    }
}

/// The mathematical content of an [`Annotation`].
pub struct AnnotationView {
    pub id: Seq<char>,
    pub event_id: Seq<char>,
    pub field: Seq<char>,
    pub value: AnnotationValueView,
    pub source: AssignmentSource,
    pub assigned_at: int,
    pub supersedes: Option<Seq<char>>,
    pub schema_version: Seq<char>,
}

/// One immutable, append-only organizational assignment for an event.
///
/// An annotation does not alter its target event. A later annotation may point
/// to an earlier annotation with `supersedes`; selection of a current value is
/// intentionally outside this domain model.
#[derive(Clone, Debug, Eq, PartialEq)]
pub struct Annotation {
    id: AnnotationId,
    event_id: EventId,
    field: AnnotationField,
    value: AnnotationValue,
    source: AssignmentSource,
    assigned_at: AnnotationTimestamp,
    supersedes: Option<AnnotationId>,
    schema_version: SchemaVersion,
}

/// The view of an optional annotation identifier.
pub open spec fn annotation_id_view(id: Option<AnnotationId>) -> Option<Seq<char>> {
    match id {
        Some(i) => Some(i@),
        None => None,
    }
}

impl View for Annotation {
    type V = AnnotationView;

    closed spec fn view(&self) -> AnnotationView {
        AnnotationView {
            id: self.id@,
            event_id: self.event_id@,
            field: self.field@,
            value: self.value@,
            source: self.source,
            assigned_at: self.assigned_at@,
            supersedes: annotation_id_view(self.supersedes),
            schema_version: self.schema_version@,
        }
    }
}

impl Annotation {
    /// Creates one immutable organizational assignment for an event.
    pub fn new(
        id: AnnotationId,
        event_id: EventId,
        field: AnnotationField,
        value: AnnotationValue,
        source: AssignmentSource,
        assigned_at: AnnotationTimestamp,
        supersedes: Option<AnnotationId>,
        schema_version: SchemaVersion,
    ) -> (r: Self)
        ensures
            r@ == (AnnotationView {
                id: id@,
                event_id: event_id@,
                field: field@,
                value: value@,
                source: source,
                assigned_at: assigned_at@,
                supersedes: annotation_id_view(supersedes),
                schema_version: schema_version@,
            }),
    {
        Annotation { id, event_id, field, value, source, assigned_at, supersedes, schema_version }
    }

    /// Returns the stable annotation identifier.
    pub fn id(&self) -> (r: &AnnotationId)
        ensures
            r@ == self@.id,
    {
        &self.id
    }

    /// Returns the event this annotation organizes.
    pub fn event_id(&self) -> (r: &EventId)
        ensures
            r@ == self@.event_id,
    {
        &self.event_id
    }

    /// Returns the organizational field this annotation assigns.
    pub fn field(&self) -> (r: &AnnotationField)
        ensures
            r@ == self@.field,
    {
        &self.field
    }

    /// Returns the assigned value.
    pub fn value(&self) -> (r: &AnnotationValue)
        ensures
            r@ == self@.value,
    {
        &self.value
    }

    /// Returns who or what made the assignment.
    pub fn source(&self) -> (r: AssignmentSource)
        ensures
            r == self@.source,
    {
        self.source
    }

    /// Returns when the assignment was made.
    pub fn assigned_at(&self) -> (r: &AnnotationTimestamp)
        ensures
            r@ == self@.assigned_at,
    {
        &self.assigned_at
    }

    /// Returns the prior assignment replaced by this one, if any.
    pub fn supersedes(&self) -> (r: Option<&AnnotationId>)
        ensures
            match r {
                Some(id) => self@.supersedes == Some(id@),
                None => self@.supersedes is None,
            },
    {
        match &self.supersedes {
            Some(id) => Some(id),
            None => None,
        }
    }

    /// Returns the schema version used to create this annotation.
    pub fn schema_version(&self) -> (r: &SchemaVersion)
        ensures
            r@ == self@.schema_version,
    {
        &self.schema_version
    }

    /// Returns a copy with the same content.
    pub fn duplicate(&self) -> (r: Self)
        ensures
            r@ == self@,
    {
        let supersedes = match &self.supersedes {
            Some(id) => Some(id.duplicate()),
            None => None,
        };
        Annotation {
            id: self.id.duplicate(),
            event_id: self.event_id.duplicate(),
            field: self.field.duplicate(),
            value: self.value.duplicate(),
            source: self.source,
            assigned_at: self.assigned_at,
            supersedes,
            schema_version: self.schema_version.duplicate(),
        }
    }
}

} // verus!
